//! The mathematical model of a permission tree and of the operations on it.
//!
//! Every executable type of the crate has a view in this module, and every
//! contract is stated over these views.

use vstd::prelude::*;

verus! {

/// A leaf datum. A float is carried as its IEEE 754 binary64 bit pattern.
pub enum DataView {
    String(Seq<char>),
    Float(u64),
    Integer(i64),
    Boolean(bool),
}

/// Descriptive bounds carried next to a datum.
pub struct OptionsView {
    pub min_value: DataView,
    pub max_value: DataView,
}

/// A named leaf of the tree.
pub struct ValueView {
    pub name: Seq<char>,
    pub data: DataView,
    pub options: Option<OptionsView>,
}

/// A named node of the tree: its leaves and its children, both in order.
pub struct ItemView {
    pub name: Seq<char>,
    pub values: Seq<ValueView>,
    pub items: Seq<ItemView>,
}

/// Position of the first entry of `names` equal to `name`; `names.len()` when
/// no entry is.
pub open spec fn first_index(names: Seq<Seq<char>>, name: Seq<char>) -> nat
    decreases names.len(),
{
    if names.len() == 0 || names.first() == name {
        0
    } else {
        1 + first_index(names.drop_first(), name)
    }
}

/// The names of a sequence of values, in order.
pub open spec fn value_names(values: Seq<ValueView>) -> Seq<Seq<char>> {
    Seq::new(values.len(), |i: int| values[i].name)
}

/// The names of a forest's roots, in order.
pub open spec fn item_names(forest: Seq<ItemView>) -> Seq<Seq<char>> {
    Seq::new(forest.len(), |i: int| forest[i].name)
}

/// Position of the first value called `name`, or `values.len()`.
pub open spec fn value_index(values: Seq<ValueView>, name: Seq<char>) -> nat {
    first_index(value_names(values), name)
}

/// Position of the first root called `name`, or `forest.len()`.
pub open spec fn item_index(forest: Seq<ItemView>, name: Seq<char>) -> nat {
    first_index(item_names(forest), name)
}

/// The first value called `name`.
pub open spec fn find_value(values: Seq<ValueView>, name: Seq<char>) -> Option<ValueView> {
    let i = value_index(values, name);
    if i < values.len() {
        Some(values[i as int])
    } else {
        None
    }
}

/// The first root called `name`.
pub open spec fn find_item(forest: Seq<ItemView>, name: Seq<char>) -> Option<ItemView> {
    let i = item_index(forest, name);
    if i < forest.len() {
        Some(forest[i as int])
    } else {
        None
    }
}

/// One value of the destination after a merge: the source's value of the
/// same name where there is one, the value itself where there is none.
pub open spec fn merge_value(src: Seq<ValueView>, value: ValueView) -> ValueView {
    match find_value(src, value.name) {
        Some(v) => v,
        None => value,
    }
}

/// The destination's values after a merge: each one replaced by the source's
/// value of the same name, where the source has one.
pub open spec fn merge_values(src: Seq<ValueView>, dst: Seq<ValueView>) -> Seq<ValueView> {
    Seq::new(dst.len(), |j: int| merge_value(src, dst[j]))
}

/// One item of the destination after a merge. An item that the source also
/// names takes the source's values by name and merges its children with the
/// source item's children; any other item stays as it is.
pub open spec fn merge_item(src: Seq<ItemView>, item: ItemView) -> ItemView
    decreases item,
{
    match find_item(src, item.name) {
        Some(a) => ItemView {
            name: item.name,
            values: merge_values(a.values, item.values),
            items: merge_forest(a.items, item.items),
        },
        None => item,
    }
}

/// The destination forest after `merge`: every root merged on its own, none
/// added, none removed, none reordered.
pub open spec fn merge_forest(src: Seq<ItemView>, dst: Seq<ItemView>) -> Seq<ItemView>
    decreases dst,
{
    Seq::new(
        dst.len(),
        |i: int|
            if 0 <= i < dst.len() {
                merge_item(src, dst[i])
            } else {
                arbitrary()
            },
    )
}

/// The destination's values after the union pass has seen one source value.
/// A value of that name takes the source's datum unless that datum is
/// `Boolean(false)`; without such a value the source's value is appended.
pub open spec fn union_value(dst: Seq<ValueView>, value: ValueView) -> Seq<ValueView> {
    let j = value_index(dst, value.name) as int;
    if j < dst.len() {
        if value.data == DataView::Boolean(false) {
            dst
        } else {
            dst.update(j, ValueView { name: dst[j].name, data: value.data, options: dst[j].options })
        }
    } else {
        dst.push(value)
    }
}

/// The destination's values after the union pass has seen the first `n`
/// source values, in order.
pub open spec fn union_values(src: Seq<ValueView>, dst: Seq<ValueView>, n: nat) -> Seq<ValueView>
    decreases n,
{
    if n == 0 || n > src.len() {
        dst
    } else {
        union_value(union_values(src, dst, (n - 1) as nat), src[n - 1])
    }
}

/// The destination forest after the union pass has seen one source item. An
/// item of that name takes the union of the values and the `add` of the
/// children; without such an item the source item is appended whole.
pub open spec fn union_item(dst: Seq<ItemView>, item: ItemView) -> Seq<ItemView>
    decreases item, 0nat,
{
    let k = item_index(dst, item.name) as int;
    if k < dst.len() {
        dst.update(
            k,
            ItemView {
                name: dst[k].name,
                values: union_values(item.values, dst[k].values, item.values.len()),
                items: add_forest(item.items, dst[k].items),
            },
        )
    } else {
        dst.push(item)
    }
}

/// The destination forest after the union pass has seen the first `n` source
/// items, in order.
pub open spec fn union_forest(src: Seq<ItemView>, dst: Seq<ItemView>, n: nat) -> Seq<ItemView>
    decreases src, 1nat, n,
{
    if n == 0 || n > src.len() {
        dst
    } else {
        union_item(union_forest(src, dst, (n - 1) as nat), src[n - 1])
    }
}

/// The destination forest after `add`: the union pass over the whole source,
/// then a merge of the source into what the pass left.
pub open spec fn add_forest(src: Seq<ItemView>, dst: Seq<ItemView>) -> Seq<ItemView>
    decreases src, 2nat, 0nat,
{
    merge_forest(src, union_forest(src, dst, src.len()))
}

/// `first_index` is at most the length, names the sought entry when it is
/// less, and no earlier entry does.
pub proof fn lemma_first_index(names: Seq<Seq<char>>, name: Seq<char>)
    ensures
        first_index(names, name) <= names.len(),
        first_index(names, name) < names.len() ==> names[first_index(names, name) as int] == name,
        forall|j: int| 0 <= j < first_index(names, name) ==> names[j] != name,
    decreases names.len(),
{
    if names.len() == 0 || names.first() == name {
    } else {
        let rest = names.drop_first();
        lemma_first_index(rest, name);
        let k = first_index(rest, name);
        assert forall|j: int| 0 <= j < first_index(names, name) implies names[j] != name by {
            if j > 0 {
                assert(names[j] == rest[j - 1]);
            }
        }
        if k < rest.len() {
            assert(names[k as int + 1] == rest[k as int]);
        }
    }
}

/// An index at which `name` stands and before which it does not is the
/// `first_index`; so is the length when `name` stands nowhere.
pub proof fn lemma_first_index_is(names: Seq<Seq<char>>, name: Seq<char>, i: int)
    requires
        0 <= i <= names.len(),
        forall|j: int| 0 <= j < i ==> names[j] != name,
        i < names.len() ==> names[i] == name,
    ensures
        first_index(names, name) == i,
{
    lemma_first_index(names, name);
    let k = first_index(names, name) as int;
    if k < i {
        assert(names[k] != name);
    } else if i < k {
        assert(names[i] == name);
    }
}

} // verus!
