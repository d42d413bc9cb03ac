//! What holds of lookup, `merge` and `add` on every tree.

use vstd::prelude::*;
use crate::model::{
    add_forest, find_item, find_value, first_index, item_index, item_names, lemma_first_index,
    lemma_first_index_is, merge_forest, merge_item, merge_value, merge_values, union_forest,
    union_item, union_value, union_values, value_index, value_names, ItemView, ValueView,
};

verus! {

/// No name stands twice.
pub open spec fn distinct(names: Seq<Seq<char>>) -> bool {
    forall|i: int, j: int| 0 <= i < j < names.len() ==> names[i] != names[j]
}

/// The forest keeps the rule of unique names: no two roots share a name, no
/// two values of one item do, and the same holds below every item.
pub open spec fn well_formed(forest: Seq<ItemView>) -> bool
    decreases forest,
{
    &&& distinct(item_names(forest))
    &&& forall|i: int|
        0 <= i < forest.len() ==> {
            &&& distinct(value_names((#[trigger] forest[i]).values))
            &&& well_formed(forest[i].items)
        }
}

/// Two forests have the same shape: the same item names in the same
/// places, under each item the same value names in the same places, and so
/// on downwards. What the values hold does not count.
pub open spec fn same_shape(a: Seq<ItemView>, b: Seq<ItemView>) -> bool
    decreases a,
{
    &&& a.len() == b.len()
    &&& forall|i: int|
        0 <= i < a.len() ==> {
            &&& (#[trigger] a[i]).name == b[i].name
            &&& value_names(a[i].values) == value_names(b[i].values)
            &&& same_shape(a[i].items, b[i].items)
        }
}

/// Lookup returns the first item of the name, and none only where no item
/// has the name; so its answer is well defined even among namesakes.
pub proof fn lemma_find_item_first(forest: Seq<ItemView>, name: Seq<char>)
    ensures
        match find_item(forest, name) {
            Some(item) => {
                let k = item_index(forest, name) as int;
                &&& 0 <= k < forest.len()
                &&& item == forest[k]
                &&& item.name == name
                &&& forall|j: int| 0 <= j < k ==> forest[j].name != name
            },
            None => forall|j: int| 0 <= j < forest.len() ==> forest[j].name != name,
        },
{
    lemma_first_index(item_names(forest), name);
    let k = item_index(forest, name) as int;
    assert forall|j: int| 0 <= j < k && j < forest.len() implies forest[j].name != name by {
        assert(item_names(forest)[j] != name);
    }
    if k < forest.len() {
        assert(item_names(forest)[k] == name);
    }
}

/// Lookup returns the first value of the name, and none only where no value
/// has the name.
pub proof fn lemma_find_value_first(values: Seq<ValueView>, name: Seq<char>)
    ensures
        match find_value(values, name) {
            Some(value) => {
                let k = value_index(values, name) as int;
                &&& 0 <= k < values.len()
                &&& value == values[k]
                &&& value.name == name
                &&& forall|j: int| 0 <= j < k ==> values[j].name != name
            },
            None => forall|j: int| 0 <= j < values.len() ==> values[j].name != name,
        },
{
    lemma_first_index(value_names(values), name);
    let k = value_index(values, name) as int;
    assert forall|j: int| 0 <= j < k && j < values.len() implies values[j].name != name by {
        assert(value_names(values)[j] != name);
    }
    if k < values.len() {
        assert(value_names(values)[k] == name);
    }
}

/// Among roots with unique names, lookup by an item's name finds that item
/// and no other.
pub proof fn lemma_find_item_unique(forest: Seq<ItemView>, i: int)
    requires
        distinct(item_names(forest)),
        0 <= i < forest.len(),
    ensures
        find_item(forest, forest[i].name) == Some(forest[i]),
        item_index(forest, forest[i].name) == i,
{
    let names = item_names(forest);
    assert forall|j: int| 0 <= j < i implies names[j] != forest[i].name by {
        assert(names[i] == forest[i].name);
    }
    assert(names[i] == forest[i].name);
    lemma_first_index_is(names, forest[i].name, i);
}

/// Among values with unique names, lookup by a value's name finds that
/// value and no other.
pub proof fn lemma_find_value_unique(values: Seq<ValueView>, i: int)
    requires
        distinct(value_names(values)),
        0 <= i < values.len(),
    ensures
        find_value(values, values[i].name) == Some(values[i]),
        value_index(values, values[i].name) == i,
{
    let names = value_names(values);
    assert forall|j: int| 0 <= j < i implies names[j] != values[i].name by {
        assert(names[i] == values[i].name);
    }
    assert(names[i] == values[i].name);
    lemma_first_index_is(names, values[i].name, i);
}

/// Every forest has its own shape.
pub proof fn lemma_same_shape_reflexive(a: Seq<ItemView>)
    ensures
        same_shape(a, a),
    decreases a,
{
    assert forall|i: int| 0 <= i < a.len() implies same_shape(
        (#[trigger] a[i]).items,
        a[i].items,
    ) by {
        lemma_same_shape_reflexive(a[i].items);
    }
}

/// A merge keeps the names of the values, place by place.
pub proof fn lemma_merge_values_names(src: Seq<ValueView>, dst: Seq<ValueView>)
    ensures
        merge_values(src, dst).len() == dst.len(),
        value_names(merge_values(src, dst)) == value_names(dst),
{
    let merged = merge_values(src, dst);
    assert forall|j: int| 0 <= j < dst.len() implies merged[j].name == dst[j].name by {
        lemma_find_value_first(src, dst[j].name);
    }
    assert(value_names(merged) =~= value_names(dst));
}

/// `merge` adds nothing and removes nothing: the destination keeps its
/// shape, so at every depth the same number of items and of values under
/// the same names in the same places.
pub proof fn lemma_merge_keeps_shape(src: Seq<ItemView>, dst: Seq<ItemView>)
    ensures
        merge_forest(src, dst).len() == dst.len(),
        item_names(merge_forest(src, dst)) == item_names(dst),
        same_shape(merge_forest(src, dst), dst),
    decreases dst,
{
    let merged = merge_forest(src, dst);
    assert forall|i: int| 0 <= i < dst.len() implies {
        &&& (#[trigger] merged[i]).name == dst[i].name
        &&& value_names(merged[i].values) == value_names(dst[i].values)
        &&& same_shape(merged[i].items, dst[i].items)
    } by {
        match find_item(src, dst[i].name) {
            Some(a) => {
                lemma_merge_values_names(a.values, dst[i].values);
                lemma_merge_keeps_shape(a.items, dst[i].items);
            },
            None => {
                lemma_same_shape_reflexive(dst[i].items);
            },
        }
    }
    assert(item_names(merged) =~= item_names(dst));
}

/// Merging the same source a second time changes nothing.
pub proof fn lemma_merge_idempotent(src: Seq<ItemView>, dst: Seq<ItemView>)
    ensures
        merge_forest(src, merge_forest(src, dst)) == merge_forest(src, dst),
    decreases dst,
{
    let once = merge_forest(src, dst);
    assert forall|i: int| 0 <= i < dst.len() implies merge_item(src, #[trigger] once[i])
        == once[i] by {
        match find_item(src, dst[i].name) {
            Some(a) => {
                let values = merge_values(a.values, dst[i].values);
                assert forall|j: int| 0 <= j < values.len() implies merge_value(
                    a.values,
                    #[trigger] values[j],
                ) == values[j] by {
                    lemma_find_value_first(a.values, dst[i].values[j].name);
                }
                assert(merge_values(a.values, values) =~= values);
                lemma_merge_idempotent(a.items, dst[i].items);
            },
            None => {},
        }
    }
    assert(merge_forest(src, once) =~= once);
}

/// Where the destination already has the shape of a well-formed source,
/// `merge` makes it equal to the source.
pub proof fn lemma_merge_same_shape(src: Seq<ItemView>, dst: Seq<ItemView>)
    requires
        well_formed(src),
        same_shape(src, dst),
    ensures
        merge_forest(src, dst) == src,
    decreases dst,
{
    let merged = merge_forest(src, dst);
    assert forall|i: int| 0 <= i < dst.len() implies #[trigger] merged[i] == src[i] by {
        assert(src[i].name == dst[i].name);
        lemma_find_item_unique(src, i);
        let sv = src[i].values;
        let dv = dst[i].values;
        assert(value_names(sv).len() == value_names(dv).len());
        assert forall|j: int| 0 <= j < dv.len() implies merge_value(sv, #[trigger] dv[j])
            == sv[j] by {
            assert(value_names(sv)[j] == value_names(dv)[j]);
            lemma_find_value_unique(sv, j);
        }
        assert(merge_values(sv, dv) =~= sv);
        lemma_merge_same_shape(src[i].items, dst[i].items);
    }
    assert(merged =~= src);
}

/// One step of the union pass keeps every root of the destination in its
/// place under its name, and appends the source item's name where the
/// destination lacked it.
pub proof fn lemma_union_item_names(dst: Seq<ItemView>, item: ItemView)
    ensures
        item_names(union_item(dst, item)) == if item_index(dst, item.name) < dst.len() {
            item_names(dst)
        } else {
            item_names(dst).push(item.name)
        },
{
    lemma_first_index(item_names(dst), item.name);
    let after = union_item(dst, item);
    if item_index(dst, item.name) < dst.len() {
        assert(item_names(after) =~= item_names(dst));
    } else {
        assert(item_names(after) =~= item_names(dst).push(item.name));
    }
}

/// The union pass over the first `n` source items leaves the destination's
/// roots in place and holds, by name, those and the first `n` of the source.
pub proof fn lemma_union_forest_names(src: Seq<ItemView>, dst: Seq<ItemView>, n: nat)
    requires
        n <= src.len(),
    ensures
        union_forest(src, dst, n).len() >= dst.len(),
        item_names(union_forest(src, dst, n)).take(dst.len() as int) == item_names(dst),
        item_names(union_forest(src, dst, n)).to_set() == item_names(dst).to_set().union(
            item_names(src).take(n as int).to_set(),
        ),
    decreases n,
{
    if n == 0 {
        assert(item_names(dst).take(dst.len() as int) =~= item_names(dst));
        assert(item_names(src).take(0).to_set() =~= Set::<Seq<char>>::empty());
        assert(item_names(dst).to_set().union(Set::<Seq<char>>::empty()) =~= item_names(
            dst,
        ).to_set());
    } else {
        let before = union_forest(src, dst, (n - 1) as nat);
        let item = src[n - 1];
        lemma_union_forest_names(src, dst, (n - 1) as nat);
        lemma_union_item_names(before, item);
        lemma_first_index(item_names(before), item.name);
        let names = item_names(before);
        let after = item_names(union_item(before, item));
        let seen = item_names(src).take(n - 1);
        let now = item_names(src).take(n as int);
        assert(now =~= seen.push(item.name));
        assert(now.to_set() =~= seen.to_set().insert(item.name)) by {
            assert forall|x: Seq<char>| now.to_set().contains(x) <==> seen.to_set().insert(
                item.name,
            ).contains(x) by {
                if now.contains(x) {
                    let k = choose|k: int| 0 <= k < now.len() && now[k] == x;
                    if k < seen.len() {
                        assert(seen[k] == x);
                    }
                }
                if seen.contains(x) {
                    let k = choose|k: int| 0 <= k < seen.len() && seen[k] == x;
                    assert(now[k] == x);
                }
                if x == item.name {
                    assert(now[n - 1] == x);
                }
            }
        }
        if item_index(before, item.name) < before.len() {
            assert(names.contains(item.name)) by {
                assert(names[item_index(before, item.name) as int] == item.name);
            }
            assert(after.to_set() =~= item_names(dst).to_set().union(now.to_set()));
        } else {
            assert(after.take(dst.len() as int) =~= names.take(dst.len() as int));
            assert(after.to_set() =~= names.to_set().insert(item.name)) by {
                assert forall|x: Seq<char>| after.to_set().contains(x) <==> names.to_set().insert(
                    item.name,
                ).contains(x) by {
                    if after.contains(x) {
                        let k = choose|k: int| 0 <= k < after.len() && after[k] == x;
                        if k < names.len() {
                            assert(names[k] == x);
                        }
                    }
                    if names.contains(x) {
                        let k = choose|k: int| 0 <= k < names.len() && names[k] == x;
                        assert(after[k] == x);
                    }
                    if x == item.name {
                        assert(after[names.len() as int] == x);
                    }
                }
            }
            assert(after.to_set() =~= item_names(dst).to_set().union(now.to_set()));
        }
    }
}

/// `add` removes no name and adds only the source's: the roots of the
/// destination stay where they were under their names, and the names of the
/// roots afterwards are those of the destination together with those of the
/// source.
pub proof fn lemma_add_unites_names(src: Seq<ItemView>, dst: Seq<ItemView>)
    ensures
        add_forest(src, dst).len() >= dst.len(),
        item_names(add_forest(src, dst)).take(dst.len() as int) == item_names(dst),
        item_names(add_forest(src, dst)).to_set() == item_names(dst).to_set().union(
            item_names(src).to_set(),
        ),
{
    let united = union_forest(src, dst, src.len());
    lemma_union_forest_names(src, dst, src.len());
    lemma_merge_keeps_shape(src, united);
    assert(item_names(src).take(src.len() as int) =~= item_names(src));
}

/// A name that stands nowhere among distinct names may join them.
pub proof fn lemma_distinct_push(names: Seq<Seq<char>>, name: Seq<char>)
    requires
        distinct(names),
        forall|j: int| 0 <= j < names.len() ==> names[j] != name,
    ensures
        distinct(names.push(name)),
{
    let longer = names.push(name);
    assert forall|i: int, j: int| 0 <= i < j < longer.len() implies longer[i] != longer[j] by {
        if j < names.len() {
            assert(longer[i] == names[i] && longer[j] == names[j]);
        } else {
            assert(longer[i] == names[i]);
        }
    }
}

/// `merge` keeps the rule of unique names in the destination, whatever the
/// source.
pub proof fn lemma_merge_well_formed(src: Seq<ItemView>, dst: Seq<ItemView>)
    requires
        well_formed(dst),
    ensures
        well_formed(merge_forest(src, dst)),
    decreases dst,
{
    let merged = merge_forest(src, dst);
    lemma_merge_keeps_shape(src, dst);
    assert forall|i: int| 0 <= i < merged.len() implies {
        &&& distinct(value_names((#[trigger] merged[i]).values))
        &&& well_formed(merged[i].items)
    } by {
        assert(distinct(value_names(dst[i].values)) && well_formed(dst[i].items));
        match find_item(src, dst[i].name) {
            Some(a) => {
                lemma_merge_values_names(a.values, dst[i].values);
                lemma_merge_well_formed(a.items, dst[i].items);
            },
            None => {},
        }
    }
}

/// The union pass keeps the names of values distinct.
pub proof fn lemma_union_values_distinct(src: Seq<ValueView>, dst: Seq<ValueView>, n: nat)
    requires
        n <= src.len(),
        distinct(value_names(dst)),
    ensures
        distinct(value_names(union_values(src, dst, n))),
    decreases n,
{
    if n > 0 {
        lemma_union_values_distinct(src, dst, (n - 1) as nat);
        let before = union_values(src, dst, (n - 1) as nat);
        let value = src[n - 1];
        let after = union_value(before, value);
        lemma_first_index(value_names(before), value.name);
        if value_index(before, value.name) < before.len() {
            assert(value_names(after) =~= value_names(before));
        } else {
            assert(value_names(after) =~= value_names(before).push(value.name));
            lemma_distinct_push(value_names(before), value.name);
        }
    }
}

/// The union pass keeps the rule of unique names where source and
/// destination keep it.
pub proof fn lemma_union_forest_well_formed(src: Seq<ItemView>, dst: Seq<ItemView>, n: nat)
    requires
        n <= src.len(),
        well_formed(src),
        well_formed(dst),
    ensures
        well_formed(union_forest(src, dst, n)),
    decreases src, 1nat, n,
{
    if n > 0 {
        lemma_union_forest_well_formed(src, dst, (n - 1) as nat);
        let before = union_forest(src, dst, (n - 1) as nat);
        let item = src[n - 1];
        let after = union_item(before, item);
        assert(distinct(value_names(item.values)) && well_formed(item.items));
        lemma_union_item_names(before, item);
        lemma_first_index(item_names(before), item.name);
        let k = item_index(before, item.name) as int;
        if k < before.len() {
            assert(distinct(value_names(before[k].values)) && well_formed(before[k].items));
            lemma_union_values_distinct(item.values, before[k].values, item.values.len());
            lemma_add_well_formed(item.items, before[k].items);
            assert forall|i: int| 0 <= i < after.len() implies {
                &&& distinct(value_names((#[trigger] after[i]).values))
                &&& well_formed(after[i].items)
            } by {
                if i != k {
                    assert(after[i] == before[i]);
                    assert(distinct(value_names(before[i].values)) && well_formed(
                        before[i].items,
                    ));
                }
            }
        } else {
            lemma_distinct_push(item_names(before), item.name);
            assert forall|i: int| 0 <= i < after.len() implies {
                &&& distinct(value_names((#[trigger] after[i]).values))
                &&& well_formed(after[i].items)
            } by {
                if i < before.len() {
                    assert(after[i] == before[i]);
                    assert(distinct(value_names(before[i].values)) && well_formed(
                        before[i].items,
                    ));
                }
            }
        }
    }
}

/// `add` keeps the rule of unique names where source and destination keep
/// it.
pub proof fn lemma_add_well_formed(src: Seq<ItemView>, dst: Seq<ItemView>)
    requires
        well_formed(src),
        well_formed(dst),
    ensures
        well_formed(add_forest(src, dst)),
    decreases src, 2nat, 0nat,
{
    lemma_union_forest_well_formed(src, dst, src.len());
    lemma_merge_well_formed(src, union_forest(src, dst, src.len()));
}

/// Whether the forest holds a value `value_name` under the first root
/// called `item_name`.
pub open spec fn grants(forest: Seq<ItemView>, item_name: Seq<char>, value_name: Seq<char>) -> bool {
    match find_item(forest, item_name) {
        Some(item) => find_value(item.values, value_name) is Some,
        None => false,
    }
}

/// A name that stands at `j` is found at `j` or before.
pub proof fn lemma_first_index_found(names: Seq<Seq<char>>, name: Seq<char>, j: int)
    requires
        0 <= j < names.len(),
        names[j] == name,
    ensures
        first_index(names, name) <= j,
{
    lemma_first_index(names, name);
}

/// A name that is found among `names` is found at the same place among
/// names that go on from them.
pub proof fn lemma_first_index_extends(
    names: Seq<Seq<char>>,
    longer: Seq<Seq<char>>,
    name: Seq<char>,
)
    requires
        names.len() <= longer.len(),
        forall|i: int| 0 <= i < names.len() ==> longer[i] == names[i],
        first_index(names, name) < names.len(),
    ensures
        first_index(longer, name) == first_index(names, name),
{
    lemma_first_index(names, name);
    lemma_first_index_is(longer, name, first_index(names, name) as int);
}

/// One step of the union pass over values keeps every value where it was
/// under its name, and leaves the source value's name among them.
pub proof fn lemma_union_value_names(dst: Seq<ValueView>, value: ValueView, name: Seq<char>)
    ensures
        value_index(dst, name) < dst.len() ==> value_index(union_value(dst, value), name)
            == value_index(dst, name),
        value_index(union_value(dst, value), value.name) < union_value(dst, value).len(),
{
    let after = union_value(dst, value);
    lemma_first_index(value_names(dst), value.name);
    if value_index(dst, value.name) < dst.len() {
        assert(value_names(after) =~= value_names(dst));
    } else {
        assert(value_names(after) =~= value_names(dst).push(value.name));
        lemma_first_index_found(value_names(after), value.name, dst.len() as int);
    }
    if value_index(dst, name) < dst.len() {
        lemma_first_index_extends(value_names(dst), value_names(after), name);
    }
}

/// The union pass over values keeps every value of the destination where
/// it was under its name.
pub proof fn lemma_union_values_keep(
    src: Seq<ValueView>,
    dst: Seq<ValueView>,
    n: nat,
    name: Seq<char>,
)
    requires
        n <= src.len(),
        value_index(dst, name) < dst.len(),
    ensures
        value_index(union_values(src, dst, n), name) == value_index(dst, name),
        value_index(dst, name) < union_values(src, dst, n).len(),
    decreases n,
{
    if n > 0 {
        lemma_union_values_keep(src, dst, (n - 1) as nat, name);
        lemma_union_value_names(union_values(src, dst, (n - 1) as nat), src[n - 1], name);
    }
}

/// After the union pass has seen a source value, the destination holds a
/// value of its name.
pub proof fn lemma_union_values_have(src: Seq<ValueView>, dst: Seq<ValueView>, n: nat, j: int)
    requires
        0 <= j < n <= src.len(),
    ensures
        value_index(union_values(src, dst, n), src[j].name) < union_values(src, dst, n).len(),
    decreases n,
{
    let before = union_values(src, dst, (n - 1) as nat);
    if j < n - 1 {
        lemma_union_values_have(src, dst, (n - 1) as nat, j);
    }
    lemma_union_value_names(before, src[n - 1], src[j].name);
}

/// One step of the union pass keeps what the destination grants.
pub proof fn lemma_union_item_keeps(
    dst: Seq<ItemView>,
    item: ItemView,
    item_name: Seq<char>,
    value_name: Seq<char>,
)
    requires
        grants(dst, item_name, value_name),
    ensures
        grants(union_item(dst, item), item_name, value_name),
{
    let after = union_item(dst, item);
    lemma_union_item_names(dst, item);
    lemma_first_index(item_names(dst), item.name);
    lemma_first_index(item_names(dst), item_name);
    lemma_first_index_extends(item_names(dst), item_names(after), item_name);
    let k = item_index(dst, item_name) as int;
    if item_index(dst, item.name) == k {
        lemma_union_values_keep(item.values, dst[k].values, item.values.len(), value_name);
    }
}

/// After a step of the union pass the destination grants every value of
/// the source item under the item's name.
pub proof fn lemma_union_item_has(dst: Seq<ItemView>, item: ItemView, j: int)
    requires
        0 <= j < item.values.len(),
    ensures
        grants(union_item(dst, item), item.name, item.values[j].name),
{
    let after = union_item(dst, item);
    lemma_union_item_names(dst, item);
    lemma_first_index(item_names(dst), item.name);
    let k = item_index(dst, item.name) as int;
    if k < dst.len() {
        lemma_first_index_extends(item_names(dst), item_names(after), item.name);
        lemma_union_values_have(item.values, dst[k].values, item.values.len(), j);
    } else {
        lemma_first_index_is(item_names(after), item.name, dst.len() as int);
        assert(after[dst.len() as int] == item);
        assert(value_names(item.values)[j] == item.values[j].name);
        lemma_first_index_found(value_names(item.values), item.values[j].name, j);
    }
}

/// After the union pass has seen a source item, the destination grants
/// every value of that item under the item's name.
pub proof fn lemma_union_forest_has(
    src: Seq<ItemView>,
    dst: Seq<ItemView>,
    n: nat,
    i: int,
    j: int,
)
    requires
        0 <= i < n <= src.len(),
        0 <= j < src[i].values.len(),
    ensures
        grants(union_forest(src, dst, n), src[i].name, src[i].values[j].name),
    decreases n,
{
    let before = union_forest(src, dst, (n - 1) as nat);
    if i < n - 1 {
        lemma_union_forest_has(src, dst, (n - 1) as nat, i, j);
        lemma_union_item_keeps(before, src[n - 1], src[i].name, src[i].values[j].name);
    } else {
        lemma_union_item_has(before, src[i], j);
    }
}

/// After `add`, the destination answers every lookup of an item and a value
/// by name that the source answers, and with the source's value: whether
/// the destination held a value of that name before, and whatever it held.
pub proof fn lemma_add_carries_source(
    src: Seq<ItemView>,
    dst: Seq<ItemView>,
    item_name: Seq<char>,
    value_name: Seq<char>,
)
    requires
        grants(src, item_name, value_name),
    ensures
        find_item(add_forest(src, dst), item_name) is Some,
        find_value(find_item(add_forest(src, dst), item_name)->0.values, value_name)
            == find_value(find_item(src, item_name)->0.values, value_name),
{
    let a = find_item(src, item_name)->0;
    let i = item_index(src, item_name) as int;
    let j = value_index(a.values, value_name) as int;
    lemma_find_item_first(src, item_name);
    lemma_find_value_first(a.values, value_name);
    let united = union_forest(src, dst, src.len());
    lemma_union_forest_has(src, dst, src.len(), i, j);
    let merged = merge_forest(src, united);
    lemma_merge_keeps_shape(src, united);
    let k = item_index(united, item_name) as int;
    lemma_find_item_first(united, item_name);
    lemma_merge_values_names(a.values, united[k].values);
    lemma_find_value_first(united[k].values, value_name);
    let at = value_index(united[k].values, value_name) as int;
    assert(merged[k].values[at] == merge_value(a.values, united[k].values[at]));
}

} // verus!
