//! Permission trees and the roles that own them.

use vstd::prelude::*;
use crate::model::{
    add_forest, item_index, item_names, lemma_first_index_is, merge_forest, merge_item,
    merge_value, merge_values, union_forest, union_item, union_value, union_values, value_index,
    value_names, DataView, ItemView, OptionsView, ValueView,
};
use crate::store::{fresh_object_id, id_or_fresh};
use crate::text::str_eq;
use mongodb::bson::oid::ObjectId;
use mongodb::bson::DateTime;
use vstd::string::StringExecFns;

verus! {

/// The name of the role that a local installation starts with.
pub const LOCAL_ROLE: &'static str = "local-default";

/// A typed leaf datum. `Float` holds the IEEE 754 binary64 bit pattern of the
/// number; the crate stores and copies it and never computes with it.
#[derive(Debug, PartialEq)]
pub enum DataValue {
    String(String),
    Float(u64),
    Integer(i64),
    Boolean(bool),
}

impl View for DataValue {
    type V = DataView;

    open spec fn view(&self) -> DataView {
        match self {
            DataValue::String(s) => DataView::String(s@),
            DataValue::Float(bits) => DataView::Float(*bits),
            DataValue::Integer(n) => DataView::Integer(*n),
            DataValue::Boolean(b) => DataView::Boolean(*b),
        }
    }
}

impl Clone for DataValue {
    fn clone(&self) -> (copy: Self)
        ensures
            copy@ == self@,
    {
        match self {
            DataValue::String(s) => DataValue::String(s.clone()),
            DataValue::Float(bits) => DataValue::Float(*bits),
            DataValue::Integer(n) => DataValue::Integer(*n),
            DataValue::Boolean(b) => DataValue::Boolean(*b),
        }
    }
}

/// Descriptive bounds of a numeric value. Nothing enforces them.
#[derive(Debug, PartialEq)]
pub struct DataOptions {
    pub min_value: DataValue,
    pub max_value: DataValue,
}

impl View for DataOptions {
    type V = OptionsView;

    open spec fn view(&self) -> OptionsView {
        OptionsView { min_value: self.min_value@, max_value: self.max_value@ }
    }
}

impl Clone for DataOptions {
    fn clone(&self) -> (copy: Self)
        ensures
            copy@ == self@,
    {
        DataOptions { min_value: self.min_value.clone(), max_value: self.max_value.clone() }
    }
}

/// The view of optional bounds.
pub open spec fn options_view(options: Option<DataOptions>) -> Option<OptionsView> {
    match options {
        Some(o) => Some(o@),
        None => None,
    }
}

/// A named leaf of a permission tree.
#[derive(Debug, PartialEq)]
pub struct Value {
    pub name: String,
    pub data: DataValue,
    pub options: Option<DataOptions>,
}

impl View for Value {
    type V = ValueView;

    open spec fn view(&self) -> ValueView {
        ValueView { name: self.name@, data: self.data@, options: options_view(self.options) }
    }
}

impl Clone for Value {
    fn clone(&self) -> (copy: Self)
        ensures
            copy@ == self@,
    {
        let options = match &self.options {
            Some(o) => Some(o.clone()),
            None => None,
        };
        Value { name: self.name.clone(), data: self.data.clone(), options }
    }
}

/// The views of a sequence of values, in order.
pub open spec fn values_view(values: Seq<Value>) -> Seq<ValueView> {
    Seq::new(values.len(), |i: int| values[i]@)
}

/// The values of one item, in order.
#[derive(Debug, PartialEq)]
pub struct RoleValues(pub Vec<Value>);

impl Default for RoleValues {
    /// No values.
    fn default() -> (values: Self)
        ensures
            values@ == Seq::<ValueView>::empty(),
    {
        let values = RoleValues(Vec::new());
        assert(values@ =~= Seq::<ValueView>::empty());
        values
    }
}

impl View for RoleValues {
    type V = Seq<ValueView>;

    open spec fn view(&self) -> Seq<ValueView> {
        values_view(self.0@)
    }
}

impl RoleValues {
    /// Whether there is no value.
    pub fn is_empty(&self) -> (empty: bool)
        ensures
            empty == (self@.len() == 0),
    {
        self.0.len() == 0
    }

    /// The values, for reading.
    pub fn inner(&self) -> (values: &Vec<Value>)
        ensures
            *values == self.0,
    {
        &self.0
    }

    /// The values, for writing.
    pub fn inner_mut(&mut self) -> (values: &mut Vec<Value>)
        ensures
            *values == old(self).0,
            final(self).0 == *final(values),
    {
        &mut self.0
    }

    /// Position of the first value called `name`, if there is one.
    fn position(&self, name: &str) -> (at: Option<usize>)
        ensures
            match at {
                Some(i) => i == value_index(self@, name@) && i < self@.len(),
                None => value_index(self@, name@) == self@.len(),
            },
    {
        let mut i: usize = 0;
        while i < self.0.len()
            invariant
                i <= self.0.len(),
                forall|j: int| 0 <= j < i ==> value_names(self@)[j] != name@,
            decreases self.0.len() - i,
        {
            if str_eq(self.0[i].name.as_str(), name) {
                proof {
                    lemma_first_index_is(value_names(self@), name@, i as int);
                }
                return Some(i);
            }
            i += 1;
        }
        proof {
            lemma_first_index_is(value_names(self@), name@, i as int);
        }
        None
    }

    /// The first value called `name`.
    pub fn find(&self, name: &str) -> (found: Option<&Value>)
        ensures
            match found {
                Some(v) => value_index(self@, name@) < self@.len() && *v == self.0@[
                    value_index(self@, name@) as int],
                None => value_index(self@, name@) == self@.len(),
            },
    {
        match self.position(name) {
            Some(i) => Some(&self.0[i]),
            None => None,
        }
    }

    /// The first value called `name`, for writing.
    pub fn find_mut(&mut self, name: &str) -> (found: Option<&mut Value>)
        ensures
            match found {
                Some(v) => {
                    let i = value_index(old(self)@, name@) as int;
                    &&& i < old(self)@.len()
                    &&& *v == old(self).0@[i]
                    &&& final(self).0@ == old(self).0@.update(i, *final(v))
                },
                None => value_index(old(self)@, name@) == old(self)@.len() && *final(self) == *old(
                    self,
                ),
            },
    {
        match self.position(name) {
            Some(i) => Some(&mut self.0[i]),
            None => None,
        }
    }
}

/// A named node of a permission tree: its values and the items below it.
#[derive(Debug, PartialEq)]
pub struct Item {
    pub name: String,
    pub values: RoleValues,
    pub items: RoleItems,
}

/// A permission tree: the items at its top level, in the order given.
#[derive(Debug, PartialEq)]
pub struct RoleItems(Vec<Item>);

impl Default for RoleItems {
    /// The empty tree.
    fn default() -> (tree: Self)
        ensures
            tree@ == Seq::<ItemView>::empty(),
    {
        let tree = RoleItems(Vec::new());
        assert(tree@ =~= Seq::<ItemView>::empty());
        tree
    }
}

/// The views of a sequence of items, in order.
pub open spec fn forest_view(items: Seq<Item>) -> Seq<ItemView>
    decreases items,
{
    Seq::new(
        items.len(),
        |i: int|
            if 0 <= i < items.len() {
                items[i]@
            } else {
                arbitrary()
            },
    )
}

impl View for Item {
    type V = ItemView;

    open spec fn view(&self) -> ItemView
        decreases self,
    {
        ItemView { name: self.name@, values: self.values@, items: self.items@ }
    }
}

impl View for RoleItems {
    type V = Seq<ItemView>;

    closed spec fn view(&self) -> Seq<ItemView>
        decreases self,
    {
        forest_view(self.0@)
    }
}

impl Clone for Item {
    fn clone(&self) -> (copy: Self)
        ensures
            copy@ == self@,
        decreases self,
    {
        Item { name: self.name.clone(), values: self.values.clone(), items: self.items.clone() }
    }
}

impl Clone for RoleValues {
    fn clone(&self) -> (copy: Self)
        ensures
            copy@ == self@,
    {
        let mut values: Vec<Value> = Vec::new();
        let mut i: usize = 0;
        while i < self.0.len()
            invariant
                i <= self.0.len(),
                values@.len() == i,
                forall|k: int| 0 <= k < i ==> values@[k]@ == self.0@[k]@,
            decreases self.0.len() - i,
        {
            values.push(self.0[i].clone());
            i += 1;
        }
        assert(values_view(values@) =~= values_view(self.0@));
        RoleValues(values)
    }
}

impl Clone for RoleItems {
    fn clone(&self) -> (copy: Self)
        ensures
            copy@ == self@,
        decreases self,
    {
        let mut items: Vec<Item> = Vec::new();
        let mut i: usize = 0;
        while i < self.0.len()
            invariant
                i <= self.0.len(),
                items@.len() == i,
                forall|k: int| 0 <= k < i ==> items@[k]@ == self.0@[k]@,
            decreases self.0.len() - i,
        {
            items.push(self.0[i].clone());
            i += 1;
        }
        assert(forest_view(items@) =~= forest_view(self.0@));
        RoleItems(items)
    }
}

/// Position of the first of `items` called `name`, if there is one.
fn item_position(items: &Vec<Item>, name: &str) -> (at: Option<usize>)
    ensures
        match at {
            Some(i) => i == item_index(forest_view(items@), name@) && i < items@.len(),
            None => item_index(forest_view(items@), name@) == items@.len(),
        },
{
    let mut i: usize = 0;
    while i < items.len()
        invariant
            i <= items.len(),
            forall|j: int| 0 <= j < i ==> item_names(forest_view(items@))[j] != name@,
        decreases items.len() - i,
    {
        if str_eq(items[i].name.as_str(), name) {
            proof {
                lemma_first_index_is(item_names(forest_view(items@)), name@, i as int);
            }
            return Some(i);
        }
        i += 1;
    }
    proof {
        lemma_first_index_is(item_names(forest_view(items@)), name@, i as int);
    }
    None
}

/// Replaces every value of `dst` by the value of the same name in `src`,
/// where `src` has one.
fn merge_values_into(src: &RoleValues, dst: &mut RoleValues)
    ensures
        final(dst)@ == merge_values(src@, old(dst)@),
{
    let n = dst.0.len();
    let mut j: usize = 0;
    while j < n
        invariant
            j <= n,
            n == dst.0@.len(),
            n == old(dst).0@.len(),
            forall|k: int| 0 <= k < j ==> dst.0@[k]@ == merge_value(src@, old(dst).0@[k]@),
            forall|k: int| j <= k < n ==> dst.0@[k] == old(dst).0@[k],
        decreases n - j,
    {
        match src.find(dst.0[j].name.as_str()) {
            Some(v) => {
                dst.0[j] = v.clone();
            },
            None => {},
        }
        j += 1;
    }
    assert(dst@ =~= merge_values(src@, old(dst)@));
}

/// The union pass over values: see `union_value`.
fn union_values_into(src: &RoleValues, dst: &mut RoleValues)
    ensures
        final(dst)@ == union_values(src@, old(dst)@, src@.len()),
{
    let mut j: usize = 0;
    while j < src.0.len()
        invariant
            j <= src.0@.len(),
            dst@ == union_values(src@, old(dst)@, j as nat),
        decreases src.0.len() - j,
    {
        let value = &src.0[j];
        let ghost before = dst@;
        match dst.find_mut(value.name.as_str()) {
            Some(t) => match value.data {
                DataValue::Boolean(false) => {},
                _ => {
                    t.data = value.data.clone();
                },
            },
            None => {
                dst.0.push(value.clone());
            },
        }
        assert(dst@ =~= union_value(before, value@));
        j += 1;
    }
}

/// The four grants of an item that may be created, read, updated and
/// deleted.
pub open spec fn crud_values() -> Seq<ValueView> {
    seq![
        ValueView { name: "create"@, data: DataView::Boolean(true), options: None },
        ValueView { name: "read"@, data: DataView::Boolean(true), options: None },
        ValueView { name: "update"@, data: DataView::Boolean(true), options: None },
        ValueView { name: "delete"@, data: DataView::Boolean(true), options: None },
    ]
}

/// An item without children that grants all four.
pub open spec fn crud_item_view(name: Seq<char>) -> ItemView {
    ItemView { name, values: crud_values(), items: Seq::empty() }
}

/// The permission tree of a local installation: everything may be done to
/// users, roles and applications.
pub open spec fn local_tree() -> Seq<ItemView> {
    seq![crud_item_view("users"@), crud_item_view("roles"@), crud_item_view("apps"@)]
}

fn granted(name: &str) -> (value: Value)
    ensures
        value@ == (ValueView { name: name@, data: DataView::Boolean(true), options: None }),
{
    Value { name: String::from_str(name), data: DataValue::Boolean(true), options: None }
}

fn crud_item(name: &str) -> (item: Item)
    ensures
        item@ == crud_item_view(name@),
{
    let mut values: Vec<Value> = Vec::new();
    values.push(granted("create"));
    values.push(granted("read"));
    values.push(granted("update"));
    values.push(granted("delete"));
    let item = Item {
        name: String::from_str(name),
        values: RoleValues(values),
        items: RoleItems::default(),
    };
    assert(item.values@ =~= crud_values());
    item
}

impl RoleItems {
    /// The permission tree of a local installation.
    pub fn local() -> (tree: Self)
        ensures
            tree@ == local_tree(),
    {
        let mut items: Vec<Item> = Vec::new();
        items.push(crud_item("users"));
        items.push(crud_item("roles"));
        items.push(crud_item("apps"));
        assert(forest_view(items@) =~= local_tree());
        Self(items)
    }

    /// The tree with the items `src` at its top level.
    pub fn new(src: Vec<Item>) -> (tree: Self)
        ensures
            tree@ == forest_view(src@),
    {
        Self(src)
    }

    /// Whether the tree has no item.
    pub fn is_empty(&self) -> (empty: bool)
        ensures
            empty == (self@.len() == 0),
    {
        self.0.len() == 0
    }

    /// The items at the top level, for writing.
    pub fn inner_mut(&mut self) -> (items: &mut Vec<Item>)
        ensures
            forest_view(items@) == old(self)@,
            final(self)@ == forest_view(final(items)@),
    {
        &mut self.0
    }

    /// The first top-level item called `name`.
    pub fn find(&self, name: &str) -> (found: Option<&Item>)
        ensures
            match found {
                Some(item) => item_index(self@, name@) < self@.len() && item@ == self@[item_index(
                    self@,
                    name@,
                ) as int],
                None => item_index(self@, name@) == self@.len(),
            },
    {
        match item_position(&self.0, name) {
            Some(i) => Some(&self.0[i]),
            None => None,
        }
    }

    fn merge_items(&self, new: &mut Vec<Item>)
        ensures
            forest_view(final(new)@) == merge_forest(self@, forest_view(old(new)@)),
        decreases self,
    {
        let n = new.len();
        let mut i: usize = 0;
        while i < n
            invariant
                i <= n,
                n == new@.len(),
                n == old(new)@.len(),
                forall|k: int| 0 <= k < i ==> new@[k]@ == merge_item(self@, old(new)@[k]@),
                forall|k: int| i <= k < n ==> new@[k] == old(new)@[k],
            decreases n - i,
        {
            let n_item = &mut new[i];
            match item_position(&self.0, n_item.name.as_str()) {
                Some(at) => {
                    let a_item = &self.0[at];
                    merge_values_into(&a_item.values, &mut n_item.values);
                    a_item.items.merge_items(&mut n_item.items.0);
                },
                None => {},
            }
            i += 1;
        }
        assert(forest_view(new@) =~= merge_forest(self@, forest_view(old(new)@)));
    }

    /// Fills `new` from `self`: every value of `new` that `self` holds under
    /// the same item and value name takes `self`'s value, at every depth. No
    /// item or value is added to `new`, removed from it or reordered.
    pub fn merge(&self, new: &mut RoleItems)
        ensures
            final(new)@ == merge_forest(self@, old(new)@),
    {
        self.merge_items(&mut new.0);
    }

    fn union_items(&self, new: &mut Vec<Item>)
        ensures
            forest_view(final(new)@) == union_forest(
                self@,
                forest_view(old(new)@),
                self@.len(),
            ),
        decreases self, 0nat,
    {
        let mut j: usize = 0;
        while j < self.0.len()
            invariant
                j <= self.0@.len(),
                forest_view(new@) == union_forest(self@, forest_view(old(new)@), j as nat),
            decreases self.0.len() - j,
        {
            let item = &self.0[j];
            let ghost before = forest_view(new@);
            match item_position(new, item.name.as_str()) {
                Some(k) => {
                    let t = &mut new[k];
                    union_values_into(&item.values, &mut t.values);
                    item.items.add_items(&mut t.items.0);
                },
                None => {
                    new.push(item.clone());
                },
            }
            assert(forest_view(new@) =~= union_item(before, item@));
            j += 1;
        }
    }

    fn add_items(&self, new: &mut Vec<Item>)
        ensures
            forest_view(final(new)@) == add_forest(self@, forest_view(old(new)@)),
        decreases self, 1nat,
    {
        self.union_items(new);
        self.merge_items(new);
    }

    /// Unites `self` into `new`. A first pass appends to `new` every item
    /// and value of `self` that `new` lacks and lets every other datum of
    /// `self` but `Boolean(false)` overwrite its namesake; a second pass
    /// merges `self` into the result, as `merge` does.
    pub fn add(&self, new: &mut RoleItems)
        ensures
            final(new)@ == add_forest(self@, old(new)@),
    {
        self.add_items(&mut new.0);
    }
}

/// A named permission tree of one application.
#[derive(Debug, PartialEq)]
pub struct Role {
    pub id: Option<ObjectId>,
    pub app: ObjectId,
    pub name: String,
    pub items: RoleItems,
    pub created_at: Option<DateTime>,
    pub updated_at: Option<DateTime>,
}

/// The mathematical value of a role.
pub struct RoleView {
    pub id: Option<ObjectId>,
    pub app: ObjectId,
    pub name: Seq<char>,
    pub items: Seq<ItemView>,
    pub created_at: Option<DateTime>,
    pub updated_at: Option<DateTime>,
}

impl View for Role {
    type V = RoleView;

    open spec fn view(&self) -> RoleView {
        RoleView {
            id: self.id,
            app: self.app,
            name: self.name@,
            items: self.items@,
            created_at: self.created_at,
            updated_at: self.updated_at,
        }
    }
}

impl Clone for Role {
    fn clone(&self) -> (copy: Self)
        ensures
            copy@ == self@,
    {
        Role {
            id: self.id,
            app: self.app,
            name: self.name.clone(),
            items: self.items.clone(),
            created_at: self.created_at,
            updated_at: self.updated_at,
        }
    }
}

impl Default for Role {
    /// The local role: not stored yet, empty, owned by an application whose
    /// identity is made up.
    fn default() -> (role: Self)
        ensures
            role@.id is None,
            role@.name == LOCAL_ROLE@,
            role@.items == Seq::<ItemView>::empty(),
            role@.created_at is None,
            role@.updated_at is None,
    {
        Role {
            id: None,
            app: fresh_object_id(),
            name: String::from_str(LOCAL_ROLE),
            items: RoleItems::default(),
            created_at: None,
            updated_at: None,
        }
    }
}

impl Role {
    /// The identity of the role; a fresh one while it has none.
    pub fn id(&self) -> (id: ObjectId)
        ensures
            self.id is Some ==> id == self.id->0,
    {
        id_or_fresh(self.id)
    }
}

} // verus!
