//! The store: a map from id to item, in which every item sits under its own id.

use crate::item::{Item, ItemView};
use std::collections::HashMap;
use vstd::prelude::*;

verus! {

broadcast use vstd::std_specs::hash::group_hash_axioms;

/// Every record of `m` is filed under the id that it carries.
pub open spec fn keyed_by_id(m: Map<u32, ItemView>) -> bool {
    forall|k: u32| #[trigger] m.contains_key(k) ==> m[k].id == k
}

/// The record that an update leaves at `id`.
pub open spec fn updated_record(id: u32, name: Seq<char>, description: Seq<char>) -> ItemView {
    ItemView { id: id, name: name, description: description }
}

/// The contents after `item` was put: it stands at its id, whatever stood there before.
pub open spec fn put_model(m: Map<u32, ItemView>, item: ItemView) -> Map<u32, ItemView> {
    m.insert(item.id, item)
}

/// What a lookup of `id` yields: the record there, if there is one.
pub open spec fn get_model(m: Map<u32, ItemView>, id: u32) -> Option<ItemView> {
    if m.contains_key(id) {
        Some(m[id])
    } else {
        None
    }
}

/// The contents after an update of `id`: both texts replaced where the id is
/// present, nothing changed where it is absent.
pub open spec fn update_model(
    m: Map<u32, ItemView>,
    id: u32,
    name: Seq<char>,
    description: Seq<char>,
) -> Map<u32, ItemView> {
    if m.contains_key(id) {
        m.insert(id, updated_record(id, name, description))
    } else {
        m
    }
}

/// The contents after `id` was deleted.
pub open spec fn delete_model(m: Map<u32, ItemView>, id: u32) -> Map<u32, ItemView> {
    m.remove(id)
}

/// The in-memory collection of items. It holds at most one item per id.
pub struct Store {
    items: HashMap<u32, Item>,
}

impl View for Store {
    type V = Map<u32, ItemView>;

    closed spec fn view(&self) -> Map<u32, ItemView> {
        Map::new(|k: u32| self.items@.contains_key(k), |k: u32| self.items@[k]@)
    }
}

impl Store {
    /// The store's invariant: each item is filed under its own id.
    pub open spec fn wf(&self) -> bool {
        keyed_by_id(self@)
    }

    /// An empty store.
    pub fn new() -> (store: Store)
        ensures
            store.wf(),
            store@ == Map::<u32, ItemView>::empty(),
    {
        let store = Store { items: HashMap::new() };
        assert(store@ =~= Map::<u32, ItemView>::empty());
        store
    }

    /// Inserts `item` at its id, replacing what was there.
    pub fn put(&mut self, item: Item)
        requires
            old(self).wf(),
        ensures
            final(self).wf(),
            final(self)@ == put_model(old(self)@, item@),
    {
        let id: u32 = item.id;
        self.items.insert(id, item);
        assert(self@ =~= put_model(old(self)@, item@));
    }

    /// The item at `id`, or `None` where the id is absent. The store is not changed.
    pub fn get(&self, id: u32) -> (found: Option<&Item>)
        ensures
            match found {
                Some(item) => get_model(self@, id) == Some(item@),
                None => get_model(self@, id).is_none(),
            },
    {
        self.items.get(&id)
    }

    /// Replaces name and description of the item at `id` and tells whether
    /// the id was present. The id of the item stays. An absent id leaves the
    /// store as it was.
    pub fn update(&mut self, id: u32, name: String, description: String) -> (present: bool)
        requires
            old(self).wf(),
        ensures
            final(self).wf(),
            present == old(self)@.contains_key(id),
            final(self)@ == update_model(old(self)@, id, name@, description@),
    {
        if self.items.contains_key(&id) {
            self.items.insert(id, Item { id, name, description });
            assert(self@ =~= update_model(old(self)@, id, name@, description@));
            true
        } else {
            assert(self@ =~= update_model(old(self)@, id, name@, description@));
            false
        }
    }

    /// Removes the item at `id` and tells whether the id was present.
    pub fn delete(&mut self, id: u32) -> (present: bool)
        requires
            old(self).wf(),
        ensures
            final(self).wf(),
            present == old(self)@.contains_key(id),
            final(self)@ == delete_model(old(self)@, id),
    {
        let removed = self.items.remove(&id);
        assert(self@ =~= delete_model(old(self)@, id));
        removed.is_some()
    }
}

} // verus!
