//! The item record and its mathematical model.

use vstd::prelude::*;

verus! {

/// The model of an item: its key and its two texts as sequences of characters.
pub struct ItemView {
    pub id: u32,
    pub name: Seq<char>,
    pub description: Seq<char>,
}

/// The single record type of the store.
#[derive(Clone, Debug, PartialEq, Eq)]
pub struct Item {
    pub id: u32,
    pub name: String,
    pub description: String,
}

impl View for Item {
    type V = ItemView;

    open spec fn view(&self) -> ItemView {
        ItemView { id: self.id, name: self.name@, description: self.description@ }
    }
}

impl Item {
    /// Builds an item from its three fields.
    pub fn new(id: u32, name: String, description: String) -> (item: Item)
        ensures
            item@ == (ItemView { id: id, name: name@, description: description@ }),
    {
        Item { id, name, description }
    }

    /// A copy of the item, field for field.
    pub fn duplicate(&self) -> (copy: Item)
        ensures
            copy@ == self@,
    {
        Item { id: self.id, name: self.name.clone(), description: self.description.clone() }
    }
}

} // verus!
