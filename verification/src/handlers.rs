//! The four request handlers: each performs one store operation and says
//! which status and body go back to the client.

use crate::item::{Item, ItemView};
use crate::store::{delete_model, get_model, put_model, update_model, Store};
use vstd::prelude::*;

verus! {

/// Status of a response to a successful create.
pub const STATUS_CREATED: u16 = 201;

/// Status of a response to a successful read, update or delete.
pub const STATUS_OK: u16 = 200;

/// Status of a response to a request for an id that the store lacks.
pub const STATUS_NOT_FOUND: u16 = 404;

/// The model of a response body.
pub enum BodyView {
    Text(Seq<char>),
    Record(ItemView),
}

/// The model of a response.
pub struct ResponseView {
    pub status: u16,
    pub body: BodyView,
}

/// What a response carries: a message, or an item.
#[derive(Clone, Debug, PartialEq, Eq)]
pub enum Body {
    Text(String),
    Record(Item),
}

impl View for Body {
    type V = BodyView;

    open spec fn view(&self) -> BodyView {
        match self {
            Body::Text(text) => BodyView::Text(text@),
            Body::Record(item) => BodyView::Record(item@),
        }
    }
}

/// The answer to one request: a status code and a body.
#[derive(Clone, Debug, PartialEq, Eq)]
pub struct Response {
    pub status: u16,
    pub body: Body,
}

impl View for Response {
    type V = ResponseView;

    open spec fn view(&self) -> ResponseView {
        ResponseView { status: self.status, body: self.body@ }
    }
}

/// A response that carries a message.
pub open spec fn message(status: u16, text: Seq<char>) -> ResponseView {
    ResponseView { status: status, body: BodyView::Text(text) }
}

/// The response to every create.
pub open spec fn created() -> ResponseView {
    message(STATUS_CREATED, "Item created"@)
}

/// The response to an update of a present id.
pub open spec fn updated() -> ResponseView {
    message(STATUS_OK, "Item updated"@)
}

/// The response to a delete of a present id.
pub open spec fn deleted() -> ResponseView {
    message(STATUS_OK, "Item deleted"@)
}

/// The response to a read, update or delete of an absent id.
pub open spec fn not_found() -> ResponseView {
    message(STATUS_NOT_FOUND, "Item not found"@)
}

/// The response to a read that found `item`.
pub open spec fn found(item: ItemView) -> ResponseView {
    ResponseView { status: STATUS_OK, body: BodyView::Record(item) }
}

/// The response to a read of `id` from contents `m`.
pub open spec fn read_response(m: Map<u32, ItemView>, id: u32) -> ResponseView {
    match get_model(m, id) {
        Some(item) => found(item),
        None => not_found(),
    }
}

/// The response to an update of `id` on contents `m`.
pub open spec fn update_response(m: Map<u32, ItemView>, id: u32) -> ResponseView {
    if m.contains_key(id) {
        updated()
    } else {
        not_found()
    }
}

/// The response to a delete of `id` on contents `m`.
pub open spec fn delete_response(m: Map<u32, ItemView>, id: u32) -> ResponseView {
    if m.contains_key(id) {
        deleted()
    } else {
        not_found()
    }
}

fn text_response(status: u16, text: &str) -> (response: Response)
    ensures
        response@ == message(status, text@),
{
    Response { status, body: Body::Text(text.to_owned()) }
}

/// Stores `item` under its id, over whatever was there. Always answers "created".
pub fn create_item(store: &mut Store, item: Item) -> (response: Response)
    requires
        old(store).wf(),
    ensures
        final(store).wf(),
        final(store)@ == put_model(old(store)@, item@),
        response@ == created(),
{
    store.put(item);
    text_response(STATUS_CREATED, "Item created")
}

/// Answers with the item at `id`, or "not found". The store is not changed.
pub fn get_item(store: &Store, id: u32) -> (response: Response)
    ensures
        response@ == read_response(store@, id),
{
    match store.get(id) {
        Some(item) => Response { status: STATUS_OK, body: Body::Record(item.duplicate()) },
        None => text_response(STATUS_NOT_FOUND, "Item not found"),
    }
}

/// Replaces name and description of the item at `id` by those of `item`,
/// whose own id is not looked at. Answers "updated", or "not found" where
/// the id is absent, and then the store is as it was.
pub fn update_item(store: &mut Store, id: u32, item: Item) -> (response: Response)
    requires
        old(store).wf(),
    ensures
        final(store).wf(),
        final(store)@ == update_model(old(store)@, id, item@.name, item@.description),
        response@ == update_response(old(store)@, id),
{
    if store.update(id, item.name, item.description) {
        text_response(STATUS_OK, "Item updated")
    } else {
        text_response(STATUS_NOT_FOUND, "Item not found")
    }
}

/// Removes the item at `id`. Answers "deleted", or "not found" where the id
/// is absent.
pub fn delete_item(store: &mut Store, id: u32) -> (response: Response)
    requires
        old(store).wf(),
    ensures
        final(store).wf(),
        final(store)@ == delete_model(old(store)@, id),
        response@ == delete_response(old(store)@, id),
{
    if store.delete(id) {
        text_response(STATUS_OK, "Item deleted")
    } else {
        text_response(STATUS_NOT_FOUND, "Item not found")
    }
}

} // verus!
