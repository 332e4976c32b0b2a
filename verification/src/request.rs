//! Decoded requests, and the one step that serves a request on a store.

use crate::handlers::{
    create_item, created, delete_item, delete_response, get_item, read_response, update_item,
    update_response, Response, ResponseView,
};
use crate::item::{Item, ItemView};
use crate::store::{delete_model, put_model, update_model, Store};
use vstd::prelude::*;

verus! {

/// The model of a request.
pub enum RequestView {
    Create(ItemView),
    Read(u32),
    Update(u32, ItemView),
    Delete(u32),
}

/// A request after decoding: the operation and what it came with.
#[derive(Clone, Debug, PartialEq, Eq)]
pub enum Request {
    /// Store the item under its id.
    Create(Item),
    /// Fetch the item at the id.
    Read(u32),
    /// Replace the texts of the item at the id by those of the given item.
    Update(u32, Item),
    /// Remove the item at the id.
    Delete(u32),
}

impl View for Request {
    type V = RequestView;

    open spec fn view(&self) -> RequestView {
        match self {
            Request::Create(item) => RequestView::Create(item@),
            Request::Read(id) => RequestView::Read(*id),
            Request::Update(id, item) => RequestView::Update(*id, item@),
            Request::Delete(id) => RequestView::Delete(*id),
        }
    }
}

/// The contents of the store after `request` was served on contents `m`.
pub open spec fn contents_after(m: Map<u32, ItemView>, request: RequestView) -> Map<u32, ItemView> {
    match request {
        RequestView::Create(item) => put_model(m, item),
        RequestView::Read(_) => m,
        RequestView::Update(id, item) => update_model(m, id, item.name, item.description),
        RequestView::Delete(id) => delete_model(m, id),
    }
}

/// The response to `request` served on contents `m`.
pub open spec fn response_to(m: Map<u32, ItemView>, request: RequestView) -> ResponseView {
    match request {
        RequestView::Create(_) => created(),
        RequestView::Read(id) => read_response(m, id),
        RequestView::Update(id, _) => update_response(m, id),
        RequestView::Delete(id) => delete_response(m, id),
    }
}

/// The contents after the requests of `requests` were served one after
/// another, the first of them on contents `m`.
pub open spec fn contents_after_all(m: Map<u32, ItemView>, requests: Seq<RequestView>) -> Map<
    u32,
    ItemView,
>
    decreases requests.len(),
{
    if requests.len() == 0 {
        m
    } else {
        contents_after(contents_after_all(m, requests.drop_last()), requests.last())
    }
}

/// Serves one request: performs its operation on the store and gives the response.
pub fn handle(store: &mut Store, request: Request) -> (response: Response)
    requires
        old(store).wf(),
    ensures
        final(store).wf(),
        final(store)@ == contents_after(old(store)@, request@),
        response@ == response_to(old(store)@, request@),
{
    match request {
        Request::Create(item) => create_item(store, item),
        Request::Read(id) => get_item(store, id),
        Request::Update(id, item) => update_item(store, id, item),
        Request::Delete(id) => delete_item(store, id),
    }
}

} // verus!
