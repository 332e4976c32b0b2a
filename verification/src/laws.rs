//! What holds of the store's operations taken together.

use crate::handlers::{
    delete_response, deleted, found, not_found, read_response, update_response, updated,
};
use crate::item::ItemView;
use crate::request::{contents_after, contents_after_all, RequestView};
use crate::store::{
    delete_model, get_model, keyed_by_id, put_model, update_model, updated_record,
};
use vstd::prelude::*;

verus! {

/// Serving a request keeps the store's invariant: afterwards each record
/// still stands under the id that it carries.
pub proof fn lemma_requests_keep_invariant(m: Map<u32, ItemView>, request: RequestView)
    requires
        keyed_by_id(m),
    ensures
        keyed_by_id(contents_after(m, request)),
{
}

/// A read that follows the create of an item yields that item, whatever the
/// store held before.
pub proof fn lemma_read_after_create(m: Map<u32, ItemView>, item: ItemView)
    ensures
        get_model(put_model(m, item), item.id) == Some(item),
        read_response(put_model(m, item), item.id) == found(item),
{
}

/// A read of an id that the store lacks answers "not found".
pub proof fn lemma_read_absent(m: Map<u32, ItemView>, id: u32)
    requires
        !m.contains_key(id),
    ensures
        get_model(m, id).is_none(),
        read_response(m, id) == not_found(),
{
}

/// No request is a create of an item with this id.
pub open spec fn never_created(requests: Seq<RequestView>, id: u32) -> bool {
    forall|j: int|
        0 <= j < requests.len() ==> match #[trigger] requests[j] {
            RequestView::Create(item) => item.id != id,
            _ => true,
        }
}

/// Starting from the empty store, an id that no request has created is
/// absent after all of them, and a read of it answers "not found".
pub proof fn lemma_read_never_created(requests: Seq<RequestView>, id: u32)
    requires
        never_created(requests, id),
    ensures
        !contents_after_all(Map::empty(), requests).contains_key(id),
        read_response(contents_after_all(Map::empty(), requests), id) == not_found(),
    decreases requests.len(),
{
    if requests.len() > 0 {
        let earlier = requests.drop_last();
        assert forall|j: int| 0 <= j < earlier.len() implies match #[trigger] earlier[j] {
            RequestView::Create(item) => item.id != id,
            _ => true,
        } by {
            assert(earlier[j] == requests[j]);
        }
        lemma_read_never_created(earlier, id);
        assert(requests.last() == requests[requests.len() - 1]);
    }
}

/// An update of a present id answers "updated"; the record at the id then
/// carries the same id and the two new texts, a read yields it, and every
/// other id holds what it held.
pub proof fn lemma_update_present(
    m: Map<u32, ItemView>,
    id: u32,
    name: Seq<char>,
    description: Seq<char>,
)
    requires
        keyed_by_id(m),
        m.contains_key(id),
    ensures
        update_response(m, id) == updated(),
        update_model(m, id, name, description).dom() == m.dom(),
        update_model(m, id, name, description)[id].id == m[id].id,
        update_model(m, id, name, description)[id].name == name,
        update_model(m, id, name, description)[id].description == description,
        read_response(update_model(m, id, name, description), id) == found(
            updated_record(id, name, description),
        ),
        forall|other: u32|
            other != id && m.contains_key(other) ==> update_model(m, id, name, description)[other]
                == #[trigger] m[other],
{
    assert(update_model(m, id, name, description).dom() =~= m.dom());
}

/// An update of an absent id answers "not found" and leaves the store as it was.
pub proof fn lemma_update_absent(
    m: Map<u32, ItemView>,
    id: u32,
    name: Seq<char>,
    description: Seq<char>,
)
    requires
        !m.contains_key(id),
    ensures
        update_response(m, id) == not_found(),
        update_model(m, id, name, description) == m,
{
}

/// A delete of a present id answers "deleted" and removes the record: a read
/// that follows answers "not found", and every other id holds what it held.
pub proof fn lemma_delete_present(m: Map<u32, ItemView>, id: u32)
    requires
        m.contains_key(id),
    ensures
        delete_response(m, id) == deleted(),
        !delete_model(m, id).contains_key(id),
        read_response(delete_model(m, id), id) == not_found(),
        forall|other: u32|
            other != id ==> get_model(delete_model(m, id), other) == #[trigger] get_model(
                m,
                other,
            ),
{
}

/// A delete of an id that is absent, because it was deleted or because it
/// never was created, answers "not found" and leaves the store as it was.
pub proof fn lemma_delete_absent(m: Map<u32, ItemView>, id: u32)
    requires
        !m.contains_key(id),
    ensures
        delete_response(m, id) == not_found(),
        delete_model(m, id) == m,
{
    assert(delete_model(m, id) =~= m);
}

/// The contents after `count` deletes of `id` in a row.
pub open spec fn delete_repeatedly(m: Map<u32, ItemView>, id: u32, count: nat) -> Map<
    u32,
    ItemView,
>
    decreases count,
{
    if count == 0 {
        m
    } else {
        delete_model(delete_repeatedly(m, id, (count - 1) as nat), id)
    }
}

/// Once an id was deleted, every further delete of it answers "not found"
/// and changes nothing, however often it is repeated.
pub proof fn lemma_delete_again(m: Map<u32, ItemView>, id: u32, count: nat)
    requires
        count >= 1,
    ensures
        delete_repeatedly(m, id, count) == delete_model(m, id),
        delete_response(delete_repeatedly(m, id, count), id) == not_found(),
    decreases count,
{
    if count > 1 {
        lemma_delete_again(m, id, (count - 1) as nat);
        lemma_delete_absent(delete_model(m, id), id);
    } else {
        assert(delete_repeatedly(m, id, 0) == m);
    }
}

/// The contents after the items of `items` were put one after another, the
/// first of them into contents `m`.
pub open spec fn put_all(m: Map<u32, ItemView>, items: Seq<ItemView>) -> Map<u32, ItemView>
    decreases items.len(),
{
    if items.len() == 0 {
        m
    } else {
        put_model(put_all(m, items.drop_last()), items.last())
    }
}

/// No two items of the sequence carry the same id.
pub open spec fn distinct_ids(items: Seq<ItemView>) -> bool {
    forall|i: int, j: int|
        0 <= i < items.len() && 0 <= j < items.len() && i != j ==> (#[trigger] items[i]).id != (
        #[trigger] items[j]).id
}

/// Some item of the sequence carries `id`.
pub open spec fn has_id(items: Seq<ItemView>, id: u32) -> bool {
    exists|j: int| 0 <= j < items.len() && (#[trigger] items[j]).id == id
}

proof fn lemma_put_all_contents(m: Map<u32, ItemView>, items: Seq<ItemView>)
    ensures
        forall|k: u32|
            #[trigger] put_all(m, items).contains_key(k) <==> m.contains_key(k) || has_id(
                items,
                k,
            ),
        forall|k: u32|
            m.contains_key(k) && !has_id(items, k) ==> #[trigger] put_all(m, items)[k] == m[k],
        distinct_ids(items) ==> forall|j: int|
            0 <= j < items.len() ==> put_all(m, items)[(#[trigger] items[j]).id] == items[j],
    decreases items.len(),
{
    if items.len() > 0 {
        let earlier = items.drop_last();
        let last = items.last();
        lemma_put_all_contents(m, earlier);
        assert(items[items.len() - 1] == last);
        assert(put_all(m, items) == put_model(put_all(m, earlier), last));
        assert forall|k: u32| #[trigger] has_id(items, k) <==> has_id(earlier, k) || last.id == k by {
            if has_id(earlier, k) {
                let j = choose|j: int| 0 <= j < earlier.len() && (#[trigger] earlier[j]).id == k;
                assert(items[j] == earlier[j]);
            }
            if has_id(items, k) && last.id != k {
                let j = choose|j: int| 0 <= j < items.len() && (#[trigger] items[j]).id == k;
                assert(earlier[j] == items[j]);
            }
        }
        if distinct_ids(items) {
            assert forall|i: int, j: int|
                0 <= i < earlier.len() && 0 <= j < earlier.len() && i != j implies (
            #[trigger] earlier[i]).id != (#[trigger] earlier[j]).id by {
                assert(earlier[i] == items[i]);
                assert(earlier[j] == items[j]);
            }
            assert forall|j: int| 0 <= j < items.len() implies put_all(m, items)[(
            #[trigger] items[j]).id] == items[j] by {
                if j < earlier.len() {
                    assert(earlier[j] == items[j]);
                    assert(items[j].id != items[items.len() - 1].id);
                }
            }
        }
    }
}

/// After items with distinct ids were created one after another, in the
/// order of the sequence, a read of each of their ids yields that item: none
/// was lost. An id that none of them carries holds what it held before.
pub proof fn lemma_all_created_are_read(m: Map<u32, ItemView>, items: Seq<ItemView>)
    requires
        distinct_ids(items),
    ensures
        forall|j: int|
            0 <= j < items.len() ==> read_response(put_all(m, items), (#[trigger] items[j]).id)
                == found(items[j]),
        forall|k: u32|
            !has_id(items, k) ==> #[trigger] get_model(put_all(m, items), k) == get_model(m, k),
{
    lemma_put_all_contents(m, items);
}

proof fn lemma_rearranged_ids_distinct(a: Seq<ItemView>, b: Seq<ItemView>)
    requires
        distinct_ids(a),
        a.to_multiset() == b.to_multiset(),
    ensures
        distinct_ids(b),
        forall|x: ItemView| a.contains(x) <==> b.contains(x),
{
    a.to_multiset_ensures();
    b.to_multiset_ensures();
    assert(a.no_duplicates());
    a.lemma_multiset_has_no_duplicates();
    b.lemma_multiset_has_no_duplicates_conv();
    assert forall|x: ItemView| a.contains(x) <==> b.contains(x) by {
        assert(a.contains(x) <==> a.to_multiset().count(x) > 0);
        assert(b.contains(x) <==> b.to_multiset().count(x) > 0);
    }
    assert forall|i: int, j: int|
        0 <= i < b.len() && 0 <= j < b.len() && i != j implies (#[trigger] b[i]).id != (
    #[trigger] b[j]).id by {
        assert(b[i] != b[j]);
        assert(b.contains(b[i]));
        assert(b.contains(b[j]));
        let p = choose|p: int| 0 <= p < a.len() && a[p] == b[i];
        let q = choose|q: int| 0 <= q < a.len() && a[q] == b[j];
        assert(a[p].id != a[q].id);
    }
}

/// Creates of items with distinct ids give the same store in whatever order
/// they are served: if `b` holds the items of `a` in another order, putting
/// them in the order of `b` leaves what putting them in the order of `a` leaves.
pub proof fn lemma_creates_in_any_order(
    m: Map<u32, ItemView>,
    a: Seq<ItemView>,
    b: Seq<ItemView>,
)
    requires
        distinct_ids(a),
        a.to_multiset() == b.to_multiset(),
    ensures
        put_all(m, a) == put_all(m, b),
{
    lemma_rearranged_ids_distinct(a, b);
    lemma_put_all_contents(m, a);
    lemma_put_all_contents(m, b);
    assert forall|k: u32| has_id(a, k) implies has_id(b, k) && put_all(m, a)[k] == put_all(
        m,
        b,
    )[k] by {
        let j = choose|j: int| 0 <= j < a.len() && (#[trigger] a[j]).id == k;
        assert(a.contains(a[j]));
        assert(b.contains(a[j]));
        let p = choose|p: int| 0 <= p < b.len() && b[p] == a[j];
        assert(b[p].id == k);
    }
    assert forall|k: u32| has_id(b, k) implies has_id(a, k) by {
        let j = choose|j: int| 0 <= j < b.len() && (#[trigger] b[j]).id == k;
        assert(b.contains(b[j]));
        assert(a.contains(b[j]));
        let p = choose|p: int| 0 <= p < a.len() && a[p] == b[j];
        assert(a[p].id == k);
    }
    assert(put_all(m, a) =~= put_all(m, b));
}

} // verus!
