//! What stays true of prices and of the history of bids.
//!
//! The committed data changes only by accepted bids, and each accepted bid
//! exceeds the price it replaces. So prices never fall, the history only
//! grows, and the history of each product is in ascending order of amount
//! with the product's price equal to its newest bid.

use crate::records::{Bid, BidRequest, Outcome, Product};
use crate::store::{lemma_bid_keeps_wf, lemma_row_is_unique, Store};
use vstd::prelude::*;

verus! {

/// Whether every product of `before` is still there in `after`, at a price
/// that is not lower.
pub open spec fn never_lower(before: Store, after: Store) -> bool {
    forall|product_id: i32| #[trigger]
        before.has_product(product_id) ==> after.has_product(product_id) && after.price_of(
            product_id,
        )@ >= before.price_of(product_id)@
}

/// Whether the history `after` is the history `before` with nothing removed
/// or changed and zero or more bids appended.
pub open spec fn extends(before: Seq<Bid>, after: Seq<Bid>) -> bool {
    &&& before.len() <= after.len()
    &&& forall|k: int| 0 <= k < before.len() ==> after[k] == before[k]
}

/// Whether bid `k` of the history is the newest one for its product.
pub open spec fn is_latest(bids: Seq<Bid>, k: int) -> bool {
    &&& 0 <= k < bids.len()
    &&& forall|l: int| k < l < bids.len() ==> (#[trigger] bids[l]).product_id != bids[k].product_id
}

impl Store {
    /// Whether products and history agree: every bid is for a product that
    /// is there, the bids of each product stand in strictly ascending order
    /// of amount, none is above the product's price, and a product that has
    /// bids has the amount and the bidder of its newest bid as its price and
    /// highest bidder.
    pub open spec fn history_agrees(self) -> bool {
        &&& forall|k: int|
            0 <= k < self.bids.len() ==> self.has_product((#[trigger] self.bids[k]).product_id)
        &&& forall|k: int, l: int|
            0 <= k < l < self.bids.len() && (#[trigger] self.bids[k]).product_id == (
            #[trigger] self.bids[l]).product_id ==> self.bids[k].amount@ < self.bids[l].amount@
        &&& forall|i: int, k: int|
            0 <= i < self.products.len() && 0 <= k < self.bids.len() && (
            #[trigger] self.products[i]).product_id == (#[trigger] self.bids[k]).product_id
                ==> self.bids[k].amount@ <= self.products[i].product_price@
        &&& forall|i: int, k: int|
            0 <= i < self.products.len() && #[trigger] is_latest(self.bids, k) && (
            #[trigger] self.products[i]).product_id == self.bids[k].product_id ==> {
                &&& self.products[i].product_price == self.bids[k].amount
                &&& self.products[i].current_bid_owner == Some(self.bids[k].user_id)
            }
    }
}

/// A committed bid changes one product and nothing else: that product has
/// the bid's amount as its price and the bidder as its highest bidder, every
/// other product is as it was, and the bid is the newest entry of the
/// history.
pub proof fn lemma_committed_bid_effect(store: Store, after: Store, request: BidRequest)
    requires
        store.wf(),
        store.committed_bid(after, request),
    ensures
        forall|product_id: i32| store.has_product(product_id) <==> after.has_product(product_id),
        after.product(request.product_id) == store.product(request.product_id).with_bid(
            request.amount,
            request.user_id,
        ),
        forall|product_id: i32|
            store.has_product(product_id) && product_id != request.product_id ==> after.product(
                product_id,
            ) == store.product(product_id),
        after.bids.len() == store.bids.len() + 1,
        after.bids.last() == request.bid(),
        never_lower(store, after),
        extends(store.bids, after.bids),
{
    assert forall|product_id: i32| store.has_product(product_id) implies after.has_product(
        product_id,
    ) && store.row_of(product_id) == after.row_of(product_id) by {
        let i = store.row_of(product_id);
        assert(store.is_row_of(i, product_id));
        assert(after.is_row_of(i, product_id));
        let j = after.row_of(product_id);
        assert(after.is_row_of(j, product_id));
        assert(store.is_row_of(j, product_id));
        lemma_row_is_unique(store, j, product_id);
    }
    assert forall|product_id: i32| after.has_product(product_id) implies store.has_product(
        product_id,
    ) by {
        let j = after.row_of(product_id);
        assert(after.is_row_of(j, product_id));
        assert(store.is_row_of(j, product_id));
    }
    let row = store.row_of(request.product_id);
    assert(store.is_row_of(row, request.product_id));
}

/// A committed bid leaves products and history in agreement.
pub proof fn lemma_committed_bid_agrees(store: Store, after: Store, request: BidRequest)
    requires
        store.wf(),
        store.history_agrees(),
        store.committed_bid(after, request),
    ensures
        after.history_agrees(),
{
    let n = store.bids.len() as int;
    let row = store.row_of(request.product_id);
    assert(store.is_row_of(row, request.product_id));
    lemma_row_is_unique(store, row, request.product_id);
    lemma_committed_bid_effect(store, after, request);
    assert forall|k: int| 0 <= k < after.bids.len() implies after.has_product(
        (#[trigger] after.bids[k]).product_id,
    ) by {
        if k < n {
            assert(store.has_product(store.bids[k].product_id));
        }
    }
    assert forall|k: int, l: int|
        0 <= k < l < after.bids.len() && (#[trigger] after.bids[k]).product_id == (
        #[trigger] after.bids[l]).product_id implies after.bids[k].amount@
        < after.bids[l].amount@ by {
        if l == n {
            assert(store.bids[k].amount@ <= store.products[row].product_price@);
        } else {
            assert(store.bids[k].amount@ < store.bids[l].amount@);
        }
    }
    assert forall|i: int, k: int|
        0 <= i < after.products.len() && 0 <= k < after.bids.len() && (
        #[trigger] after.products[i]).product_id == (#[trigger] after.bids[k]).product_id implies
        after.bids[k].amount@ <= after.products[i].product_price@ by {
        if store.is_row_of(i, request.product_id) {
            lemma_row_is_unique(store, i, request.product_id);
        }
        if k < n {
            assert(store.bids[k].amount@ <= store.products[i].product_price@);
        }
    }
    assert forall|i: int, k: int|
        0 <= i < after.products.len() && #[trigger] is_latest(after.bids, k) && (
        #[trigger] after.products[i]).product_id == after.bids[k].product_id implies
        after.products[i].product_price == after.bids[k].amount
        && after.products[i].current_bid_owner == Some(after.bids[k].user_id) by {
        if k < n {
            assert(after.bids[n].product_id != after.bids[k].product_id);
            assert forall|l: int| k < l < store.bids.len() implies (
            #[trigger] store.bids[l]).product_id != store.bids[k].product_id by {
                assert(after.bids[l] == store.bids[l]);
            }
            assert(is_latest(store.bids, k));
            assert(store.products[i].product_id == store.bids[k].product_id);
        }
    }
}

/// Products and history that agree in one store agree in every store that
/// shows the same products and history.
pub proof fn lemma_same_books_agree(store: Store, after: Store)
    requires
        store.history_agrees(),
        store.same_books(after),
    ensures
        after.history_agrees(),
{
    assert forall|k: int| 0 <= k < after.bids.len() implies after.has_product(
        (#[trigger] after.bids[k]).product_id,
    ) by {
        let product_id = store.bids[k].product_id;
        assert(store.has_product(product_id));
        assert(store.is_row_of(store.row_of(product_id), product_id));
        assert(after.is_row_of(store.row_of(product_id), product_id));
    }
}

/// A bid that is not accepted changes nothing: the store afterwards is the
/// store before, products, history, locks and sessions alike.
pub proof fn law_rejection_changes_nothing(store: Store, request: BidRequest)
    requires
        store.outcome_of(request) != Outcome::Accepted,
    ensures
        store.after_bid(request) == store,
{
}

/// An accepted bid is recorded whole: the product has the bid's amount as its
/// price and the bidder as its highest bidder, the history has the bid as its
/// one new entry, and no other product has changed.
pub proof fn law_accepted_bid_is_recorded(store: Store, request: BidRequest)
    requires
        store.wf(),
        store.outcome_of(request) == Outcome::Accepted,
    ensures
        store.committed_bid(store.after_bid(request), request),
        store.after_bid(request).price_of(request.product_id) == request.amount,
        store.after_bid(request).product(request.product_id).current_bid_owner == Some(
            request.user_id,
        ),
        store.after_bid(request).bids == store.bids.push(request.bid()),
        forall|product_id: i32|
            store.has_product(product_id) && product_id != request.product_id
                ==> store.after_bid(request).product(product_id) == store.product(product_id),
{
    lemma_committed_bid_effect(store, store.after_bid(request), request);
}

/// Whatever the bid and however it ends, no price is lower afterwards than
/// before, and the history has lost nothing.
pub proof fn law_bid_never_lowers_price(store: Store, request: BidRequest)
    requires
        store.wf(),
    ensures
        never_lower(store, store.after_bid(request)),
        extends(store.bids, store.after_bid(request).bids),
{
    if store.outcome_of(request) == Outcome::Accepted {
        lemma_committed_bid_effect(store, store.after_bid(request), request);
    }
}

/// Whatever the bid and however it ends, products and history still agree
/// afterwards.
pub proof fn law_bid_keeps_history(store: Store, request: BidRequest)
    requires
        store.wf(),
        store.history_agrees(),
    ensures
        store.after_bid(request).history_agrees(),
{
    if store.outcome_of(request) == Outcome::Accepted {
        lemma_committed_bid_agrees(store, store.after_bid(request), request);
    }
}

impl Store {
    /// The store after these bids were carried out at once, one after the
    /// other.
    pub open spec fn after_bids(self, requests: Seq<BidRequest>) -> Store
        decreases requests.len(),
    {
        if requests.len() == 0 {
            self
        } else {
            self.after_bids(requests.drop_last()).after_bid(requests.last())
        }
    }
}

/// Whatever bids are carried out one after the other, and however each of
/// them ends, the store's invariant stands afterwards, no price is lower
/// than before, the history has lost nothing, and products and history agree
/// if they did before.
pub proof fn law_bids_never_lower_price(store: Store, requests: Seq<BidRequest>)
    requires
        store.wf(),
    ensures
        store.after_bids(requests).wf(),
        never_lower(store, store.after_bids(requests)),
        extends(store.bids, store.after_bids(requests).bids),
        store.history_agrees() ==> store.after_bids(requests).history_agrees(),
    decreases requests.len(),
{
    if requests.len() > 0 {
        let earlier = store.after_bids(requests.drop_last());
        law_bids_never_lower_price(store, requests.drop_last());
        lemma_bid_keeps_wf(earlier, requests.last());
        law_bid_never_lowers_price(earlier, requests.last());
        if store.history_agrees() {
            law_bid_keeps_history(earlier, requests.last());
        }
        let after = store.after_bids(requests);
        assert forall|product_id: i32| #[trigger]
            store.has_product(product_id) implies after.has_product(product_id) && after.price_of(
            product_id,
        )@ >= store.price_of(product_id)@ by {
            assert(earlier.has_product(product_id));
        }
    }
}

/// Two bids race for one product, both above its price, one higher than the
/// other. Whichever is carried out first, the product ends at the higher
/// amount and the history is in ascending order: if the higher bid comes
/// first, it alone is accepted and the lower one is rejected; if the lower
/// bid comes first, both are accepted, the lower before the higher. No order
/// ends at the lower amount.
pub proof fn law_race_ends_at_higher_bid(store: Store, higher: BidRequest, lower: BidRequest)
    requires
        store.wf(),
        higher.product_id == lower.product_id,
        store.has_product(higher.product_id),
        !store.is_locked(higher.product_id),
        higher.amount@ > lower.amount@ > store.price_of(higher.product_id)@,
    ensures
        store.outcome_of(higher) == Outcome::Accepted,
        store.after_bid(higher).outcome_of(lower) == Outcome::RejectedTooLow,
        store.after_bid(higher).after_bid(lower).bids == store.bids.push(higher.bid()),
        store.after_bid(higher).after_bid(lower).price_of(higher.product_id) == higher.amount,
        store.outcome_of(lower) == Outcome::Accepted,
        store.after_bid(lower).outcome_of(higher) == Outcome::Accepted,
        store.after_bid(lower).after_bid(higher).bids == store.bids.push(lower.bid()).push(
            higher.bid(),
        ),
        store.after_bid(lower).after_bid(higher).price_of(higher.product_id) == higher.amount,
{
    let product_id = higher.product_id;
    let row = store.row_of(product_id);
    assert(store.is_row_of(row, product_id));
    let first = store.after_bid(higher);
    lemma_bid_keeps_wf(store, higher);
    lemma_committed_bid_effect(store, first, higher);
    assert(first.is_row_of(row, product_id));
    lemma_row_is_unique(first, row, product_id);
    let other = store.after_bid(lower);
    lemma_bid_keeps_wf(store, lower);
    lemma_committed_bid_effect(store, other, lower);
    assert(other.is_row_of(row, product_id));
    lemma_row_is_unique(other, row, product_id);
    lemma_bid_keeps_wf(other, higher);
    lemma_committed_bid_effect(other, other.after_bid(higher), higher);
}

/// Adding a product under an identifier that is not in use leaves products
/// and history in agreement.
pub proof fn lemma_new_product_agrees(store: Store, product: Product)
    requires
        store.wf(),
        !store.has_product(product.product_id),
    ensures
        store.history_agrees() ==> store.with_product(product).history_agrees(),
{
    let after = store.with_product(product);
    if store.history_agrees() {
        assert forall|k: int| 0 <= k < after.bids.len() implies after.has_product(
            (#[trigger] after.bids[k]).product_id,
        ) by {
            let i = store.row_of(store.bids[k].product_id);
            assert(store.has_product(store.bids[k].product_id));
            assert(store.is_row_of(i, store.bids[k].product_id));
            assert(after.is_row_of(i, store.bids[k].product_id));
        }
        assert forall|i: int, k: int|
            0 <= i < after.products.len() && 0 <= k < after.bids.len() && (
            #[trigger] after.products[i]).product_id == (
            #[trigger] after.bids[k]).product_id implies i < store.products.len() by {
            assert(store.has_product(store.bids[k].product_id));
        }
        assert forall|i: int, k: int|
            0 <= i < after.products.len() && #[trigger] is_latest(after.bids, k) && (
            #[trigger] after.products[i]).product_id
                == after.bids[k].product_id implies after.products[i].product_price
            == after.bids[k].amount && after.products[i].current_bid_owner == Some(
            after.bids[k].user_id,
        ) by {
            assert(store.has_product(store.bids[k].product_id));
            assert(i < store.products.len());
            assert(store.products[i].product_id == store.bids[k].product_id);
        }
    }
}

} // verus!
