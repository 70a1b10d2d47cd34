//! The listing of products on sale.
//!
//! A product is on sale at a point in time when its expiry lies strictly
//! after that point. The listing keeps the products in their given order and
//! reads nothing but committed records.

use crate::clock::Timestamp;
use crate::records::{BidRequest, Outcome, Product};
use crate::store::{lemma_row_is_unique, Store};
use vstd::prelude::*;

verus! {

/// The products that are on sale at `as_of`, in their order in `products`.
pub open spec fn on_sale(products: Seq<Product>, as_of: Timestamp) -> Seq<Product> {
    products.filter(|p: Product| p.active_at(as_of))
}

/// The products on sale are exactly the products that have not expired: each
/// one listed is among the products and still active, and each active
/// product is listed.
pub proof fn law_listing_is_exact(products: Seq<Product>, as_of: Timestamp)
    ensures
        forall|p: Product| #[trigger]
            on_sale(products, as_of).contains(p) <==> products.contains(p) && p.active_at(as_of),
{
    let pred = |p: Product| p.active_at(as_of);
    let listed = on_sale(products, as_of);
    assert forall|p: Product| #[trigger]
        listed.contains(p) <==> products.contains(p) && pred(p) by {
        if listed.contains(p) {
            let i = choose|i: int| 0 <= i < listed.len() && listed[i] == p;
            products.lemma_filter_pred(pred, i);
            products.lemma_filter_contains_rev(pred, p);
        }
        if products.contains(p) && pred(p) {
            let i = choose|i: int| 0 <= i < products.len() && products[i] == p;
            products.lemma_filter_contains(pred, i);
        }
    }
}

/// The products of `products` that are on sale at `as_of`: those whose
/// expiry lies strictly after it, in their given order.
pub fn list_active_products(products: &Vec<Product>, as_of: Timestamp) -> (listed: Vec<Product>)
    ensures
        listed@ == on_sale(products@, as_of),
{
    let ghost pred = |p: Product| p.active_at(as_of);
    let mut listed: Vec<Product> = Vec::new();
    let mut i: usize = 0;
    proof {
        reveal(Seq::filter);
        assert(products@.take(0) =~= Seq::<Product>::empty());
    }
    while i < products.len()
        invariant
            i <= products.len(),
            pred == (|p: Product| p.active_at(as_of)),
            listed@ == products@.take(i as int).filter(pred),
        decreases products.len() - i,
    {
        proof {
            reveal(Seq::filter);
            assert(products@.take(i + 1).drop_last() =~= products@.take(i as int));
        }
        if products[i].is_active_at(&as_of) {
            listed.push(products[i].duplicate());
        }
        i += 1;
    }
    assert(products@.take(i as int) =~= products@);
    listed
}

/// After an accepted bid the listing shows the product at the amount of that
/// bid: where the product is on sale at `as_of` it is listed with the new
/// price and bidder, where it has expired it is not listed at all, and in
/// no case is it listed at any other price.
pub proof fn law_listing_shows_latest_bid(store: Store, request: BidRequest, as_of: Timestamp)
    requires
        store.wf(),
        store.outcome_of(request) == Outcome::Accepted,
    ensures
        store.product(request.product_id).active_at(as_of) ==> on_sale(
            store.after_bid(request).products,
            as_of,
        ).contains(store.product(request.product_id).with_bid(request.amount, request.user_id)),
        forall|p: Product|
            on_sale(store.after_bid(request).products, as_of).contains(p) && p.product_id
                == request.product_id ==> store.product(request.product_id).active_at(as_of)
                && p.product_price == request.amount && p.current_bid_owner == Some(
                request.user_id,
            ),
{
    let after = store.after_bid(request);
    let row = store.row_of(request.product_id);
    let shown = store.product(request.product_id).with_bid(request.amount, request.user_id);
    assert(store.is_row_of(row, request.product_id));
    law_listing_is_exact(after.products, as_of);
    assert(after.products[row] == shown);
    assert(after.products.contains(shown));
    assert(on_sale(after.products, as_of).contains(shown) <==> after.products.contains(shown)
        && shown.active_at(as_of));
    assert forall|p: Product|
        on_sale(after.products, as_of).contains(p) && p.product_id
            == request.product_id implies store.product(request.product_id).active_at(as_of)
        && p.product_price == request.amount && p.current_bid_owner == Some(request.user_id) by {
        assert(after.products.contains(p) && p.active_at(as_of));
        let i = choose|i: int| 0 <= i < after.products.len() && after.products[i] == p;
        assert(store.is_row_of(i, request.product_id));
        lemma_row_is_unique(store, i, request.product_id);
    }
}

} // verus!
