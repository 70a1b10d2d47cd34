//! The records of the marketplace and the outcomes of a bid.

use crate::amount::Amount;
use crate::clock::Timestamp;
use vstd::prelude::*;

verus! {

/// A bid as it arrives: who offers how much for which product.
#[derive(Clone, Copy, Debug, PartialEq, Eq, Structural)]
pub struct BidRequest {
    pub product_id: i32,
    pub user_id: i32,
    pub amount: Amount,
}

/// An accepted bid, as it stands in the history. Bids are only ever appended.
#[derive(Clone, Copy, Debug, PartialEq, Eq, Structural)]
pub struct Bid {
    pub amount: Amount,
    pub user_id: i32,
    pub product_id: i32,
}

/// A product on sale.
#[derive(Debug)]
pub struct Product {
    pub product_id: i32,
    pub owner: i32,
    /// The bidder who holds the highest accepted bid, if there is one.
    pub current_bid_owner: Option<i32>,
    pub product_video: Option<String>,
    pub product_title: String,
    pub product_description: String,
    /// The price that a new bid must exceed.
    pub product_price: Amount,
    /// The time after which the product is no longer on sale.
    pub sale_expiry: Timestamp,
}

/// Why a bid failed without being judged too low.
#[derive(Clone, Copy, Debug, PartialEq, Eq, Structural)]
pub enum Failure {
    /// The product does not exist.
    NotFound,
    /// The store could not open a transaction.
    Begin,
    /// The store failed while locking and reading the price.
    Read,
    /// The store failed while updating the price.
    Update,
    /// The store failed while appending the bid.
    Insert,
    /// The store failed to commit.
    Commit,
}

/// How a bid ended.
#[derive(Clone, Copy, Debug, PartialEq, Eq, Structural)]
pub enum Outcome {
    /// The bid was committed: price and history are updated.
    Accepted,
    /// The amount did not exceed the current price; nothing changed.
    RejectedTooLow,
    /// The bid could not be carried out; nothing changed.
    Failed(Failure),
}

impl BidRequest {
    /// The history entry that this request becomes when it is accepted.
    pub open spec fn bid(self) -> Bid {
        Bid { amount: self.amount, user_id: self.user_id, product_id: self.product_id }
    }

    /// The history entry that this request becomes when it is accepted.
    pub fn to_bid(&self) -> (bid: Bid)
        ensures
            bid == self.bid(),
    {
        Bid { amount: self.amount, user_id: self.user_id, product_id: self.product_id }
    }
}

impl Product {
    /// This product after a bid of `amount` by `bidder` was accepted: the
    /// price and the holder of the highest bid change, nothing else does.
    pub open spec fn with_bid(self, amount: Amount, bidder: i32) -> Product {
        Product { product_price: amount, current_bid_owner: Some(bidder), ..self }
    }

    /// Whether the product is still on sale at `as_of`.
    pub open spec fn active_at(self, as_of: Timestamp) -> bool {
        self.sale_expiry.after(as_of)
    }

    /// Whether the product is still on sale at `as_of`: its expiry lies
    /// strictly after that time.
    pub fn is_active_at(&self, as_of: &Timestamp) -> (active: bool)
        ensures
            active == self.active_at(*as_of),
    {
        self.sale_expiry.is_after(as_of)
    }

    /// A copy of the product.
    pub fn duplicate(&self) -> (copy: Product)
        ensures
            copy == *self,
    {
        let video = match &self.product_video {
            Some(v) => Some(v.clone()),
            None => None,
        };
        Product {
            product_id: self.product_id,
            owner: self.owner,
            current_bid_owner: self.current_bid_owner,
            product_video: video,
            product_title: self.product_title.clone(),
            product_description: self.product_description.clone(),
            product_price: self.product_price,
            sale_expiry: self.sale_expiry,
        }
    }
}

} // verus!
