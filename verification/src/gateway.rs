//! The edge towards the request layer: a bid request is decoded into its
//! validated shape, and the outcome of a bid is encoded as a response.

use crate::amount::{encodes_amount, rank_of_bits, Amount};
use crate::records::{BidRequest, Failure, Outcome};
use vstd::prelude::*;

verus! {

/// The status of a response to an accepted bid.
pub const STATUS_OK: u16 = 200;

/// The status of a response to a bid that is too low.
pub const STATUS_BAD_REQUEST: u16 = 400;

/// The status of a response to a bid for a product that does not exist.
pub const STATUS_NOT_FOUND: u16 = 404;

/// The status of a response to a bid that failed in the store.
pub const STATUS_SERVER_ERROR: u16 = 500;

/// A response to a bid: a status code and a body.
#[derive(Debug)]
pub struct Response {
    pub status: u16,
    pub body: &'static str,
}

/// The status that reports `outcome`: success for an accepted bid, a client
/// error for a bid that is too low or names no product, a server error for
/// every failure of the store.
pub open spec fn status_for(outcome: Outcome) -> u16 {
    match outcome {
        Outcome::Accepted => STATUS_OK,
        Outcome::RejectedTooLow => STATUS_BAD_REQUEST,
        Outcome::Failed(Failure::NotFound) => STATUS_NOT_FOUND,
        Outcome::Failed(_) => STATUS_SERVER_ERROR,
    }
}

/// The body that reports `outcome`: a sentence for a bid that is too low,
/// nothing otherwise. A failure shows nothing of what went wrong inside.
pub open spec fn body_for(outcome: Outcome) -> Seq<char> {
    match outcome {
        Outcome::RejectedTooLow => "Bid amount must be higher than the current price"@,
        _ => Seq::empty(),
    }
}

/// The response that reports `outcome`.
pub fn respond(outcome: Outcome) -> (response: Response)
    ensures
        response.status == status_for(outcome),
        response.body@ == body_for(outcome),
{
    proof {
        reveal_strlit("");
    }
    match outcome {
        Outcome::Accepted => Response { status: STATUS_OK, body: "" },
        Outcome::RejectedTooLow => Response {
            status: STATUS_BAD_REQUEST,
            body: "Bid amount must be higher than the current price",
        },
        Outcome::Failed(Failure::NotFound) => Response { status: STATUS_NOT_FOUND, body: "" },
        Outcome::Failed(_) => Response { status: STATUS_SERVER_ERROR, body: "" },
    }
}

/// The request for a bid of the amount with binary64 bit pattern
/// `amount_bits`, by `user_id`, for `product_id`; none where the pattern is
/// not that of a finite, non-negative number.
pub fn decode(product_id: i32, user_id: i32, amount_bits: u64) -> (request: Option<BidRequest>)
    ensures
        request is Some <==> encodes_amount(amount_bits),
        request matches Some(r) ==> r.product_id == product_id && r.user_id == user_id
            && r.amount@ == rank_of_bits(amount_bits),
{
    match Amount::from_bits(amount_bits) {
        Some(amount) => Some(BidRequest { product_id, user_id, amount }),
        None => None,
    }
}

} // verus!
