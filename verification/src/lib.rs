//! The bidding core of an auction marketplace.
//!
//! A bid is accepted only when it is strictly higher than the product's
//! current price, and an accepted bid records the new price and the bid
//! together or not at all. The crate holds the data model, the decision
//! sequence of one bid against a transactional store, an in-memory store
//! with row locks, and the proofs that the sequence stays correct when many
//! bidders race on one product.

pub mod amount;
pub mod clock;
pub mod records;
pub mod gateway;
pub mod transactor;
pub mod store;
pub mod ledger;
pub mod listing;
pub mod history;
pub mod concurrency;
pub mod race;
