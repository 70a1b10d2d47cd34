//! What the store is taken to do.
//!
//! The store keeps the products and the history of bids. Sessions talk to it
//! in transactions: a transaction locks the rows it reads for update, stages
//! its writes, and makes them visible all at once when it commits, or drops
//! them when it rolls back. A row has one lock, held by at most one
//! transaction until that transaction ends.
//!
//! This module states these rules as a mathematical model. The in-memory
//! ledger implements it, and the proofs about racing bidders are made over
//! it.

use crate::amount::Amount;
use crate::records::{Bid, BidRequest, Failure, Outcome, Product};
use crate::transactor::{Command, Reply};
use vstd::prelude::*;

verus! {

/// A write that a transaction has staged.
#[derive(Clone, Copy, Debug, PartialEq, Eq, Structural)]
pub enum Write {
    /// Set the price of a product and the holder of its highest bid.
    SetPrice { product_id: i32, amount: Amount, bidder: i32 },
    /// Append a bid to the history.
    AppendBid { bid: Bid },
}

/// A session: whether it has a transaction open, and the writes staged in it.
#[verifier::ext_equal]
pub struct SessionState {
    pub open: bool,
    pub writes: Seq<Write>,
}

/// The state of the store.
#[verifier::ext_equal]
pub struct Store {
    /// The committed products, in the order in which they were added.
    pub products: Seq<Product>,
    /// For each product, at the same index, the session whose transaction
    /// holds the lock on its row.
    pub locks: Seq<Option<usize>>,
    /// The committed history of bids, oldest first.
    pub bids: Seq<Bid>,
    /// The sessions, each known by its index.
    pub sessions: Seq<SessionState>,
}

/// The products after the price of product `product_id` was set to `amount`
/// and its highest bidder to `bidder`.
pub open spec fn repriced(
    products: Seq<Product>,
    product_id: i32,
    amount: Amount,
    bidder: i32,
) -> Seq<Product> {
    Seq::new(
        products.len(),
        |i: int|
            if products[i].product_id == product_id {
                products[i].with_bid(amount, bidder)
            } else {
                products[i]
            },
    )
}

/// The locks after every lock held by `session` was released.
pub open spec fn released(locks: Seq<Option<usize>>, session: usize) -> Seq<Option<usize>> {
    Seq::new(
        locks.len(),
        |i: int|
            if locks[i] == Some(session) {
                None
            } else {
                locks[i]
            },
    )
}

/// The writes that a bid has staged when it asks for its commit.
pub open spec fn writes_of(request: BidRequest) -> Seq<Write> {
    seq![
        Write::SetPrice {
            product_id: request.product_id,
            amount: request.amount,
            bidder: request.user_id,
        },
        Write::AppendBid { bid: request.bid() },
    ]
}

impl SessionState {
    /// A session with no transaction open.
    pub open spec fn idle() -> SessionState {
        SessionState { open: false, writes: Seq::empty() }
    }

    /// A session whose transaction has just opened.
    pub open spec fn fresh() -> SessionState {
        SessionState { open: true, writes: Seq::empty() }
    }
}

impl Store {
    /// The store with no product, no bid and no session.
    pub open spec fn empty() -> Store {
        Store {
            products: Seq::empty(),
            locks: Seq::empty(),
            bids: Seq::empty(),
            sessions: Seq::empty(),
        }
    }

    /// The store with one more product, unlocked, after those it has.
    pub open spec fn with_product(self, product: Product) -> Store {
        Store { products: self.products.push(product), locks: self.locks.push(None), ..self }
    }

    /// The store with one more session, which has no transaction open.
    pub open spec fn with_new_session(self) -> Store {
        Store { sessions: self.sessions.push(SessionState::idle()), ..self }
    }

    /// Whether row `i` holds product `product_id`.
    pub open spec fn is_row_of(self, i: int, product_id: i32) -> bool {
        0 <= i < self.products.len() && self.products[i].product_id == product_id
    }

    /// Whether the store has a product `product_id`.
    pub open spec fn has_product(self, product_id: i32) -> bool {
        exists|i: int| self.is_row_of(i, product_id)
    }

    /// The row of product `product_id`, where the store has that product.
    pub open spec fn row_of(self, product_id: i32) -> int {
        choose|i: int| self.is_row_of(i, product_id)
    }

    /// The committed record of product `product_id`.
    pub open spec fn product(self, product_id: i32) -> Product {
        self.products[self.row_of(product_id)]
    }

    /// The committed price of product `product_id`.
    pub open spec fn price_of(self, product_id: i32) -> Amount {
        self.product(product_id).product_price
    }

    /// Whether `session` has a transaction open.
    pub open spec fn in_transaction(self, session: usize) -> bool {
        session < self.sessions.len() && self.sessions[session as int].open
    }

    /// Whether the row of product `product_id` is locked by `session`.
    pub open spec fn holds_lock(self, session: usize, product_id: i32) -> bool {
        self.has_product(product_id) && self.locks[self.row_of(product_id)] == Some(session)
    }

    /// Whether the row of product `product_id` is locked by a session other
    /// than `session`, which then has to wait for it.
    pub open spec fn held_by_other(self, session: usize, product_id: i32) -> bool {
        self.has_product(product_id) && (self.locks[self.row_of(product_id)] matches Some(owner)
            && owner != session)
    }

    /// The store's own invariant: every product has its lock entry, no two
    /// products share an identifier, every lock is held by an open
    /// transaction, and a session without a transaction has nothing staged.
    pub open spec fn wf(self) -> bool {
        &&& self.locks.len() == self.products.len()
        &&& forall|i: int, j: int|
            0 <= i < j < self.products.len() ==> self.products[i].product_id
                != self.products[j].product_id
        &&& forall|i: int|
            0 <= i < self.locks.len() ==> (#[trigger] self.locks[i] matches Some(owner)
                ==> self.in_transaction(owner))
        &&& forall|s: int|
            0 <= s < self.sessions.len() && !(#[trigger] self.sessions[s]).open
                ==> self.sessions[s].writes.len() == 0
    }

    /// The store with the state of `session` replaced.
    pub open spec fn with_session(self, session: usize, state: SessionState) -> Store {
        Store { sessions: self.sessions.update(session as int, state), ..self }
    }

    /// The store after `session` took the lock on the row of `product_id`.
    pub open spec fn locked(self, session: usize, product_id: i32) -> Store {
        Store {
            locks: Seq::new(
                self.locks.len(),
                |i: int|
                    if self.products[i].product_id == product_id {
                        Some(session)
                    } else {
                        self.locks[i]
                    },
            ),
            ..self
        }
    }

    /// The store after `session` staged `write` in its transaction.
    pub open spec fn staged(self, session: usize, write: Write) -> Store {
        self.with_session(
            session,
            SessionState { open: true, writes: self.sessions[session as int].writes.push(write) },
        )
    }

    /// The store after `write` was made to the committed data.
    pub open spec fn written(self, write: Write) -> Store {
        match write {
            Write::SetPrice { product_id, amount, bidder } => Store {
                products: repriced(self.products, product_id, amount, bidder),
                ..self
            },
            Write::AppendBid { bid } => Store { bids: self.bids.push(bid), ..self },
        }
    }

    /// The store after these writes were made to the committed data, in order.
    pub open spec fn written_all(self, writes: Seq<Write>) -> Store
        decreases writes.len(),
    {
        if writes.len() == 0 {
            self
        } else {
            self.written_all(writes.drop_last()).written(writes.last())
        }
    }

    /// The store after the transaction of `session` ended: its locks are
    /// released and nothing is staged in it any more.
    pub open spec fn closed(self, session: usize) -> Store {
        Store {
            locks: released(self.locks, session),
            sessions: self.sessions.update(session as int, SessionState::idle()),
            ..self
        }
    }

    /// Whether the row of product `product_id` is locked by any session.
    pub open spec fn is_locked(self, product_id: i32) -> bool {
        self.has_product(product_id) && self.locks[self.row_of(product_id)] is Some
    }

    /// How a bid that is carried out at once, as one transaction and without
    /// waiting, ends on this store: it fails where the product is missing or
    /// its row is locked by a transaction still open, it is rejected where
    /// the amount does not exceed the committed price, and it is accepted
    /// otherwise.
    pub open spec fn outcome_of(self, request: BidRequest) -> Outcome {
        if !self.has_product(request.product_id) {
            Outcome::Failed(Failure::NotFound)
        } else if self.is_locked(request.product_id) {
            Outcome::Failed(Failure::Read)
        } else if request.amount@ > self.price_of(request.product_id)@ {
            Outcome::Accepted
        } else {
            Outcome::RejectedTooLow
        }
    }

    /// The store after the bid of `request` was committed: the product has
    /// the new price and bidder, and the history has one more entry.
    pub open spec fn with_bid(self, request: BidRequest) -> Store {
        Store {
            products: repriced(
                self.products,
                request.product_id,
                request.amount,
                request.user_id,
            ),
            bids: self.bids.push(request.bid()),
            ..self
        }
    }

    /// The store after a bid was carried out at once: changed only where the
    /// bid is accepted.
    pub open spec fn after_bid(self, request: BidRequest) -> Store {
        if self.outcome_of(request) == Outcome::Accepted {
            self.with_bid(request)
        } else {
            self
        }
    }

    /// Whether `after` is this store with the bid of `request` committed, the
    /// bid being above the price that it replaces: the product has the new
    /// price and bidder and the history has the bid as its newest entry.
    pub open spec fn committed_bid(self, after: Store, request: BidRequest) -> bool {
        &&& self.has_product(request.product_id)
        &&& request.amount@ > self.price_of(request.product_id)@
        &&& after.products == repriced(
            self.products,
            request.product_id,
            request.amount,
            request.user_id,
        )
        &&& after.bids == self.bids.push(request.bid())
    }

    /// Whether `after` shows the same committed data as this store.
    pub open spec fn same_books(self, after: Store) -> bool {
        after.products == self.products && after.bids == self.bids
    }

    /// What the store does with `command` from `session`: its next state and
    /// its reply, or nothing where the session has to wait for a lock.
    ///
    /// A command from a session that the store does not know, a second begin
    /// inside a transaction, and any other command outside a transaction are
    /// refused with a fault and change nothing.
    pub open spec fn answer(self, session: usize, command: Command) -> Option<(Store, Reply)> {
        if session >= self.sessions.len() {
            Some((self, Reply::Fault))
        } else if self.sessions[session as int].open != (command != Command::Begin) {
            Some((self, Reply::Fault))
        } else {
            match command {
                Command::Begin => Some(
                    (self.with_session(session, SessionState::fresh()), Reply::Began),
                ),
                Command::LockAndReadPrice { product_id } => if !self.has_product(product_id) {
                    Some((self, Reply::NotFound))
                } else if self.held_by_other(session, product_id) {
                    None
                } else {
                    Some(
                        (self.locked(session, product_id), Reply::Price(self.price_of(product_id))),
                    )
                },
                Command::UpdatePrice { product_id, amount, bidder } => if self.held_by_other(
                    session,
                    product_id,
                ) {
                    None
                } else {
                    Some(
                        (
                            self.locked(session, product_id).staged(
                                session,
                                Write::SetPrice { product_id, amount, bidder },
                            ),
                            Reply::Done,
                        ),
                    )
                },
                Command::AppendBid { bid } => Some(
                    (self.staged(session, Write::AppendBid { bid }), Reply::Done),
                ),
                Command::Commit => Some(
                    (
                        self.written_all(self.sessions[session as int].writes).closed(session),
                        Reply::Done,
                    ),
                ),
                Command::Rollback => Some((self.closed(session), Reply::Done)),
            }
        }
    }

    /// The store after it took `command` from `session`; the same store where
    /// the session has to wait.
    pub open spec fn state_after(self, session: usize, command: Command) -> Store {
        match self.answer(session, command) {
            Some((after, _)) => after,
            None => self,
        }
    }

    /// The reply that a session which never waits sees to `command`: the
    /// store's own, or a fault where the session would have to wait.
    pub open spec fn reply_to(self, session: usize, command: Command) -> Reply {
        match self.answer(session, command) {
            Some((_, reply)) => reply,
            None => Reply::Fault,
        }
    }
}

/// A product stands in one row only: the row that holds it is its row.
pub proof fn lemma_row_is_unique(store: Store, i: int, product_id: i32)
    requires
        store.wf(),
        store.is_row_of(i, product_id),
    ensures
        store.has_product(product_id),
        store.row_of(product_id) == i,
{
    let j = store.row_of(product_id);
    assert(store.is_row_of(j, product_id));
    if i < j {
        assert(store.products[i].product_id != store.products[j].product_id);
    } else if j < i {
        assert(store.products[j].product_id != store.products[i].product_id);
    }
}

/// Two stores with the same products have the same products under the same
/// identifiers, each with the same record.
pub proof fn lemma_same_products_same_records(store: Store, after: Store)
    requires
        store.wf(),
        after.products == store.products,
    ensures
        forall|product_id: i32| store.has_product(product_id) <==> after.has_product(product_id),
        forall|product_id: i32| #[trigger]
            store.has_product(product_id) ==> after.product(product_id) == store.product(
                product_id,
            ),
{
    assert forall|product_id: i32| #[trigger]
        store.has_product(product_id) implies after.has_product(product_id) && after.product(
        product_id,
    ) == store.product(product_id) by {
        let i = store.row_of(product_id);
        assert(store.is_row_of(i, product_id));
        assert(after.is_row_of(i, product_id));
        let j = after.row_of(product_id);
        assert(store.is_row_of(j, product_id));
        lemma_row_is_unique(store, j, product_id);
    }
    assert forall|product_id: i32| after.has_product(product_id) implies store.has_product(
        product_id,
    ) by {
        let j = after.row_of(product_id);
        assert(after.is_row_of(j, product_id));
        assert(store.is_row_of(j, product_id));
    }
}

/// Writes to the committed data touch neither locks nor sessions, and add,
/// remove or rename no product.
pub proof fn lemma_written_all_frame(store: Store, writes: Seq<Write>)
    ensures
        store.written_all(writes).locks == store.locks,
        store.written_all(writes).sessions == store.sessions,
        store.written_all(writes).products.len() == store.products.len(),
        forall|i: int|
            0 <= i < store.products.len() ==> (#[trigger] store.written_all(
                writes,
            ).products[i]).product_id == store.products[i].product_id,
        store.wf() ==> store.written_all(writes).wf(),
    decreases writes.len(),
{
    if writes.len() > 0 {
        lemma_written_all_frame(store, writes.drop_last());
    }
}

/// Making the first `k + 1` of some writes is making the first `k` and then
/// the next one.
pub proof fn lemma_written_all_next(store: Store, writes: Seq<Write>, k: int)
    requires
        0 <= k < writes.len(),
    ensures
        store.written_all(writes.take(k + 1)) == store.written_all(writes.take(k)).written(
            writes[k],
        ),
{
    assert(writes.take(k + 1).drop_last() =~= writes.take(k));
}

/// The writes of one bid, made to the committed data, are the bid committed.
pub proof fn lemma_writes_of_bid(store: Store, request: BidRequest)
    ensures
        store.written_all(writes_of(request)) == store.with_bid(request),
{
    let writes = writes_of(request);
    assert(writes.drop_last() =~= seq![writes[0]]);
    assert(writes.drop_last().drop_last() =~= Seq::<Write>::empty());
    assert(store.written_all(writes.drop_last().drop_last()) == store);
    assert(store.written_all(writes.drop_last()) == store.written(writes[0]));
    assert(store.written_all(writes) == store.written(writes[0]).written(writes[1]));
    assert(store.written(writes[0]).written(writes[1]) =~~= store.with_bid(request));
}

/// Whatever a session asks, the store's answer leaves its invariant standing.
pub proof fn lemma_answer_keeps_wf(store: Store, session: usize, command: Command)
    requires
        store.wf(),
    ensures
        store.answer(session, command) matches Some((after, _)) ==> after.wf(),
{
    if session < store.sessions.len() {
        match command {
            Command::Commit => {
                lemma_written_all_frame(store, store.sessions[session as int].writes);
            },
            _ => {},
        }
    }
}

/// A bid carried out at once leaves the store's invariant standing.
pub proof fn lemma_bid_keeps_wf(store: Store, request: BidRequest)
    requires
        store.wf(),
    ensures
        store.after_bid(request).wf(),
        store.with_bid(request).wf(),
{
}

/// A session waits for nothing but the lock on the very row it asks for: the
/// store holds a command back exactly when the command locks the row of a
/// product and another session's transaction holds that lock. Sessions that
/// work on different products never wait for each other.
pub proof fn law_only_the_same_row_blocks(store: Store, session: usize, command: Command)
    requires
        store.wf(),
    ensures
        store.answer(session, command) is None <==> store.in_transaction(session) && (
        command.locks() matches Some(product_id) && exists|other: usize|
            other != session && #[trigger] store.holds_lock(other, product_id)),
{
    if store.in_transaction(session) {
        if let Some(product_id) = command.locks() {
            if store.held_by_other(session, product_id) {
                let other = store.locks[store.row_of(product_id)]->0;
                assert(store.holds_lock(other, product_id));
            }
        }
    }
}

/// Nothing but a commit changes what observers read: whatever else a session
/// asks, inside the sequence of a bid or outside it, products and history
/// stay as they are. What a transaction has staged is not visible before it
/// commits, and is never visible if it rolls back.
pub proof fn law_only_commit_writes(store: Store, session: usize, command: Command)
    requires
        command != Command::Commit,
    ensures
        store.same_books(store.state_after(session, command)),
{
}

/// When a transaction ends, by commit, by rollback or by the store's own
/// doing, every lock it held is free again and nothing is staged in its
/// session. The ending itself writes nothing.
pub proof fn law_end_releases_locks(store: Store, session: usize)
    requires
        store.wf(),
        store.in_transaction(session),
    ensures
        store.closed(session).wf(),
        !store.closed(session).in_transaction(session),
        forall|i: int|
            0 <= i < store.locks.len() ==> (#[trigger] store.closed(session).locks[i]) != Some(
                session,
            ),
        forall|product_id: i32| !store.closed(session).holds_lock(session, product_id),
        store.same_books(store.closed(session)),
{
    assert forall|product_id: i32| !store.closed(session).holds_lock(session, product_id) by {
        let after = store.closed(session);
        if after.has_product(product_id) {
            let row = after.row_of(product_id);
            assert(after.is_row_of(row, product_id));
            assert(after.locks[row] != Some(session));
        }
    }
}

} // verus!
