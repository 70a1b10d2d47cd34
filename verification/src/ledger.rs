//! An in-memory store.
//!
//! The ledger keeps products and bids in memory and answers the commands of
//! sessions as the store model says: reads for update lock a row, writes are
//! staged, and a commit makes them visible together. It never waits: where the
//! model has a session wait for a lock, the ledger gives no reply and the
//! caller asks again later.

use crate::amount::Amount;
use crate::clock::Timestamp;
use crate::history::{
    extends, law_bid_keeps_history, law_bid_never_lowers_price, lemma_new_product_agrees,
    never_lower,
};
use crate::listing::{list_active_products, on_sale};
use crate::records::{Bid, BidRequest, Outcome, Product};
use crate::store::{
    lemma_answer_keeps_wf, lemma_bid_keeps_wf, lemma_row_is_unique, lemma_writes_of_bid,
    lemma_written_all_frame, lemma_written_all_next, released, repriced, writes_of, SessionState,
    Store, Write,
};
use crate::transactor::{Action, Command, Phase, Progress, Reply, Transactor};
use vstd::prelude::*;

verus! {

/// A session of the ledger.
struct Session {
    open: bool,
    writes: Vec<Write>,
}

impl View for Session {
    type V = SessionState;

    closed spec fn view(&self) -> SessionState {
        SessionState { open: self.open, writes: self.writes@ }
    }
}

/// A store held in memory.
pub struct Ledger {
    products: Vec<Product>,
    locks: Vec<Option<usize>>,
    bids: Vec<Bid>,
    sessions: Vec<Session>,
}

impl View for Ledger {
    type V = Store;

    closed spec fn view(&self) -> Store {
        Store {
            products: self.products@,
            locks: self.locks@,
            bids: self.bids@,
            sessions: self.sessions@.map_values(|s: Session| s@),
        }
    }
}

impl Ledger {
    /// The ledger's invariant: that of the store it stands for.
    pub open spec fn wf(&self) -> bool {
        self@.wf()
    }

    /// A ledger with no product, no bid and no session.
    pub fn new() -> (ledger: Ledger)
        ensures
            ledger.wf(),
            ledger@ == Store::empty(),
            ledger@.history_agrees(),
    {
        let ledger = Ledger {
            products: Vec::new(),
            locks: Vec::new(),
            bids: Vec::new(),
            sessions: Vec::new(),
        };
        assert(ledger@ =~~= Store::empty());
        ledger
    }

    /// The row of product `product_id`, if the ledger has that product.
    fn find_row(&self, product_id: i32) -> (row: Option<usize>)
        requires
            self.wf(),
        ensures
            row is Some <==> self@.has_product(product_id),
            row matches Some(i) ==> self@.is_row_of(i as int, product_id) && self@.row_of(
                product_id,
            ) == i,
    {
        let mut i: usize = 0;
        while i < self.products.len()
            invariant
                self.wf(),
                i <= self.products.len(),
                forall|k: int| 0 <= k < i ==> !self@.is_row_of(k, product_id),
            decreases self.products.len() - i,
        {
            if self.products[i].product_id == product_id {
                proof {
                    lemma_row_is_unique(self@, i as int, product_id);
                }
                return Some(i);
            }
            i += 1;
        }
        None
    }

    /// Adds a product, unless the ledger already has one with its identifier.
    /// Returns whether the product was added.
    pub fn add_product(&mut self, product: Product) -> (added: bool)
        requires
            old(self).wf(),
        ensures
            final(self).wf(),
            added == !old(self)@.has_product(product.product_id),
            added ==> final(self)@ == old(self)@.with_product(product),
            !added ==> final(self)@ == old(self)@,
            old(self)@.history_agrees() ==> final(self)@.history_agrees(),
    {
        match self.find_row(product.product_id) {
            Some(_) => false,
            None => {
                proof {
                    lemma_new_product_agrees(self@, product);
                }
                self.products.push(product);
                self.locks.push(None);
                assert(self@ =~~= old(self)@.with_product(product));
                assert forall|i: int, j: int|
                    0 <= i < j < self@.products.len() implies self@.products[i].product_id
                    != self@.products[j].product_id by {
                    if j == old(self)@.products.len() {
                        assert(!old(self)@.is_row_of(i, product.product_id));
                    }
                }
                true
            },
        }
    }

    /// Opens a new session, with no transaction, and returns its number.
    pub fn connect(&mut self) -> (session: usize)
        requires
            old(self).wf(),
        ensures
            final(self).wf(),
            session == old(self)@.sessions.len(),
            final(self)@ == old(self)@.with_new_session(),
    {
        let session = self.sessions.len();
        self.sessions.push(Session { open: false, writes: Vec::new() });
        assert(self@ =~~= old(self)@.with_new_session());
        session
    }

    /// The committed price of product `product_id`, if the ledger has that
    /// product.
    pub fn price_of(&self, product_id: i32) -> (price: Option<Amount>)
        requires
            self.wf(),
        ensures
            price is Some <==> self@.has_product(product_id),
            price matches Some(p) ==> p == self@.price_of(product_id),
    {
        match self.find_row(product_id) {
            Some(i) => Some(self.products[i].product_price),
            None => None,
        }
    }

    /// The committed record of product `product_id`, if the ledger has that
    /// product.
    pub fn product(&self, product_id: i32) -> (product: Option<Product>)
        requires
            self.wf(),
        ensures
            product is Some <==> self@.has_product(product_id),
            product matches Some(p) ==> p == self@.product(product_id),
    {
        match self.find_row(product_id) {
            Some(i) => Some(self.products[i].duplicate()),
            None => None,
        }
    }

    /// The products that are on sale at `as_of`, as committed, in the order
    /// in which they were added: those whose expiry lies strictly after
    /// `as_of`. Locks and staged writes play no part.
    pub fn list_active_products(&self, as_of: Timestamp) -> (listed: Vec<Product>)
        ensures
            listed@ == on_sale(self@.products, as_of),
    {
        list_active_products(&self.products, as_of)
    }

    /// The committed history of bids, oldest first.
    pub fn bids(&self) -> (bids: &Vec<Bid>)
        ensures
            bids@ == self@.bids,
    {
        &self.bids
    }
}

impl Ledger {
    /// Takes the lock on row `row` for `session`.
    fn lock_row(&mut self, session: usize, row: usize)
        requires
            old(self).wf(),
            row < old(self)@.products.len(),
        ensures
            final(self)@ == old(self)@.locked(
                session,
                old(self)@.products[row as int].product_id,
            ),
    {
        let ghost product_id = self@.products[row as int].product_id;
        self.locks[row] = Some(session);
        proof {
            assert forall|j: int| 0 <= j < self@.locks.len() implies self@.locks[j] == old(
                self,
            )@.locked(session, product_id).locks[j] by {
                if old(self)@.is_row_of(j, product_id) {
                    lemma_row_is_unique(old(self)@, j, product_id);
                    lemma_row_is_unique(old(self)@, row as int, product_id);
                }
            }
            assert(self@ =~~= old(self)@.locked(session, product_id));
        }
    }

    /// Stages `write` in the transaction of `session`.
    fn stage(&mut self, session: usize, write: Write)
        requires
            old(self)@.in_transaction(session),
        ensures
            final(self)@ == old(self)@.staged(session, write),
    {
        self.sessions[session].writes.push(write);
        assert(self@ =~~= old(self)@.staged(session, write));
    }

    /// Makes `write` to the committed data.
    fn write(&mut self, write: Write)
        requires
            old(self).wf(),
        ensures
            final(self)@ == old(self)@.written(write),
    {
        match write {
            Write::SetPrice { product_id, amount, bidder } => {
                match self.find_row(product_id) {
                    Some(row) => {
                        self.products[row].product_price = amount;
                        self.products[row].current_bid_owner = Some(bidder);
                        proof {
                            assert forall|j: int|
                                0 <= j < self@.products.len() implies self@.products[j]
                                == repriced(old(self)@.products, product_id, amount, bidder)[j] by {
                                if old(self)@.is_row_of(j, product_id) {
                                    lemma_row_is_unique(old(self)@, j, product_id);
                                }
                            }
                        }
                    },
                    None => {
                        assert forall|j: int|
                            0 <= j < self@.products.len() implies self@.products[j] == repriced(
                            old(self)@.products,
                            product_id,
                            amount,
                            bidder,
                        )[j] by {
                            assert(!self@.is_row_of(j, product_id));
                        }
                    },
                }
                assert(self@ =~~= old(self)@.written(write));
            },
            Write::AppendBid { bid } => {
                self.bids.push(bid);
                assert(self@ =~~= old(self)@.written(write));
            },
        }
    }

    /// Ends the transaction of `session`: releases its locks and drops what
    /// is staged in it.
    fn close(&mut self, session: usize)
        requires
            old(self)@.in_transaction(session),
        ensures
            final(self)@ == old(self)@.closed(session),
    {
        let ghost before = self@;
        let mut i: usize = 0;
        while i < self.locks.len()
            invariant
                i <= self.locks.len(),
                self@.locks.len() == before.locks.len(),
                self@.products == before.products,
                self@.bids == before.bids,
                self@.sessions == before.sessions,
                session < self.sessions.len(),
                forall|j: int| 0 <= j < i ==> self@.locks[j] == released(before.locks, session)[j],
                forall|j: int| i <= j < self.locks.len() ==> self@.locks[j] == before.locks[j],
            decreases self.locks.len() - i,
        {
            match self.locks[i] {
                Some(owner) => {
                    if owner == session {
                        self.locks[i] = None;
                    }
                },
                None => {},
            }
            i += 1;
        }
        self.sessions[session].open = false;
        self.sessions[session].writes.clear();
        assert(self@ =~~= before.closed(session));
    }

    /// Makes the writes staged by `session` to the committed data and ends
    /// its transaction.
    fn commit(&mut self, session: usize)
        requires
            old(self).wf(),
            old(self)@.in_transaction(session),
        ensures
            final(self)@ == old(self)@.written_all(
                old(self)@.sessions[session as int].writes,
            ).closed(session),
    {
        let ghost before = self@;
        let ghost writes = before.sessions[session as int].writes;
        let count = self.sessions[session].writes.len();
        let mut k: usize = 0;
        while k < count
            invariant
                k <= count,
                count == writes.len(),
                before.wf(),
                self.wf(),
                session < self.sessions.len(),
                self@.sessions == before.sessions,
                writes == before.sessions[session as int].writes,
                self@ == before.written_all(writes.take(k as int)),
            decreases count - k,
        {
            let write = self.sessions[session].writes[k];
            proof {
                lemma_written_all_next(before, writes, k as int);
                lemma_written_all_frame(before, writes.take(k + 1));
            }
            self.write(write);
            k += 1;
        }
        assert(writes.take(count as int) =~= writes);
        self.close(session);
    }

    /// Gives the store a command of `session`. Returns the store's reply, or
    /// nothing where the session has to wait for a lock that another
    /// session's transaction holds: then nothing has changed and the command
    /// may be given again later.
    pub fn perform(&mut self, session: usize, command: Command) -> (reply: Option<Reply>)
        requires
            old(self).wf(),
        ensures
            final(self).wf(),
            match old(self)@.answer(session, command) {
                Some((after, answer)) => reply == Some(answer) && final(self)@ == after,
                None => reply is None && final(self)@ == old(self)@,
            },
    {
        proof {
            lemma_answer_keeps_wf(self@, session, command);
        }
        if session >= self.sessions.len() {
            return Some(Reply::Fault);
        }
        let begins = match command {
            Command::Begin => true,
            _ => false,
        };
        if self.sessions[session].open == begins {
            return Some(Reply::Fault);
        }
        match command {
            Command::Begin => {
                self.sessions[session].open = true;
                assert(self@ =~~= old(self)@.with_session(session, SessionState::fresh()));
                Some(Reply::Began)
            },
            Command::LockAndReadPrice { product_id } => {
                match self.find_row(product_id) {
                    None => Some(Reply::NotFound),
                    Some(row) => {
                        if self.waits_for(session, row) {
                            None
                        } else {
                            let price = self.products[row].product_price;
                            self.lock_row(session, row);
                            Some(Reply::Price(price))
                        }
                    },
                }
            },
            Command::UpdatePrice { product_id, amount, bidder } => {
                match self.find_row(product_id) {
                    None => {
                        proof {
                            let before = old(self)@;
                            assert forall|j: int| 0 <= j < before.locks.len() implies before.locked(
                                session,
                                product_id,
                            ).locks[j] == before.locks[j] by {
                                assert(!before.is_row_of(j, product_id));
                            }
                            assert(before.locked(session, product_id) =~~= before);
                        }
                    },
                    Some(row) => {
                        if self.waits_for(session, row) {
                            return None;
                        }
                        self.lock_row(session, row);
                    },
                }
                self.stage(session, Write::SetPrice { product_id, amount, bidder });
                Some(Reply::Done)
            },
            Command::AppendBid { bid } => {
                self.stage(session, Write::AppendBid { bid });
                Some(Reply::Done)
            },
            Command::Commit => {
                self.commit(session);
                Some(Reply::Done)
            },
            Command::Rollback => {
                self.close(session);
                Some(Reply::Done)
            },
        }
    }

    /// Whether `session` has to wait for the lock on row `row`: another
    /// session holds it.
    fn waits_for(&self, session: usize, row: usize) -> (waits: bool)
        requires
            row < self@.locks.len(),
        ensures
            waits == (self@.locks[row as int] matches Some(owner) && owner != session),
    {
        match self.locks[row] {
            Some(owner) => owner != session,
            None => false,
        }
    }
}

/// How far a bid, carried out in a session of its own that was added to
/// `before`, has changed the store when it has reached the phase of
/// `progress`.
spec fn bid_in_flight(before: Store, session: usize, progress: Progress, now: Store) -> bool {
    let request = progress.request;
    let due = before.outcome_of(request);
    let base = before.with_new_session();
    let opened = base.with_session(session, SessionState::fresh());
    let locked = opened.locked(session, request.product_id);
    let priced = locked.staged(session, writes_of(request)[0]);
    let full = priced.staged(session, writes_of(request)[1]);
    &&& session == before.sessions.len()
    &&& match progress.phase {
        Phase::Beginning => now == base,
        Phase::Reading => now == opened,
        Phase::Updating => due == Outcome::Accepted && now == locked,
        Phase::Inserting => due == Outcome::Accepted && now == priced,
        Phase::Committing => due == Outcome::Accepted && now == full,
        Phase::RollingBack(outcome) => outcome == due && outcome != Outcome::Accepted && (now
            == opened || (now == locked && outcome == Outcome::RejectedTooLow)),
        Phase::Finished(outcome) => outcome == due && now == before.after_bid(
            request,
        ).with_new_session(),
    }
}

/// One command of a bid in a session of its own, answered by the store,
/// takes the store from what one phase has made of it to what the next has.
proof fn lemma_bid_moves_on(before: Store, session: usize, progress: Progress, now: Store)
    requires
        before.wf(),
        now.wf(),
        bid_in_flight(before, session, progress, now),
        progress.pending() is Perform,
    ensures
        ({
            let command = progress.pending()->Perform_0;
            bid_in_flight(
                before,
                session,
                progress.after(now.reply_to(session, command)),
                now.state_after(session, command),
            )
        }),
{
    let request = progress.request;
    let pid = request.product_id;
    let command = progress.pending()->Perform_0;
    let next = now.state_after(session, command);
    let base = before.with_new_session();
    let opened = base.with_session(session, SessionState::fresh());
    let locked = opened.locked(session, pid);
    let priced = locked.staged(session, writes_of(request)[0]);
    let full = priced.staged(session, writes_of(request)[1]);
    assert(forall|i: int| now.is_row_of(i, pid) <==> before.is_row_of(i, pid));
    if before.has_product(pid) {
        let row = before.row_of(pid);
        assert(before.is_row_of(row, pid));
        assert(now.is_row_of(row, pid));
        lemma_row_is_unique(now, row, pid);
        lemma_row_is_unique(before, row, pid);
        assert(forall|i: int| 0 <= i < before.locks.len() ==> before.locks[i] != Some(session));
    } else {
        assert(forall|i: int| !now.is_row_of(i, pid));
    }
    match progress.phase {
        Phase::Beginning => {
            assert(next =~~= opened);
        },
        Phase::Reading => {},
        Phase::Updating => {
            assert(locked.locked(session, pid) =~~= locked);
            assert(next =~~= priced);
        },
        Phase::Inserting => {
            assert(next =~~= full);
        },
        Phase::Committing => {
            assert(full.sessions[session as int].writes =~= writes_of(request));
            lemma_writes_of_bid(full, request);
            assert(next =~~= before.with_bid(request).with_new_session());
        },
        Phase::RollingBack(_) => {
            assert(next =~~= base);
        },
        Phase::Finished(_) => {},
    }
}

impl Ledger {
    /// Carries out one bid at once: as one transaction in a session of its
    /// own, from begin to commit or rollback, without waiting. Where another
    /// session's open transaction holds the lock on the product's row, the
    /// bid gives up as on a lock-wait timeout.
    ///
    /// The outcome and the store afterwards are exactly those of the store
    /// model's `outcome_of` and `after_bid`: the bid is accepted, and price,
    /// highest bidder and history change together, if and only if the amount
    /// exceeds the committed price of a product that is there and unlocked;
    /// in every other case the store is left exactly as it was.
    pub fn place_bid(&mut self, request: BidRequest) -> (outcome: Outcome)
        requires
            old(self).wf(),
        ensures
            final(self).wf(),
            outcome == old(self)@.outcome_of(request),
            final(self)@ == old(self)@.after_bid(request),
            outcome != Outcome::Accepted ==> final(self)@ == old(self)@,
            outcome == Outcome::Accepted ==> final(self)@ == old(self)@.with_bid(request),
            never_lower(old(self)@, final(self)@),
            extends(old(self)@.bids, final(self)@.bids),
            old(self)@.history_agrees() ==> final(self)@.history_agrees(),
    {
        let ghost before = self@;
        let session = self.connect();
        let mut transactor = Transactor::start(request);
        loop
            invariant
                before == old(self)@,
                before.wf(),
                self.wf(),
                transactor@.request == request,
                bid_in_flight(before, session, transactor@, self@),
            decreases transactor@.steps_left(),
        {
            match transactor.pending() {
                Action::Respond(outcome) => {
                    let ghost ended = self@;
                    self.sessions.pop();
                    proof {
                        let after = before.after_bid(request);
                        assert(ended.sessions == after.sessions.push(SessionState::idle()));
                        assert forall|i: int|
                            0 <= i < after.sessions.len() implies self@.sessions[i]
                            == after.sessions[i] by {
                            assert(self@.sessions[i] == ended.sessions[i]);
                        }
                        assert(self@ =~~= after);
                        lemma_bid_keeps_wf(before, request);
                        law_bid_never_lowers_price(before, request);
                        if before.history_agrees() {
                            law_bid_keeps_history(before, request);
                        }
                    }
                    return outcome;
                },
                Action::Perform(command) => {
                    proof {
                        lemma_bid_moves_on(before, session, transactor@, self@);
                    }
                    let reply = match self.perform(session, command) {
                        Some(reply) => reply,
                        None => Reply::Fault,
                    };
                    transactor.step(reply);
                },
            }
        }
    }
}

} // verus!
