//! The decision sequence of one bid.
//!
//! A bid is carried out as one transaction against a store: open it, lock the
//! product's row and read its price, compare, update the price, append the
//! bid, commit. The store is somewhere else and every round trip to it may
//! fail, so the sequence is written as a state machine. It holds no store and
//! does no waiting: it names the next command, takes the store's reply, and
//! moves on. Whoever drives it performs the commands.

use crate::amount::Amount;
use crate::records::{Bid, BidRequest, Failure, Outcome};
use vstd::prelude::*;

verus! {

/// A command to the store, within the transaction of one session.
#[derive(Clone, Copy, Debug, PartialEq, Eq, Structural)]
pub enum Command {
    /// Open a transaction.
    Begin,
    /// Take the exclusive lock on the product's row, waiting for it if another
    /// transaction holds it, and read the price under the lock.
    LockAndReadPrice { product_id: i32 },
    /// Set the product's price and the holder of its highest bid.
    UpdatePrice { product_id: i32, amount: Amount, bidder: i32 },
    /// Append a bid to the history.
    AppendBid { bid: Bid },
    /// Make the transaction's writes durable and visible, and release its locks.
    Commit,
    /// Discard the transaction's writes and release its locks.
    Rollback,
}

impl Command {
    /// The product whose row the command locks, if it locks one.
    pub open spec fn locks(self) -> Option<i32> {
        match self {
            Command::LockAndReadPrice { product_id } => Some(product_id),
            Command::UpdatePrice { product_id, .. } => Some(product_id),
            _ => None,
        }
    }
}

/// What the driver has to do next.
#[derive(Clone, Copy, Debug, PartialEq, Eq, Structural)]
pub enum Action {
    /// Send the command to the store and hand its reply to `step`.
    Perform(Command),
    /// The bid has ended: report the outcome.
    Respond(Outcome),
}

/// The store's reply to a command.
#[derive(Clone, Copy, Debug, PartialEq, Eq, Structural)]
pub enum Reply {
    /// The transaction is open.
    Began,
    /// The row is locked; this is its price.
    Price(Amount),
    /// There is no such product.
    NotFound,
    /// The update, the insert, the commit or the rollback succeeded.
    Done,
    /// The store failed: connection loss, lock-wait timeout, constraint
    /// violation, or anything else.
    Fault,
}

/// Where a bid stands in its sequence; each phase waits for the reply to one
/// command.
#[derive(Clone, Copy, Debug, PartialEq, Eq, Structural)]
pub enum Phase {
    /// Waiting for the transaction to open.
    Beginning,
    /// Waiting for the lock and the price.
    Reading,
    /// Waiting for the price update.
    Updating,
    /// Waiting for the bid to be appended.
    Inserting,
    /// Waiting for the commit.
    Committing,
    /// Waiting for the rollback; the outcome is already decided.
    RollingBack(Outcome),
    /// Ended with this outcome.
    Finished(Outcome),
}

/// The state of one bid: the request and the phase it has reached.
#[derive(Clone, Copy, Debug, PartialEq, Eq, Structural)]
pub struct Progress {
    pub request: BidRequest,
    pub phase: Phase,
}

impl Progress {
    /// The state of a bid before anything was sent to the store.
    pub open spec fn start(request: BidRequest) -> Progress {
        Progress { request, phase: Phase::Beginning }
    }

    /// What the driver has to do in this state.
    pub open spec fn pending(self) -> Action {
        match self.phase {
            Phase::Beginning => Action::Perform(Command::Begin),
            Phase::Reading => Action::Perform(
                Command::LockAndReadPrice { product_id: self.request.product_id },
            ),
            Phase::Updating => Action::Perform(
                Command::UpdatePrice {
                    product_id: self.request.product_id,
                    amount: self.request.amount,
                    bidder: self.request.user_id,
                },
            ),
            Phase::Inserting => Action::Perform(Command::AppendBid { bid: self.request.bid() }),
            Phase::Committing => Action::Perform(Command::Commit),
            Phase::RollingBack(_) => Action::Perform(Command::Rollback),
            Phase::Finished(outcome) => Action::Respond(outcome),
        }
    }

    /// The phase that follows when the store answers the pending command with
    /// `reply`. A reply that does not answer the pending command counts as a
    /// failure of the store.
    pub open spec fn next_phase(self, reply: Reply) -> Phase {
        match self.phase {
            Phase::Beginning => match reply {
                Reply::Began => Phase::Reading,
                _ => Phase::Finished(Outcome::Failed(Failure::Begin)),
            },
            Phase::Reading => match reply {
                Reply::Price(price) => if self.request.amount@ > price@ {
                    Phase::Updating
                } else {
                    Phase::RollingBack(Outcome::RejectedTooLow)
                },
                Reply::NotFound => Phase::RollingBack(Outcome::Failed(Failure::NotFound)),
                _ => Phase::RollingBack(Outcome::Failed(Failure::Read)),
            },
            Phase::Updating => match reply {
                Reply::Done => Phase::Inserting,
                _ => Phase::RollingBack(Outcome::Failed(Failure::Update)),
            },
            Phase::Inserting => match reply {
                Reply::Done => Phase::Committing,
                _ => Phase::RollingBack(Outcome::Failed(Failure::Insert)),
            },
            Phase::Committing => match reply {
                Reply::Done => Phase::Finished(Outcome::Accepted),
                _ => Phase::RollingBack(Outcome::Failed(Failure::Commit)),
            },
            Phase::RollingBack(outcome) => Phase::Finished(outcome),
            Phase::Finished(outcome) => Phase::Finished(outcome),
        }
    }

    /// The state after the store answered the pending command with `reply`.
    pub open spec fn after(self, reply: Reply) -> Progress {
        Progress { request: self.request, phase: self.next_phase(reply) }
    }

    /// The state after the store gave these replies, one after the other.
    pub open spec fn after_all(self, replies: Seq<Reply>) -> Progress
        decreases replies.len(),
    {
        if replies.len() == 0 {
            self
        } else {
            self.after(replies[0]).after_all(replies.drop_first())
        }
    }

    /// The outcome, once the bid has ended.
    pub open spec fn outcome(self) -> Option<Outcome> {
        match self.phase {
            Phase::Finished(outcome) => Some(outcome),
            _ => None,
        }
    }

    /// An upper bound on the number of replies still needed to end the bid.
    pub open spec fn steps_left(self) -> nat {
        match self.phase {
            Phase::Beginning => 6,
            Phase::Reading => 5,
            Phase::Updating => 4,
            Phase::Inserting => 3,
            Phase::Committing => 2,
            Phase::RollingBack(_) => 1,
            Phase::Finished(_) => 0,
        }
    }
}

/// The state machine of one bid.
#[derive(Debug)]
pub struct Transactor {
    request: BidRequest,
    phase: Phase,
}

impl View for Transactor {
    type V = Progress;

    closed spec fn view(&self) -> Progress {
        Progress { request: self.request, phase: self.phase }
    }
}

impl Transactor {
    /// A transactor for `request`, with nothing sent to the store yet.
    pub fn start(request: BidRequest) -> (transactor: Transactor)
        ensures
            transactor@ == Progress::start(request),
    {
        Transactor { request, phase: Phase::Beginning }
    }

    /// The request that this transactor carries out.
    pub fn request(&self) -> (request: BidRequest)
        ensures
            request == self@.request,
    {
        self.request
    }

    /// The phase that the bid has reached.
    pub fn phase(&self) -> (phase: Phase)
        ensures
            phase == self@.phase,
    {
        self.phase
    }

    /// The outcome, once the bid has ended.
    pub fn outcome(&self) -> (outcome: Option<Outcome>)
        ensures
            outcome == self@.outcome(),
    {
        match self.phase {
            Phase::Finished(outcome) => Some(outcome),
            _ => None,
        }
    }

    /// What the driver has to do now.
    pub fn pending(&self) -> (action: Action)
        ensures
            action == self@.pending(),
    {
        match self.phase {
            Phase::Beginning => Action::Perform(Command::Begin),
            Phase::Reading => Action::Perform(
                Command::LockAndReadPrice { product_id: self.request.product_id },
            ),
            Phase::Updating => Action::Perform(
                Command::UpdatePrice {
                    product_id: self.request.product_id,
                    amount: self.request.amount,
                    bidder: self.request.user_id,
                },
            ),
            Phase::Inserting => Action::Perform(Command::AppendBid { bid: self.request.to_bid() }),
            Phase::Committing => Action::Perform(Command::Commit),
            Phase::RollingBack(_) => Action::Perform(Command::Rollback),
            Phase::Finished(outcome) => Action::Respond(outcome),
        }
    }

    /// Takes the store's reply to the pending command, moves to the next
    /// phase and returns what the driver has to do then.
    pub fn step(&mut self, reply: Reply) -> (action: Action)
        ensures
            final(self)@ == old(self)@.after(reply),
            action == final(self)@.pending(),
    {
        let next = match self.phase {
            Phase::Beginning => match reply {
                Reply::Began => Phase::Reading,
                _ => Phase::Finished(Outcome::Failed(Failure::Begin)),
            },
            Phase::Reading => match reply {
                Reply::Price(price) => if self.request.amount.exceeds(&price) {
                    Phase::Updating
                } else {
                    Phase::RollingBack(Outcome::RejectedTooLow)
                },
                Reply::NotFound => Phase::RollingBack(Outcome::Failed(Failure::NotFound)),
                _ => Phase::RollingBack(Outcome::Failed(Failure::Read)),
            },
            Phase::Updating => match reply {
                Reply::Done => Phase::Inserting,
                _ => Phase::RollingBack(Outcome::Failed(Failure::Update)),
            },
            Phase::Inserting => match reply {
                Reply::Done => Phase::Committing,
                _ => Phase::RollingBack(Outcome::Failed(Failure::Insert)),
            },
            Phase::Committing => match reply {
                Reply::Done => Phase::Finished(Outcome::Accepted),
                _ => Phase::RollingBack(Outcome::Failed(Failure::Commit)),
            },
            Phase::RollingBack(outcome) => Phase::Finished(outcome),
            Phase::Finished(outcome) => Phase::Finished(outcome),
        };
        self.phase = next;
        self.pending()
    }
}

/// Whether these replies, given in this order from the start of a bid, are
/// those of a transaction that opened, read a price below the amount, and saw
/// its update, its insert and its commit all succeed.
pub open spec fn committed_by(request: BidRequest, replies: Seq<Reply>) -> bool {
    &&& replies.len() >= 5
    &&& replies[0] == Reply::Began
    &&& replies[1] matches Reply::Price(price) && request.amount@ > price@
    &&& replies[2] == Reply::Done
    &&& replies[3] == Reply::Done
    &&& replies[4] == Reply::Done
}

/// Whether these replies, given in this order from the start of a bid, are
/// those of a transaction that opened, read a price that the amount does not
/// exceed, and was answered on its rollback.
pub open spec fn turned_down_by(request: BidRequest, replies: Seq<Reply>) -> bool {
    &&& replies.len() >= 3
    &&& replies[0] == Reply::Began
    &&& replies[1] matches Reply::Price(price) && request.amount@ <= price@
}

/// A reply to a bid that has not ended brings it closer to its end and never
/// changes the request; a bid that has ended stays as it is.
pub proof fn law_reply_advances(progress: Progress, reply: Reply)
    ensures
        progress.after(reply).request == progress.request,
        progress.phase !is Finished ==> progress.after(reply).steps_left() < progress.steps_left(),
        progress.phase is Finished ==> progress.after(reply) == progress,
{
}

/// Once a bid has ended, no further reply changes its outcome.
pub proof fn law_outcome_is_final(progress: Progress, replies: Seq<Reply>)
    requires
        progress.phase is Finished,
    ensures
        progress.after_all(replies) == progress,
    decreases replies.len(),
{
    if replies.len() > 0 {
        law_outcome_is_final(progress.after(replies[0]), replies.drop_first());
    }
}

/// Whatever the store answers, a bid ends after as many replies as its phase
/// still allows for.
pub proof fn law_ends_in_steps_left(progress: Progress, replies: Seq<Reply>)
    requires
        replies.len() >= progress.steps_left(),
    ensures
        progress.after_all(replies).phase is Finished,
    decreases replies.len(),
{
    if replies.len() > 0 {
        law_reply_advances(progress, replies[0]);
        law_ends_in_steps_left(progress.after(replies[0]), replies.drop_first());
    }
}

/// Whatever the store answers, a bid has ended after six replies: no sequence
/// of failures keeps a transaction open for ever.
pub proof fn law_ends_within_six_replies(request: BidRequest, replies: Seq<Reply>)
    requires
        replies.len() >= 6,
    ensures
        Progress::start(request).after_all(replies).phase is Finished,
{
    law_ends_in_steps_left(Progress::start(request), replies);
}

/// Taking one more reply is one more step from where the earlier replies led.
pub proof fn lemma_after_all_push(progress: Progress, replies: Seq<Reply>, reply: Reply)
    ensures
        progress.after_all(replies.push(reply)) == progress.after_all(replies).after(reply),
    decreases replies.len(),
{
    let longer = replies.push(reply);
    if replies.len() == 0 {
        assert(longer.drop_first() =~= replies);
        assert(progress.after(reply).after_all(longer.drop_first()) == progress.after(reply));
    } else {
        assert(longer.drop_first() =~= replies.drop_first().push(reply));
        lemma_after_all_push(progress.after(replies[0]), replies.drop_first(), reply);
    }
}

/// The phase that a bid has reached says exactly which replies came before.
proof fn lemma_phase_tells_replies(request: BidRequest, replies: Seq<Reply>)
    ensures
        ({
            let phase = Progress::start(request).after_all(replies).phase;
            let opened = replies.len() >= 1 && replies[0] == Reply::Began;
            let high = opened && replies.len() >= 2 && (replies[1] matches Reply::Price(price)
                && request.amount@ > price@);
            let low = opened && replies.len() >= 2 && (replies[1] matches Reply::Price(price)
                && request.amount@ <= price@);
            &&& phase is Beginning <==> replies.len() == 0
            &&& phase is Reading <==> opened && replies.len() == 1
            &&& phase is Updating <==> high && replies.len() == 2
            &&& phase is Inserting <==> high && replies.len() == 3 && replies[2] == Reply::Done
            &&& phase is Committing <==> high && replies.len() == 4 && replies[2] == Reply::Done
                && replies[3] == Reply::Done
            &&& phase == Phase::Finished(Outcome::Accepted) <==> committed_by(request, replies)
            &&& phase == Phase::RollingBack(Outcome::RejectedTooLow) <==> low && replies.len() == 2
            &&& phase == Phase::Finished(Outcome::RejectedTooLow) <==> turned_down_by(
                request,
                replies,
            )
            &&& phase != Phase::RollingBack(Outcome::Accepted)
            &&& Progress::start(request).after_all(replies).request == request
        }),
    decreases replies.len(),
{
    if replies.len() > 0 {
        let earlier = replies.drop_last();
        assert(replies =~= earlier.push(replies.last()));
        lemma_phase_tells_replies(request, earlier);
        lemma_after_all_push(Progress::start(request), earlier, replies.last());
        assert(forall|i: int| 0 <= i < earlier.len() ==> earlier[i] == replies[i]);
    }
}

/// A bid is accepted exactly when its transaction opened, the price read
/// under the lock was below the amount, and the update, the insert and the
/// commit all succeeded: never without a successful commit.
pub proof fn law_accepted_only_by_commit(request: BidRequest, replies: Seq<Reply>)
    ensures
        Progress::start(request).after_all(replies).outcome() == Some(Outcome::Accepted)
            <==> committed_by(request, replies),
{
    lemma_phase_tells_replies(request, replies);
}

/// A bid is rejected as too low exactly when the price read under the lock
/// was not below the amount, and then only after the rollback was answered.
pub proof fn law_rejected_only_by_price(request: BidRequest, replies: Seq<Reply>)
    ensures
        Progress::start(request).after_all(replies).outcome() == Some(Outcome::RejectedTooLow)
            <==> turned_down_by(request, replies),
{
    lemma_phase_tells_replies(request, replies);
}

/// A transaction that was opened is closed before the bid ends: the last
/// command of a bid is a commit that succeeded, a rollback, or a begin that
/// failed.
pub proof fn law_transaction_is_closed(progress: Progress, reply: Reply)
    requires
        progress.phase !is Finished,
        progress.after(reply).phase is Finished,
    ensures
        progress.pending() == Action::Perform(Command::Rollback)
            || (progress.pending() == Action::Perform(Command::Commit) && reply == Reply::Done
            && progress.after(reply).outcome() == Some(Outcome::Accepted))
            || (progress.pending() == Action::Perform(Command::Begin) && reply != Reply::Began),
{
}

/// Every failure of the store after the transaction opened is followed by a
/// rollback, and so is a bid that is too low.
pub proof fn law_failure_rolls_back(progress: Progress, reply: Reply)
    requires
        progress.phase is Reading || progress.phase is Updating || progress.phase is Inserting
            || progress.phase is Committing,
        reply == Reply::Fault || reply == Reply::NotFound || (reply matches Reply::Price(price)
            && progress.request.amount@ <= price@),
    ensures
        progress.after(reply).pending() == Action::Perform(Command::Rollback),
        progress.after(reply).phase matches Phase::RollingBack(outcome) && outcome
            != Outcome::Accepted,
{
}

} // verus!
