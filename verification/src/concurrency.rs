//! Many bidders at once.
//!
//! Each bidder drives a transactor of its own through a session of its own,
//! and the store answers their commands one at a time in whatever order they
//! arrive. A command may fail at any moment, and the store may abort any
//! transaction on its own. This module states that system and proves that,
//! whatever the interleaving, the committed data changes only by whole
//! accepted bids, each strictly above the price it replaces.

use crate::history::{
    extends, lemma_committed_bid_agrees, lemma_committed_bid_effect, lemma_same_books_agree,
    never_lower,
};
use crate::records::{BidRequest, Outcome};
use crate::store::{
    lemma_answer_keeps_wf, lemma_row_is_unique, lemma_writes_of_bid, lemma_written_all_frame,
    writes_of, Store, Write,
};
use crate::transactor::{Action, Command, Phase, Progress, Reply};
use vstd::prelude::*;

verus! {

/// The store and the bidders that talk to it: bidder `s` uses session `s`.
#[verifier::ext_equal]
pub struct System {
    pub store: Store,
    pub clients: Seq<Progress>,
}

/// What can happen next in the system.
pub enum Event {
    /// The store takes the pending command of this bidder and answers it.
    Answered { session: usize },
    /// The pending command of this bidder fails, or the bidder gives up
    /// waiting for a lock: the store changes nothing and the bidder sees a
    /// fault.
    Failed { session: usize },
    /// The store does what the pending command of this bidder asks, but the
    /// reply is lost and the bidder sees a fault. This cannot happen to a
    /// commit: a commit that fails has written nothing.
    Lost { session: usize },
    /// The store aborts the transaction of this session on its own.
    Aborted { session: usize },
    /// A bidder whose last bid has ended starts a new one.
    Arrived { session: usize, request: BidRequest },
}

impl Store {
    /// Whether `session` holds the lock on the row of the product that
    /// `request` bids for, and the amount exceeds the committed price there.
    pub open spec fn guards(self, session: usize, request: BidRequest) -> bool {
        exists|i: int|
            #[trigger] self.is_row_of(i, request.product_id) && self.locks[i] == Some(session)
                && request.amount@ > self.products[i].product_price@
    }
}

/// What holds of the store for a bidder in a given phase, as long as the
/// bidder's transaction is open.
pub open spec fn client_inv(store: Store, session: usize, progress: Progress) -> bool {
    &&& progress.phase != Phase::RollingBack(Outcome::Accepted)
    &&& store.in_transaction(session) ==> {
        let writes = store.sessions[session as int].writes;
        match progress.phase {
            Phase::Reading => writes == Seq::<Write>::empty(),
            Phase::Updating => writes == Seq::<Write>::empty() && store.guards(
                session,
                progress.request,
            ),
            Phase::Inserting => writes == writes_of(progress.request).take(1) && store.guards(
                session,
                progress.request,
            ),
            Phase::Committing => writes == writes_of(progress.request) && store.guards(
                session,
                progress.request,
            ),
            _ => true,
        }
    }
}

impl System {
    /// The system's invariant: the store's own, one bidder per session, and
    /// for each bidder what its phase says of the store.
    pub open spec fn inv(self) -> bool {
        &&& self.store.wf()
        &&& self.clients.len() == self.store.sessions.len()
        &&& forall|s: usize|
            s < self.clients.len() ==> client_inv(self.store, s, #[trigger] self.clients[s as int])
    }

    /// A system at rest: no transaction is open and no bid is under way.
    pub open spec fn init(self) -> bool {
        &&& self.store.wf()
        &&& self.clients.len() == self.store.sessions.len()
        &&& forall|s: int| 0 <= s < self.clients.len() ==> !(#[trigger] self.store.sessions[s]).open
        &&& forall|s: int|
            0 <= s < self.clients.len() ==> (#[trigger] self.clients[s]).phase is Finished
    }

    /// The system with the store replaced and bidder `session` moved on.
    pub open spec fn moved(self, store: Store, session: usize, progress: Progress) -> System {
        System { store, clients: self.clients.update(session as int, progress) }
    }

    /// Whether bidder `session` has a command pending for the store.
    pub open spec fn can_ask(self, session: usize) -> bool {
        session < self.clients.len() && self.clients[session as int].pending() is Perform
    }

    /// The system after `event`, where that event can happen.
    pub open spec fn next_by(self, event: Event) -> Option<System> {
        match event {
            Event::Answered { session } => {
                if self.can_ask(session) {
                    let client = self.clients[session as int];
                    match self.store.answer(session, client.pending()->Perform_0) {
                        Some((store, reply)) => Some(
                            self.moved(store, session, client.after(reply)),
                        ),
                        None => None,
                    }
                } else {
                    None
                }
            },
            Event::Failed { session } => {
                if self.can_ask(session) {
                    let client = self.clients[session as int];
                    Some(self.moved(self.store, session, client.after(Reply::Fault)))
                } else {
                    None
                }
            },
            Event::Lost { session } => {
                let client = self.clients[session as int];
                if self.can_ask(session) && client.pending() != Action::Perform(Command::Commit) {
                    match self.store.answer(session, client.pending()->Perform_0) {
                        Some((store, _)) => Some(
                            self.moved(store, session, client.after(Reply::Fault)),
                        ),
                        None => None,
                    }
                } else {
                    None
                }
            },
            Event::Aborted { session } => {
                if session < self.clients.len() && self.store.in_transaction(session) {
                    Some(System { store: self.store.closed(session), ..self })
                } else {
                    None
                }
            },
            Event::Arrived { session, request } => {
                if session < self.clients.len() && self.clients[session as int].phase is Finished {
                    Some(self.moved(self.store, session, Progress::start(request)))
                } else {
                    None
                }
            },
        }
    }

    /// Whether the system can go from this state to `after` in one event.
    pub open spec fn next(self, after: System) -> bool {
        exists|event: Event| self.next_by(event) == Some(after)
    }
}

/// A system at rest satisfies the invariant.
pub proof fn law_rest_satisfies_invariant(system: System)
    requires
        system.init(),
    ensures
        system.inv(),
{
}

/// Whether going from `store` to `after` leaves alone what session `j` has
/// in hand: its staged writes, the rows it has locked and their prices.
pub open spec fn undisturbed(store: Store, after: Store, j: usize) -> bool {
    &&& after.sessions.len() == store.sessions.len()
    &&& after.sessions[j as int] == store.sessions[j as int]
    &&& after.products.len() == store.products.len()
    &&& after.locks.len() == store.locks.len()
    &&& forall|i: int|
        0 <= i < store.products.len() ==> (#[trigger] after.products[i]).product_id
            == store.products[i].product_id
    &&& forall|i: int|
        0 <= i < store.locks.len() && #[trigger] store.locks[i] == Some(j) ==> after.locks[i]
            == Some(j) && after.products[i].product_price == store.products[i].product_price
}

/// What a bidder's phase says of the store still holds after a change that
/// left the bidder's session undisturbed.
pub proof fn lemma_undisturbed_keeps(store: Store, after: Store, j: usize, progress: Progress)
    requires
        store.wf(),
        j < store.sessions.len(),
        undisturbed(store, after, j),
        client_inv(store, j, progress),
    ensures
        client_inv(after, j, progress),
{
    let request = progress.request;
    if store.in_transaction(j) && store.guards(j, request) {
        let i = choose|i: int|
            #[trigger] store.is_row_of(i, request.product_id) && store.locks[i] == Some(j)
                && request.amount@ > store.products[i].product_price@;
        assert(after.is_row_of(i, request.product_id));
    }
}

/// A command of one bidder, answered by the store, leaves every other
/// session undisturbed.
pub proof fn lemma_answer_spares_others(store: Store, session: usize, client: Progress, j: usize)
    requires
        store.wf(),
        session < store.sessions.len(),
        j < store.sessions.len(),
        j != session,
        client_inv(store, session, client),
        client.pending() is Perform,
        store.answer(session, client.pending()->Perform_0) is Some,
    ensures
        undisturbed(store, store.state_after(session, client.pending()->Perform_0), j),
{
    let command = client.pending()->Perform_0;
    let after = store.state_after(session, command);
    let request = client.request;
    let pid = request.product_id;
    if store.sessions[session as int].open != (command != Command::Begin) {
    } else {
        match command {
            Command::Begin => {},
            Command::LockAndReadPrice { .. } => {
                assert forall|i: int|
                    0 <= i < store.locks.len() && #[trigger] store.locks[i] == Some(
                        j,
                    ) implies after.locks[i] == Some(j) by {
                    if store.is_row_of(i, pid) {
                        lemma_row_is_unique(store, i, pid);
                    }
                }
            },
            Command::UpdatePrice { .. } => {
                assert forall|i: int|
                    0 <= i < store.locks.len() && #[trigger] store.locks[i] == Some(
                        j,
                    ) implies after.locks[i] == Some(j) by {
                    if store.is_row_of(i, pid) {
                        lemma_row_is_unique(store, i, pid);
                    }
                }
            },
            Command::AppendBid { .. } => {},
            Command::Commit => {
                lemma_writes_of_bid(store, request);
                let held = choose|i: int|
                    #[trigger] store.is_row_of(i, pid) && store.locks[i] == Some(session)
                        && request.amount@ > store.products[i].product_price@;
                assert forall|i: int|
                    0 <= i < store.locks.len() && #[trigger] store.locks[i] == Some(
                        j,
                    ) implies after.locks[i] == Some(j) && after.products[i].product_price
                    == store.products[i].product_price by {
                    if store.is_row_of(i, pid) {
                        lemma_row_is_unique(store, i, pid);
                        lemma_row_is_unique(store, held, pid);
                    }
                }
            },
            Command::Rollback => {},
        }
    }
}

/// A command of a bidder, answered by the store, leaves the store as the
/// bidder's next phase says, and changes the committed data only where it is
/// the commit of the bidder's whole bid.
pub proof fn lemma_answer_moves_client(store: Store, session: usize, client: Progress)
    requires
        store.wf(),
        session < store.sessions.len(),
        client_inv(store, session, client),
        client.pending() is Perform,
        store.answer(session, client.pending()->Perform_0) is Some,
    ensures
        ({
            let after = store.state_after(session, client.pending()->Perform_0);
            let reply = store.reply_to(session, client.pending()->Perform_0);
            &&& client_inv(after, session, client.after(reply))
            &&& store.same_books(after) || (client.phase is Committing && client.after(reply).phase
                == Phase::Finished(Outcome::Accepted) && store.committed_bid(
                after,
                client.request,
            ))
            &&& client.after(reply).phase == Phase::Finished(Outcome::Accepted)
                && client.phase !is Finished ==> !store.same_books(after)
            &&& after.sessions.len() == store.sessions.len()
        }),
{
    let command = client.pending()->Perform_0;
    let after = store.state_after(session, command);
    let reply = store.reply_to(session, command);
    let request = client.request;
    let pid = request.product_id;
    if store.sessions[session as int].open != (command != Command::Begin) {
    } else {
        match command {
            Command::Begin => {},
            Command::LockAndReadPrice { .. } => {
                if store.has_product(pid) {
                    let row = store.row_of(pid);
                    assert(store.is_row_of(row, pid));
                    assert(after.is_row_of(row, pid));
                }
            },
            Command::UpdatePrice { .. } => {
                let held = choose|i: int|
                    #[trigger] store.is_row_of(i, pid) && store.locks[i] == Some(session)
                        && request.amount@ > store.products[i].product_price@;
                assert(after.is_row_of(held, pid));
                assert(after.sessions[session as int].writes =~= writes_of(request).take(1));
            },
            Command::AppendBid { .. } => {
                let held = choose|i: int|
                    #[trigger] store.is_row_of(i, pid) && store.locks[i] == Some(session)
                        && request.amount@ > store.products[i].product_price@;
                assert(after.is_row_of(held, pid));
                assert(after.sessions[session as int].writes =~= writes_of(request));
            },
            Command::Commit => {
                lemma_writes_of_bid(store, request);
                let held = choose|i: int|
                    #[trigger] store.is_row_of(i, pid) && store.locks[i] == Some(session)
                        && request.amount@ > store.products[i].product_price@;
                lemma_row_is_unique(store, held, pid);
                lemma_written_all_frame(store, writes_of(request));
                assert(store.committed_bid(after, request));
                assert(after.bids.len() == store.bids.len() + 1);
                assert(!store.same_books(after));
            },
            Command::Rollback => {},
        }
    }
}

/// Whether the step from `before` to `after` by `event` either shows
/// observers the same committed data, or is the commit of one bidder's whole
/// bid, above the price it replaces, and the step in which that bidder's bid
/// becomes accepted.
pub open spec fn step_is_atomic(before: System, event: Event, after: System) -> bool {
    ||| before.store.same_books(after.store)
    ||| {
        &&& event matches Event::Answered { session }
        &&& session < before.clients.len()
        &&& before.clients[session as int].phase is Committing
        &&& after.clients[session as int].phase == Phase::Finished(Outcome::Accepted)
        &&& before.store.committed_bid(after.store, before.clients[session as int].request)
    }
}

/// Whether the step from `before` to `after` is one in which the bid of
/// bidder `s` becomes accepted.
pub open spec fn becomes_accepted(before: System, after: System, s: usize) -> bool {
    &&& s < before.clients.len()
    &&& s < after.clients.len()
    &&& before.clients[s as int].outcome() != Some(Outcome::Accepted)
    &&& after.clients[s as int].outcome() == Some(Outcome::Accepted)
}

/// Every step keeps the invariant, and every step is atomic to observers:
/// the committed data stays as it is, or price, highest bidder and history
/// change together by one bid that exceeds the price it replaces. A bid
/// becomes accepted in no other step than the one that commits it.
pub proof fn law_step_is_atomic(system: System, event: Event)
    requires
        system.inv(),
        system.next_by(event) is Some,
    ensures
        system.next_by(event)->0.inv(),
        step_is_atomic(system, event, system.next_by(event)->0),
        forall|s: usize| #[trigger]
            becomes_accepted(system, system.next_by(event)->0, s) ==> !system.store.same_books(
                system.next_by(event)->0.store,
            ),
{
    let after = system.next_by(event)->0;
    assert forall|j: usize| j < after.clients.len() implies client_inv(
        after.store,
        j,
        #[trigger] after.clients[j as int],
    ) by {
        match event {
            Event::Answered { session } | Event::Lost { session } => {
                let client = system.clients[session as int];
                lemma_answer_moves_client(system.store, session, client);
                if j != session {
                    lemma_answer_spares_others(system.store, session, client, j);
                    lemma_undisturbed_keeps(system.store, after.store, j, system.clients[j as int]);
                }
            },
            Event::Aborted { session } => {
                if j != session {
                    assert(undisturbed(system.store, after.store, j));
                    lemma_undisturbed_keeps(system.store, after.store, j, system.clients[j as int]);
                }
            },
            Event::Failed { session } | Event::Arrived { session, .. } => {
                if j != session {
                    assert(after.clients[j as int] == system.clients[j as int]);
                }
            },
        }
    }
    match event {
        Event::Answered { session } | Event::Lost { session } => {
            let client = system.clients[session as int];
            lemma_answer_keeps_wf(system.store, session, client.pending()->Perform_0);
            lemma_answer_moves_client(system.store, session, client);
        },
        _ => {},
    }
}

/// Whether `event` is an event of bidder `session`: an answer to its pending
/// command, a failure of it, or a lost reply to it.
pub open spec fn is_event_of(event: Event, session: usize) -> bool {
    ||| event == (Event::Answered { session })
    ||| event == (Event::Failed { session })
    ||| event == (Event::Lost { session })
}

/// Every event of a bidder brings that bidder's bid closer to its end and
/// leaves every other bidder where it was: no bid is set back, started over
/// or tried again, and none needs more than six events of its own.
pub proof fn law_own_event_advances(system: System, event: Event, session: usize)
    requires
        system.next_by(event) is Some,
        is_event_of(event, session),
    ensures
        system.next_by(event)->0.clients[session as int].request
            == system.clients[session as int].request,
        system.next_by(event)->0.clients[session as int].steps_left()
            < system.clients[session as int].steps_left(),
        system.clients[session as int].steps_left() <= 6,
        forall|other: int|
            0 <= other < system.clients.len() && other != session ==> system.next_by(
                event,
            )->0.clients[other] == system.clients[other],
{
}

/// Only an accepted bid writes: a step that changes what observers read is a
/// step of the bidder whose bid becomes accepted in it. A bid that ends in
/// any other way, rejected or failed, has changed nothing in any of its
/// steps.
pub proof fn law_only_accepted_bids_write(system: System, event: Event)
    requires
        system.inv(),
        system.next_by(event) is Some,
        !system.store.same_books(system.next_by(event)->0.store),
    ensures
        event matches Event::Answered { session } && becomes_accepted(
            system,
            system.next_by(event)->0,
            session,
        ),
{
    law_step_is_atomic(system, event);
}

/// No step lowers a price or removes a product or a bid: whatever the
/// interleaving, each price that observers read is at least the price read
/// before.
pub proof fn law_step_never_lowers_price(system: System, event: Event)
    requires
        system.inv(),
        system.next_by(event) is Some,
    ensures
        never_lower(system.store, system.next_by(event)->0.store),
        extends(system.store.bids, system.next_by(event)->0.store.bids),
{
    let after = system.next_by(event)->0;
    law_step_is_atomic(system, event);
    if !system.store.same_books(after.store) {
        let session = event->Answered_session;
        lemma_committed_bid_effect(
            system.store,
            after.store,
            system.clients[session as int].request,
        );
    } else {
        lemma_same_products_same_prices(system.store, after.store);
    }
}

/// No step breaks the agreement of products and history: the bids of each
/// product stay in ascending order of amount, and the price stays that of
/// the newest bid.
pub proof fn law_step_keeps_history(system: System, event: Event)
    requires
        system.inv(),
        system.store.history_agrees(),
        system.next_by(event) is Some,
    ensures
        system.next_by(event)->0.store.history_agrees(),
{
    let after = system.next_by(event)->0;
    law_step_is_atomic(system, event);
    if !system.store.same_books(after.store) {
        let session = event->Answered_session;
        lemma_committed_bid_agrees(
            system.store,
            after.store,
            system.clients[session as int].request,
        );
    } else {
        lemma_same_books_agree(system.store, after.store);
    }
}

/// Two stores with the same products show the same prices.
pub proof fn lemma_same_products_same_prices(before: Store, after: Store)
    requires
        before.wf(),
        after.products == before.products,
    ensures
        never_lower(before, after),
{
    assert forall|product_id: i32| #[trigger]
        before.has_product(product_id) implies after.has_product(product_id) && after.price_of(
        product_id,
    )@ >= before.price_of(product_id)@ by {
        let i = before.row_of(product_id);
        assert(before.is_row_of(i, product_id));
        assert(after.is_row_of(i, product_id));
        let j = after.row_of(product_id);
        assert(before.is_row_of(j, product_id));
        lemma_row_is_unique(before, j, product_id);
    }
}

/// Whether these states are a run of the system: the first satisfies the
/// invariant and each of the others follows from the one before it by one
/// event.
pub open spec fn is_run(states: Seq<System>) -> bool {
    &&& states.len() > 0
    &&& states[0].inv()
    &&& forall|k: int| 0 <= k < states.len() - 1 ==> (#[trigger] states[k]).next(states[k + 1])
}

/// Along any run, whatever the bidders do and in whatever order the store
/// answers them, the price of a product is never lower at a later state than
/// at an earlier one, and the history at the earlier state is the beginning
/// of the history at the later one.
pub proof fn law_run_never_lowers_price(states: Seq<System>, i: int, j: int)
    requires
        is_run(states),
        0 <= i <= j < states.len(),
    ensures
        states[j].inv(),
        never_lower(states[i].store, states[j].store),
        extends(states[i].store.bids, states[j].store.bids),
    decreases j,
{
    if j == 0 {
        lemma_same_products_same_prices(states[0].store, states[0].store);
    } else if i == j {
        law_run_never_lowers_price(states, 0, j - 1);
        assert(states[j - 1].next(states[j]));
        let event = choose|event: Event| #[trigger] states[j - 1].next_by(event) == Some(states[j]);
        law_step_is_atomic(states[j - 1], event);
        lemma_same_products_same_prices(states[j].store, states[j].store);
    } else {
        law_run_never_lowers_price(states, i, j - 1);
        assert(states[j - 1].next(states[j]));
        let event = choose|event: Event| #[trigger] states[j - 1].next_by(event) == Some(states[j]);
        law_step_is_atomic(states[j - 1], event);
        law_step_never_lowers_price(states[j - 1], event);
        let (a, b, c) = (states[i].store, states[j - 1].store, states[j].store);
        assert forall|product_id: i32| #[trigger] a.has_product(product_id) implies c.has_product(
            product_id,
        ) && c.price_of(product_id)@ >= a.price_of(product_id)@ by {
            assert(b.has_product(product_id));
        }
    }
}

/// Along any run that starts with products and history in agreement, they
/// agree at every state.
pub proof fn law_run_keeps_history(states: Seq<System>, j: int)
    requires
        is_run(states),
        states[0].store.history_agrees(),
        0 <= j < states.len(),
    ensures
        states[j].store.history_agrees(),
    decreases j,
{
    if j > 0 {
        law_run_keeps_history(states, j - 1);
        law_run_never_lowers_price(states, 0, j - 1);
        assert(states[j - 1].next(states[j]));
        let event = choose|event: Event| #[trigger] states[j - 1].next_by(event) == Some(states[j]);
        law_step_keeps_history(states[j - 1], event);
    }
}

} // verus!
