//! Bidders that race while the store is well.
//!
//! Here every command is answered and nothing fails: no fault, no lost
//! reply, no aborted transaction. Then every bid for a product that is there
//! ends accepted or rejected, the price of a product ends at the highest of
//! its starting price and the amounts bid for it, and two bids for one
//! product end as if they had been carried out one after the other.

use crate::clock::Timestamp;
use crate::concurrency::{
    becomes_accepted, law_step_is_atomic, law_step_never_lowers_price, lemma_answer_moves_client,
    lemma_answer_spares_others, lemma_same_products_same_prices, Event, System,
};
use crate::history::{
    extends, law_race_ends_at_higher_bid, lemma_committed_bid_effect, never_lower,
};
use crate::listing::{law_listing_is_exact, on_sale};
use crate::records::{BidRequest, Failure, Outcome, Product};
use crate::store::{
    lemma_bid_keeps_wf, lemma_row_is_unique, lemma_same_products_same_records,
    lemma_written_all_frame, Store,
};
use crate::transactor::{Phase, Progress};
use vstd::prelude::*;

verus! {

/// Whether a bid in this phase has its transaction open.
pub open spec fn in_flight(phase: Phase) -> bool {
    phase is Reading || phase is Updating || phase is Inserting || phase is Committing
        || phase is RollingBack
}

/// What a decided outcome says of the store: a bid that was accepted or
/// rejected is for a product that is there, at a price not below the amount;
/// a bid that found no product is for a product that is not there. No other
/// outcome is decided while the store is well.
pub open spec fn settled(store: Store, progress: Progress) -> bool {
    let request = progress.request;
    let priced = store.has_product(request.product_id) && request.amount@ <= store.price_of(
        request.product_id,
    )@;
    match progress.phase {
        Phase::RollingBack(outcome) | Phase::Finished(outcome) => match outcome {
            Outcome::Accepted => priced,
            Outcome::RejectedTooLow => priced,
            Outcome::Failed(Failure::NotFound) => !store.has_product(request.product_id),
            Outcome::Failed(_) => false,
        },
        _ => true,
    }
}

/// The invariant of a system in which the bidders `bidders` race while the
/// store is well: beside the system's own invariant, each of them has its
/// transaction open exactly in the phases between begin and end, and each
/// decided outcome is borne out by the store.
pub open spec fn calm(system: System, bidders: Set<usize>) -> bool {
    &&& system.inv()
    &&& forall|s: usize| #[trigger]
        bidders.contains(s) ==> {
            &&& s < system.clients.len()
            &&& system.store.in_transaction(s) <==> in_flight(system.clients[s as int].phase)
            &&& settled(system.store, system.clients[s as int])
        }
}

/// An answered command of one bidder keeps the products known: none comes
/// and none goes.
pub proof fn lemma_step_keeps_products(system: System, event: Event)
    requires
        system.inv(),
        system.next_by(event) is Some,
    ensures
        forall|product_id: i32|
            system.store.has_product(product_id) <==> system.next_by(event)->0.store.has_product(
                product_id,
            ),
{
    let after = system.next_by(event)->0;
    law_step_is_atomic(system, event);
    if system.store.same_books(after.store) {
        lemma_same_products_same_records(system.store, after.store);
    } else {
        let session = event->Answered_session;
        lemma_committed_bid_effect(
            system.store,
            after.store,
            system.clients[session as int].request,
        );
    }
}

/// While the store is well, an answered command of one of the bidders leaves
/// the system calm.
pub proof fn lemma_calm_step(system: System, bidders: Set<usize>, session: usize)
    requires
        calm(system, bidders),
        bidders.contains(session),
        system.next_by(Event::Answered { session }) is Some,
    ensures
        calm(system.next_by(Event::Answered { session })->0, bidders),
{
    let event = Event::Answered { session };
    let after = system.next_by(event)->0;
    let client = system.clients[session as int];
    let command = client.pending()->Perform_0;
    law_step_is_atomic(system, event);
    law_step_never_lowers_price(system, event);
    lemma_step_keeps_products(system, event);
    assert forall|s: usize| #[trigger] bidders.contains(s) implies {
        &&& s < after.clients.len()
        &&& after.store.in_transaction(s) <==> in_flight(after.clients[s as int].phase)
        &&& settled(after.store, after.clients[s as int])
    } by {
        if s != session {
            lemma_answer_spares_others(system.store, session, client, s);
            assert(after.clients[s as int] == system.clients[s as int]);
        } else {
            lemma_own_step_settles(system, session);
        }
    }
}

/// The bidder's own answered command leaves its transaction open or closed
/// as its next phase says, and its outcome, once decided, borne out by the
/// store.
proof fn lemma_own_step_settles(system: System, session: usize)
    requires
        system.inv(),
        session < system.clients.len(),
        system.store.in_transaction(session) <==> in_flight(system.clients[session as int].phase),
        settled(system.store, system.clients[session as int]),
        system.next_by(Event::Answered { session }) is Some,
    ensures
        ({
            let after = system.next_by(Event::Answered { session })->0;
            &&& after.store.in_transaction(session) <==> in_flight(
                after.clients[session as int].phase,
            )
            &&& settled(after.store, after.clients[session as int])
        }),
{
    let event = Event::Answered { session };
    let after = system.next_by(event)->0;
    let client = system.clients[session as int];
    let request = client.request;
    let store = system.store;
    law_step_is_atomic(system, event);
    lemma_step_keeps_products(system, event);
    lemma_answer_moves_client(store, session, client);
    if store.same_books(after.store) {
        lemma_same_products_same_records(store, after.store);
    } else {
        lemma_committed_bid_effect(store, after.store, request);
    }
    let command = client.pending()->Perform_0;
    assert(after.store == store.state_after(session, command));
    assert(after.clients[session as int] == client.after(store.reply_to(session, command)));
    match client.phase {
        Phase::Committing => {
            lemma_written_all_frame(store, store.sessions[session as int].writes);
            assert(!after.store.in_transaction(session));
        },
        Phase::RollingBack(_) => {
            assert(!after.store.in_transaction(session));
        },
        _ => {},
    }
}

/// Whether the bidders stand at the start: each has a bid that has sent
/// nothing yet, and no transaction open.
pub open spec fn lined_up(system: System, bidders: Set<usize>) -> bool {
    &&& system.inv()
    &&& forall|s: usize| #[trigger]
        bidders.contains(s) ==> {
            &&& s < system.clients.len()
            &&& system.clients[s as int].phase is Beginning
            &&& !system.store.in_transaction(s)
        }
}

/// Whether bidder `s` has had its bid for product `product_id` accepted, and
/// the product stands at the amount of that bid.
pub open spec fn won(system: System, s: usize, product_id: i32) -> bool {
    &&& s < system.clients.len()
    &&& system.clients[s as int].phase == Phase::Finished(Outcome::Accepted)
    &&& system.clients[s as int].request.product_id == product_id
    &&& system.clients[s as int].request.amount == system.store.price_of(product_id)
}

/// What holds of a system `now` that the bidders have brought from `start`
/// while the store was well: it is calm, the bidders still carry the bids
/// they started with, the products are the same, no price is lower, and each
/// price is the starting price or the amount of an accepted bid of one of
/// the bidders.
pub open spec fn raced_from(start: System, now: System, bidders: Set<usize>) -> bool {
    &&& calm(now, bidders)
    &&& now.clients.len() == start.clients.len()
    &&& forall|s: usize| #[trigger]
        bidders.contains(s) ==> now.clients[s as int].request == start.clients[s as int].request
    &&& forall|product_id: i32|
        start.store.has_product(product_id) <==> now.store.has_product(product_id)
    &&& never_lower(start.store, now.store)
    &&& extends(start.store.bids, now.store.bids)
    &&& forall|product_id: i32| #[trigger]
        start.store.has_product(product_id) ==> now.store.price_of(product_id)
            == start.store.price_of(product_id) || exists|s: usize|
            bidders.contains(s) && #[trigger] won(now, s, product_id)
}

/// Whether `after` follows from `before` by the store answering the pending
/// command of one of the bidders.
pub open spec fn calm_next(before: System, after: System, bidders: Set<usize>) -> bool {
    exists|s: usize|
        bidders.contains(s) && #[trigger] before.next_by(Event::Answered { session: s }) == Some(
            after,
        )
}

/// Whether these states are a race of the bidders while the store is well:
/// they start lined up, and each state follows from the one before it by an
/// answered command of one of them, in any order.
pub open spec fn is_calm_run(states: Seq<System>, bidders: Set<usize>) -> bool {
    &&& states.len() > 0
    &&& lined_up(states[0], bidders)
    &&& forall|k: int|
        0 <= k < states.len() - 1 ==> calm_next(#[trigger] states[k], states[k + 1], bidders)
}

/// The bidders at the start have raced from the start.
pub proof fn lemma_race_starts(start: System, bidders: Set<usize>)
    requires
        lined_up(start, bidders),
    ensures
        raced_from(start, start, bidders),
{
    lemma_same_products_same_prices(start.store, start.store);
}

/// An answered command of one of the bidders takes a system that has raced
/// from `start` to another that has.
pub proof fn lemma_race_goes_on(start: System, now: System, bidders: Set<usize>, session: usize)
    requires
        raced_from(start, now, bidders),
        bidders.contains(session),
        now.next_by(Event::Answered { session }) is Some,
    ensures
        raced_from(start, now.next_by(Event::Answered { session })->0, bidders),
{
    let event = Event::Answered { session };
    let after = now.next_by(event)->0;
    let request = now.clients[session as int].request;
    lemma_calm_step(now, bidders, session);
    law_step_is_atomic(now, event);
    law_step_never_lowers_price(now, event);
    lemma_step_keeps_products(now, event);
    assert(never_lower(start.store, after.store)) by {
        assert forall|product_id: i32| #[trigger]
            start.store.has_product(product_id) implies after.store.has_product(product_id)
            && after.store.price_of(product_id)@ >= start.store.price_of(product_id)@ by {
            assert(now.store.has_product(product_id));
        }
    }
    if now.store.same_books(after.store) {
        lemma_same_products_same_records(now.store, after.store);
    } else {
        lemma_committed_bid_effect(now.store, after.store, request);
    }
    assert forall|product_id: i32| #[trigger]
        start.store.has_product(product_id) implies after.store.price_of(product_id)
        == start.store.price_of(product_id) || exists|s: usize|
        bidders.contains(s) && #[trigger] won(after, s, product_id) by {
        assert(now.store.has_product(product_id));
        if !now.store.same_books(after.store) && product_id == request.product_id {
            assert(won(after, session, product_id));
        } else if now.store.price_of(product_id) != start.store.price_of(product_id) {
            let s = choose|s: usize| bidders.contains(s) && #[trigger] won(now, s, product_id);
            assert(s != session);
            assert(after.clients[s as int] == now.clients[s as int]);
            assert(won(after, s, product_id));
        }
    }
}

/// At every state of a race the system has raced from its start.
pub proof fn lemma_race_holds(states: Seq<System>, bidders: Set<usize>, j: int)
    requires
        is_calm_run(states, bidders),
        0 <= j < states.len(),
    ensures
        raced_from(states[0], states[j], bidders),
    decreases j,
{
    if j == 0 {
        lemma_race_starts(states[0], bidders);
    } else {
        lemma_race_holds(states, bidders, j - 1);
        assert(calm_next(states[j - 1], states[j], bidders));
        let s = choose|s: usize|
            bidders.contains(s) && #[trigger] states[j - 1].next_by(Event::Answered { session: s })
                == Some(states[j]);
        lemma_race_goes_on(states[0], states[j - 1], bidders, s);
    }
}

/// Whether every one of the bidders has its bid ended.
pub open spec fn all_ended(system: System, bidders: Set<usize>) -> bool {
    forall|s: usize| #[trigger]
        bidders.contains(s) ==> s < system.clients.len() && system.clients[s as int].phase
            is Finished
}

/// However the commands of the bidders interleave, once all their bids have
/// ended while the store was well:
///
/// - every bid for a product that is there has ended accepted or rejected,
///   and the product's price is not below its amount; a bid for a product
///   that is not there has ended as not found;
/// - the price of every product is the highest of its starting price and
///   the amounts bid for it: it is below none of them, and it is the
///   starting price or the amount of an accepted bid;
/// - the listing shows each product at that price, so a rejected bid never
///   shows in a listed price.
pub proof fn law_prices_end_at_highest_bid(
    states: Seq<System>,
    bidders: Set<usize>,
    j: int,
    as_of: Timestamp,
)
    requires
        is_calm_run(states, bidders),
        0 <= j < states.len(),
        all_ended(states[j], bidders),
    ensures
        forall|s: usize| #[trigger]
            bidders.contains(s) ==> {
                let request = states[0].clients[s as int].request;
                let outcome = states[j].clients[s as int].outcome();
                if states[0].store.has_product(request.product_id) {
                    &&& outcome == Some(Outcome::Accepted) || outcome == Some(
                        Outcome::RejectedTooLow,
                    )
                    &&& states[j].store.price_of(request.product_id)@ >= request.amount@
                } else {
                    outcome == Some(Outcome::Failed(Failure::NotFound))
                }
            },
        forall|product_id: i32| #[trigger]
            states[0].store.has_product(product_id) ==> {
                &&& states[j].store.has_product(product_id)
                &&& states[j].store.price_of(product_id)@ >= states[0].store.price_of(product_id)@
                &&& states[j].store.price_of(product_id) == states[0].store.price_of(product_id)
                    || exists|s: usize|
                    bidders.contains(s) && #[trigger] won(states[j], s, product_id)
                        && states[0].clients[s as int].request
                        == states[j].clients[s as int].request
            },
        forall|p: Product| #[trigger]
            on_sale(states[j].store.products, as_of).contains(p) ==> p
                == states[j].store.product(p.product_id),
{
    let start = states[0];
    let end = states[j];
    lemma_race_holds(states, bidders, j);
    assert forall|product_id: i32| #[trigger] start.store.has_product(product_id) implies {
        &&& end.store.has_product(product_id)
        &&& end.store.price_of(product_id)@ >= start.store.price_of(product_id)@
        &&& end.store.price_of(product_id) == start.store.price_of(product_id) || exists|s: usize|
            bidders.contains(s) && #[trigger] won(end, s, product_id)
                && start.clients[s as int].request == end.clients[s as int].request
    } by {
        if end.store.price_of(product_id) != start.store.price_of(product_id) {
            let s = choose|s: usize| bidders.contains(s) && #[trigger] won(end, s, product_id);
            assert(start.clients[s as int].request == end.clients[s as int].request);
        }
    }
    law_listing_is_exact(end.store.products, as_of);
    assert forall|p: Product| #[trigger]
        on_sale(end.store.products, as_of).contains(p) implies p == end.store.product(
        p.product_id,
    ) by {
        assert(end.store.products.contains(p));
        let i = choose|i: int| 0 <= i < end.store.products.len() && end.store.products[i] == p;
        assert(end.store.is_row_of(i, p.product_id));
        lemma_row_is_unique(end.store, i, p.product_id);
    }
}

/// What observers read in a race of two bids for one product: the starting
/// store with those of the two bids committed that have been accepted, the
/// lower one first.
pub open spec fn duel_books(
    start: Store,
    higher: BidRequest,
    lower: BidRequest,
    higher_won: bool,
    lower_won: bool,
) -> Store {
    if higher_won && lower_won {
        start.with_bid(lower).with_bid(higher)
    } else if higher_won {
        start.with_bid(higher)
    } else if lower_won {
        start.with_bid(lower)
    } else {
        start
    }
}

/// Whether bidders `a` and `b` stand at the start of a race for one product
/// that is there and unlocked, both above its price, `a` with the higher bid.
pub open spec fn duel_start(start: System, a: usize, b: usize) -> bool {
    let higher = start.clients[a as int].request;
    let lower = start.clients[b as int].request;
    &&& a != b
    &&& lined_up(start, set![a, b])
    &&& higher.product_id == lower.product_id
    &&& start.store.has_product(higher.product_id)
    &&& !start.store.is_locked(higher.product_id)
    &&& higher.amount@ > lower.amount@ > start.store.price_of(higher.product_id)@
}

/// What holds of a race of two bids at every state: observers read the
/// starting store with the accepted bids committed, the lower one first; the
/// higher bid is never turned down; and the lower bid is turned down only
/// once the higher one has been accepted.
pub open spec fn duel(start: System, now: System, a: usize, b: usize) -> bool {
    let higher = start.clients[a as int].request;
    let lower = start.clients[b as int].request;
    let higher_won = now.clients[a as int].phase == Phase::Finished(Outcome::Accepted);
    let lower_won = now.clients[b as int].phase == Phase::Finished(Outcome::Accepted);
    let rejected = Outcome::RejectedTooLow;
    &&& raced_from(start, now, set![a, b])
    &&& duel_books(start.store, higher, lower, higher_won, lower_won).same_books(now.store)
    &&& match now.clients[a as int].phase {
        Phase::RollingBack(_) => false,
        Phase::Finished(outcome) => outcome == Outcome::Accepted,
        _ => true,
    }
    &&& match now.clients[b as int].phase {
        Phase::RollingBack(outcome) => outcome == rejected && higher_won,
        Phase::Finished(outcome) => outcome == Outcome::Accepted || (outcome == rejected
            && higher_won),
        _ => true,
    }
}

/// The prices that a race of two bids can show.
proof fn lemma_duel_prices(start: Store, higher: BidRequest, lower: BidRequest)
    requires
        start.wf(),
        higher.product_id == lower.product_id,
        start.has_product(higher.product_id),
        higher.amount@ > lower.amount@ > start.price_of(higher.product_id)@,
    ensures
        start.with_bid(higher).wf(),
        start.with_bid(lower).wf(),
        start.with_bid(lower).with_bid(higher).wf(),
        start.with_bid(higher).price_of(higher.product_id) == higher.amount,
        start.with_bid(lower).price_of(higher.product_id) == lower.amount,
        start.with_bid(lower).with_bid(higher).price_of(higher.product_id) == higher.amount,
{
    lemma_bid_keeps_wf(start, higher);
    lemma_bid_keeps_wf(start, lower);
    lemma_bid_keeps_wf(start.with_bid(lower), higher);
    lemma_committed_bid_effect(start, start.with_bid(higher), higher);
    lemma_committed_bid_effect(start, start.with_bid(lower), lower);
    lemma_committed_bid_effect(
        start.with_bid(lower),
        start.with_bid(lower).with_bid(higher),
        higher,
    );
}

/// An answered command of either bidder keeps what holds of a race of two.
pub proof fn lemma_duel_goes_on(start: System, now: System, a: usize, b: usize, session: usize)
    requires
        duel_start(start, a, b),
        duel(start, now, a, b),
        session == a || session == b,
        now.next_by(Event::Answered { session }) is Some,
    ensures
        duel(start, now.next_by(Event::Answered { session })->0, a, b),
{
    let event = Event::Answered { session };
    let after = now.next_by(event)->0;
    let bidders = set![a, b];
    let higher = start.clients[a as int].request;
    let lower = start.clients[b as int].request;
    let product_id = higher.product_id;
    let higher_won = now.clients[a as int].phase == Phase::Finished(Outcome::Accepted);
    let lower_won = now.clients[b as int].phase == Phase::Finished(Outcome::Accepted);
    let books = duel_books(start.store, higher, lower, higher_won, lower_won);
    let client = now.clients[session as int];
    let command = client.pending()->Perform_0;
    assert(bidders.contains(a) && bidders.contains(b));
    lemma_race_goes_on(start, now, bidders, session);
    law_step_is_atomic(now, event);
    lemma_answer_moves_client(now.store, session, client);
    lemma_duel_prices(start.store, higher, lower);
    lemma_same_products_same_records(books, now.store);
    assert(books.has_product(product_id));
    assert(now.store.price_of(product_id) == books.price_of(product_id));
    assert(after.store == now.store.state_after(session, command));
    assert(after.clients[session as int] == client.after(now.store.reply_to(session, command)));
    assert(now.store.in_transaction(session) <==> in_flight(client.phase));
    if session == a {
        assert(after.clients[b as int] == now.clients[b as int]);
        assert(client.request == higher);
    } else {
        assert(after.clients[a as int] == now.clients[a as int]);
        assert(client.request == lower);
    }
    if !now.store.same_books(after.store) {
        assert(becomes_accepted(now, after, session)) by {
            assert(client.phase is Committing);
        }
    } else {
        assert(!becomes_accepted(now, after, session));
    }
}

/// At every state of a race of two bids, what holds of such a race holds.
pub proof fn lemma_duel_holds(states: Seq<System>, a: usize, b: usize, j: int)
    requires
        is_calm_run(states, set![a, b]),
        duel_start(states[0], a, b),
        0 <= j < states.len(),
    ensures
        duel(states[0], states[j], a, b),
    decreases j,
{
    let bidders = set![a, b];
    if j == 0 {
        assert(bidders.contains(a) && bidders.contains(b));
        lemma_race_starts(states[0], bidders);
    } else {
        lemma_duel_holds(states, a, b, j - 1);
        assert(calm_next(states[j - 1], states[j], bidders));
        let s = choose|s: usize|
            bidders.contains(s) && #[trigger] states[j - 1].next_by(Event::Answered { session: s })
                == Some(states[j]);
        lemma_duel_goes_on(states[0], states[j - 1], a, b, s);
    }
}

/// Two bids race for one product, both above its price, one higher than the
/// other, and the store is well. However their commands interleave, once
/// both have ended the outcome is that of carrying them out one after the
/// other in one of the two orders:
///
/// - the higher bid is accepted and the product stands at its amount;
/// - either the lower bid is rejected and the history has gained the higher
///   bid alone, as when the higher bid is carried out first;
/// - or the lower bid is accepted too and the history has gained the lower
///   bid and then the higher one, as when the lower bid is carried out
///   first.
///
/// Never are both accepted with the product at the lower amount, and never
/// does the history hold the higher bid before the lower one.
pub proof fn law_duel_ends_as_in_turn(states: Seq<System>, a: usize, b: usize, j: int)
    requires
        is_calm_run(states, set![a, b]),
        duel_start(states[0], a, b),
        0 <= j < states.len(),
        all_ended(states[j], set![a, b]),
    ensures
        ({
            let start = states[0].store;
            let end = states[j].store;
            let higher = states[0].clients[a as int].request;
            let lower = states[0].clients[b as int].request;
            let lower_outcome = states[j].clients[b as int].outcome();
            &&& states[j].clients[a as int].outcome() == Some(Outcome::Accepted)
            &&& end.price_of(higher.product_id) == higher.amount
            &&& {
                ||| {
                    &&& lower_outcome == Some(Outcome::RejectedTooLow)
                    &&& start.after_bid(higher).outcome_of(lower) == Outcome::RejectedTooLow
                    &&& start.after_bid(higher).after_bid(lower).same_books(end)
                    &&& end.bids == start.bids.push(higher.bid())
                }
                ||| {
                    &&& lower_outcome == Some(Outcome::Accepted)
                    &&& start.after_bid(lower).outcome_of(higher) == Outcome::Accepted
                    &&& start.after_bid(lower).after_bid(higher).same_books(end)
                    &&& end.bids == start.bids.push(lower.bid()).push(higher.bid())
                }
            }
        }),
{
    let bidders = set![a, b];
    let start = states[0].store;
    let end = states[j].store;
    let higher = states[0].clients[a as int].request;
    let lower = states[0].clients[b as int].request;
    assert(bidders.contains(a) && bidders.contains(b));
    lemma_duel_holds(states, a, b, j);
    law_race_ends_at_higher_bid(start, higher, lower);
    lemma_duel_prices(start, higher, lower);
    let higher_won = states[j].clients[a as int].phase == Phase::Finished(Outcome::Accepted);
    let lower_won = states[j].clients[b as int].phase == Phase::Finished(Outcome::Accepted);
    let books = duel_books(start, higher, lower, higher_won, lower_won);
    lemma_same_products_same_records(books, end);
    assert(books.has_product(higher.product_id));
}

} // verus!
