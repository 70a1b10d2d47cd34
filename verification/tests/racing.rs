use bid_ledger::amount::Amount;
use bid_ledger::clock::Timestamp;
use bid_ledger::ledger::Ledger;
use bid_ledger::records::{Bid, BidRequest, Outcome, Product};
use bid_ledger::transactor::{Action, Command, Reply, Transactor};

const PRODUCTS: [i32; 3] = [1, 2, 3];
const BIDDERS: usize = 5;

/// A small generator of numbers that look random and are the same each run.
struct Dice(u64);

impl Dice {
    fn roll(&mut self, sides: u64) -> u64 {
        self.0 = self.0.wrapping_mul(6364136223846793005).wrapping_add(1442695040888963407);
        (self.0 >> 33) % sides
    }
}

fn coin(value: f64) -> Amount {
    Amount::from_bits(value.to_bits()).unwrap()
}

fn ware(product_id: i32, price: f64) -> Product {
    Product {
        product_id,
        owner: 0,
        current_bid_owner: None,
        product_video: None,
        product_title: String::new(),
        product_description: String::new(),
        product_price: coin(price),
        sale_expiry: Timestamp::new(0, 0),
    }
}

fn prices(ledger: &Ledger) -> Vec<Amount> {
    PRODUCTS.iter().map(|id| ledger.price_of(*id).unwrap()).collect()
}

fn new_bid(dice: &mut Dice, bidder: usize) -> Transactor {
    let product_id = PRODUCTS[dice.roll(3) as usize];
    let amount = coin(dice.roll(400) as f64 / 4.0);
    Transactor::start(BidRequest { product_id, user_id: bidder as i32, amount })
}

/// Lets the bidders race through `steps` events: answers, failures, lost
/// replies and aborted transactions, in an order that the dice decide. After
/// every event the committed data is held against the state before it.
fn race(seed: u64, steps: usize) -> (Ledger, usize) {
    let mut dice = Dice(seed);
    let mut ledger = Ledger::new();
    for id in PRODUCTS {
        assert!(ledger.add_product(ware(id, 10.0)));
    }
    let mut bidders: Vec<Transactor> = Vec::new();
    for bidder in 0..BIDDERS {
        assert_eq!(ledger.connect(), bidder);
        bidders.push(new_bid(&mut dice, bidder));
    }
    let mut accepted = 0;
    for _ in 0..steps {
        let s = dice.roll(BIDDERS as u64) as usize;
        let prices_before = prices(&ledger);
        let bids_before: Vec<Bid> = ledger.bids().clone();
        let outcome_before = bidders[s].outcome();
        let request = bidders[s].request();
        match (bidders[s].pending(), dice.roll(10)) {
            (Action::Respond(_), _) => bidders[s] = new_bid(&mut dice, s),
            (Action::Perform(_), 0) => {
                bidders[s].step(Reply::Fault);
            }
            (Action::Perform(command), 1) if command != Command::Commit => {
                if ledger.perform(s, command).is_some() {
                    bidders[s].step(Reply::Fault);
                }
            }
            (Action::Perform(_), 2) => {
                ledger.perform(s, Command::Rollback);
            }
            (Action::Perform(command), _) => {
                if let Some(reply) = ledger.perform(s, command) {
                    bidders[s].step(reply);
                }
            }
        }
        let prices_after = prices(&ledger);
        let bids_after = ledger.bids();
        assert_eq!(&bids_after[..bids_before.len()], &bids_before[..]);
        for (before, after) in prices_before.iter().zip(&prices_after) {
            assert!(!before.exceeds(after), "a price has fallen");
        }
        if bids_after.len() == bids_before.len() {
            assert_eq!(prices_after, prices_before, "a price without its bid");
            assert!(outcome_before.is_some() || bidders[s].outcome() != Some(Outcome::Accepted));
        } else {
            accepted += 1;
            assert_eq!(bids_after.len(), bids_before.len() + 1);
            let bid = bids_after[bids_before.len()];
            assert_eq!(bid, request.to_bid());
            assert_eq!(outcome_before, None);
            assert_eq!(bidders[s].outcome(), Some(Outcome::Accepted));
            for (k, id) in PRODUCTS.iter().enumerate() {
                if *id == bid.product_id {
                    assert!(bid.amount.exceeds(&prices_before[k]));
                    assert_eq!(prices_after[k], bid.amount);
                    assert_eq!(ledger.product(*id).unwrap().current_bid_owner, Some(bid.user_id));
                } else {
                    assert_eq!(prices_after[k], prices_before[k]);
                }
            }
        }
    }
    (ledger, accepted)
}

#[test]
fn racing_bidders_never_lower_a_price_or_split_a_bid() {
    let mut total = 0;
    for seed in 1..=20 {
        let (_, accepted) = race(seed, 3_000);
        total += accepted;
    }
    assert!(total > 100, "the race accepted only {total} bids");
}

#[test]
fn after_a_race_each_history_ascends_to_the_price() {
    for seed in 100..110 {
        let (ledger, _) = race(seed, 3_000);
        for id in PRODUCTS {
            let history: Vec<Amount> =
                ledger.bids().iter().filter(|b| b.product_id == id).map(|b| b.amount).collect();
            assert!(history.windows(2).all(|pair| pair[1].exceeds(&pair[0])));
            match history.last() {
                Some(latest) => assert_eq!(ledger.price_of(id), Some(*latest)),
                None => assert_eq!(ledger.price_of(id), Some(coin(10.0))),
            }
        }
    }
}

/// Carries out two bids for product 1, which starts at 100, taking at each
/// turn the next command of the first bidder where `schedule` has a zero bit
/// and of the second where it has a one; a bidder that has ended or has to
/// wait passes its turn.
fn duel(schedule: u32) -> (Ledger, Option<Outcome>, Option<Outcome>) {
    let mut ledger = Ledger::new();
    assert!(ledger.add_product(ware(1, 100.0)));
    let a = ledger.connect();
    let b = ledger.connect();
    let higher = BidRequest { product_id: 1, user_id: 1, amount: coin(150.0) };
    let lower = BidRequest { product_id: 1, user_id: 2, amount: coin(120.0) };
    let mut bid_a = Transactor::start(higher);
    let mut bid_b = Transactor::start(lower);
    for turn in 0..24 {
        let (session, bid) =
            if (schedule >> turn) & 1 == 0 { (a, &mut bid_a) } else { (b, &mut bid_b) };
        if let Action::Perform(command) = bid.pending() {
            if let Some(reply) = ledger.perform(session, command) {
                bid.step(reply);
            }
        }
    }
    (ledger, bid_a.outcome(), bid_b.outcome())
}

#[test]
fn every_interleaving_of_two_bids_ends_as_in_turn() {
    let higher = Bid { amount: coin(150.0), user_id: 1, product_id: 1 };
    let lower = Bid { amount: coin(120.0), user_id: 2, product_id: 1 };
    let mut higher_alone = 0;
    let mut both = 0;
    let mut unfinished = 0;
    for schedule in 0..(1u32 << 24) {
        // Schedules are taken sparsely beyond the first turns, where they
        // differ most; every order of the first twelve turns is covered.
        if schedule >= (1 << 12) && schedule % 4099 != 0 {
            continue;
        }
        let (ledger, outcome_a, outcome_b) = duel(schedule);
        if outcome_a.is_none() || outcome_b.is_none() {
            unfinished += 1;
            continue;
        }
        assert_eq!(outcome_a, Some(Outcome::Accepted), "schedule {schedule}");
        assert_eq!(ledger.price_of(1), Some(coin(150.0)), "schedule {schedule}");
        assert_eq!(ledger.product(1).unwrap().current_bid_owner, Some(1));
        match outcome_b {
            Some(Outcome::RejectedTooLow) => {
                assert_eq!(ledger.bids(), &vec![higher], "schedule {schedule}");
                higher_alone += 1;
            }
            Some(Outcome::Accepted) => {
                assert_eq!(ledger.bids(), &vec![lower, higher], "schedule {schedule}");
                both += 1;
            }
            other => panic!("schedule {schedule} ended the lower bid as {other:?}"),
        }
    }
    assert!(higher_alone > 0 && both > 0);
    assert!(unfinished > 0, "a bidder that is never given a turn cannot end");
}

#[test]
fn after_a_race_without_failures_each_price_is_the_highest_bid() {
    for seed in 1..=50u64 {
        let mut dice = Dice(seed);
        let mut ledger = Ledger::new();
        for id in PRODUCTS {
            assert!(ledger.add_product(ware(id, 10.0)));
        }
        let mut bidders: Vec<Transactor> = Vec::new();
        for bidder in 0..8 {
            assert_eq!(ledger.connect(), bidder);
            bidders.push(new_bid(&mut dice, bidder));
        }
        while bidders.iter().any(|bid| bid.outcome().is_none()) {
            let s = dice.roll(8) as usize;
            if let Action::Perform(command) = bidders[s].pending() {
                if let Some(reply) = ledger.perform(s, command) {
                    bidders[s].step(reply);
                }
            }
        }
        let listed = ledger.list_active_products(Timestamp::new(-1, 0));
        assert_eq!(listed.len(), PRODUCTS.len());
        for product in &listed {
            let mut highest = coin(10.0);
            for bid in &bidders {
                let request = bid.request();
                if request.product_id == product.product_id {
                    if request.amount.exceeds(&highest) {
                        highest = request.amount;
                    }
                    let expected = matches!(
                        bid.outcome(),
                        Some(Outcome::Accepted) | Some(Outcome::RejectedTooLow)
                    );
                    assert!(expected, "seed {seed}: a bid ended as {:?}", bid.outcome());
                }
            }
            assert_eq!(product.product_price, highest, "seed {seed}");
            assert_eq!(ledger.price_of(product.product_id), Some(highest));
        }
    }
}
