use bid_ledger::amount::Amount;
use bid_ledger::records::{Bid, BidRequest, Failure, Outcome};
use bid_ledger::transactor::{Action, Command, Phase, Reply, Transactor};

fn money(value: f64) -> Amount {
    Amount::from_bits(value.to_bits()).unwrap()
}

fn request(product_id: i32, user_id: i32, value: f64) -> BidRequest {
    BidRequest { product_id, user_id, amount: money(value) }
}

fn run(request: BidRequest, replies: &[Reply]) -> (Transactor, Vec<Action>) {
    let mut transactor = Transactor::start(request);
    let mut actions = vec![transactor.pending()];
    for reply in replies {
        actions.push(transactor.step(*reply));
    }
    (transactor, actions)
}

#[test]
fn a_bid_starts_by_opening_a_transaction() {
    let t = Transactor::start(request(7, 3, 75.0));
    assert_eq!(t.phase(), Phase::Beginning);
    assert_eq!(t.pending(), Action::Perform(Command::Begin));
    assert_eq!(t.outcome(), None);
    assert_eq!(t.request(), request(7, 3, 75.0));
}

#[test]
fn a_higher_bid_is_updated_inserted_and_committed() {
    let (t, actions) = run(
        request(7, 3, 75.0),
        &[Reply::Began, Reply::Price(money(50.0)), Reply::Done, Reply::Done, Reply::Done],
    );
    assert_eq!(
        actions,
        vec![
            Action::Perform(Command::Begin),
            Action::Perform(Command::LockAndReadPrice { product_id: 7 }),
            Action::Perform(Command::UpdatePrice { product_id: 7, amount: money(75.0), bidder: 3 }),
            Action::Perform(Command::AppendBid {
                bid: Bid { amount: money(75.0), user_id: 3, product_id: 7 }
            }),
            Action::Perform(Command::Commit),
            Action::Respond(Outcome::Accepted),
        ]
    );
    assert_eq!(t.outcome(), Some(Outcome::Accepted));
    assert_eq!(t.phase(), Phase::Finished(Outcome::Accepted));
}

#[test]
fn a_lower_bid_is_rolled_back_and_rejected() {
    let (t, actions) =
        run(request(7, 3, 40.0), &[Reply::Began, Reply::Price(money(50.0)), Reply::Done]);
    assert_eq!(
        actions,
        vec![
            Action::Perform(Command::Begin),
            Action::Perform(Command::LockAndReadPrice { product_id: 7 }),
            Action::Perform(Command::Rollback),
            Action::Respond(Outcome::RejectedTooLow),
        ]
    );
    assert_eq!(t.outcome(), Some(Outcome::RejectedTooLow));
}

#[test]
fn an_equal_bid_is_rejected() {
    let (t, actions) =
        run(request(7, 3, 50.0), &[Reply::Began, Reply::Price(money(50.0)), Reply::Done]);
    assert_eq!(actions[2], Action::Perform(Command::Rollback));
    assert_eq!(t.outcome(), Some(Outcome::RejectedTooLow));
}

#[test]
fn a_rejection_is_not_decided_before_the_rollback_is_answered() {
    let (t, _) = run(request(7, 3, 40.0), &[Reply::Began, Reply::Price(money(50.0))]);
    assert_eq!(t.phase(), Phase::RollingBack(Outcome::RejectedTooLow));
    assert_eq!(t.outcome(), None);
}

#[test]
fn a_failed_begin_ends_the_bid_without_rollback() {
    let (t, actions) = run(request(1, 1, 10.0), &[Reply::Fault]);
    assert_eq!(
        actions,
        vec![
            Action::Perform(Command::Begin),
            Action::Respond(Outcome::Failed(Failure::Begin)),
        ]
    );
    assert_eq!(t.outcome(), Some(Outcome::Failed(Failure::Begin)));
}

#[test]
fn a_missing_product_is_rolled_back_and_reported() {
    let (t, actions) = run(request(9, 1, 10.0), &[Reply::Began, Reply::NotFound, Reply::Done]);
    assert_eq!(actions[2], Action::Perform(Command::Rollback));
    assert_eq!(actions[3], Action::Respond(Outcome::Failed(Failure::NotFound)));
    assert_eq!(t.outcome(), Some(Outcome::Failed(Failure::NotFound)));
}

#[test]
fn a_failed_read_is_rolled_back() {
    let (t, actions) = run(request(9, 1, 10.0), &[Reply::Began, Reply::Fault, Reply::Done]);
    assert_eq!(actions[2], Action::Perform(Command::Rollback));
    assert_eq!(t.outcome(), Some(Outcome::Failed(Failure::Read)));
}

#[test]
fn a_failed_update_is_rolled_back() {
    let (t, actions) = run(
        request(7, 3, 75.0),
        &[Reply::Began, Reply::Price(money(50.0)), Reply::Fault, Reply::Done],
    );
    assert_eq!(actions[3], Action::Perform(Command::Rollback));
    assert_eq!(t.outcome(), Some(Outcome::Failed(Failure::Update)));
}

#[test]
fn a_failed_insert_is_rolled_back() {
    let (t, actions) = run(
        request(7, 3, 75.0),
        &[Reply::Began, Reply::Price(money(50.0)), Reply::Done, Reply::Fault, Reply::Done],
    );
    assert_eq!(actions[4], Action::Perform(Command::Rollback));
    assert_eq!(t.outcome(), Some(Outcome::Failed(Failure::Insert)));
}

#[test]
fn a_failed_commit_is_rolled_back_and_not_accepted() {
    let (t, actions) = run(
        request(7, 3, 75.0),
        &[
            Reply::Began,
            Reply::Price(money(50.0)),
            Reply::Done,
            Reply::Done,
            Reply::Fault,
            Reply::Done,
        ],
    );
    assert_eq!(actions[5], Action::Perform(Command::Rollback));
    assert_eq!(actions[6], Action::Respond(Outcome::Failed(Failure::Commit)));
    assert_eq!(t.outcome(), Some(Outcome::Failed(Failure::Commit)));
}

#[test]
fn a_failed_rollback_does_not_change_the_outcome() {
    let (t, _) = run(request(7, 3, 40.0), &[Reply::Began, Reply::Price(money(50.0)), Reply::Fault]);
    assert_eq!(t.outcome(), Some(Outcome::RejectedTooLow));
    let (t, _) = run(
        request(7, 3, 75.0),
        &[Reply::Began, Reply::Price(money(50.0)), Reply::Fault, Reply::Fault],
    );
    assert_eq!(t.outcome(), Some(Outcome::Failed(Failure::Update)));
}

#[test]
fn a_reply_that_answers_another_command_counts_as_a_failure() {
    let (t, _) = run(request(7, 3, 75.0), &[Reply::Done]);
    assert_eq!(t.outcome(), Some(Outcome::Failed(Failure::Begin)));
    let (t, _) = run(request(7, 3, 75.0), &[Reply::Began, Reply::Done, Reply::Done]);
    assert_eq!(t.outcome(), Some(Outcome::Failed(Failure::Read)));
    let (t, _) = run(
        request(7, 3, 75.0),
        &[Reply::Began, Reply::Price(money(50.0)), Reply::Price(money(50.0)), Reply::Done],
    );
    assert_eq!(t.outcome(), Some(Outcome::Failed(Failure::Update)));
    let (t, _) = run(
        request(7, 3, 75.0),
        &[
            Reply::Began,
            Reply::Price(money(50.0)),
            Reply::Done,
            Reply::Done,
            Reply::Began,
            Reply::Done,
        ],
    );
    assert_eq!(t.outcome(), Some(Outcome::Failed(Failure::Commit)));
}

#[test]
fn an_ended_bid_stays_ended() {
    let (mut t, _) = run(
        request(7, 3, 75.0),
        &[Reply::Began, Reply::Price(money(50.0)), Reply::Done, Reply::Done, Reply::Done],
    );
    let replies =
        [Reply::Fault, Reply::Began, Reply::Done, Reply::NotFound, Reply::Price(money(1.0))];
    for reply in replies {
        assert_eq!(t.step(reply), Action::Respond(Outcome::Accepted));
        assert_eq!(t.outcome(), Some(Outcome::Accepted));
    }
}

#[test]
fn every_bid_ends_within_six_replies() {
    let replies = [
        Reply::Began,
        Reply::Price(money(50.0)),
        Reply::Price(money(99.0)),
        Reply::NotFound,
        Reply::Done,
        Reply::Fault,
    ];
    let mut pattern: usize = 0;
    while pattern < 6 * 6 * 6 * 6 * 6 * 6 {
        let mut t = Transactor::start(request(7, 3, 75.0));
        let mut rest = pattern;
        for _ in 0..6 {
            t.step(replies[rest % 6]);
            rest /= 6;
        }
        assert!(t.outcome().is_some(), "pattern {pattern} has not ended");
        pattern += 1;
    }
}

#[test]
fn only_a_successful_commit_accepts() {
    let replies = [Reply::Began, Reply::Price(money(50.0)), Reply::Done, Reply::Fault];
    let mut pattern: usize = 0;
    while pattern < 4 * 4 * 4 * 4 * 4 {
        let mut t = Transactor::start(request(7, 3, 75.0));
        let mut given = Vec::new();
        let mut rest = pattern;
        for _ in 0..5 {
            given.push(replies[rest % 4]);
            t.step(replies[rest % 4]);
            rest /= 4;
        }
        let committed = given
            == vec![Reply::Began, Reply::Price(money(50.0)), Reply::Done, Reply::Done, Reply::Done];
        assert_eq!(t.outcome() == Some(Outcome::Accepted), committed, "pattern {pattern}");
        pattern += 1;
    }
}
