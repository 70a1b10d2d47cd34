use bid_ledger::amount::Amount;
use bid_ledger::gateway::{
    decode, respond, STATUS_BAD_REQUEST, STATUS_NOT_FOUND, STATUS_OK, STATUS_SERVER_ERROR,
};
use bid_ledger::records::{Bid, BidRequest, Failure, Outcome};

#[test]
fn an_accepted_bid_is_a_success_with_no_body() {
    let response = respond(Outcome::Accepted);
    assert_eq!(response.status, 200);
    assert_eq!(response.status, STATUS_OK);
    assert_eq!(response.body, "");
}

#[test]
fn a_bid_that_is_too_low_is_a_client_error_with_the_reason() {
    let response = respond(Outcome::RejectedTooLow);
    assert_eq!(response.status, 400);
    assert_eq!(response.status, STATUS_BAD_REQUEST);
    assert_eq!(response.body, "Bid amount must be higher than the current price");
}

#[test]
fn a_missing_product_is_a_client_error_with_no_body() {
    let response = respond(Outcome::Failed(Failure::NotFound));
    assert_eq!(response.status, 404);
    assert_eq!(response.status, STATUS_NOT_FOUND);
    assert_eq!(response.body, "");
}

#[test]
fn a_store_failure_is_a_server_error_that_tells_nothing() {
    for failure in
        [Failure::Begin, Failure::Read, Failure::Update, Failure::Insert, Failure::Commit]
    {
        let response = respond(Outcome::Failed(failure));
        assert_eq!(response.status, 500);
        assert_eq!(response.status, STATUS_SERVER_ERROR);
        assert_eq!(response.body, "");
    }
}

#[test]
fn a_request_with_a_valid_amount_is_decoded() {
    let request = decode(7, 3, 75.0f64.to_bits()).unwrap();
    let amount = Amount::from_bits(75.0f64.to_bits()).unwrap();
    assert_eq!(request, BidRequest { product_id: 7, user_id: 3, amount });
    assert_eq!(f64::from_bits(request.amount.bits()), 75.0);
    let zero = decode(-1, i32::MAX, (-0.0f64).to_bits()).unwrap();
    assert_eq!(zero.product_id, -1);
    assert_eq!(zero.user_id, i32::MAX);
    assert_eq!(zero.amount, Amount::zero());
}

#[test]
fn a_request_with_an_invalid_amount_is_not_decoded() {
    assert!(decode(7, 3, (-75.0f64).to_bits()).is_none());
    assert!(decode(7, 3, f64::NAN.to_bits()).is_none());
    assert!(decode(7, 3, f64::INFINITY.to_bits()).is_none());
}

#[test]
fn an_accepted_request_becomes_its_history_entry() {
    let request = decode(7, 3, 75.0f64.to_bits()).unwrap();
    assert_eq!(
        request.to_bid(),
        Bid { amount: Amount::from_bits(75.0f64.to_bits()).unwrap(), user_id: 3, product_id: 7 }
    );
}
