use bid_ledger::amount::{Amount, MAX_FINITE_BITS, NEGATIVE_ZERO_BITS};
use bid_ledger::clock::Timestamp;

fn amount(value: f64) -> Amount {
    Amount::from_bits(value.to_bits()).expect("a finite, non-negative amount")
}

#[test]
fn finite_non_negative_values_are_amounts() {
    for value in [0.0, 0.01, 1.0, 40.0, 50.0, 75.0, 100.0, 1e300, f64::MAX, f64::MIN_POSITIVE] {
        let a = Amount::from_bits(value.to_bits());
        assert!(a.is_some(), "{value} must be an amount");
        assert_eq!(f64::from_bits(a.unwrap().bits()), value);
    }
}

#[test]
fn negative_values_are_no_amounts() {
    for value in [-0.01, -1.0, -50.0, -f64::MAX, -f64::MIN_POSITIVE] {
        assert!(Amount::from_bits(value.to_bits()).is_none(), "{value} is negative");
    }
}

#[test]
fn infinities_and_nan_are_no_amounts() {
    assert!(Amount::from_bits(f64::INFINITY.to_bits()).is_none());
    assert!(Amount::from_bits(f64::NEG_INFINITY.to_bits()).is_none());
    assert!(Amount::from_bits(f64::NAN.to_bits()).is_none());
    assert!(Amount::from_bits(u64::MAX).is_none());
    assert!(Amount::from_bits(MAX_FINITE_BITS + 1).is_none());
}

#[test]
fn largest_finite_value_is_the_last_amount() {
    assert_eq!(f64::MAX.to_bits(), MAX_FINITE_BITS);
    assert_eq!(Amount::from_bits(MAX_FINITE_BITS).unwrap().bits(), MAX_FINITE_BITS);
}

#[test]
fn negative_zero_is_zero() {
    assert_eq!((-0.0f64).to_bits(), NEGATIVE_ZERO_BITS);
    let a = Amount::from_bits(NEGATIVE_ZERO_BITS).unwrap();
    assert_eq!(a.bits(), 0);
    assert_eq!(a, Amount::zero());
    assert_eq!(a, amount(0.0));
    assert!(!a.exceeds(&Amount::zero()));
    assert!(!Amount::zero().exceeds(&a));
}

#[test]
fn amounts_are_ordered_as_their_values() {
    let values = [0.0, f64::MIN_POSITIVE, 1e-300, 0.01, 0.5, 1.0, 1.0000000000000002, 40.0, 50.0,
        75.0, 100.0, 120.0, 150.0, 1e15, 1e300, f64::MAX];
    for x in values {
        for y in values {
            assert_eq!(amount(x).exceeds(&amount(y)), x > y, "{x} against {y}");
        }
    }
}

#[test]
fn an_amount_does_not_exceed_itself() {
    assert!(!amount(50.0).exceeds(&amount(50.0)));
    assert!(amount(50.0).exceeds(&amount(40.0)));
    assert!(!amount(40.0).exceeds(&amount(50.0)));
}

#[test]
fn timestamps_are_ordered_by_seconds_then_nanoseconds() {
    let t = Timestamp::new(1_000, 500);
    assert_eq!(t.secs, 1_000);
    assert_eq!(t.nanos, 500);
    assert!(Timestamp::new(1_001, 0).is_after(&t));
    assert!(Timestamp::new(1_000, 501).is_after(&t));
    assert!(!Timestamp::new(1_000, 500).is_after(&t));
    assert!(!Timestamp::new(1_000, 499).is_after(&t));
    assert!(!Timestamp::new(999, 999_999_999).is_after(&t));
    assert!(Timestamp::new(0, 0).is_after(&Timestamp::new(-1, 999_999_999)));
    assert!(Timestamp::new(i64::MAX, 0).is_after(&Timestamp::new(i64::MIN, u32::MAX)));
}
