use bid_ledger::amount::Amount;
use bid_ledger::clock::Timestamp;
use bid_ledger::ledger::Ledger;
use bid_ledger::listing::list_active_products;
use bid_ledger::records::{BidRequest, Outcome, Product};
use bid_ledger::transactor::{Command, Reply};

fn sum(value: f64) -> Amount {
    Amount::from_bits(value.to_bits()).unwrap()
}

fn lot(product_id: i32, price: f64, expiry: Timestamp) -> Product {
    Product {
        product_id,
        owner: 1,
        current_bid_owner: None,
        product_video: Some(format!("video-{product_id}.mp4")),
        product_title: format!("lot {product_id}"),
        product_description: String::new(),
        product_price: sum(price),
        sale_expiry: expiry,
    }
}

fn ids(products: &[Product]) -> Vec<i32> {
    products.iter().map(|p| p.product_id).collect()
}

#[test]
fn expired_products_are_not_listed() {
    let now = Timestamp::new(1_000, 0);
    let products = vec![
        lot(1, 10.0, Timestamp::new(999, 999_999_999)),
        lot(2, 10.0, Timestamp::new(1_001, 0)),
        lot(3, 10.0, Timestamp::new(0, 0)),
        lot(4, 10.0, Timestamp::new(5_000, 0)),
        lot(5, 10.0, Timestamp::new(-5, 0)),
    ];
    assert_eq!(ids(&list_active_products(&products, now)), vec![2, 4]);
}

#[test]
fn a_product_expiring_exactly_now_is_not_listed() {
    let now = Timestamp::new(1_000, 500);
    let products = vec![
        lot(1, 10.0, Timestamp::new(1_000, 500)),
        lot(2, 10.0, Timestamp::new(1_000, 501)),
        lot(3, 10.0, Timestamp::new(1_000, 499)),
    ];
    assert_eq!(ids(&list_active_products(&products, now)), vec![2]);
}

#[test]
fn the_listing_keeps_the_order_and_the_records() {
    let now = Timestamp::new(0, 0);
    let products = vec![
        lot(30, 3.0, Timestamp::new(10, 0)),
        lot(10, 1.0, Timestamp::new(10, 0)),
        lot(20, 2.0, Timestamp::new(10, 0)),
    ];
    let listed = list_active_products(&products, now);
    assert_eq!(ids(&listed), vec![30, 10, 20]);
    assert_eq!(listed[1].product_title, "lot 10");
    assert_eq!(listed[1].product_video, Some(String::from("video-10.mp4")));
    assert_eq!(listed[1].product_price, sum(1.0));
    assert_eq!(listed[1].sale_expiry, Timestamp::new(10, 0));
    assert_eq!(listed[1].owner, 1);
    assert_eq!(listed[1].current_bid_owner, None);
}

#[test]
fn the_listing_of_nothing_is_empty() {
    assert!(list_active_products(&Vec::new(), Timestamp::new(0, 0)).is_empty());
}

#[test]
fn the_listing_at_the_ends_of_time() {
    let products = vec![
        lot(1, 10.0, Timestamp::new(i64::MIN, 0)),
        lot(2, 10.0, Timestamp::new(i64::MAX, 0)),
        lot(3, 10.0, Timestamp::new(0, 0)),
        lot(4, 10.0, Timestamp::new(i64::MAX, u32::MAX)),
    ];
    assert_eq!(ids(&list_active_products(&products, Timestamp::new(1, 0))), vec![2, 4]);
    assert_eq!(ids(&list_active_products(&products, Timestamp::new(i64::MIN, 0))), vec![2, 3, 4]);
    assert_eq!(ids(&list_active_products(&products, Timestamp::new(i64::MAX, 0))), vec![4]);
    assert!(list_active_products(&products, Timestamp::new(i64::MAX, u32::MAX)).is_empty());
}

#[test]
fn the_listing_shows_the_latest_committed_bid() {
    let now = Timestamp::new(1_000, 0);
    let mut ledger = Ledger::new();
    assert!(ledger.add_product(lot(1, 10.0, Timestamp::new(2_000, 0))));
    assert!(ledger.add_product(lot(2, 10.0, Timestamp::new(500, 0))));
    assert!(ledger.add_product(lot(3, 10.0, Timestamp::new(2_000, 0))));
    let bid = BidRequest { product_id: 1, user_id: 9, amount: sum(25.0) };
    assert_eq!(ledger.place_bid(bid), Outcome::Accepted);
    let expired = BidRequest { product_id: 2, user_id: 9, amount: sum(30.0) };
    assert_eq!(ledger.place_bid(expired), Outcome::Accepted);
    let low = BidRequest { product_id: 3, user_id: 9, amount: sum(5.0) };
    assert_eq!(ledger.place_bid(low), Outcome::RejectedTooLow);
    let listed = ledger.list_active_products(now);
    assert_eq!(ids(&listed), vec![1, 3]);
    assert_eq!(listed[0].product_price, sum(25.0));
    assert_eq!(listed[0].current_bid_owner, Some(9));
    assert_eq!(listed[1].product_price, sum(10.0));
    assert_eq!(listed[1].current_bid_owner, None);
}

#[test]
fn the_listing_shows_nothing_of_an_open_transaction() {
    let now = Timestamp::new(1_000, 0);
    let mut ledger = Ledger::new();
    assert!(ledger.add_product(lot(1, 10.0, Timestamp::new(2_000, 0))));
    let s = ledger.connect();
    assert_eq!(ledger.perform(s, Command::Begin), Some(Reply::Began));
    assert_eq!(
        ledger.perform(s, Command::UpdatePrice { product_id: 1, amount: sum(25.0), bidder: 9 }),
        Some(Reply::Done)
    );
    let listed = ledger.list_active_products(now);
    assert_eq!(ids(&listed), vec![1]);
    assert_eq!(listed[0].product_price, sum(10.0));
    assert_eq!(ledger.perform(s, Command::Commit), Some(Reply::Done));
    let listed = ledger.list_active_products(now);
    assert_eq!(listed[0].product_price, sum(25.0));
}

#[test]
fn a_copy_of_a_product_is_the_same_record() {
    let first = lot(7, 50.0, Timestamp::new(2_000, 7));
    let copy = first.duplicate();
    assert_eq!(copy.product_id, 7);
    assert_eq!(copy.owner, first.owner);
    assert_eq!(copy.current_bid_owner, first.current_bid_owner);
    assert_eq!(copy.product_video, first.product_video);
    assert_eq!(copy.product_title, first.product_title);
    assert_eq!(copy.product_description, first.product_description);
    assert_eq!(copy.product_price, first.product_price);
    assert_eq!(copy.sale_expiry, first.sale_expiry);
    assert!(copy.is_active_at(&Timestamp::new(2_000, 6)));
    assert!(!copy.is_active_at(&Timestamp::new(2_000, 7)));
}
