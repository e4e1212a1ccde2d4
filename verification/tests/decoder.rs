use sparker::event::PangeaEvent;
use sparker::types::{LimitType, OrderStatus, OrderType};

fn event() -> PangeaEvent {
    PangeaEvent {
        chain: 9889,
        block_number: 10,
        block_hash: String::from("0xblock"),
        block_timestamp: 1700000000,
        transaction_hash: String::from("0xabc"),
        transaction_index: 1,
        log_index: 2,
        market_id: String::from("m1"),
        order_id: String::from("A"),
        event_type: Some(String::from("Open")),
        asset: Some(String::from("ETH")),
        amount: Some(30),
        asset_type: None,
        order_type: Some(String::from("Buy")),
        price: Some(50),
        user: Some(String::from("U1")),
        order_matcher: None,
        owner: None,
        limit_type: Some(String::from("GTC")),
    }
}

#[test]
fn order_type_resolves_buy_and_sell() {
    let mut e = event();
    assert!(matches!(e.order_type(), Some(OrderType::Buy)));
    e.order_type = Some(String::from("Sell"));
    assert!(matches!(e.order_type(), Some(OrderType::Sell)));
    e.order_type = Some(String::from("buy"));
    assert!(e.order_type().is_none());
    e.order_type = None;
    assert!(e.order_type().is_none());
}

#[test]
fn limit_type_defaults_to_gtc() {
    let mut e = event();
    e.limit_type = Some(String::from("FOK"));
    assert!(matches!(e.limit_type(), LimitType::FOK));
    e.limit_type = Some(String::from("IOC"));
    assert!(matches!(e.limit_type(), LimitType::IOC));
    e.limit_type = Some(String::from("MKT"));
    assert!(matches!(e.limit_type(), LimitType::MKT));
    e.limit_type = Some(String::from("???"));
    assert!(matches!(e.limit_type(), LimitType::GTC));
    e.limit_type = None;
    assert!(matches!(e.limit_type(), LimitType::GTC));
}

#[test]
fn trade_id_matches_reference_digest() {
    let e = event();
    assert_eq!(
        e.trade_id(),
        "0x71c6a74a10215585e49d511c15acd9a5e1f59826e82282dcff5b13c3b1c212a8"
    );
}

#[test]
fn trade_id_with_negative_timestamp() {
    let mut e = event();
    e.block_timestamp = -5;
    assert_eq!(
        e.trade_id(),
        "0xb6a015e8c4dc20ee12ca4489f7d62801a28ff8b771efb244a99f1ba6d0992f21"
    );
}

#[test]
fn trade_id_with_large_amount() {
    let mut e = event();
    e.transaction_hash = String::from("0xfeed");
    e.order_id = String::from("ord-9");
    e.block_timestamp = 1700000777;
    e.amount = Some(12345678901234567890);
    e.log_index = 0;
    assert_eq!(
        e.trade_id(),
        "0x697311af19fb8c52abdd946cc765ea781071da5168b842b5fa36456cc96e5dfd"
    );
}

#[test]
fn trade_id_is_deterministic() {
    let a = event();
    let mut b = event();
    // Fields outside the identifying five leave the id untouched.
    b.price = Some(9999);
    b.user = Some(String::from("someone-else"));
    b.market_id = String::from("m2");
    assert_eq!(a.trade_id(), b.trade_id());
}

#[test]
fn build_order_needs_price_amount_user_and_side() {
    let e = event();
    let order = e.build_order().expect("complete event builds an order");
    assert_eq!(order.tx_id, "0xabc");
    assert_eq!(order.order_id, "A");
    assert!(matches!(order.order_type, OrderType::Buy));
    assert_eq!(order.user, "U1");
    assert_eq!(order.asset, "ETH");
    assert_eq!(order.amount, 30);
    assert_eq!(order.price, 50);
    assert!(matches!(order.status, OrderStatus::New));
    assert_eq!(order.block_number, 10);
    assert_eq!(order.timestamp, 1700000000);
    assert_eq!(order.market_id, "m1");

    let mut e = event();
    e.price = None;
    assert!(e.build_order().is_none());
    let mut e = event();
    e.amount = None;
    assert!(e.build_order().is_none());
    let mut e = event();
    e.user = None;
    assert!(e.build_order().is_none());
    let mut e = event();
    e.order_type = Some(String::from("neither"));
    assert!(e.build_order().is_none());
}

#[test]
fn build_order_defaults_missing_asset_to_empty() {
    let mut e = event();
    e.asset = None;
    let order = e.build_order().expect("asset is not required");
    assert_eq!(order.asset, "");
}

#[test]
fn build_trade_needs_price_and_amount() {
    let mut e = event();
    e.limit_type = Some(String::from("IOC"));
    let trade = e.build_trade().expect("complete event builds a trade");
    assert_eq!(trade.tx_id, "0xabc");
    assert_eq!(trade.order_id, "A");
    assert!(matches!(trade.limit_type, LimitType::IOC));
    assert_eq!(trade.user, "U1");
    assert_eq!(trade.size, 30);
    assert_eq!(trade.price, 50);
    assert_eq!(trade.block_number, 10);
    assert_eq!(trade.timestamp, 1700000000);
    assert_eq!(trade.market_id, "m1");
    assert_eq!(trade.trade_id, e.trade_id());

    let mut e = event();
    e.price = None;
    assert!(e.build_trade().is_none());
    let mut e = event();
    e.amount = None;
    assert!(e.build_trade().is_none());
}

#[test]
fn build_trade_defaults_missing_user_to_empty() {
    let mut e = event();
    e.user = None;
    let trade = e.build_trade().expect("user is not required");
    assert_eq!(trade.user, "");
}
