use sparker::api::{
    best_ask, best_bid, list_orders, list_trades, spread, BestOrderParams, ListOrdersParams,
    ListTradesParams, SpreadParams, DEFAULT_LIMIT,
};
use sparker::repo::{order, trade};
use sparker::store::Store;
use sparker::types::{LimitType, Order, OrderStatus, OrderType, Trade};

fn make_order(order_id: &str, order_type: OrderType, price: u64, user: &str) -> Order {
    Order {
        tx_id: String::from("0xtx"),
        order_id: String::from(order_id),
        order_type,
        user: String::from(user),
        asset: String::from("ETH"),
        amount: 10,
        price,
        status: OrderStatus::New,
        block_number: 10,
        timestamp: 1000,
        market_id: String::from("m1"),
    }
}

fn make_trade(trade_id: &str, timestamp: i64) -> Trade {
    Trade {
        tx_id: String::from("0xtx"),
        trade_id: String::from(trade_id),
        order_id: String::from("A"),
        limit_type: LimitType::GTC,
        user: String::from("U1"),
        size: 5,
        price: 50,
        block_number: 11,
        timestamp,
        market_id: String::from("m1"),
    }
}

#[test]
fn spread_excluding_a_user_leaves_one_side_empty() {
    let mut store = Store::new(Vec::new());
    order::Mutation::insert(&mut store, make_order("A", OrderType::Buy, 100, "U1"));
    order::Mutation::insert(&mut store, make_order("B", OrderType::Buy, 120, "U2"));
    let s = spread(
        &store,
        SpreadParams { market_id: String::from("m1"), user_ne: Some(String::from("U2")) },
    );
    let bid = s.best_bid.expect("a bid");
    assert_eq!(bid.order_id, "A");
    assert_eq!(bid.price, 100);
    assert!(s.best_ask.is_none());
}

#[test]
fn best_order_endpoints_delegate_to_the_book() {
    let mut store = Store::new(Vec::new());
    order::Mutation::insert(&mut store, make_order("A", OrderType::Buy, 100, "U1"));
    order::Mutation::insert(&mut store, make_order("B", OrderType::Sell, 130, "U1"));
    order::Mutation::insert(&mut store, make_order("C", OrderType::Sell, 125, "U1"));
    let bid = best_bid(
        &store,
        BestOrderParams { market_id: String::from("m1"), user_ne: None },
    )
    .expect("a bid");
    assert_eq!(bid.order_id, "A");
    let ask = best_ask(
        &store,
        BestOrderParams { market_id: String::from("m1"), user_ne: None },
    )
    .expect("an ask");
    assert_eq!(ask.order_id, "C");
}

#[test]
fn list_orders_defaults_to_fifty_rows() {
    let mut store = Store::new(Vec::new());
    for i in 0..60u64 {
        let mut o = make_order(&format!("ord{}", i), OrderType::Buy, 100 + i, "U1");
        o.timestamp = 1000 + i as i64;
        order::Mutation::insert(&mut store, o);
    }
    let rows = list_orders(
        &store,
        ListOrdersParams {
            market_id: String::from("m1"),
            order_type: None,
            limit: None,
            offset: None,
            user_ne: None,
        },
    );
    assert_eq!(rows.len() as u64, DEFAULT_LIMIT);
    // Newest first: the first row is the latest timestamp.
    assert_eq!(rows[0].order_id, "ord59");
}

#[test]
fn list_orders_by_side_orders_by_price() {
    let mut store = Store::new(Vec::new());
    order::Mutation::insert(&mut store, make_order("A", OrderType::Buy, 10, "U1"));
    order::Mutation::insert(&mut store, make_order("B", OrderType::Buy, 30, "U1"));
    order::Mutation::insert(&mut store, make_order("C", OrderType::Sell, 20, "U1"));
    let rows = list_orders(
        &store,
        ListOrdersParams {
            market_id: String::from("m1"),
            order_type: Some(OrderType::Buy),
            limit: Some(10),
            offset: Some(0),
            user_ne: None,
        },
    );
    let ids: Vec<&str> = rows.iter().map(|o| o.order_id.as_str()).collect();
    assert_eq!(ids, vec!["B", "A"]);
}

#[test]
fn list_trades_pages_newest_first() {
    let mut store = Store::new(Vec::new());
    trade::Mutation::insert(&mut store, make_trade("t1", 100));
    trade::Mutation::insert(&mut store, make_trade("t2", 300));
    trade::Mutation::insert(&mut store, make_trade("t3", 200));
    let rows = list_trades(
        &store,
        ListTradesParams { market_id: String::from("m1"), limit: Some(2), offset: Some(1) },
    );
    let ids: Vec<&str> = rows.iter().map(|t| t.trade_id.as_str()).collect();
    assert_eq!(ids, vec!["t3", "t1"]);
}
