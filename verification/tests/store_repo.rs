use sparker::repo::{order, state, trade};
use sparker::store::Store;
use sparker::types::{LimitType, Order, OrderStatus, OrderType, Trade, UpdateOrder};
use sparker::Error;

fn make_order(order_id: &str, order_type: OrderType, amount: u64, price: u64) -> Order {
    Order {
        tx_id: String::from("0xtx"),
        order_id: String::from(order_id),
        order_type,
        user: String::from("U1"),
        asset: String::from("ETH"),
        amount,
        price,
        status: OrderStatus::New,
        block_number: 10,
        timestamp: 1000,
        market_id: String::from("m1"),
    }
}

fn make_trade(trade_id: &str, order_id: &str, size: u64) -> Trade {
    Trade {
        tx_id: String::from("0xtx"),
        trade_id: String::from(trade_id),
        order_id: String::from(order_id),
        limit_type: LimitType::GTC,
        user: String::from("U1"),
        size,
        price: 50,
        block_number: 11,
        timestamp: 1100,
        market_id: String::from("m1"),
    }
}

fn empty_store() -> Store {
    Store::new(Vec::new())
}

#[test]
fn insert_is_idempotent() {
    let mut store = empty_store();
    order::Mutation::insert(&mut store, make_order("A", OrderType::Buy, 100, 50));
    order::Mutation::insert(&mut store, make_order("A", OrderType::Buy, 100, 50));
    assert_eq!(store.orders.len(), 1);
    // A second row under the same id is skipped even when its fields differ.
    order::Mutation::insert(&mut store, make_order("A", OrderType::Sell, 7, 9));
    assert_eq!(store.orders.len(), 1);
    assert_eq!(store.orders[0].amount, 100);
}

#[test]
fn insert_many_is_idempotent() {
    let mut store = empty_store();
    let batch = vec![
        make_order("A", OrderType::Buy, 100, 50),
        make_order("B", OrderType::Sell, 20, 60),
    ];
    order::Mutation::insert_many(&mut store, batch);
    assert_eq!(store.orders.len(), 2);
    let again = vec![
        make_order("A", OrderType::Buy, 100, 50),
        make_order("B", OrderType::Sell, 20, 60),
    ];
    order::Mutation::insert_many(&mut store, again);
    assert_eq!(store.orders.len(), 2);
}

#[test]
fn insert_many_empty_batch_is_a_no_op() {
    let mut store = empty_store();
    order::Mutation::insert_many(&mut store, Vec::new());
    assert_eq!(store.orders.len(), 0);
    trade::Mutation::insert_many(&mut store, Vec::new());
    assert_eq!(store.trades.len(), 0);
}

#[test]
fn update_sets_amount_and_status() {
    let mut store = empty_store();
    order::Mutation::insert(&mut store, make_order("A", OrderType::Buy, 100, 50));
    let updated = order::Mutation::update(
        &mut store,
        UpdateOrder {
            order_id: String::from("A"),
            amount: Some(70),
            status: OrderStatus::PartiallyMatched,
        },
    )
    .expect("order exists");
    assert_eq!(updated.amount, 70);
    assert!(matches!(updated.status, OrderStatus::PartiallyMatched));
    assert_eq!(store.orders[0].amount, 70);

    // Without an amount the old amount is kept.
    let updated = order::Mutation::update(
        &mut store,
        UpdateOrder {
            order_id: String::from("A"),
            amount: None,
            status: OrderStatus::Cancelled,
        },
    )
    .expect("order exists");
    assert_eq!(updated.amount, 70);
    assert!(matches!(updated.status, OrderStatus::Cancelled));
}

#[test]
fn update_missing_order_fails() {
    let mut store = empty_store();
    let res = order::Mutation::update(
        &mut store,
        UpdateOrder {
            order_id: String::from("ghost"),
            amount: None,
            status: OrderStatus::Cancelled,
        },
    );
    match res {
        Err(Error::RecordNotFound(id)) => assert_eq!(id, "ghost"),
        _ => panic!("expected RecordNotFound"),
    }
}

#[test]
fn delete_many_removes_market_rows_from_block() {
    let mut store = empty_store();
    let mut keep_other_market = make_order("A", OrderType::Buy, 1, 1);
    keep_other_market.market_id = String::from("m2");
    let mut keep_old_block = make_order("B", OrderType::Buy, 1, 1);
    keep_old_block.block_number = 5;
    let goes = make_order("C", OrderType::Buy, 1, 1);
    order::Mutation::insert(&mut store, keep_other_market);
    order::Mutation::insert(&mut store, keep_old_block);
    order::Mutation::insert(&mut store, goes);
    let removed = order::Mutation::delete_many(&mut store, String::from("m1"), 10);
    assert_eq!(removed, 1);
    assert_eq!(store.orders.len(), 2);
    assert_eq!(store.orders[0].order_id, "A");
    assert_eq!(store.orders[1].order_id, "B");
}

#[test]
fn find_best_bid_takes_max_price_over_active_orders() {
    let mut store = empty_store();
    order::Mutation::insert(&mut store, make_order("A", OrderType::Buy, 10, 100));
    order::Mutation::insert(&mut store, make_order("B", OrderType::Buy, 10, 120));
    let mut inactive = make_order("C", OrderType::Buy, 10, 200);
    inactive.status = OrderStatus::Cancelled;
    order::Mutation::insert(&mut store, inactive);
    order::Mutation::insert(&mut store, make_order("D", OrderType::Sell, 10, 300));
    let best = order::Query::find_best_bid(&store, String::from("m1"), None).expect("a bid");
    assert_eq!(best.order_id, "B");
    assert_eq!(best.price, 120);
}

#[test]
fn find_best_ask_takes_min_price() {
    let mut store = empty_store();
    order::Mutation::insert(&mut store, make_order("A", OrderType::Sell, 10, 80));
    order::Mutation::insert(&mut store, make_order("B", OrderType::Sell, 10, 60));
    let best = order::Query::find_best_ask(&store, String::from("m1"), None).expect("an ask");
    assert_eq!(best.order_id, "B");
    assert_eq!(best.price, 60);
}

#[test]
fn best_bid_excludes_named_user() {
    let mut store = empty_store();
    order::Mutation::insert(&mut store, make_order("A", OrderType::Buy, 10, 100));
    let mut other = make_order("B", OrderType::Buy, 10, 120);
    other.user = String::from("U2");
    order::Mutation::insert(&mut store, other);
    let best =
        order::Query::find_best_bid(&store, String::from("m1"), Some(String::from("U2")))
            .expect("a bid");
    assert_eq!(best.order_id, "A");
    assert_eq!(best.price, 100);
    // No ask side at all.
    assert!(order::Query::find_best_ask(&store, String::from("m1"), Some(String::from("U2")))
        .is_none());
}

#[test]
fn find_by_id_returns_the_row() {
    let mut store = empty_store();
    order::Mutation::insert(&mut store, make_order("A", OrderType::Buy, 100, 50));
    let found = order::Query::find_by_id(&store, &String::from("A")).expect("present");
    assert_eq!(found.order_id, "A");
    assert!(order::Query::find_by_id(&store, &String::from("Z")).is_none());
}

#[test]
fn find_lists_active_market_orders_newest_first() {
    let mut store = empty_store();
    let mut a = make_order("A", OrderType::Buy, 1, 1);
    a.timestamp = 100;
    let mut b = make_order("B", OrderType::Buy, 1, 1);
    b.timestamp = 300;
    let mut c = make_order("C", OrderType::Buy, 1, 1);
    c.timestamp = 200;
    let mut inactive = make_order("D", OrderType::Buy, 1, 1);
    inactive.timestamp = 400;
    inactive.status = OrderStatus::Matched;
    let mut elsewhere = make_order("E", OrderType::Buy, 1, 1);
    elsewhere.timestamp = 500;
    elsewhere.market_id = String::from("m2");
    for o in [a, b, c, inactive, elsewhere] {
        order::Mutation::insert(&mut store, o);
    }
    let rows = order::Query::find(&store, String::from("m1"), 50, 0);
    let ids: Vec<&str> = rows.iter().map(|o| o.order_id.as_str()).collect();
    assert_eq!(ids, vec!["B", "C", "A"]);

    let page = order::Query::find(&store, String::from("m1"), 1, 1);
    assert_eq!(page.len(), 1);
    assert_eq!(page[0].order_id, "C");

    let beyond = order::Query::find(&store, String::from("m1"), 10, 99);
    assert!(beyond.is_empty());
}

#[test]
fn find_by_type_orders_buys_by_price_desc_and_sells_asc() {
    let mut store = empty_store();
    order::Mutation::insert(&mut store, make_order("A", OrderType::Buy, 1, 10));
    order::Mutation::insert(&mut store, make_order("B", OrderType::Buy, 1, 30));
    order::Mutation::insert(&mut store, make_order("C", OrderType::Buy, 1, 20));
    order::Mutation::insert(&mut store, make_order("D", OrderType::Sell, 1, 25));
    order::Mutation::insert(&mut store, make_order("E", OrderType::Sell, 1, 15));
    let buys = order::Query::find_by_type(&store, String::from("m1"), OrderType::Buy, 50, 0, None);
    let ids: Vec<&str> = buys.iter().map(|o| o.order_id.as_str()).collect();
    assert_eq!(ids, vec!["B", "C", "A"]);
    let sells =
        order::Query::find_by_type(&store, String::from("m1"), OrderType::Sell, 50, 0, None);
    let ids: Vec<&str> = sells.iter().map(|o| o.order_id.as_str()).collect();
    assert_eq!(ids, vec!["E", "D"]);
}

#[test]
fn find_by_user_ignores_status_and_market() {
    let mut store = empty_store();
    let mut a = make_order("A", OrderType::Buy, 1, 1);
    a.status = OrderStatus::Cancelled;
    a.timestamp = 10;
    let mut b = make_order("B", OrderType::Buy, 1, 1);
    b.market_id = String::from("m2");
    b.timestamp = 20;
    let mut other = make_order("C", OrderType::Buy, 1, 1);
    other.user = String::from("U2");
    for o in [a, b, other] {
        order::Mutation::insert(&mut store, o);
    }
    let rows = order::Query::find_by_user(&store, String::from("U1"), 50, 0);
    let ids: Vec<&str> = rows.iter().map(|o| o.order_id.as_str()).collect();
    assert_eq!(ids, vec!["B", "A"]);
}

#[test]
fn trade_insert_is_idempotent_and_find_pages_newest_first() {
    let mut store = empty_store();
    let mut t1 = make_trade("t1", "A", 5);
    t1.timestamp = 100;
    let mut t2 = make_trade("t2", "A", 5);
    t2.timestamp = 300;
    let mut t3 = make_trade("t3", "A", 5);
    t3.timestamp = 200;
    trade::Mutation::insert(&mut store, t1);
    trade::Mutation::insert(&mut store, t2);
    trade::Mutation::insert(&mut store, t3);
    trade::Mutation::insert(&mut store, make_trade("t1", "A", 999));
    assert_eq!(store.trades.len(), 3);
    assert_eq!(store.trades[0].size, 5);

    let rows = trade::Query::find(&store, String::from("m1"), 50, 0);
    let ids: Vec<&str> = rows.iter().map(|t| t.trade_id.as_str()).collect();
    assert_eq!(ids, vec!["t2", "t3", "t1"]);

    let page = trade::Query::find(&store, String::from("m1"), 2, 1);
    let ids: Vec<&str> = page.iter().map(|t| t.trade_id.as_str()).collect();
    assert_eq!(ids, vec!["t3", "t1"]);
}

#[test]
fn trade_delete_many_prunes_by_market_and_block() {
    let mut store = empty_store();
    let mut old = make_trade("t1", "A", 5);
    old.block_number = 3;
    trade::Mutation::insert(&mut store, old);
    trade::Mutation::insert(&mut store, make_trade("t2", "A", 5));
    let removed = trade::Mutation::delete_many(&mut store, String::from("m1"), 10);
    assert_eq!(removed, 1);
    assert_eq!(store.trades.len(), 1);
    assert_eq!(store.trades[0].trade_id, "t1");
}

#[test]
fn state_cursor_upserts_per_market() {
    let mut store = empty_store();
    assert!(state::Query::find_latest_processed_block(&store, &String::from("m1")).is_none());
    state::Mutation::upsert_latest_processed_block(&mut store, 10, &String::from("m1"), 111);
    state::Mutation::upsert_latest_processed_block(&mut store, 7, &String::from("m2"), 111);
    assert_eq!(
        state::Query::find_latest_processed_block(&store, &String::from("m1")),
        Some(10)
    );
    state::Mutation::upsert_latest_processed_block(&mut store, 12, &String::from("m1"), 222);
    assert_eq!(
        state::Query::find_latest_processed_block(&store, &String::from("m1")),
        Some(12)
    );
    assert_eq!(
        state::Query::find_latest_processed_block(&store, &String::from("m2")),
        Some(7)
    );
    assert_eq!(store.states.len(), 2);
}

#[test]
fn store_cache_insert_replaces_and_update_requires_presence() {
    let mut store = empty_store();
    store.insert_order(make_order("A", OrderType::Buy, 100, 50));
    store.insert_order(make_order("A", OrderType::Buy, 70, 55));
    assert_eq!(store.orders.len(), 1);
    assert_eq!(store.orders[0].amount, 70);
    assert_eq!(store.orders[0].price, 55);

    store.update_order(UpdateOrder {
        order_id: String::from("A"),
        amount: Some(30),
        status: OrderStatus::PartiallyMatched,
    });
    let cached = store.order(&String::from("A")).expect("cached");
    assert_eq!(cached.amount, 30);
    assert!(matches!(cached.status, OrderStatus::PartiallyMatched));

    store.insert_trade(make_trade("t1", "A", 5));
    store.insert_trade(make_trade("t1", "A", 9));
    assert_eq!(store.trades.len(), 1);
    assert_eq!(store.trade(&String::from("t1")).expect("cached").size, 9);
    assert!(store.trade(&String::from("t2")).is_none());
}
