use sparker::dispatcher::{
    extract_operations, extract_updates, Operation, OperationDispatcher, OperationMessage, Update,
};
use sparker::repo::{order, state};
use sparker::store::Store;
use sparker::types::{LimitType, Order, OrderStatus, OrderType, Trade, UpdateOrder};

fn make_order(order_id: &str, amount: u64, price: u64, block: i64) -> Order {
    Order {
        tx_id: String::from("0xtx"),
        order_id: String::from(order_id),
        order_type: OrderType::Buy,
        user: String::from("U1"),
        asset: String::from("ETH"),
        amount,
        price,
        status: OrderStatus::New,
        block_number: block,
        timestamp: 1000,
        market_id: String::from("m1"),
    }
}

fn make_trade(trade_id: &str, order_id: &str, size: u64, limit_type: LimitType, block: i64) -> Trade {
    Trade {
        tx_id: String::from("0xtx"),
        trade_id: String::from(trade_id),
        order_id: String::from(order_id),
        limit_type,
        user: String::from("U1"),
        size,
        price: 50,
        block_number: block,
        timestamp: 1100,
        market_id: String::from("m1"),
    }
}

fn cursor(store: &Store) -> Option<i64> {
    state::Query::find_latest_processed_block(store, &String::from("m1"))
}

#[test]
fn open_then_dispatch_creates_one_active_order() {
    let mut store = Store::new(Vec::new());
    let mut dispatcher = OperationDispatcher::new(String::from("m1"));
    dispatcher.update(Update::OpenOrder(make_order("A", 100, 50, 10)));
    dispatcher.dispatch(&mut store, 10, 999);
    assert_eq!(store.orders.len(), 1);
    assert_eq!(store.orders[0].order_id, "A");
    assert_eq!(store.orders[0].amount, 100);
    assert!(store.orders[0].is_active());
    assert_eq!(cursor(&store), Some(10));
    assert!(dispatcher.updates.is_empty());
}

#[test]
fn gtc_partial_fill_then_full_fill() {
    let mut store = Store::new(Vec::new());
    let mut dispatcher = OperationDispatcher::new(String::from("m1"));
    dispatcher.update(Update::OpenOrder(make_order("A", 100, 50, 10)));
    dispatcher.dispatch(&mut store, 10, 999);

    dispatcher.update(Update::Trade(make_trade("t1", "A", 30, LimitType::GTC, 11)));
    dispatcher.dispatch(&mut store, 11, 999);
    let a = order::Query::find_by_id(&store, &String::from("A")).expect("present");
    assert!(matches!(a.status, OrderStatus::PartiallyMatched));
    assert_eq!(a.amount, 70);
    assert_eq!(store.trades.len(), 1);
    assert_eq!(cursor(&store), Some(11));

    dispatcher.update(Update::Trade(make_trade("t2", "A", 70, LimitType::GTC, 12)));
    dispatcher.dispatch(&mut store, 12, 999);
    let a = order::Query::find_by_id(&store, &String::from("A")).expect("present");
    assert!(matches!(a.status, OrderStatus::Matched));
    assert_eq!(store.trades.len(), 2);
    assert_eq!(cursor(&store), Some(12));
}

#[test]
fn gtc_equal_size_is_a_full_match() {
    let mut store = Store::new(Vec::new());
    let mut dispatcher = OperationDispatcher::new(String::from("m1"));
    dispatcher.update(Update::OpenOrder(make_order("A", 30, 50, 10)));
    dispatcher.update(Update::Trade(make_trade("t1", "A", 30, LimitType::GTC, 10)));
    dispatcher.dispatch(&mut store, 10, 999);
    let a = order::Query::find_by_id(&store, &String::from("A")).expect("present");
    assert!(matches!(a.status, OrderStatus::Matched));
    assert_eq!(a.amount, 30);
}

#[test]
fn ioc_trade_fully_matches_whatever_the_size() {
    let mut store = Store::new(Vec::new());
    let mut dispatcher = OperationDispatcher::new(String::from("m1"));
    dispatcher.update(Update::OpenOrder(make_order("A", 100, 50, 10)));
    dispatcher.update(Update::Trade(make_trade("t1", "A", 40, LimitType::IOC, 10)));
    dispatcher.dispatch(&mut store, 10, 999);
    let a = order::Query::find_by_id(&store, &String::from("A")).expect("present");
    assert!(matches!(a.status, OrderStatus::Matched));
    assert_eq!(a.amount, 100);
    assert_eq!(store.trades.len(), 1);
}

#[test]
fn fok_trade_fully_matches_small_order() {
    let mut store = Store::new(Vec::new());
    let mut dispatcher = OperationDispatcher::new(String::from("m1"));
    dispatcher.update(Update::OpenOrder(make_order("A", 10, 50, 10)));
    dispatcher.update(Update::Trade(make_trade("t1", "A", 40, LimitType::FOK, 10)));
    dispatcher.dispatch(&mut store, 10, 999);
    let a = order::Query::find_by_id(&store, &String::from("A")).expect("present");
    assert!(matches!(a.status, OrderStatus::Matched));
    assert_eq!(a.amount, 10);
}

#[test]
fn mkt_trade_larger_order_is_partial() {
    let mut store = Store::new(Vec::new());
    let mut dispatcher = OperationDispatcher::new(String::from("m1"));
    dispatcher.update(Update::OpenOrder(make_order("A", 100, 50, 10)));
    dispatcher.update(Update::Trade(make_trade("t1", "A", 60, LimitType::MKT, 10)));
    dispatcher.dispatch(&mut store, 10, 999);
    let a = order::Query::find_by_id(&store, &String::from("A")).expect("present");
    assert!(matches!(a.status, OrderStatus::PartiallyMatched));
    assert_eq!(a.amount, 40);
}

#[test]
fn trade_on_missing_order_is_skipped_but_recorded() {
    let mut store = Store::new(Vec::new());
    let mut dispatcher = OperationDispatcher::new(String::from("m1"));
    dispatcher.update(Update::Trade(make_trade("t1", "ghost", 30, LimitType::GTC, 10)));
    dispatcher.dispatch(&mut store, 10, 999);
    assert_eq!(store.orders.len(), 0);
    assert_eq!(store.trades.len(), 1);
    assert_eq!(cursor(&store), Some(10));
}

#[test]
fn cancel_leaves_the_order_cancelled() {
    let mut store = Store::new(Vec::new());
    let mut dispatcher = OperationDispatcher::new(String::from("m1"));
    dispatcher.update(Update::OpenOrder(make_order("A", 100, 50, 10)));
    dispatcher.update(Update::CancelOrder(String::from("A")));
    dispatcher.update(Update::CancelOrder(String::from("ghost")));
    dispatcher.dispatch(&mut store, 10, 999);
    let a = order::Query::find_by_id(&store, &String::from("A")).expect("present");
    assert!(matches!(a.status, OrderStatus::Cancelled));
    assert_eq!(a.amount, 100);
    assert_eq!(cursor(&store), Some(10));
}

#[test]
fn cancel_applies_after_same_block_fill() {
    let mut store = Store::new(Vec::new());
    let mut dispatcher = OperationDispatcher::new(String::from("m1"));
    dispatcher.update(Update::OpenOrder(make_order("A", 100, 50, 10)));
    dispatcher.update(Update::CancelOrder(String::from("A")));
    dispatcher.update(Update::Trade(make_trade("t1", "A", 30, LimitType::GTC, 10)));
    dispatcher.dispatch(&mut store, 10, 999);
    // Opens first, then trades, then cancels: the cancel is not masked.
    let a = order::Query::find_by_id(&store, &String::from("A")).expect("present");
    assert!(matches!(a.status, OrderStatus::Cancelled));
    assert_eq!(a.amount, 70);
}

#[test]
fn duplicate_opens_insert_exactly_one_row() {
    let mut store = Store::new(Vec::new());
    let mut dispatcher = OperationDispatcher::new(String::from("m1"));
    dispatcher.update(Update::OpenOrder(make_order("A", 100, 50, 10)));
    dispatcher.update(Update::OpenOrder(make_order("A", 100, 50, 10)));
    dispatcher.dispatch(&mut store, 10, 999);
    assert_eq!(store.orders.len(), 1);
}

#[test]
fn prune_removes_rows_at_or_after_the_block() {
    let mut store = Store::new(Vec::new());
    let mut dispatcher = OperationDispatcher::new(String::from("m1"));
    dispatcher.update(Update::OpenOrder(make_order("A", 100, 50, 20)));
    dispatcher.update(Update::Trade(make_trade("t1", "A", 30, LimitType::GTC, 20)));
    dispatcher.dispatch(&mut store, 20, 999);
    assert_eq!(store.orders.len(), 1);
    assert_eq!(store.trades.len(), 1);
    dispatcher.prune(&mut store, 15);
    assert_eq!(store.orders.len(), 0);
    assert_eq!(store.trades.len(), 0);
    // The cursor row stays.
    assert_eq!(cursor(&store), Some(20));
}

#[test]
fn handle_routes_messages() {
    let mut store = Store::new(Vec::new());
    let mut dispatcher = OperationDispatcher::new(String::from("m1"));
    dispatcher.handle(
        &mut store,
        OperationMessage::Add(Update::OpenOrder(make_order("A", 100, 50, 10))),
        999,
    );
    assert_eq!(dispatcher.updates.len(), 1);
    assert_eq!(store.orders.len(), 0);
    dispatcher.handle(&mut store, OperationMessage::Dispatch(10), 999);
    assert_eq!(dispatcher.updates.len(), 0);
    assert_eq!(store.orders.len(), 1);
    dispatcher.handle(&mut store, OperationMessage::Prune(5), 999);
    assert_eq!(store.orders.len(), 0);
}

#[test]
fn prune_then_catch_up_equals_fresh_catch_up() {
    // The replayable window: everything in the store sits at or after
    // block 20 in this market.
    let batch = |dispatcher: &mut OperationDispatcher, store: &mut Store| {
        dispatcher.update(Update::OpenOrder(make_order("A", 100, 50, 20)));
        dispatcher.dispatch(store, 20, 999);
        dispatcher.update(Update::Trade(make_trade("t1", "A", 30, LimitType::GTC, 21)));
        dispatcher.update(Update::CancelOrder(String::from("A")));
        dispatcher.dispatch(store, 21, 999);
    };

    let mut replayed = Store::new(Vec::new());
    let mut d1 = OperationDispatcher::new(String::from("m1"));
    batch(&mut d1, &mut replayed);
    d1.prune(&mut replayed, 20);
    batch(&mut d1, &mut replayed);

    let mut fresh = Store::new(Vec::new());
    let mut d2 = OperationDispatcher::new(String::from("m1"));
    batch(&mut d2, &mut fresh);

    assert_eq!(replayed.orders.len(), fresh.orders.len());
    for (a, b) in replayed.orders.iter().zip(fresh.orders.iter()) {
        assert_eq!(a.order_id, b.order_id);
        assert_eq!(a.amount, b.amount);
        assert!(a.status == b.status);
        assert_eq!(a.block_number, b.block_number);
    }
    assert_eq!(replayed.trades.len(), fresh.trades.len());
    for (a, b) in replayed.trades.iter().zip(fresh.trades.iter()) {
        assert_eq!(a.trade_id, b.trade_id);
        assert_eq!(a.size, b.size);
    }
}

#[test]
fn extract_updates_groups_in_queue_order() {
    let updates = vec![
        Update::Trade(make_trade("t1", "A", 30, LimitType::GTC, 10)),
        Update::OpenOrder(make_order("A", 100, 50, 10)),
        Update::CancelOrder(String::from("B")),
        Update::OpenOrder(make_order("C", 10, 5, 10)),
    ];
    let (opens, trades, cancels) = extract_updates(&updates);
    assert_eq!(opens.len(), 2);
    assert_eq!(opens[0].order_id, "A");
    assert_eq!(opens[1].order_id, "C");
    assert_eq!(trades.len(), 1);
    assert_eq!(trades[0].trade_id, "t1");
    assert_eq!(cancels, vec![String::from("B")]);
}

#[test]
fn extract_operations_groups_in_queue_order() {
    let operations = vec![
        Operation::InsertTrade(make_trade("t1", "A", 30, LimitType::GTC, 10)),
        Operation::InsertOrder(make_order("A", 100, 50, 10)),
        Operation::UpdateOrder(UpdateOrder {
            order_id: String::from("A"),
            amount: None,
            status: OrderStatus::Cancelled,
        }),
    ];
    let (inserts, updates, trades) = extract_operations(&operations);
    assert_eq!(inserts.len(), 1);
    assert_eq!(inserts[0].order_id, "A");
    assert_eq!(updates.len(), 1);
    assert_eq!(updates[0].order_id, "A");
    assert_eq!(trades.len(), 1);
    assert_eq!(trades[0].trade_id, "t1");
}
