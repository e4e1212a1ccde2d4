use sparker::config::{Config, MarketInfo};
use sparker::dispatcher::{OperationDispatcher, Update};
use sparker::event::PangeaEvent;
use sparker::fanout::{order_update_matches, Event, BROADCAST_CAPACITY};
use sparker::indexer::{
    catch_up, chain_of, handle_event, listen_step, next_batch_end, provider_url, Backoff, ChainId,
    BATCH_SIZE,
};
use sparker::repo::{order, state};
use sparker::store::Store;
use sparker::types::{Order, OrderStatus, OrderType};

fn event(event_type: Option<&str>, block: i64) -> PangeaEvent {
    PangeaEvent {
        chain: 9889,
        block_number: block,
        block_hash: String::from("0xblock"),
        block_timestamp: 1700000000,
        transaction_hash: String::from("0xabc"),
        transaction_index: 1,
        log_index: 2,
        market_id: String::from("m1"),
        order_id: String::from("A"),
        event_type: event_type.map(String::from),
        asset: Some(String::from("ETH")),
        amount: Some(30),
        asset_type: None,
        order_type: Some(String::from("Buy")),
        price: Some(50),
        user: Some(String::from("U1")),
        order_matcher: None,
        owner: None,
        limit_type: Some(String::from("GTC")),
    }
}

#[test]
fn handle_event_maps_each_event_type() {
    assert!(matches!(
        handle_event(&event(Some("Open"), 10)),
        Some(Update::OpenOrder(_))
    ));
    assert!(matches!(
        handle_event(&event(Some("Trade"), 10)),
        Some(Update::Trade(_))
    ));
    match handle_event(&event(Some("Cancel"), 10)) {
        Some(Update::CancelOrder(id)) => assert_eq!(id, "A"),
        _ => panic!("cancel events queue the order id"),
    }
    assert!(handle_event(&event(Some("Settle"), 10)).is_none());
    assert!(handle_event(&event(None, 10)).is_none());

    // An Open event too bare to build an order queues nothing.
    let mut bare = event(Some("Open"), 10);
    bare.user = None;
    assert!(handle_event(&bare).is_none());
}

#[test]
fn catch_up_applies_a_batch_and_returns_the_last_block() {
    let mut store = Store::new(Vec::new());
    let mut dispatcher = OperationDispatcher::new(String::from("m1"));
    let mut trade_event = event(Some("Trade"), 11);
    trade_event.amount = Some(10);
    let events = vec![event(Some("Open"), 10), trade_event, event(Some("Cancel"), 12)];
    let latest = catch_up(&mut dispatcher, &mut store, &events, 5, 999);
    assert_eq!(latest, 12);
    let a = order::Query::find_by_id(&store, &String::from("A")).expect("opened");
    assert!(matches!(a.status, OrderStatus::Cancelled));
    assert_eq!(store.trades.len(), 1);
    assert_eq!(
        state::Query::find_latest_processed_block(&store, &String::from("m1")),
        Some(12)
    );
    assert!(dispatcher.updates.is_empty());
}

#[test]
fn catch_up_on_an_empty_batch_keeps_the_block() {
    let mut store = Store::new(Vec::new());
    let mut dispatcher = OperationDispatcher::new(String::from("m1"));
    let latest = catch_up(&mut dispatcher, &mut store, &Vec::new(), 5, 999);
    assert_eq!(latest, 5);
    assert_eq!(
        state::Query::find_latest_processed_block(&store, &String::from("m1")),
        Some(5)
    );
}

#[test]
fn listen_step_dispatches_every_event() {
    let mut store = Store::new(Vec::new());
    let mut dispatcher = OperationDispatcher::new(String::from("m1"));
    let latest = listen_step(&mut dispatcher, &mut store, &event(Some("Open"), 42), 999);
    assert_eq!(latest, 42);
    assert_eq!(store.orders.len(), 1);
    assert_eq!(
        state::Query::find_latest_processed_block(&store, &String::from("m1")),
        Some(42)
    );
}

#[test]
fn backoff_doubles_to_a_cap_and_resets() {
    let mut backoff = Backoff::new();
    let mut seen = Vec::new();
    for _ in 0..7 {
        seen.push(backoff.secs);
        backoff.advance();
    }
    assert_eq!(seen, vec![1, 2, 4, 8, 16, 32, 32]);
    backoff.reset();
    assert_eq!(backoff.secs, 1);
}

#[test]
fn next_batch_end_clips_to_the_head() {
    assert_eq!(next_batch_end(0, 50), 50);
    assert_eq!(next_batch_end(0, 500000), BATCH_SIZE as i64);
    assert_eq!(next_batch_end(200000, 250000), 250000);
}

#[test]
fn chain_selection_and_provider_urls() {
    assert!(matches!(chain_of(&String::from("FUEL")), ChainId::Fuel));
    assert!(matches!(
        chain_of(&String::from("FUELTESTNET")),
        ChainId::FuelTestnet
    ));
    assert!(matches!(chain_of(&String::from("")), ChainId::FuelTestnet));
    assert_eq!(provider_url(ChainId::Fuel), "mainnet.fuel.network");
    assert_eq!(provider_url(ChainId::FuelTestnet), "testnet.fuel.network");
}

#[test]
fn config_start_block_prefers_the_stored_cursor() {
    let config = Config {
        pangea_host: String::from("host"),
        pangea_start_block: 77,
        markets: vec![MarketInfo { id: String::from("m1"), name: String::from("ONE") }],
    };
    assert_eq!(config.start_block(Some(10)), 10);
    assert_eq!(config.start_block(None), 77);
    assert_eq!(config.markets[0].name, "ONE");
}

#[test]
fn subscription_filter_matches_market_and_user() {
    let order = Order {
        tx_id: String::from("0xtx"),
        order_id: String::from("A"),
        order_type: OrderType::Buy,
        user: String::from("U1"),
        asset: String::from("ETH"),
        amount: 10,
        price: 50,
        status: OrderStatus::New,
        block_number: 10,
        timestamp: 1000,
        market_id: String::from("m1"),
    };
    assert!(order_update_matches(&order, &String::from("m1"), &None));
    assert!(order_update_matches(
        &order,
        &String::from("m1"),
        &Some(String::from("U1"))
    ));
    assert!(!order_update_matches(
        &order,
        &String::from("m1"),
        &Some(String::from("U2"))
    ));
    assert!(!order_update_matches(&order, &String::from("m2"), &None));

    let cloned = match Event::OrderUpdated(order).clone() {
        Event::OrderUpdated(o) => o,
        Event::Traded(_) => panic!("wrong variant"),
    };
    assert_eq!(cloned.order_id, "A");
    assert!(BROADCAST_CAPACITY == 100);
}
