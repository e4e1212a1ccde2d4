//! Read-endpoint compute: parameter defaults and the spread, delegated
//! to the repository queries.
use vstd::prelude::*;

use crate::repo::order::{
    spec_listed, spec_listed_by_type, spec_order_matches, spec_page_end, spec_page_start,
    spec_sorted_by, OrderKey, Query,
};
use crate::repo::trade::{
    spec_trade_listed, spec_trade_page_end, spec_trade_page_start, spec_trades_sorted,
};
use crate::store::Store;
use crate::types::{view_opt_string, Order, OrderType, OrderView, Trade, TradeView};

verus! {

/// Page size used when a request names none.
pub const DEFAULT_LIMIT: u64 = 50;

/// The page size a request asks for: its own, or the default.
pub open spec fn spec_limit_of(limit: Option<u64>) -> u64 {
    match limit {
        Some(l) => l,
        None => DEFAULT_LIMIT,
    }
}

/// The page start a request asks for: its own, or zero.
pub open spec fn spec_offset_of(offset: Option<u64>) -> u64 {
    match offset {
        Some(o) => o,
        None => 0,
    }
}

/// Parameters of the spread endpoint.
#[derive(Debug)]
pub struct SpreadParams {
    pub market_id: String,
    pub user_ne: Option<String>,
}

/// Parameters of the best-bid and best-ask endpoints.
#[derive(Debug)]
pub struct BestOrderParams {
    pub market_id: String,
    pub user_ne: Option<String>,
}

/// Parameters of the order-listing endpoint.
#[derive(Debug)]
pub struct ListOrdersParams {
    pub market_id: String,
    pub order_type: Option<OrderType>,
    pub limit: Option<u64>,
    pub offset: Option<u64>,
    pub user_ne: Option<String>,
}

/// Parameters of the trade-listing endpoint.
#[derive(Debug)]
pub struct ListTradesParams {
    pub market_id: String,
    pub limit: Option<u64>,
    pub offset: Option<u64>,
}

/// The spread: the best bid and best ask of a market, either side
/// possibly empty.
#[derive(Debug)]
pub struct Spread {
    pub best_bid: Option<Order>,
    pub best_ask: Option<Order>,
}

/// The spread of a market: the best bid and the best ask, each exactly
/// as the corresponding best-order query returns it.
pub fn spread(store: &Store, params: SpreadParams) -> (r: Spread)
    requires
        store@.wf(),
    ensures
        (match r.best_bid {
            Some(o) => {
                &&& exists|i: int| 0 <= i < store@.orders.len() && store@.orders[i] == o@
                &&& spec_order_matches(
                    o@,
                    params.market_id@,
                    OrderType::Buy,
                    view_opt_string(params.user_ne),
                )
                &&& forall|j: int|
                    0 <= j < store@.orders.len() && spec_order_matches(
                        #[trigger] store@.orders[j],
                        params.market_id@,
                        OrderType::Buy,
                        view_opt_string(params.user_ne),
                    ) ==> store@.orders[j].price <= o@.price
            },
            None => forall|j: int|
                0 <= j < store@.orders.len() ==> !spec_order_matches(
                    #[trigger] store@.orders[j],
                    params.market_id@,
                    OrderType::Buy,
                    view_opt_string(params.user_ne),
                ),
        }),
        (match r.best_ask {
            Some(o) => {
                &&& exists|i: int| 0 <= i < store@.orders.len() && store@.orders[i] == o@
                &&& spec_order_matches(
                    o@,
                    params.market_id@,
                    OrderType::Sell,
                    view_opt_string(params.user_ne),
                )
                &&& forall|j: int|
                    0 <= j < store@.orders.len() && spec_order_matches(
                        #[trigger] store@.orders[j],
                        params.market_id@,
                        OrderType::Sell,
                        view_opt_string(params.user_ne),
                    ) ==> store@.orders[j].price >= o@.price
            },
            None => forall|j: int|
                0 <= j < store@.orders.len() ==> !spec_order_matches(
                    #[trigger] store@.orders[j],
                    params.market_id@,
                    OrderType::Sell,
                    view_opt_string(params.user_ne),
                ),
        }),
{
    let best_bid = Query::find_best_bid(
        store,
        params.market_id.clone(),
        clone_opt_string(&params.user_ne),
    );
    let best_ask = Query::find_best_ask(store, params.market_id, params.user_ne);
    Spread { best_bid, best_ask }
}

/// Clones an optional string, value for value.
fn clone_opt_string(s: &Option<String>) -> (r: Option<String>)
    ensures
        r == *s,
{
    match s {
        Some(x) => Some(x.clone()),
        None => None,
    }
}

/// The best bid of a market, as the best-order query returns it.
pub fn best_bid(store: &Store, params: BestOrderParams) -> (r: Option<Order>)
    requires
        store@.wf(),
    ensures
        (match r {
            Some(o) => {
                &&& exists|i: int| 0 <= i < store@.orders.len() && store@.orders[i] == o@
                &&& spec_order_matches(
                    o@,
                    params.market_id@,
                    OrderType::Buy,
                    view_opt_string(params.user_ne),
                )
                &&& forall|j: int|
                    0 <= j < store@.orders.len() && spec_order_matches(
                        #[trigger] store@.orders[j],
                        params.market_id@,
                        OrderType::Buy,
                        view_opt_string(params.user_ne),
                    ) ==> store@.orders[j].price <= o@.price
            },
            None => forall|j: int|
                0 <= j < store@.orders.len() ==> !spec_order_matches(
                    #[trigger] store@.orders[j],
                    params.market_id@,
                    OrderType::Buy,
                    view_opt_string(params.user_ne),
                ),
        }),
{
    Query::find_best_bid(store, params.market_id, params.user_ne)
}

/// The best ask of a market, as the best-order query returns it.
pub fn best_ask(store: &Store, params: BestOrderParams) -> (r: Option<Order>)
    requires
        store@.wf(),
    ensures
        (match r {
            Some(o) => {
                &&& exists|i: int| 0 <= i < store@.orders.len() && store@.orders[i] == o@
                &&& spec_order_matches(
                    o@,
                    params.market_id@,
                    OrderType::Sell,
                    view_opt_string(params.user_ne),
                )
                &&& forall|j: int|
                    0 <= j < store@.orders.len() && spec_order_matches(
                        #[trigger] store@.orders[j],
                        params.market_id@,
                        OrderType::Sell,
                        view_opt_string(params.user_ne),
                    ) ==> store@.orders[j].price >= o@.price
            },
            None => forall|j: int|
                0 <= j < store@.orders.len() ==> !spec_order_matches(
                    #[trigger] store@.orders[j],
                    params.market_id@,
                    OrderType::Sell,
                    view_opt_string(params.user_ne),
                ),
        }),
{
    Query::find_best_ask(store, params.market_id, params.user_ne)
}

/// The order listing: all active orders of the market newest first when
/// no side is named, else the named side best price first; paged with
/// the defaulted limit and offset.
pub fn list_orders(store: &Store, params: ListOrdersParams) -> (r: Vec<Order>)
    requires
        store@.wf(),
    ensures
        (match params.order_type {
            Some(order_type) => exists|sorted: Seq<OrderView>|
                #![auto]
                {
                    &&& spec_sorted_by(
                        (match order_type {
                            OrderType::Buy => OrderKey::PriceDesc,
                            OrderType::Sell => OrderKey::PriceAsc,
                        }),
                        sorted,
                    )
                    &&& sorted.to_multiset() == store@.orders.filter(
                        spec_listed_by_type(
                            params.market_id@,
                            order_type,
                            view_opt_string(params.user_ne),
                        ),
                    ).to_multiset()
                    &&& r@.map_values(|o: Order| o@) == sorted.subrange(
                        spec_page_start(sorted.len() as int, spec_offset_of(params.offset)),
                        spec_page_end(
                            sorted.len() as int,
                            spec_offset_of(params.offset),
                            spec_limit_of(params.limit),
                        ),
                    )
                },
            None => exists|sorted: Seq<OrderView>|
                #![auto]
                {
                    &&& spec_sorted_by(OrderKey::TimestampDesc, sorted)
                    &&& sorted.to_multiset() == store@.orders.filter(
                        spec_listed(params.market_id@),
                    ).to_multiset()
                    &&& r@.map_values(|o: Order| o@) == sorted.subrange(
                        spec_page_start(sorted.len() as int, spec_offset_of(params.offset)),
                        spec_page_end(
                            sorted.len() as int,
                            spec_offset_of(params.offset),
                            spec_limit_of(params.limit),
                        ),
                    )
                },
        }),
{
    let limit = match params.limit {
        Some(l) => l,
        None => DEFAULT_LIMIT,
    };
    let offset = match params.offset {
        Some(o) => o,
        None => 0,
    };
    match params.order_type {
        Some(order_type) => Query::find_by_type(
            store,
            params.market_id,
            order_type,
            limit,
            offset,
            params.user_ne,
        ),
        None => Query::find(store, params.market_id, limit, offset),
    }
}

/// The trade listing: the market's trades newest first, paged with the
/// defaulted limit and offset.
pub fn list_trades(store: &Store, params: ListTradesParams) -> (r: Vec<Trade>)
    requires
        store@.wf(),
    ensures
        exists|sorted: Seq<TradeView>|
            #![auto]
            {
                &&& spec_trades_sorted(sorted)
                &&& sorted.to_multiset() == store@.trades.filter(
                    spec_trade_listed(params.market_id@),
                ).to_multiset()
                &&& r@.map_values(|t: Trade| t@) == sorted.subrange(
                    spec_trade_page_start(sorted.len() as int, spec_offset_of(params.offset)),
                    spec_trade_page_end(
                        sorted.len() as int,
                        spec_offset_of(params.offset),
                        spec_limit_of(params.limit),
                    ),
                )
            },
{
    let limit = match params.limit {
        Some(l) => l,
        None => DEFAULT_LIMIT,
    };
    let offset = match params.offset {
        Some(o) => o,
        None => 0,
    };
    crate::repo::trade::Query::find(store, params.market_id, limit, offset)
}

} // verus!
