//! Core data model: orders, trades and the per-market cursor row.
use vstd::prelude::*;

verus! {

/// Side of an order.
#[derive(Debug, Clone, Copy, PartialEq, Eq, Structural)]
pub enum OrderType {
    Buy,
    Sell,
}

/// Lifecycle status of an order. `New` and `PartiallyMatched` are the
/// active states; `Matched`, `Cancelled` and `Failed` are terminal.
#[derive(Debug, Clone, Copy, PartialEq, Eq, Structural)]
pub enum OrderStatus {
    Cancelled,
    Failed,
    Matched,
    New,
    PartiallyMatched,
}

/// Fill discipline of a trade.
#[derive(Debug, Clone, Copy, PartialEq, Eq, Structural)]
pub enum LimitType {
    GTC,
    IOC,
    FOK,
    MKT,
}

/// An order row. `order_id` is the business key, unique across markets.
/// `amount` is the remaining size; timestamps are unix seconds.
#[derive(Debug)]
pub struct Order {
    pub tx_id: String,
    pub order_id: String,
    pub order_type: OrderType,
    pub user: String,
    pub asset: String,
    pub amount: u64,
    pub price: u64,
    pub status: OrderStatus,
    pub block_number: i64,
    pub timestamp: i64,
    pub market_id: String,
}

/// Mathematical image of an [`Order`]: strings as character sequences.
#[verifier::ext_equal]
pub struct OrderView {
    pub tx_id: Seq<char>,
    pub order_id: Seq<char>,
    pub order_type: OrderType,
    pub user: Seq<char>,
    pub asset: Seq<char>,
    pub amount: u64,
    pub price: u64,
    pub status: OrderStatus,
    pub block_number: i64,
    pub timestamp: i64,
    pub market_id: Seq<char>,
}

impl View for Order {
    type V = OrderView;

    open spec fn view(&self) -> OrderView {
        OrderView {
            tx_id: self.tx_id@,
            order_id: self.order_id@,
            order_type: self.order_type,
            user: self.user@,
            asset: self.asset@,
            amount: self.amount,
            price: self.price,
            status: self.status,
            block_number: self.block_number,
            timestamp: self.timestamp,
            market_id: self.market_id@,
        }
    }
}

/// Character-sequence image of an optional string field.
pub open spec fn view_opt_string(s: Option<String>) -> Option<Seq<char>> {
    match s {
        Some(x) => Some(x@),
        None => None,
    }
}

/// An order is active while it can still be filled or cancelled.
pub open spec fn spec_is_active(status: OrderStatus) -> bool {
    status == OrderStatus::New || status == OrderStatus::PartiallyMatched
}

impl OrderView {
    /// Active means status `New` or `PartiallyMatched`.
    pub open spec fn is_active(&self) -> bool {
        spec_is_active(self.status)
    }
}

impl Order {
    /// Whether the order still sits on the book.
    pub fn is_active(&self) -> (r: bool)
        ensures
            r == self@.is_active(),
    {
        self.status == OrderStatus::New || self.status == OrderStatus::PartiallyMatched
    }
}

impl Clone for Order {
    fn clone(&self) -> (res: Self)
        ensures
            res == *self,
    {
        Order {
            tx_id: self.tx_id.clone(),
            order_id: self.order_id.clone(),
            order_type: self.order_type,
            user: self.user.clone(),
            asset: self.asset.clone(),
            amount: self.amount,
            price: self.price,
            status: self.status,
            block_number: self.block_number,
            timestamp: self.timestamp,
            market_id: self.market_id.clone(),
        }
    }
}

/// A trade row. `trade_id` is derived from the identifying event fields
/// and unique; `order_id` names the order the trade filled.
#[derive(Debug)]
pub struct Trade {
    pub tx_id: String,
    pub trade_id: String,
    pub order_id: String,
    pub limit_type: LimitType,
    pub user: String,
    pub size: u64,
    pub price: u64,
    pub block_number: i64,
    pub timestamp: i64,
    pub market_id: String,
}

/// Mathematical image of a [`Trade`].
#[verifier::ext_equal]
pub struct TradeView {
    pub tx_id: Seq<char>,
    pub trade_id: Seq<char>,
    pub order_id: Seq<char>,
    pub limit_type: LimitType,
    pub user: Seq<char>,
    pub size: u64,
    pub price: u64,
    pub block_number: i64,
    pub timestamp: i64,
    pub market_id: Seq<char>,
}

impl View for Trade {
    type V = TradeView;

    open spec fn view(&self) -> TradeView {
        TradeView {
            tx_id: self.tx_id@,
            trade_id: self.trade_id@,
            order_id: self.order_id@,
            limit_type: self.limit_type,
            user: self.user@,
            size: self.size,
            price: self.price,
            block_number: self.block_number,
            timestamp: self.timestamp,
            market_id: self.market_id@,
        }
    }
}

impl Clone for Trade {
    fn clone(&self) -> (res: Self)
        ensures
            res == *self,
    {
        Trade {
            tx_id: self.tx_id.clone(),
            trade_id: self.trade_id.clone(),
            order_id: self.order_id.clone(),
            limit_type: self.limit_type,
            user: self.user.clone(),
            size: self.size,
            price: self.price,
            block_number: self.block_number,
            timestamp: self.timestamp,
            market_id: self.market_id.clone(),
        }
    }
}

/// A partial order update: new status, and a new remaining amount when
/// `amount` is set.
#[derive(Debug)]
pub struct UpdateOrder {
    pub order_id: String,
    pub amount: Option<u64>,
    pub status: OrderStatus,
}

/// Mathematical image of an [`UpdateOrder`].
#[verifier::ext_equal]
pub struct UpdateOrderView {
    pub order_id: Seq<char>,
    pub amount: Option<u64>,
    pub status: OrderStatus,
}

impl View for UpdateOrder {
    type V = UpdateOrderView;

    open spec fn view(&self) -> UpdateOrderView {
        UpdateOrderView { order_id: self.order_id@, amount: self.amount, status: self.status }
    }
}

impl Clone for UpdateOrder {
    fn clone(&self) -> (res: Self)
        ensures
            res == *self,
    {
        UpdateOrder {
            order_id: self.order_id.clone(),
            amount: self.amount,
            status: self.status,
        }
    }
}

/// The durable cursor: one row per market, pointing at the latest block
/// whose mutations were applied.
#[derive(Debug)]
pub struct State {
    pub market_id: String,
    pub latest_processed_block: i64,
    pub timestamp: i64,
}

/// Mathematical image of a [`State`] row.
#[verifier::ext_equal]
pub struct StateView {
    pub market_id: Seq<char>,
    pub latest_processed_block: i64,
    pub timestamp: i64,
}

impl View for State {
    type V = StateView;

    open spec fn view(&self) -> StateView {
        StateView {
            market_id: self.market_id@,
            latest_processed_block: self.latest_processed_block,
            timestamp: self.timestamp,
        }
    }
}

impl Clone for State {
    fn clone(&self) -> (res: Self)
        ensures
            res == *self,
    {
        State {
            market_id: self.market_id.clone(),
            latest_processed_block: self.latest_processed_block,
            timestamp: self.timestamp,
        }
    }
}

} // verus!
