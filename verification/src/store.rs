//! In-memory model of the indexer's database: the order and trade tables
//! and the per-market cursor rows, with their uniqueness invariants.
use vstd::prelude::*;

use crate::types::{
    Order, OrderStatus, OrderView, State, StateView, Trade, TradeView, UpdateOrder,
    UpdateOrderView,
};

verus! {

/// Order ids are pairwise distinct.
pub open spec fn spec_orders_unique(orders: Seq<OrderView>) -> bool {
    forall|i: int, j: int|
        0 <= i < j < orders.len() ==> orders[i].order_id != orders[j].order_id
}

/// Trade ids are pairwise distinct.
pub open spec fn spec_trades_unique(trades: Seq<TradeView>) -> bool {
    forall|i: int, j: int|
        0 <= i < j < trades.len() ==> trades[i].trade_id != trades[j].trade_id
}

/// Cursor rows are keyed by market: market ids are pairwise distinct.
pub open spec fn spec_states_unique(states: Seq<StateView>) -> bool {
    forall|i: int, j: int|
        0 <= i < j < states.len() ==> states[i].market_id != states[j].market_id
}

/// Mathematical image of a [`Store`].
#[verifier::ext_equal]
pub struct StoreView {
    pub orders: Seq<OrderView>,
    pub trades: Seq<TradeView>,
    pub states: Seq<StateView>,
}

/// Whether some row of the order table carries this id.
pub open spec fn spec_has_order_row(orders: Seq<OrderView>, order_id: Seq<char>) -> bool {
    exists|i: int| 0 <= i < orders.len() && orders[i].order_id == order_id
}

/// The position of the order row with this id, meaningful when a row
/// carries it.
pub open spec fn spec_order_row_idx(orders: Seq<OrderView>, order_id: Seq<char>) -> int {
    choose|i: int| 0 <= i < orders.len() && orders[i].order_id == order_id
}

/// Whether some row of the trade table carries this id.
pub open spec fn spec_has_trade_row(trades: Seq<TradeView>, trade_id: Seq<char>) -> bool {
    exists|i: int| 0 <= i < trades.len() && trades[i].trade_id == trade_id
}

/// The position of the trade row with this id, meaningful when a row
/// carries it.
pub open spec fn spec_trade_row_idx(trades: Seq<TradeView>, trade_id: Seq<char>) -> int {
    choose|i: int| 0 <= i < trades.len() && trades[i].trade_id == trade_id
}

/// Whether some cursor row belongs to this market.
pub open spec fn spec_has_state_row(states: Seq<StateView>, market_id: Seq<char>) -> bool {
    exists|i: int| 0 <= i < states.len() && states[i].market_id == market_id
}

/// The position of the market's cursor row, meaningful when one exists.
pub open spec fn spec_state_row_idx(states: Seq<StateView>, market_id: Seq<char>) -> int {
    choose|i: int| 0 <= i < states.len() && states[i].market_id == market_id
}

impl StoreView {
    /// The row keys behave as primary keys: each id names at most one row.
    pub open spec fn wf(self) -> bool {
        spec_orders_unique(self.orders) && spec_trades_unique(self.trades) && spec_states_unique(
            self.states,
        )
    }

    /// Whether some order row carries this id.
    pub open spec fn has_order(self, order_id: Seq<char>) -> bool {
        spec_has_order_row(self.orders, order_id)
    }

    /// The position of the order row with this id, meaningful when
    /// `has_order` holds.
    pub open spec fn order_idx(self, order_id: Seq<char>) -> int {
        spec_order_row_idx(self.orders, order_id)
    }

    /// The order row with this id, meaningful when `has_order` holds.
    pub open spec fn order_of(self, order_id: Seq<char>) -> OrderView {
        self.orders[self.order_idx(order_id)]
    }

    /// Whether some trade row carries this id.
    pub open spec fn has_trade(self, trade_id: Seq<char>) -> bool {
        spec_has_trade_row(self.trades, trade_id)
    }

    /// The position of the trade row with this id, meaningful when
    /// `has_trade` holds.
    pub open spec fn trade_idx(self, trade_id: Seq<char>) -> int {
        spec_trade_row_idx(self.trades, trade_id)
    }

    /// The trade row with this id, meaningful when `has_trade` holds.
    pub open spec fn trade_of(self, trade_id: Seq<char>) -> TradeView {
        self.trades[self.trade_idx(trade_id)]
    }

    /// Whether the market has a cursor row.
    pub open spec fn has_state(self, market_id: Seq<char>) -> bool {
        spec_has_state_row(self.states, market_id)
    }

    /// The position of the market's cursor row, meaningful when
    /// `has_state` holds.
    pub open spec fn state_idx(self, market_id: Seq<char>) -> int {
        spec_state_row_idx(self.states, market_id)
    }

    /// The market's cursor row, meaningful when `has_state` holds.
    pub open spec fn state_of(self, market_id: Seq<char>) -> StateView {
        self.states[self.state_idx(market_id)]
    }
}

/// With unique ids, any position holding the id is the one `order_idx`
/// names.
pub proof fn lemma_order_idx_unique(s: StoreView, order_id: Seq<char>, j: int)
    requires
        spec_orders_unique(s.orders),
        0 <= j < s.orders.len(),
        s.orders[j].order_id == order_id,
    ensures
        s.has_order(order_id),
        s.order_idx(order_id) == j,
{
    assert(s.has_order(order_id));
    let i = s.order_idx(order_id);
    if i != j {
        assert(s.orders[i].order_id != s.orders[j].order_id);
    }
}

/// With unique ids, any position holding the trade id is the one
/// `trade_idx` names.
pub proof fn lemma_trade_idx_unique(s: StoreView, trade_id: Seq<char>, j: int)
    requires
        spec_trades_unique(s.trades),
        0 <= j < s.trades.len(),
        s.trades[j].trade_id == trade_id,
    ensures
        s.has_trade(trade_id),
        s.trade_idx(trade_id) == j,
{
    assert(s.has_trade(trade_id));
    let i = s.trade_idx(trade_id);
    if i != j {
        assert(s.trades[i].trade_id != s.trades[j].trade_id);
    }
}

/// With unique market ids, any position holding the market is the one
/// `state_idx` names.
pub proof fn lemma_state_idx_unique(s: StoreView, market_id: Seq<char>, j: int)
    requires
        spec_states_unique(s.states),
        0 <= j < s.states.len(),
        s.states[j].market_id == market_id,
    ensures
        s.has_state(market_id),
        s.state_idx(market_id) == j,
{
    assert(s.has_state(market_id));
    let i = s.state_idx(market_id);
    if i != j {
        assert(s.states[i].market_id != s.states[j].market_id);
    }
}

/// The new amount and status applied to an order row: the amount is kept
/// when the update does not set one.
pub open spec fn spec_updated_order(o: OrderView, amount: Option<u64>, status: OrderStatus) -> OrderView {
    OrderView {
        tx_id: o.tx_id,
        order_id: o.order_id,
        order_type: o.order_type,
        user: o.user,
        asset: o.asset,
        amount: match amount {
            Some(a) => a,
            None => o.amount,
        },
        price: o.price,
        status,
        block_number: o.block_number,
        timestamp: o.timestamp,
        market_id: o.market_id,
    }
}

/// The store after inserting an order; an id already present leaves the
/// store unchanged.
pub open spec fn spec_insert_order(s: StoreView, o: OrderView) -> StoreView {
    if s.has_order(o.order_id) {
        s
    } else {
        StoreView { orders: s.orders.push(o), trades: s.trades, states: s.states }
    }
}

/// The store after inserting the orders one by one, in order.
pub open spec fn spec_insert_orders(s: StoreView, os: Seq<OrderView>) -> StoreView
    decreases os.len(),
{
    if os.len() == 0 {
        s
    } else {
        spec_insert_orders(spec_insert_order(s, os[0]), os.drop_first())
    }
}

/// The store after an order update; a missing id leaves the store
/// unchanged.
pub open spec fn spec_update_order(s: StoreView, u: UpdateOrderView) -> StoreView {
    if s.has_order(u.order_id) {
        StoreView {
            orders: s.orders.update(
                s.order_idx(u.order_id),
                spec_updated_order(s.order_of(u.order_id), u.amount, u.status),
            ),
            trades: s.trades,
            states: s.states,
        }
    } else {
        s
    }
}

/// The store after inserting a trade; an id already present leaves the
/// store unchanged.
pub open spec fn spec_insert_trade(s: StoreView, t: TradeView) -> StoreView {
    if s.has_trade(t.trade_id) {
        s
    } else {
        StoreView { orders: s.orders, trades: s.trades.push(t), states: s.states }
    }
}

/// The store after inserting the trades one by one, in order.
pub open spec fn spec_insert_trades(s: StoreView, ts: Seq<TradeView>) -> StoreView
    decreases ts.len(),
{
    if ts.len() == 0 {
        s
    } else {
        spec_insert_trades(spec_insert_trade(s, ts[0]), ts.drop_first())
    }
}

/// Whether a row survives pruning the market at `from_block`.
pub open spec fn spec_order_kept(market_id: Seq<char>, from_block: i64) -> spec_fn(OrderView) -> bool {
    |o: OrderView| !(o.market_id == market_id && o.block_number >= from_block)
}

/// Whether a trade row survives pruning the market at `from_block`.
pub open spec fn spec_trade_kept(market_id: Seq<char>, from_block: i64) -> spec_fn(TradeView) -> bool {
    |t: TradeView| !(t.market_id == market_id && t.block_number >= from_block)
}

/// The order rows left after deleting the market's rows at or after
/// `from_block`.
pub open spec fn spec_prune_orders(orders: Seq<OrderView>, market_id: Seq<char>, from_block: i64) -> Seq<OrderView> {
    orders.filter(spec_order_kept(market_id, from_block))
}

/// The trade rows left after deleting the market's rows at or after
/// `from_block`.
pub open spec fn spec_prune_trades(trades: Seq<TradeView>, market_id: Seq<char>, from_block: i64) -> Seq<TradeView> {
    trades.filter(spec_trade_kept(market_id, from_block))
}

/// The store after writing the market's cursor: the row is updated in
/// place, or appended when the market had none.
pub open spec fn spec_upsert_state(s: StoreView, market_id: Seq<char>, block: i64, now: i64) -> StoreView {
    let row = StateView { market_id, latest_processed_block: block, timestamp: now };
    if s.has_state(market_id) {
        StoreView {
            orders: s.orders,
            trades: s.trades,
            states: s.states.update(s.state_idx(market_id), row),
        }
    } else {
        StoreView { orders: s.orders, trades: s.trades, states: s.states.push(row) }
    }
}

/// Inserting keeps order ids unique.
pub proof fn lemma_insert_order_wf(s: StoreView, o: OrderView)
    requires
        s.wf(),
    ensures
        spec_insert_order(s, o).wf(),
{
    if !s.has_order(o.order_id) {
        let orders = s.orders.push(o);
        assert forall|i: int, j: int| 0 <= i < j < orders.len() implies orders[i].order_id
            != orders[j].order_id by {
            if j == orders.len() - 1 {
                assert(orders[i] == s.orders[i]);
            }
        }
    }
}

/// Inserting a batch keeps order ids unique.
pub proof fn lemma_insert_orders_wf(s: StoreView, os: Seq<OrderView>)
    requires
        s.wf(),
    ensures
        spec_insert_orders(s, os).wf(),
    decreases os.len(),
{
    if os.len() > 0 {
        lemma_insert_order_wf(s, os[0]);
        lemma_insert_orders_wf(spec_insert_order(s, os[0]), os.drop_first());
    }
}

/// Updating a row in place keeps ids unique: the id is unchanged.
pub proof fn lemma_update_order_wf(s: StoreView, u: UpdateOrderView)
    requires
        s.wf(),
    ensures
        spec_update_order(s, u).wf(),
{
    if s.has_order(u.order_id) {
        let orders = spec_update_order(s, u).orders;
        assert forall|i: int, j: int| 0 <= i < j < orders.len() implies orders[i].order_id
            != orders[j].order_id by {
            assert(orders[i].order_id == s.orders[i].order_id);
            assert(orders[j].order_id == s.orders[j].order_id);
        }
    }
}

/// Inserting keeps trade ids unique.
pub proof fn lemma_insert_trade_wf(s: StoreView, t: TradeView)
    requires
        s.wf(),
    ensures
        spec_insert_trade(s, t).wf(),
{
    if !s.has_trade(t.trade_id) {
        let trades = s.trades.push(t);
        assert forall|i: int, j: int| 0 <= i < j < trades.len() implies trades[i].trade_id
            != trades[j].trade_id by {
            if j == trades.len() - 1 {
                assert(trades[i] == s.trades[i]);
            }
        }
    }
}

/// Inserting a batch keeps trade ids unique.
pub proof fn lemma_insert_trades_wf(s: StoreView, ts: Seq<TradeView>)
    requires
        s.wf(),
    ensures
        spec_insert_trades(s, ts).wf(),
    decreases ts.len(),
{
    if ts.len() > 0 {
        lemma_insert_trade_wf(s, ts[0]);
        lemma_insert_trades_wf(spec_insert_trade(s, ts[0]), ts.drop_first());
    }
}

/// Writing the cursor keeps market ids unique.
pub proof fn lemma_upsert_state_wf(s: StoreView, market_id: Seq<char>, block: i64, now: i64)
    requires
        s.wf(),
    ensures
        spec_upsert_state(s, market_id, block, now).wf(),
{
    let states = spec_upsert_state(s, market_id, block, now).states;
    if s.has_state(market_id) {
        assert forall|i: int, j: int| 0 <= i < j < states.len() implies states[i].market_id
            != states[j].market_id by {
            let k = s.state_idx(market_id);
            assert(s.states[k].market_id == market_id);
            assert(i != k ==> states[i] == s.states[i]);
            assert(j != k ==> states[j] == s.states[j]);
        }
    } else {
        assert forall|i: int, j: int| 0 <= i < j < states.len() implies states[i].market_id
            != states[j].market_id by {
            if j == states.len() - 1 {
                assert(states[i] == s.states[i]);
            }
        }
    }
}

/// An order update never adds, removes or renames rows: the id at every
/// position is untouched.
pub proof fn lemma_update_order_ids(s: StoreView, u: UpdateOrderView)
    ensures
        spec_update_order(s, u).orders.len() == s.orders.len(),
        forall|i: int|
            0 <= i < s.orders.len() ==> #[trigger] spec_update_order(s, u).orders[i].order_id
                == s.orders[i].order_id,
        spec_update_order(s, u).trades == s.trades,
        spec_update_order(s, u).states == s.states,
{
}

/// Updating an order leaves it reachable under its id, with the new
/// amount and status.
pub proof fn lemma_update_order_self(s: StoreView, u: UpdateOrderView)
    requires
        s.wf(),
        s.has_order(u.order_id),
    ensures
        spec_update_order(s, u).has_order(u.order_id),
        spec_update_order(s, u).order_of(u.order_id) == spec_updated_order(
            s.order_of(u.order_id),
            u.amount,
            u.status,
        ),
{
    let k = s.order_idx(u.order_id);
    let s2 = spec_update_order(s, u);
    lemma_update_order_wf(s, u);
    assert(s2.orders[k].order_id == u.order_id);
    lemma_order_idx_unique(s2, u.order_id, k);
}

/// Updating one order leaves every other order exactly as it was.
pub proof fn lemma_update_order_other(s: StoreView, u: UpdateOrderView, id: Seq<char>)
    requires
        s.wf(),
        id != u.order_id,
    ensures
        spec_update_order(s, u).has_order(id) == s.has_order(id),
        s.has_order(id) ==> spec_update_order(s, u).order_of(id) == s.order_of(id),
{
    let s2 = spec_update_order(s, u);
    lemma_update_order_ids(s, u);
    lemma_update_order_wf(s, u);
    if s.has_order(id) {
        let k = s.order_idx(id);
        assert(s2.orders[k].order_id == id);
        lemma_order_idx_unique(s2, id, k);
        if s.has_order(u.order_id) {
            assert(s.orders[s.order_idx(u.order_id)].order_id == u.order_id);
            assert(k != s.order_idx(u.order_id));
        }
    } else {
        if s2.has_order(id) {
            let k = s2.order_idx(id);
            assert(s.orders[k].order_id == id);
        }
    }
}

/// Inserting never loses an order that was already there.
pub proof fn lemma_insert_order_monotone(s: StoreView, o: OrderView, id: Seq<char>)
    requires
        s.has_order(id),
    ensures
        spec_insert_order(s, o).has_order(id),
{
    let k = s.order_idx(id);
    assert(spec_insert_order(s, o).orders[k].order_id == id);
}

/// After an insert the inserted id is present.
pub proof fn lemma_insert_order_has(s: StoreView, o: OrderView)
    ensures
        spec_insert_order(s, o).has_order(o.order_id),
{
    if !s.has_order(o.order_id) {
        let s2 = spec_insert_order(s, o);
        assert(s2.orders[s.orders.len() as int].order_id == o.order_id);
    }
}

/// After a batch insert, every id of the batch is present, and every id
/// present before still is.
pub proof fn lemma_insert_orders_has(s: StoreView, os: Seq<OrderView>)
    ensures
        forall|k: int|
            0 <= k < os.len() ==> spec_insert_orders(s, os).has_order(
                #[trigger] os[k].order_id,
            ),
        forall|id: Seq<char>|
            s.has_order(id) ==> #[trigger] spec_insert_orders(s, os).has_order(id),
    decreases os.len(),
{
    if os.len() > 0 {
        let s2 = spec_insert_order(s, os[0]);
        lemma_insert_order_has(s, os[0]);
        lemma_insert_orders_has(s2, os.drop_first());
        assert(spec_insert_orders(s, os) == spec_insert_orders(s2, os.drop_first()));
        assert forall|k: int| 0 <= k < os.len() implies spec_insert_orders(s, os).has_order(
            #[trigger] os[k].order_id,
        ) by {
            if k > 0 {
                assert(os.drop_first()[k - 1] == os[k]);
                assert(spec_insert_orders(s2, os.drop_first()).has_order(os[k].order_id));
            } else {
                assert(s2.has_order(os[0].order_id));
                assert(spec_insert_orders(s2, os.drop_first()).has_order(os[0].order_id));
            }
        }
        assert forall|id: Seq<char>| s.has_order(id) implies #[trigger] spec_insert_orders(
            s,
            os,
        ).has_order(id) by {
            lemma_insert_order_monotone(s, os[0], id);
            assert(spec_insert_orders(s2, os.drop_first()).has_order(id));
        }
    }
}

/// Inserting an id that is already present changes nothing; so a batch
/// whose ids are all present changes nothing.
pub proof fn lemma_insert_orders_noop(s: StoreView, os: Seq<OrderView>)
    requires
        forall|k: int| 0 <= k < os.len() ==> s.has_order(#[trigger] os[k].order_id),
    ensures
        spec_insert_orders(s, os) == s,
    decreases os.len(),
{
    if os.len() > 0 {
        assert(s.has_order(os[0].order_id));
        assert forall|k: int| 0 <= k < os.drop_first().len() implies s.has_order(
            #[trigger] os.drop_first()[k].order_id,
        ) by {
            assert(os.drop_first()[k] == os[k + 1]);
        }
        lemma_insert_orders_noop(s, os.drop_first());
    }
}

/// Inserting the same order twice is inserting it once: the conflict on
/// the primary key makes the second insert a no-op.
pub proof fn lemma_insert_order_idempotent(s: StoreView, o: OrderView)
    ensures
        spec_insert_order(spec_insert_order(s, o), o) == spec_insert_order(s, o),
{
    lemma_insert_order_has(s, o);
}

/// Inserting the same batch twice is inserting it once.
pub proof fn lemma_insert_orders_idempotent(s: StoreView, os: Seq<OrderView>)
    ensures
        spec_insert_orders(spec_insert_orders(s, os), os) == spec_insert_orders(s, os),
{
    lemma_insert_orders_has(s, os);
    lemma_insert_orders_noop(spec_insert_orders(s, os), os);
}

/// Inserting never loses a trade that was already there.
pub proof fn lemma_insert_trade_monotone(s: StoreView, t: TradeView, id: Seq<char>)
    requires
        s.has_trade(id),
    ensures
        spec_insert_trade(s, t).has_trade(id),
{
    let k = s.trade_idx(id);
    assert(spec_insert_trade(s, t).trades[k].trade_id == id);
}

/// After an insert the inserted trade id is present.
pub proof fn lemma_insert_trade_has(s: StoreView, t: TradeView)
    ensures
        spec_insert_trade(s, t).has_trade(t.trade_id),
{
    if !s.has_trade(t.trade_id) {
        let s2 = spec_insert_trade(s, t);
        assert(s2.trades[s.trades.len() as int].trade_id == t.trade_id);
    }
}

/// After a batch insert, every trade id of the batch is present, and
/// every id present before still is.
pub proof fn lemma_insert_trades_has(s: StoreView, ts: Seq<TradeView>)
    ensures
        forall|k: int|
            0 <= k < ts.len() ==> spec_insert_trades(s, ts).has_trade(
                #[trigger] ts[k].trade_id,
            ),
        forall|id: Seq<char>|
            s.has_trade(id) ==> #[trigger] spec_insert_trades(s, ts).has_trade(id),
    decreases ts.len(),
{
    if ts.len() > 0 {
        let s2 = spec_insert_trade(s, ts[0]);
        lemma_insert_trade_has(s, ts[0]);
        lemma_insert_trades_has(s2, ts.drop_first());
        assert(spec_insert_trades(s, ts) == spec_insert_trades(s2, ts.drop_first()));
        assert forall|k: int| 0 <= k < ts.len() implies spec_insert_trades(s, ts).has_trade(
            #[trigger] ts[k].trade_id,
        ) by {
            if k > 0 {
                assert(ts.drop_first()[k - 1] == ts[k]);
                assert(spec_insert_trades(s2, ts.drop_first()).has_trade(ts[k].trade_id));
            } else {
                assert(s2.has_trade(ts[0].trade_id));
                assert(spec_insert_trades(s2, ts.drop_first()).has_trade(ts[0].trade_id));
            }
        }
        assert forall|id: Seq<char>| s.has_trade(id) implies #[trigger] spec_insert_trades(
            s,
            ts,
        ).has_trade(id) by {
            lemma_insert_trade_monotone(s, ts[0], id);
            assert(spec_insert_trades(s2, ts.drop_first()).has_trade(id));
        }
    }
}

/// A batch of trades whose ids are all present changes nothing.
pub proof fn lemma_insert_trades_noop(s: StoreView, ts: Seq<TradeView>)
    requires
        forall|k: int| 0 <= k < ts.len() ==> s.has_trade(#[trigger] ts[k].trade_id),
    ensures
        spec_insert_trades(s, ts) == s,
    decreases ts.len(),
{
    if ts.len() > 0 {
        assert(s.has_trade(ts[0].trade_id));
        assert forall|k: int| 0 <= k < ts.drop_first().len() implies s.has_trade(
            #[trigger] ts.drop_first()[k].trade_id,
        ) by {
            assert(ts.drop_first()[k] == ts[k + 1]);
        }
        lemma_insert_trades_noop(s, ts.drop_first());
    }
}

/// Inserting the same trade twice is inserting it once.
pub proof fn lemma_insert_trade_idempotent(s: StoreView, t: TradeView)
    ensures
        spec_insert_trade(spec_insert_trade(s, t), t) == spec_insert_trade(s, t),
{
    lemma_insert_trade_has(s, t);
}

/// Inserting the same trades twice is inserting them once.
pub proof fn lemma_insert_trades_idempotent(s: StoreView, ts: Seq<TradeView>)
    ensures
        spec_insert_trades(spec_insert_trades(s, ts), ts) == spec_insert_trades(s, ts),
{
    lemma_insert_trades_has(s, ts);
    lemma_insert_trades_noop(spec_insert_trades(s, ts), ts);
}

/// After the cursor write the market points at the written block and
/// time; the tables are untouched.
pub proof fn lemma_upsert_state_effect(s: StoreView, market_id: Seq<char>, block: i64, now: i64)
    requires
        s.wf(),
    ensures
        spec_upsert_state(s, market_id, block, now).has_state(market_id),
        spec_upsert_state(s, market_id, block, now).state_of(market_id)
            == (StateView { market_id, latest_processed_block: block, timestamp: now }),
        spec_upsert_state(s, market_id, block, now).orders == s.orders,
        spec_upsert_state(s, market_id, block, now).trades == s.trades,
{
    let s2 = spec_upsert_state(s, market_id, block, now);
    lemma_upsert_state_wf(s, market_id, block, now);
    if s.has_state(market_id) {
        let k = s.state_idx(market_id);
        assert(s2.states[k].market_id == market_id);
        lemma_state_idx_unique(s2, market_id, k);
    } else {
        assert(s2.states[s.states.len() as int].market_id == market_id);
        lemma_state_idx_unique(s2, market_id, s.states.len() as int);
    }
}

/// The filtered form of a one-element sequence.
pub proof fn lemma_filter_one<A>(x: A, p: spec_fn(A) -> bool)
    ensures
        seq![x].filter(p) == if p(x) {
            seq![x]
        } else {
            Seq::<A>::empty()
        },
{
    reveal(Seq::filter);
    assert(seq![x].drop_last() =~= Seq::<A>::empty());
    assert(Seq::<A>::empty().filter(p) =~= Seq::<A>::empty());
    if p(x) {
        assert(seq![x].filter(p) =~= seq![x]);
    }
}

/// The store with the order keyed in as a cache write: an existing row
/// under the id is replaced, else the row is appended.
pub open spec fn spec_put_order(s: StoreView, o: OrderView) -> StoreView {
    if s.has_order(o.order_id) {
        StoreView {
            orders: s.orders.update(s.order_idx(o.order_id), o),
            trades: s.trades,
            states: s.states,
        }
    } else {
        StoreView { orders: s.orders.push(o), trades: s.trades, states: s.states }
    }
}

/// The store with the trade keyed in as a cache write.
pub open spec fn spec_put_trade(s: StoreView, t: TradeView) -> StoreView {
    if s.has_trade(t.trade_id) {
        StoreView {
            orders: s.orders,
            trades: s.trades.update(s.trade_idx(t.trade_id), t),
            states: s.states,
        }
    } else {
        StoreView { orders: s.orders, trades: s.trades.push(t), states: s.states }
    }
}

/// A cache write keeps order ids unique.
pub proof fn lemma_put_order_wf(s: StoreView, o: OrderView)
    requires
        s.wf(),
    ensures
        spec_put_order(s, o).wf(),
{
    let orders = spec_put_order(s, o).orders;
    if s.has_order(o.order_id) {
        let k = s.order_idx(o.order_id);
        assert(s.orders[k].order_id == o.order_id);
        assert forall|i: int, j: int| 0 <= i < j < orders.len() implies orders[i].order_id
            != orders[j].order_id by {
            assert(i != k ==> orders[i] == s.orders[i]);
            assert(j != k ==> orders[j] == s.orders[j]);
        }
    } else {
        assert forall|i: int, j: int| 0 <= i < j < orders.len() implies orders[i].order_id
            != orders[j].order_id by {
            if j == orders.len() - 1 {
                assert(orders[i] == s.orders[i]);
            }
        }
    }
}

/// A cache write keeps trade ids unique.
pub proof fn lemma_put_trade_wf(s: StoreView, t: TradeView)
    requires
        s.wf(),
    ensures
        spec_put_trade(s, t).wf(),
{
    let trades = spec_put_trade(s, t).trades;
    if s.has_trade(t.trade_id) {
        let k = s.trade_idx(t.trade_id);
        assert(s.trades[k].trade_id == t.trade_id);
        assert forall|i: int, j: int| 0 <= i < j < trades.len() implies trades[i].trade_id
            != trades[j].trade_id by {
            assert(i != k ==> trades[i] == s.trades[i]);
            assert(j != k ==> trades[j] == s.trades[j]);
        }
    } else {
        assert forall|i: int, j: int| 0 <= i < j < trades.len() implies trades[i].trade_id
            != trades[j].trade_id by {
            if j == trades.len() - 1 {
                assert(trades[i] == s.trades[i]);
            }
        }
    }
}

/// Inserting a batch and one more order is inserting the batch, then the
/// order.
pub proof fn lemma_insert_orders_snoc(s: StoreView, os: Seq<OrderView>, o: OrderView)
    ensures
        spec_insert_orders(s, os.push(o)) == spec_insert_order(spec_insert_orders(s, os), o),
    decreases os.len(),
{
    if os.len() == 0 {
        reveal_with_fuel(spec_insert_orders, 2);
        assert(os.push(o)[0] == o);
        assert(os.push(o).drop_first() =~= Seq::<OrderView>::empty());
    } else {
        assert(os.push(o)[0] == os[0]);
        assert(os.push(o).drop_first() =~= os.drop_first().push(o));
        lemma_insert_orders_snoc(spec_insert_order(s, os[0]), os.drop_first(), o);
    }
}

/// Inserting a batch and one more trade is inserting the batch, then the
/// trade.
pub proof fn lemma_insert_trades_snoc(s: StoreView, ts: Seq<TradeView>, t: TradeView)
    ensures
        spec_insert_trades(s, ts.push(t)) == spec_insert_trade(spec_insert_trades(s, ts), t),
    decreases ts.len(),
{
    if ts.len() == 0 {
        reveal_with_fuel(spec_insert_trades, 2);
        assert(ts.push(t)[0] == t);
        assert(ts.push(t).drop_first() =~= Seq::<TradeView>::empty());
    } else {
        assert(ts.push(t)[0] == ts[0]);
        assert(ts.push(t).drop_first() =~= ts.drop_first().push(t));
        lemma_insert_trades_snoc(spec_insert_trade(s, ts[0]), ts.drop_first(), t);
    }
}

/// A filtered row sequence keeps pairwise-distinct order ids.
pub proof fn lemma_filter_orders_unique(orders: Seq<OrderView>, p: spec_fn(OrderView) -> bool)
    requires
        spec_orders_unique(orders),
    ensures
        spec_orders_unique(orders.filter(p)),
    decreases orders.len(),
{
    reveal(Seq::filter);
    if orders.len() > 0 {
        let dl = orders.drop_last();
        assert(spec_orders_unique(dl)) by {
            assert forall|i: int, j: int| 0 <= i < j < dl.len() implies dl[i].order_id
                != dl[j].order_id by {
                assert(dl[i] == orders[i] && dl[j] == orders[j]);
            }
        }
        lemma_filter_orders_unique(dl, p);
        let f = orders.filter(p);
        if p(orders.last()) {
            assert forall|i: int, j: int| 0 <= i < j < f.len() implies f[i].order_id
                != f[j].order_id by {
                if j == f.len() - 1 {
                    assert(dl.filter(p).contains(f[i])) by {
                        assert(dl.filter(p)[i] == f[i]);
                    }
                    dl.lemma_filter_contains_rev(p, f[i]);
                    let k = choose|k: int| 0 <= k < dl.len() && dl[k] == f[i];
                    assert(orders[k] == f[i]);
                    assert(orders[k].order_id != orders[orders.len() - 1].order_id);
                }
            }
        }
    }
}

/// A filtered row sequence keeps pairwise-distinct trade ids.
pub proof fn lemma_filter_trades_unique(trades: Seq<TradeView>, p: spec_fn(TradeView) -> bool)
    requires
        spec_trades_unique(trades),
    ensures
        spec_trades_unique(trades.filter(p)),
    decreases trades.len(),
{
    reveal(Seq::filter);
    if trades.len() > 0 {
        let dl = trades.drop_last();
        assert(spec_trades_unique(dl)) by {
            assert forall|i: int, j: int| 0 <= i < j < dl.len() implies dl[i].trade_id
                != dl[j].trade_id by {
                assert(dl[i] == trades[i] && dl[j] == trades[j]);
            }
        }
        lemma_filter_trades_unique(dl, p);
        let f = trades.filter(p);
        if p(trades.last()) {
            assert forall|i: int, j: int| 0 <= i < j < f.len() implies f[i].trade_id
                != f[j].trade_id by {
                if j == f.len() - 1 {
                    assert(dl.filter(p).contains(f[i])) by {
                        assert(dl.filter(p)[i] == f[i]);
                    }
                    dl.lemma_filter_contains_rev(p, f[i]);
                    let k = choose|k: int| 0 <= k < dl.len() && dl[k] == f[i];
                    assert(trades[k] == f[i]);
                    assert(trades[k].trade_id != trades[trades.len() - 1].trade_id);
                }
            }
        }
    }
}

/// In-memory store of orders, trades and cursor rows. It stands for the
/// database tables; the row vectors carry the primary-key invariants.
#[derive(Debug)]
pub struct Store {
    pub orders: Vec<Order>,
    pub trades: Vec<Trade>,
    pub states: Vec<State>,
}

impl View for Store {
    type V = StoreView;

    open spec fn view(&self) -> StoreView {
        StoreView {
            orders: self.orders@.map_values(|o: Order| o@),
            trades: self.trades@.map_values(|t: Trade| t@),
            states: self.states@.map_values(|s: State| s@),
        }
    }
}

impl Store {
    /// Builds a store over the given orders, as the cache was built from
    /// the rows already persisted.
    pub fn new(orders: Vec<Order>) -> (r: Store)
        requires
            spec_orders_unique(orders@.map_values(|o: Order| o@)),
        ensures
            r@.orders == orders@.map_values(|o: Order| o@),
            r@.trades == Seq::<TradeView>::empty(),
            r@.states == Seq::<StateView>::empty(),
            r@.wf(),
    {
        let r = Store { orders, trades: Vec::new(), states: Vec::new() };
        proof {
            assert(r@.trades =~= Seq::<TradeView>::empty());
            assert(r@.states =~= Seq::<StateView>::empty());
        }
        r
    }

    /// Position of the order row carrying `order_id`, if one does.
    pub(crate) fn find_order_index(&self, order_id: &String) -> (r: Option<usize>)
        requires
            self@.wf(),
        ensures
            (match r {
                Some(i) => i < self.orders.len() && self@.orders[i as int].order_id == order_id@
                    && self@.has_order(order_id@) && self@.order_idx(order_id@) == i,
                None => !self@.has_order(order_id@),
            }),
    {
        let n = self.orders.len();
        for i in 0..n
            invariant
                n == self.orders.len(),
                self@.wf(),
                forall|j: int| 0 <= j < i ==> self@.orders[j].order_id != order_id@,
        {
            if self.orders[i].order_id == *order_id {
                proof {
                    lemma_order_idx_unique(self@, order_id@, i as int);
                }
                return Some(i);
            }
        }
        None
    }

    /// Position of the trade row carrying `trade_id`, if one does.
    pub(crate) fn find_trade_index(&self, trade_id: &String) -> (r: Option<usize>)
        requires
            self@.wf(),
        ensures
            (match r {
                Some(i) => i < self.trades.len() && self@.trades[i as int].trade_id == trade_id@
                    && self@.has_trade(trade_id@) && self@.trade_idx(trade_id@) == i,
                None => !self@.has_trade(trade_id@),
            }),
    {
        let n = self.trades.len();
        for i in 0..n
            invariant
                n == self.trades.len(),
                self@.wf(),
                forall|j: int| 0 <= j < i ==> self@.trades[j].trade_id != trade_id@,
        {
            if self.trades[i].trade_id == *trade_id {
                proof {
                    lemma_trade_idx_unique(self@, trade_id@, i as int);
                }
                return Some(i);
            }
        }
        None
    }

    /// Position of the cursor row of `market_id`, if one exists.
    pub(crate) fn find_state_index(&self, market_id: &String) -> (r: Option<usize>)
        requires
            self@.wf(),
        ensures
            (match r {
                Some(i) => i < self.states.len() && self@.states[i as int].market_id == market_id@
                    && self@.has_state(market_id@) && self@.state_idx(market_id@) == i,
                None => !self@.has_state(market_id@),
            }),
    {
        let n = self.states.len();
        for i in 0..n
            invariant
                n == self.states.len(),
                self@.wf(),
                forall|j: int| 0 <= j < i ==> self@.states[j].market_id != market_id@,
        {
            if self.states[i].market_id == *market_id {
                proof {
                    lemma_state_idx_unique(self@, market_id@, i as int);
                }
                return Some(i);
            }
        }
        None
    }

    /// Looks an order up by id, as the cache serves reads.
    pub fn order(&self, order_id: &String) -> (r: Option<&Order>)
        requires
            self@.wf(),
        ensures
            (match r {
                Some(o) => self@.has_order(order_id@) && o@ == self@.order_of(order_id@),
                None => !self@.has_order(order_id@),
            }),
    {
        match self.find_order_index(order_id) {
            Some(i) => Some(&self.orders[i]),
            None => None,
        }
    }

    /// Looks a trade up by id.
    pub fn trade(&self, trade_id: &String) -> (r: Option<&Trade>)
        requires
            self@.wf(),
        ensures
            (match r {
                Some(t) => self@.has_trade(trade_id@) && t@ == self@.trade_of(trade_id@),
                None => !self@.has_trade(trade_id@),
            }),
    {
        match self.find_trade_index(trade_id) {
            Some(i) => Some(&self.trades[i]),
            None => None,
        }
    }

    /// Keys the order into the cache: a row already under the id is
    /// replaced.
    pub fn insert_order(&mut self, order: Order)
        requires
            old(self)@.wf(),
        ensures
            final(self)@.wf(),
            final(self)@ == spec_put_order(old(self)@, order@),
    {
        proof {
            lemma_put_order_wf(old(self)@, order@);
        }
        match self.find_order_index(&order.order_id) {
            Some(i) => {
                let ghost ov = order@;
                self.orders[i] = order;
                assert(self@.orders =~= old(self)@.orders.update(i as int, ov));
                assert(self@ =~= spec_put_order(old(self)@, ov));
            },
            None => {
                let ghost ov = order@;
                self.orders.push(order);
                assert(self@.orders =~= old(self)@.orders.push(ov));
                assert(self@ =~= spec_put_order(old(self)@, ov));
            },
        }
    }

    /// Applies an update to the cached order it names; the order must be
    /// present.
    pub fn update_order(&mut self, data: UpdateOrder)
        requires
            old(self)@.wf(),
            old(self)@.has_order(data.order_id@),
        ensures
            final(self)@.wf(),
            final(self)@ == spec_update_order(old(self)@, data@),
    {
        proof {
            lemma_update_order_wf(old(self)@, data@);
        }
        match self.find_order_index(&data.order_id) {
            Some(i) => {
                let mut updated = self.orders[i].clone();
                if let Some(a) = data.amount {
                    updated.amount = a;
                }
                updated.status = data.status;
                let ghost uv = updated@;
                self.orders[i] = updated;
                proof {
                    assert(uv =~= spec_updated_order(
                        old(self)@.order_of(data.order_id@),
                        data.amount,
                        data.status,
                    ));
                    assert(self@.orders =~= old(self)@.orders.update(i as int, uv));
                    assert(self@ =~= spec_update_order(old(self)@, data@));
                }
            },
            None => {},
        }
    }

    /// Keys the trade into the cache: a row already under the id is
    /// replaced.
    pub fn insert_trade(&mut self, trade: Trade)
        requires
            old(self)@.wf(),
        ensures
            final(self)@.wf(),
            final(self)@ == spec_put_trade(old(self)@, trade@),
    {
        proof {
            lemma_put_trade_wf(old(self)@, trade@);
        }
        match self.find_trade_index(&trade.trade_id) {
            Some(i) => {
                let ghost tv = trade@;
                self.trades[i] = trade;
                assert(self@.trades =~= old(self)@.trades.update(i as int, tv));
                assert(self@ =~= spec_put_trade(old(self)@, tv));
            },
            None => {
                let ghost tv = trade@;
                self.trades.push(trade);
                assert(self@.trades =~= old(self)@.trades.push(tv));
                assert(self@ =~= spec_put_trade(old(self)@, tv));
            },
        }
    }
}

} // verus!
