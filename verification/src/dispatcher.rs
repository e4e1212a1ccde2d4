//! Per-market operation dispatcher: a queue of pending updates, applied
//! to the store as one batch at each block boundary.
use vstd::prelude::*;

use crate::repo;
use crate::store::{
    lemma_insert_orders_has, lemma_insert_orders_wf, lemma_insert_trades_wf,
    lemma_update_order_ids, lemma_update_order_other, lemma_update_order_self,
    lemma_update_order_wf, lemma_upsert_state_effect, lemma_upsert_state_wf, spec_insert_orders,
    spec_insert_order, spec_insert_trade, spec_insert_trades, spec_prune_orders, spec_prune_trades,
    spec_update_order, spec_upsert_state, Store, StoreView,
};
use crate::types::{
    LimitType, Order, OrderStatus, OrderView, Trade, TradeView, UpdateOrder, UpdateOrderView,
};

verus! {

/// One pending mutation of the book: an order opened, a trade struck
/// against an order, or an order cancelled by id.
#[derive(Debug)]
pub enum Update {
    OpenOrder(Order),
    Trade(Trade),
    CancelOrder(String),
}

/// Mathematical image of an [`Update`].
pub enum UpdateView {
    OpenOrder(OrderView),
    Trade(TradeView),
    CancelOrder(Seq<char>),
}

impl View for Update {
    type V = UpdateView;

    open spec fn view(&self) -> UpdateView {
        match self {
            Update::OpenOrder(o) => UpdateView::OpenOrder(o@),
            Update::Trade(t) => UpdateView::Trade(t@),
            Update::CancelOrder(id) => UpdateView::CancelOrder(id@),
        }
    }
}

impl Clone for Update {
    fn clone(&self) -> (res: Self)
        ensures
            res == *self,
    {
        match self {
            Update::OpenOrder(o) => Update::OpenOrder(o.clone()),
            Update::Trade(t) => Update::Trade(t.clone()),
            Update::CancelOrder(id) => Update::CancelOrder(id.clone()),
        }
    }
}

/// One control message for a dispatcher: queue an update, apply the
/// queued batch at a block boundary, or prune after a reorg.
#[derive(Debug)]
pub enum OperationMessage {
    Add(Update),
    Dispatch(i64),
    Prune(i64),
}

/// Mathematical image of an [`OperationMessage`].
pub enum OperationMessageView {
    Add(UpdateView),
    Dispatch(i64),
    Prune(i64),
}

impl View for OperationMessage {
    type V = OperationMessageView;

    open spec fn view(&self) -> OperationMessageView {
        match self {
            OperationMessage::Add(u) => OperationMessageView::Add(u@),
            OperationMessage::Dispatch(b) => OperationMessageView::Dispatch(*b),
            OperationMessage::Prune(b) => OperationMessageView::Prune(*b),
        }
    }
}

/// One row-level database mutation, the form a batch takes once grouped.
#[derive(Debug)]
pub enum Operation {
    InsertOrder(Order),
    UpdateOrder(UpdateOrder),
    InsertTrade(Trade),
}

/// Mathematical image of an [`Operation`].
pub enum OperationView {
    InsertOrder(OrderView),
    UpdateOrder(UpdateOrderView),
    InsertTrade(TradeView),
}

impl View for Operation {
    type V = OperationView;

    open spec fn view(&self) -> OperationView {
        match self {
            Operation::InsertOrder(o) => OperationView::InsertOrder(o@),
            Operation::UpdateOrder(u) => OperationView::UpdateOrder(u@),
            Operation::InsertTrade(t) => OperationView::InsertTrade(t@),
        }
    }
}

/// The order inserts among the mutations, in order.
pub open spec fn spec_extract_insert_orders(ops: Seq<OperationView>) -> Seq<OrderView>
    decreases ops.len(),
{
    if ops.len() == 0 {
        Seq::empty()
    } else {
        let prefix = spec_extract_insert_orders(ops.drop_last());
        match ops.last() {
            OperationView::InsertOrder(o) => prefix.push(o),
            _ => prefix,
        }
    }
}

/// The order updates among the mutations, in order.
pub open spec fn spec_extract_update_orders(ops: Seq<OperationView>) -> Seq<UpdateOrderView>
    decreases ops.len(),
{
    if ops.len() == 0 {
        Seq::empty()
    } else {
        let prefix = spec_extract_update_orders(ops.drop_last());
        match ops.last() {
            OperationView::UpdateOrder(u) => prefix.push(u),
            _ => prefix,
        }
    }
}

/// The trade inserts among the mutations, in order.
pub open spec fn spec_extract_insert_trades(ops: Seq<OperationView>) -> Seq<TradeView>
    decreases ops.len(),
{
    if ops.len() == 0 {
        Seq::empty()
    } else {
        let prefix = spec_extract_insert_trades(ops.drop_last());
        match ops.last() {
            OperationView::InsertTrade(t) => prefix.push(t),
            _ => prefix,
        }
    }
}

/// The orders opened by the queued updates, in queue order.
pub open spec fn spec_extract_opens(us: Seq<UpdateView>) -> Seq<OrderView>
    decreases us.len(),
{
    if us.len() == 0 {
        Seq::empty()
    } else {
        let prefix = spec_extract_opens(us.drop_last());
        match us.last() {
            UpdateView::OpenOrder(o) => prefix.push(o),
            _ => prefix,
        }
    }
}

/// The trades struck by the queued updates, in queue order.
pub open spec fn spec_extract_trades(us: Seq<UpdateView>) -> Seq<TradeView>
    decreases us.len(),
{
    if us.len() == 0 {
        Seq::empty()
    } else {
        let prefix = spec_extract_trades(us.drop_last());
        match us.last() {
            UpdateView::Trade(t) => prefix.push(t),
            _ => prefix,
        }
    }
}

/// The order ids cancelled by the queued updates, in queue order.
pub open spec fn spec_extract_cancels(us: Seq<UpdateView>) -> Seq<Seq<char>>
    decreases us.len(),
{
    if us.len() == 0 {
        Seq::empty()
    } else {
        let prefix = spec_extract_cancels(us.drop_last());
        match us.last() {
            UpdateView::CancelOrder(id) => prefix.push(id),
            _ => prefix,
        }
    }
}

/// Groups the queued updates into opened orders, struck trades and
/// cancelled ids, each in queue order.
pub fn extract_updates(updates: &Vec<Update>) -> (r: (Vec<Order>, Vec<Trade>, Vec<String>))
    ensures
        r.0@.map_values(|o: Order| o@) == spec_extract_opens(updates@.map_values(|u: Update| u@)),
        r.1@.map_values(|t: Trade| t@) == spec_extract_trades(updates@.map_values(|u: Update| u@)),
        r.2@.map_values(|id: String| id@) == spec_extract_cancels(
            updates@.map_values(|u: Update| u@),
        ),
{
    let ghost views = updates@.map_values(|u: Update| u@);
    let mut opens: Vec<Order> = Vec::new();
    let mut trades: Vec<Trade> = Vec::new();
    let mut cancels: Vec<String> = Vec::new();
    let n = updates.len();
    proof {
        assert(views.take(0) =~= Seq::<UpdateView>::empty());
    }
    for i in 0..n
        invariant
            n == updates.len(),
            views == updates@.map_values(|u: Update| u@),
            opens@.map_values(|o: Order| o@) == spec_extract_opens(views.take(i as int)),
            trades@.map_values(|t: Trade| t@) == spec_extract_trades(views.take(i as int)),
            cancels@.map_values(|id: String| id@) == spec_extract_cancels(views.take(i as int)),
    {
        proof {
            assert(views.take(i + 1).drop_last() =~= views.take(i as int));
            assert(views.take(i + 1).last() == views[i as int]);
        }
        match &updates[i] {
            Update::OpenOrder(o) => opens.push(o.clone()),
            Update::Trade(t) => trades.push(t.clone()),
            Update::CancelOrder(id) => cancels.push(id.clone()),
        }
        assert(opens@.map_values(|o: Order| o@) =~= spec_extract_opens(views.take(i + 1)));
        assert(trades@.map_values(|t: Trade| t@) =~= spec_extract_trades(views.take(i + 1)));
        assert(cancels@.map_values(|id: String| id@) =~= spec_extract_cancels(views.take(i + 1)));
    }
    proof {
        assert(views.take(n as int) =~= views);
    }
    (opens, trades, cancels)
}

/// Groups row-level mutations into inserts of orders, order updates and
/// inserts of trades, each in queue order.
pub fn extract_operations(operations: &Vec<Operation>) -> (r: (
    Vec<Order>,
    Vec<UpdateOrder>,
    Vec<Trade>,
))
    ensures
        r.0@.map_values(|o: Order| o@) == spec_extract_insert_orders(
            operations@.map_values(|op: Operation| op@),
        ),
        r.1@.map_values(|u: UpdateOrder| u@) == spec_extract_update_orders(
            operations@.map_values(|op: Operation| op@),
        ),
        r.2@.map_values(|t: Trade| t@) == spec_extract_insert_trades(
            operations@.map_values(|op: Operation| op@),
        ),
{
    let ghost views = operations@.map_values(|op: Operation| op@);
    let mut inserts: Vec<Order> = Vec::new();
    let mut updates: Vec<UpdateOrder> = Vec::new();
    let mut trades: Vec<Trade> = Vec::new();
    let n = operations.len();
    proof {
        assert(views.take(0) =~= Seq::<OperationView>::empty());
    }
    for i in 0..n
        invariant
            n == operations.len(),
            views == operations@.map_values(|op: Operation| op@),
            inserts@.map_values(|o: Order| o@) == spec_extract_insert_orders(
                views.take(i as int),
            ),
            updates@.map_values(|u: UpdateOrder| u@) == spec_extract_update_orders(
                views.take(i as int),
            ),
            trades@.map_values(|t: Trade| t@) == spec_extract_insert_trades(views.take(i as int)),
    {
        proof {
            assert(views.take(i + 1).drop_last() =~= views.take(i as int));
            assert(views.take(i + 1).last() == views[i as int]);
        }
        match &operations[i] {
            Operation::InsertOrder(o) => inserts.push(o.clone()),
            Operation::UpdateOrder(u) => updates.push(u.clone()),
            Operation::InsertTrade(t) => trades.push(t.clone()),
        }
        assert(inserts@.map_values(|o: Order| o@) =~= spec_extract_insert_orders(
            views.take(i + 1),
        ));
        assert(updates@.map_values(|u: UpdateOrder| u@) =~= spec_extract_update_orders(
            views.take(i + 1),
        ));
        assert(trades@.map_values(|t: Trade| t@) =~= spec_extract_insert_trades(
            views.take(i + 1),
        ));
    }
    proof {
        assert(views.take(n as int) =~= views);
    }
    (inserts, updates, trades)
}

/// The status and new amount a trade leaves on its order: `GTC` and
/// `MKT` fills larger than the trade leave a partial match with the
/// difference; everything else is a full match that keeps the amount.
pub open spec fn spec_trade_fill(o: OrderView, t: TradeView) -> (OrderStatus, Option<u64>) {
    if (t.limit_type == LimitType::GTC || t.limit_type == LimitType::MKT) && o.amount > t.size {
        (OrderStatus::PartiallyMatched, Some((o.amount - t.size) as u64))
    } else {
        (OrderStatus::Matched, None)
    }
}

/// Decides `spec_trade_fill`: the status and new amount a trade leaves
/// on the order it struck.
pub fn trade_fill(order: &Order, trade: &Trade) -> (r: (OrderStatus, Option<u64>))
    ensures
        r == spec_trade_fill(order@, trade@),
{
    if (trade.limit_type == LimitType::GTC || trade.limit_type == LimitType::MKT)
        && order.amount > trade.size {
        (OrderStatus::PartiallyMatched, Some(order.amount - trade.size))
    } else {
        (OrderStatus::Matched, None)
    }
}

/// The store after one trade touched its order; a trade whose order is
/// missing is skipped.
pub open spec fn spec_apply_trade(s: StoreView, t: TradeView) -> StoreView {
    if s.has_order(t.order_id) {
        let fill = spec_trade_fill(s.order_of(t.order_id), t);
        spec_update_order(
            s,
            UpdateOrderView { order_id: t.order_id, amount: fill.1, status: fill.0 },
        )
    } else {
        s
    }
}

/// The store after the trades touched their orders, one by one.
pub open spec fn spec_apply_trades(s: StoreView, ts: Seq<TradeView>) -> StoreView
    decreases ts.len(),
{
    if ts.len() == 0 {
        s
    } else {
        spec_apply_trades(spec_apply_trade(s, ts[0]), ts.drop_first())
    }
}

/// The store after one cancel: the order, if present, is left
/// `Cancelled` with its amount kept.
pub open spec fn spec_apply_cancel(s: StoreView, order_id: Seq<char>) -> StoreView {
    spec_update_order(
        s,
        UpdateOrderView { order_id, amount: None, status: OrderStatus::Cancelled },
    )
}

/// The store after the cancels, one by one.
pub open spec fn spec_apply_cancels(s: StoreView, ids: Seq<Seq<char>>) -> StoreView
    decreases ids.len(),
{
    if ids.len() == 0 {
        s
    } else {
        spec_apply_cancels(spec_apply_cancel(s, ids[0]), ids.drop_first())
    }
}

/// The store after a whole batch is applied at a block boundary: opened
/// orders inserted, trades applied to their orders and then inserted,
/// cancels applied last, and the market's cursor moved to `block`.
pub open spec fn spec_dispatch(
    s: StoreView,
    us: Seq<UpdateView>,
    market_id: Seq<char>,
    block: i64,
    now: i64,
) -> StoreView {
    let s1 = spec_insert_orders(s, spec_extract_opens(us));
    let s2 = spec_apply_trades(s1, spec_extract_trades(us));
    let s3 = spec_insert_trades(s2, spec_extract_trades(us));
    let s4 = spec_apply_cancels(s3, spec_extract_cancels(us));
    spec_upsert_state(s4, market_id, block, now)
}

/// The store after a prune: the market's trades and orders at or after
/// `from_block` are removed; cursor rows stay.
pub open spec fn spec_prune_store(s: StoreView, market_id: Seq<char>, from_block: i64) -> StoreView {
    StoreView {
        orders: spec_prune_orders(s.orders, market_id, from_block),
        trades: spec_prune_trades(s.trades, market_id, from_block),
        states: s.states,
    }
}

/// Applying a batch and one more trade is applying the batch, then the
/// trade.
pub proof fn lemma_apply_trades_snoc(s: StoreView, ts: Seq<TradeView>, t: TradeView)
    ensures
        spec_apply_trades(s, ts.push(t)) == spec_apply_trade(spec_apply_trades(s, ts), t),
    decreases ts.len(),
{
    if ts.len() == 0 {
        reveal_with_fuel(spec_apply_trades, 2);
        assert(ts.push(t)[0] == t);
        assert(ts.push(t).drop_first() =~= Seq::<TradeView>::empty());
    } else {
        assert(ts.push(t)[0] == ts[0]);
        assert(ts.push(t).drop_first() =~= ts.drop_first().push(t));
        lemma_apply_trades_snoc(spec_apply_trade(s, ts[0]), ts.drop_first(), t);
    }
}

/// Applying the cancels and one more is applying them, then the one.
pub proof fn lemma_apply_cancels_snoc(s: StoreView, ids: Seq<Seq<char>>, id: Seq<char>)
    ensures
        spec_apply_cancels(s, ids.push(id)) == spec_apply_cancel(spec_apply_cancels(s, ids), id),
    decreases ids.len(),
{
    if ids.len() == 0 {
        reveal_with_fuel(spec_apply_cancels, 2);
        assert(ids.push(id)[0] == id);
        assert(ids.push(id).drop_first() =~= Seq::<Seq<char>>::empty());
    } else {
        assert(ids.push(id)[0] == ids[0]);
        assert(ids.push(id).drop_first() =~= ids.drop_first().push(id));
        lemma_apply_cancels_snoc(spec_apply_cancel(s, ids[0]), ids.drop_first(), id);
    }
}

/// Applying trades keeps the invariants.
pub proof fn lemma_apply_trades_wf(s: StoreView, ts: Seq<TradeView>)
    requires
        s.wf(),
    ensures
        spec_apply_trades(s, ts).wf(),
    decreases ts.len(),
{
    if ts.len() > 0 {
        if s.has_order(ts[0].order_id) {
            let fill = spec_trade_fill(s.order_of(ts[0].order_id), ts[0]);
            lemma_update_order_wf(
                s,
                UpdateOrderView { order_id: ts[0].order_id, amount: fill.1, status: fill.0 },
            );
        }
        lemma_apply_trades_wf(spec_apply_trade(s, ts[0]), ts.drop_first());
    }
}

/// Applying cancels keeps the invariants.
pub proof fn lemma_apply_cancels_wf(s: StoreView, ids: Seq<Seq<char>>)
    requires
        s.wf(),
    ensures
        spec_apply_cancels(s, ids).wf(),
    decreases ids.len(),
{
    if ids.len() > 0 {
        lemma_update_order_wf(
            s,
            UpdateOrderView { order_id: ids[0], amount: None, status: OrderStatus::Cancelled },
        );
        lemma_apply_cancels_wf(spec_apply_cancel(s, ids[0]), ids.drop_first());
    }
}

/// Trades never add, remove or rename order rows, and leave the trade
/// and state tables alone.
pub proof fn lemma_apply_trades_ids(s: StoreView, ts: Seq<TradeView>)
    ensures
        spec_apply_trades(s, ts).orders.len() == s.orders.len(),
        forall|i: int|
            0 <= i < s.orders.len() ==> #[trigger] spec_apply_trades(s, ts).orders[i].order_id
                == s.orders[i].order_id,
        spec_apply_trades(s, ts).trades == s.trades,
        spec_apply_trades(s, ts).states == s.states,
    decreases ts.len(),
{
    if ts.len() > 0 {
        let s2 = spec_apply_trade(s, ts[0]);
        if s.has_order(ts[0].order_id) {
            let fill = spec_trade_fill(s.order_of(ts[0].order_id), ts[0]);
            lemma_update_order_ids(
                s,
                UpdateOrderView { order_id: ts[0].order_id, amount: fill.1, status: fill.0 },
            );
        }
        lemma_apply_trades_ids(s2, ts.drop_first());
    }
}

/// Cancels never add, remove or rename order rows, and leave the trade
/// and state tables alone.
pub proof fn lemma_apply_cancels_ids(s: StoreView, ids: Seq<Seq<char>>)
    ensures
        spec_apply_cancels(s, ids).orders.len() == s.orders.len(),
        forall|i: int|
            0 <= i < s.orders.len() ==> #[trigger] spec_apply_cancels(s, ids).orders[i].order_id
                == s.orders[i].order_id,
        spec_apply_cancels(s, ids).trades == s.trades,
        spec_apply_cancels(s, ids).states == s.states,
    decreases ids.len(),
{
    if ids.len() > 0 {
        lemma_update_order_ids(
            s,
            UpdateOrderView { order_id: ids[0], amount: None, status: OrderStatus::Cancelled },
        );
        lemma_apply_cancels_ids(spec_apply_cancel(s, ids[0]), ids.drop_first());
    }
}

/// Inserting trades leaves the order and state tables alone.
pub proof fn lemma_insert_trades_tables(s: StoreView, ts: Seq<TradeView>)
    ensures
        spec_insert_trades(s, ts).orders == s.orders,
        spec_insert_trades(s, ts).states == s.states,
    decreases ts.len(),
{
    if ts.len() > 0 {
        lemma_insert_trades_tables(spec_insert_trade(s, ts[0]), ts.drop_first());
    }
}

/// A `GTC` or `MKT` trade on an order of the book: an order larger than
/// the trade is left partially matched with the difference as its
/// remaining amount; any other is left fully matched with its amount
/// kept.
pub proof fn lemma_trade_fill_gtc_mkt(s: StoreView, t: TradeView)
    requires
        s.wf(),
        s.has_order(t.order_id),
        t.limit_type == LimitType::GTC || t.limit_type == LimitType::MKT,
    ensures
        spec_apply_trade(s, t).has_order(t.order_id),
        s.order_of(t.order_id).amount > t.size ==> spec_apply_trade(s, t).order_of(
            t.order_id,
        ).status == OrderStatus::PartiallyMatched && spec_apply_trade(s, t).order_of(
            t.order_id,
        ).amount == s.order_of(t.order_id).amount - t.size,
        s.order_of(t.order_id).amount <= t.size ==> spec_apply_trade(s, t).order_of(
            t.order_id,
        ).status == OrderStatus::Matched && spec_apply_trade(s, t).order_of(t.order_id).amount
            == s.order_of(t.order_id).amount,
{
    let fill = spec_trade_fill(s.order_of(t.order_id), t);
    lemma_update_order_self(
        s,
        UpdateOrderView { order_id: t.order_id, amount: fill.1, status: fill.0 },
    );
}

/// An `IOC` or `FOK` trade always leaves its order fully matched, the
/// amount kept, however the trade's size compares to the order's.
pub proof fn lemma_trade_fill_ioc_fok(s: StoreView, t: TradeView)
    requires
        s.wf(),
        s.has_order(t.order_id),
        t.limit_type == LimitType::IOC || t.limit_type == LimitType::FOK,
    ensures
        spec_apply_trade(s, t).has_order(t.order_id),
        spec_apply_trade(s, t).order_of(t.order_id).status == OrderStatus::Matched,
        spec_apply_trade(s, t).order_of(t.order_id).amount == s.order_of(t.order_id).amount,
{
    lemma_update_order_self(
        s,
        UpdateOrderView { order_id: t.order_id, amount: None, status: OrderStatus::Matched },
    );
}

/// An order already cancelled stays cancelled through any later cancels.
proof fn lemma_apply_cancels_keep_cancelled(s: StoreView, ids: Seq<Seq<char>>, id: Seq<char>)
    requires
        s.wf(),
        s.has_order(id) ==> s.order_of(id).status == OrderStatus::Cancelled,
    ensures
        spec_apply_cancels(s, ids).has_order(id) ==> spec_apply_cancels(s, ids).order_of(
            id,
        ).status == OrderStatus::Cancelled,
    decreases ids.len(),
{
    if ids.len() > 0 {
        let u = UpdateOrderView { order_id: ids[0], amount: None, status: OrderStatus::Cancelled };
        let s2 = spec_apply_cancel(s, ids[0]);
        if ids[0] == id {
            if s.has_order(id) {
                lemma_update_order_self(s, u);
            }
        } else {
            lemma_update_order_other(s, u, id);
        }
        lemma_update_order_wf(s, u);
        lemma_apply_cancels_keep_cancelled(s2, ids.drop_first(), id);
    }
}

/// After the cancels of a batch, every cancelled id that still names a
/// row names a `Cancelled` one.
pub proof fn lemma_apply_cancels_cancelled(s: StoreView, ids: Seq<Seq<char>>)
    requires
        s.wf(),
    ensures
        forall|k: int|
            0 <= k < ids.len() ==> (spec_apply_cancels(s, ids).has_order(#[trigger] ids[k])
                ==> spec_apply_cancels(s, ids).order_of(ids[k]).status == OrderStatus::Cancelled),
    decreases ids.len(),
{
    if ids.len() > 0 {
        let u = UpdateOrderView { order_id: ids[0], amount: None, status: OrderStatus::Cancelled };
        let s2 = spec_apply_cancel(s, ids[0]);
        lemma_update_order_wf(s, u);
        lemma_apply_cancels_cancelled(s2, ids.drop_first());
        assert forall|k: int|
            0 <= k < ids.len() && spec_apply_cancels(s, ids).has_order(
                #[trigger] ids[k],
            ) implies spec_apply_cancels(s, ids).order_of(ids[k]).status
            == OrderStatus::Cancelled by {
            if k == 0 {
                if s.has_order(ids[0]) {
                    lemma_update_order_self(s, u);
                }
                lemma_apply_cancels_keep_cancelled(s2, ids.drop_first(), ids[0]);
            } else {
                assert(ids.drop_first()[k - 1] == ids[k]);
            }
        }
    }
}

/// What one dispatch settles, stated for the whole batch: the book keeps
/// its key invariants; every order opened in the batch has a row under
/// its id (exactly one, the key being unique); every id cancelled in the
/// batch that still names a row names a `Cancelled` one; and the
/// market's cursor stands at the dispatched block.
pub proof fn lemma_dispatch_effects(
    s: StoreView,
    us: Seq<UpdateView>,
    market_id: Seq<char>,
    block: i64,
    now: i64,
)
    requires
        s.wf(),
    ensures
        spec_dispatch(s, us, market_id, block, now).wf(),
        forall|k: int|
            0 <= k < spec_extract_opens(us).len() ==> spec_dispatch(
                s,
                us,
                market_id,
                block,
                now,
            ).has_order(#[trigger] spec_extract_opens(us)[k].order_id),
        forall|k: int|
            0 <= k < spec_extract_cancels(us).len() ==> (spec_dispatch(
                s,
                us,
                market_id,
                block,
                now,
            ).has_order(#[trigger] spec_extract_cancels(us)[k]) ==> spec_dispatch(
                s,
                us,
                market_id,
                block,
                now,
            ).order_of(spec_extract_cancels(us)[k]).status == OrderStatus::Cancelled),
        spec_dispatch(s, us, market_id, block, now).has_state(market_id),
        spec_dispatch(s, us, market_id, block, now).state_of(
            market_id,
        ).latest_processed_block == block,
{
    let opens = spec_extract_opens(us);
    let trades = spec_extract_trades(us);
    let cancels = spec_extract_cancels(us);
    let s1 = spec_insert_orders(s, opens);
    let s2 = spec_apply_trades(s1, trades);
    let s3 = spec_insert_trades(s2, trades);
    let s4 = spec_apply_cancels(s3, cancels);
    let s5 = spec_upsert_state(s4, market_id, block, now);

    lemma_insert_orders_wf(s, opens);
    lemma_insert_orders_has(s, opens);
    lemma_apply_trades_wf(s1, trades);
    lemma_apply_trades_ids(s1, trades);
    lemma_insert_trades_wf(s2, trades);
    lemma_insert_trades_tables(s2, trades);
    lemma_apply_cancels_wf(s3, cancels);
    lemma_apply_cancels_ids(s3, cancels);
    lemma_apply_cancels_cancelled(s3, cancels);
    lemma_upsert_state_wf(s4, market_id, block, now);
    lemma_upsert_state_effect(s4, market_id, block, now);

    assert forall|k: int| 0 <= k < opens.len() implies s5.has_order(
        #[trigger] opens[k].order_id,
    ) by {
        assert(s1.has_order(opens[k].order_id));
        let j = s1.order_idx(opens[k].order_id);
        assert(s1.orders[j].order_id == opens[k].order_id);
        assert(s2.orders[j].order_id == opens[k].order_id);
        assert(s4.orders[j].order_id == opens[k].order_id);
        assert(s5.orders[j].order_id == opens[k].order_id);
    }
}

/// One catch-up batch: the updates of one block range and the block the
/// dispatch was stamped with.
pub struct BatchView {
    pub updates: Seq<UpdateView>,
    pub block: i64,
}

/// The store after a sequence of batches is dispatched in order.
pub open spec fn spec_replay(
    s: StoreView,
    batches: Seq<BatchView>,
    market_id: Seq<char>,
    now: i64,
) -> StoreView
    decreases batches.len(),
{
    if batches.len() == 0 {
        s
    } else {
        spec_replay(
            spec_dispatch(s, batches[0].updates, market_id, batches[0].block, now),
            batches.drop_first(),
            market_id,
            now,
        )
    }
}

/// Stores that agree on their order and trade tables land a batch the
/// same way: the cursor rows play no part in how mutations fall.
pub proof fn lemma_insert_orders_tables(s1: StoreView, s2: StoreView, os: Seq<OrderView>)
    requires
        s1.orders == s2.orders,
        s1.trades == s2.trades,
    ensures
        spec_insert_orders(s1, os).orders == spec_insert_orders(s2, os).orders,
        spec_insert_orders(s1, os).trades == spec_insert_orders(s2, os).trades,
    decreases os.len(),
{
    if os.len() > 0 {
        lemma_insert_orders_tables(spec_insert_order(s1, os[0]), spec_insert_order(s2, os[0]), os.drop_first());
    }
}

/// As `lemma_insert_orders_tables`, for the per-trade order updates.
pub proof fn lemma_apply_trades_tables(s1: StoreView, s2: StoreView, ts: Seq<TradeView>)
    requires
        s1.orders == s2.orders,
        s1.trades == s2.trades,
    ensures
        spec_apply_trades(s1, ts).orders == spec_apply_trades(s2, ts).orders,
        spec_apply_trades(s1, ts).trades == spec_apply_trades(s2, ts).trades,
    decreases ts.len(),
{
    if ts.len() > 0 {
        assert(spec_apply_trade(s1, ts[0]).orders == spec_apply_trade(s2, ts[0]).orders);
        assert(spec_apply_trade(s1, ts[0]).trades == spec_apply_trade(s2, ts[0]).trades);
        lemma_apply_trades_tables(spec_apply_trade(s1, ts[0]), spec_apply_trade(s2, ts[0]), ts.drop_first());
    }
}

/// As `lemma_insert_orders_tables`, for trade inserts.
pub proof fn lemma_insert_trades_tables_pair(s1: StoreView, s2: StoreView, ts: Seq<TradeView>)
    requires
        s1.orders == s2.orders,
        s1.trades == s2.trades,
    ensures
        spec_insert_trades(s1, ts).orders == spec_insert_trades(s2, ts).orders,
        spec_insert_trades(s1, ts).trades == spec_insert_trades(s2, ts).trades,
    decreases ts.len(),
{
    if ts.len() > 0 {
        lemma_insert_trades_tables_pair(spec_insert_trade(s1, ts[0]), spec_insert_trade(s2, ts[0]), ts.drop_first());
    }
}

/// As `lemma_insert_orders_tables`, for cancels.
pub proof fn lemma_apply_cancels_tables(s1: StoreView, s2: StoreView, ids: Seq<Seq<char>>)
    requires
        s1.orders == s2.orders,
        s1.trades == s2.trades,
    ensures
        spec_apply_cancels(s1, ids).orders == spec_apply_cancels(s2, ids).orders,
        spec_apply_cancels(s1, ids).trades == spec_apply_cancels(s2, ids).trades,
    decreases ids.len(),
{
    if ids.len() > 0 {
        lemma_apply_cancels_tables(spec_apply_cancel(s1, ids[0]), spec_apply_cancel(s2, ids[0]), ids.drop_first());
    }
}

/// A whole dispatch lands the same order and trade rows on stores that
/// agree on those tables.
pub proof fn lemma_dispatch_tables(
    s1: StoreView,
    s2: StoreView,
    us: Seq<UpdateView>,
    market_id: Seq<char>,
    block: i64,
    now: i64,
)
    requires
        s1.orders == s2.orders,
        s1.trades == s2.trades,
    ensures
        spec_dispatch(s1, us, market_id, block, now).orders == spec_dispatch(
            s2,
            us,
            market_id,
            block,
            now,
        ).orders,
        spec_dispatch(s1, us, market_id, block, now).trades == spec_dispatch(
            s2,
            us,
            market_id,
            block,
            now,
        ).trades,
{
    let a1 = spec_insert_orders(s1, spec_extract_opens(us));
    let a2 = spec_insert_orders(s2, spec_extract_opens(us));
    lemma_insert_orders_tables(s1, s2, spec_extract_opens(us));
    let b1 = spec_apply_trades(a1, spec_extract_trades(us));
    let b2 = spec_apply_trades(a2, spec_extract_trades(us));
    lemma_apply_trades_tables(a1, a2, spec_extract_trades(us));
    let c1 = spec_insert_trades(b1, spec_extract_trades(us));
    let c2 = spec_insert_trades(b2, spec_extract_trades(us));
    lemma_insert_trades_tables_pair(b1, b2, spec_extract_trades(us));
    lemma_apply_cancels_tables(c1, c2, spec_extract_cancels(us));
}

/// A replay lands the same order and trade rows on stores that agree on
/// those tables.
pub proof fn lemma_replay_tables(
    s1: StoreView,
    s2: StoreView,
    batches: Seq<BatchView>,
    market_id: Seq<char>,
    now: i64,
)
    requires
        s1.orders == s2.orders,
        s1.trades == s2.trades,
    ensures
        spec_replay(s1, batches, market_id, now).orders == spec_replay(
            s2,
            batches,
            market_id,
            now,
        ).orders,
        spec_replay(s1, batches, market_id, now).trades == spec_replay(
            s2,
            batches,
            market_id,
            now,
        ).trades,
    decreases batches.len(),
{
    if batches.len() > 0 {
        lemma_dispatch_tables(s1, s2, batches[0].updates, market_id, batches[0].block, now);
        lemma_replay_tables(
            spec_dispatch(s1, batches[0].updates, market_id, batches[0].block, now),
            spec_dispatch(s2, batches[0].updates, market_id, batches[0].block, now),
            batches.drop_first(),
            market_id,
            now,
        );
    }
}

/// Reorg safety of prune-then-replay: when every order and trade row of
/// the store belongs to the market and sits at or after `from_block`, a
/// `Prune(from_block)` followed by a catch-up replay yields exactly the
/// order and trade rows that the same replay yields on a fresh store
/// with empty tables.
pub proof fn lemma_prune_then_catch_up(
    s: StoreView,
    fresh: StoreView,
    market_id: Seq<char>,
    from_block: i64,
    batches: Seq<BatchView>,
    now: i64,
)
    requires
        s.wf(),
        fresh.orders == Seq::<OrderView>::empty(),
        fresh.trades == Seq::<TradeView>::empty(),
        forall|i: int|
            0 <= i < s.orders.len() ==> (#[trigger] s.orders[i]).market_id == market_id
                && s.orders[i].block_number >= from_block,
        forall|i: int|
            0 <= i < s.trades.len() ==> (#[trigger] s.trades[i]).market_id == market_id
                && s.trades[i].block_number >= from_block,
    ensures
        spec_replay(spec_prune_store(s, market_id, from_block), batches, market_id, now).orders
            == spec_replay(fresh, batches, market_id, now).orders,
        spec_replay(spec_prune_store(s, market_id, from_block), batches, market_id, now).trades
            == spec_replay(fresh, batches, market_id, now).trades,
{
    let pruned = spec_prune_store(s, market_id, from_block);
    let op = crate::store::spec_order_kept(market_id, from_block);
    assert(s.orders.all(|o: OrderView| !op(o))) by {
        assert forall|i: int| 0 <= i < s.orders.len() implies !op(#[trigger] s.orders[i]) by {}
    }
    s.orders.lemma_all_neg_filter_empty(op);
    assert(pruned.orders =~= Seq::<OrderView>::empty());
    let tp = crate::store::spec_trade_kept(market_id, from_block);
    assert(s.trades.all(|t: TradeView| !tp(t))) by {
        assert forall|i: int| 0 <= i < s.trades.len() implies !tp(#[trigger] s.trades[i]) by {}
    }
    s.trades.lemma_all_neg_filter_empty(tp);
    assert(pruned.trades =~= Seq::<TradeView>::empty());
    lemma_replay_tables(pruned, fresh, batches, market_id, now);
}

/// The per-market dispatcher: the market it serves and the buffer of
/// updates queued since the last block boundary.
#[derive(Debug)]
pub struct OperationDispatcher {
    pub market_id: String,
    pub updates: Vec<Update>,
}

/// Mathematical image of an [`OperationDispatcher`].
#[verifier::ext_equal]
pub struct OperationDispatcherView {
    pub market_id: Seq<char>,
    pub updates: Seq<UpdateView>,
}

impl View for OperationDispatcher {
    type V = OperationDispatcherView;

    open spec fn view(&self) -> OperationDispatcherView {
        OperationDispatcherView {
            market_id: self.market_id@,
            updates: self.updates@.map_values(|u: Update| u@),
        }
    }
}

impl OperationDispatcher {
    /// A dispatcher for one market, with nothing queued.
    pub fn new(market_id: String) -> (r: OperationDispatcher)
        ensures
            r@.market_id == market_id@,
            r@.updates == Seq::<UpdateView>::empty(),
    {
        let r = OperationDispatcher { market_id, updates: Vec::new() };
        proof {
            assert(r@.updates =~= Seq::<UpdateView>::empty());
        }
        r
    }

    /// Queues one update for the next dispatch.
    pub fn update(&mut self, update: Update)
        ensures
            final(self)@.market_id == old(self)@.market_id,
            final(self)@.updates == old(self)@.updates.push(update@),
    {
        self.updates.push(update);
        assert(self@.updates =~= old(self)@.updates.push(self.updates@.last()@));
    }

    /// Inserts the opened orders of a batch.
    fn process_open_orders(store: &mut Store, orders: Vec<Order>)
        requires
            old(store)@.wf(),
        ensures
            final(store)@.wf(),
            final(store)@ == spec_insert_orders(
                old(store)@,
                orders@.map_values(|o: Order| o@),
            ),
    {
        repo::order::Mutation::insert_many(store, orders);
    }

    /// For each trade in turn, finds the order it struck and applies the
    /// fill rule; a missing order skips the trade. The trades themselves
    /// are inserted afterwards.
    fn process_trades(store: &mut Store, trades: &Vec<Trade>)
        requires
            old(store)@.wf(),
        ensures
            final(store)@.wf(),
            final(store)@ == spec_apply_trades(
                old(store)@,
                trades@.map_values(|t: Trade| t@),
            ),
    {
        let ghost views = trades@.map_values(|t: Trade| t@);
        let n = trades.len();
        proof {
            assert(views.take(0) =~= Seq::<TradeView>::empty());
        }
        for i in 0..n
            invariant
                n == trades.len(),
                views == trades@.map_values(|t: Trade| t@),
                store@.wf(),
                store@ == spec_apply_trades(old(store)@, views.take(i as int)),
        {
            proof {
                assert(views.take(i + 1) =~= views.take(i as int).push(views[i as int]));
                lemma_apply_trades_snoc(old(store)@, views.take(i as int), views[i as int]);
            }
            let trade = &trades[i];
            match repo::order::Query::find_by_id(store, &trade.order_id) {
                Some(order) => {
                    let (status, amount) = trade_fill(&order, trade);
                    let update = UpdateOrder { order_id: trade.order_id.clone(), amount, status };
                    let outcome = repo::order::Mutation::update(store, update);
                    proof {
                        assert(outcome is Ok);
                        assert(store@ =~= spec_apply_trade(
                            spec_apply_trades(old(store)@, views.take(i as int)),
                            views[i as int],
                        ));
                    }
                },
                None => {
                    assert(store@ == spec_apply_trade(
                        spec_apply_trades(old(store)@, views.take(i as int)),
                        views[i as int],
                    ));
                },
            }
        }
        proof {
            assert(views.take(n as int) =~= views);
        }
    }

    /// Cancels each named order in turn; a missing order is skipped.
    fn process_cancel_orders(store: &mut Store, order_ids: Vec<String>)
        requires
            old(store)@.wf(),
        ensures
            final(store)@.wf(),
            final(store)@ == spec_apply_cancels(
                old(store)@,
                order_ids@.map_values(|id: String| id@),
            ),
    {
        let ghost views = order_ids@.map_values(|id: String| id@);
        let n = order_ids.len();
        proof {
            assert(views.take(0) =~= Seq::<Seq<char>>::empty());
        }
        for i in 0..n
            invariant
                n == order_ids.len(),
                views == order_ids@.map_values(|id: String| id@),
                store@.wf(),
                store@ == spec_apply_cancels(old(store)@, views.take(i as int)),
        {
            proof {
                assert(views.take(i + 1) =~= views.take(i as int).push(views[i as int]));
                lemma_apply_cancels_snoc(old(store)@, views.take(i as int), views[i as int]);
            }
            let update = UpdateOrder {
                order_id: order_ids[i].clone(),
                amount: None,
                status: OrderStatus::Cancelled,
            };
            let _ = repo::order::Mutation::update(store, update);
            assert(store@ =~= spec_apply_cancel(
                spec_apply_cancels(old(store)@, views.take(i as int)),
                views[i as int],
            ));
        }
        proof {
            assert(views.take(n as int) =~= views);
        }
    }

    /// Applies the queued batch as of `block`: opened orders first, then
    /// trades with their order updates, then cancels, then the cursor;
    /// the queue is cleared.
    pub fn dispatch(&mut self, store: &mut Store, block: i64, now: i64)
        requires
            old(store)@.wf(),
        ensures
            final(store)@.wf(),
            final(store)@ == spec_dispatch(
                old(store)@,
                old(self)@.updates,
                old(self)@.market_id,
                block,
                now,
            ),
            final(self)@.market_id == old(self)@.market_id,
            final(self)@.updates == Seq::<UpdateView>::empty(),
    {
        let (open_orders, trades, cancel_ids) = extract_updates(&self.updates);
        Self::process_open_orders(store, open_orders);
        Self::process_trades(store, &trades);
        repo::trade::Mutation::insert_many(store, trades);
        Self::process_cancel_orders(store, cancel_ids);
        self.updates = Vec::new();
        repo::state::Mutation::upsert_latest_processed_block(store, block, &self.market_id, now);
        proof {
            assert(self@.updates =~= Seq::<UpdateView>::empty());
        }
    }

    /// Prunes the market's trades, then its orders, at or after
    /// `from_block`: what a reorg may have orphaned is dropped before
    /// replay.
    pub fn prune(&self, store: &mut Store, from_block: i64)
        requires
            old(store)@.wf(),
        ensures
            final(store)@.wf(),
            final(store)@ == spec_prune_store(old(store)@, self@.market_id, from_block),
    {
        let _ = repo::trade::Mutation::delete_many(store, self.market_id.clone(), from_block);
        let _ = repo::order::Mutation::delete_many(store, self.market_id.clone(), from_block);
        assert(store@ =~= spec_prune_store(old(store)@, self@.market_id, from_block));
    }

    /// One step of the dispatcher's loop: queue, dispatch or prune,
    /// whichever the message asks.
    pub fn handle(&mut self, store: &mut Store, message: OperationMessage, now: i64)
        requires
            old(store)@.wf(),
        ensures
            final(store)@.wf(),
            final(self)@.market_id == old(self)@.market_id,
            (match message@ {
                OperationMessageView::Add(u) => final(store)@ == old(store)@ && final(self)@.updates
                    == old(self)@.updates.push(u),
                OperationMessageView::Dispatch(block) => final(store)@ == spec_dispatch(
                    old(store)@,
                    old(self)@.updates,
                    old(self)@.market_id,
                    block,
                    now,
                ) && final(self)@.updates == Seq::<UpdateView>::empty(),
                OperationMessageView::Prune(from_block) => final(store)@ == spec_prune_store(
                    old(store)@,
                    old(self)@.market_id,
                    from_block,
                ) && final(self)@.updates == old(self)@.updates,
            }),
    {
        match message {
            OperationMessage::Add(update) => self.update(update),
            OperationMessage::Dispatch(block) => self.dispatch(store, block, now),
            OperationMessage::Prune(from_block) => self.prune(store, from_block),
        }
    }
}

} // verus!
