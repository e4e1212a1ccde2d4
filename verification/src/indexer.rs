//! The indexer's decisions: which update an event queues, how a batch of
//! decoded events lands in the store, batch bounds for catch-up, chain
//! selection and the reconnect backoff.
use vstd::prelude::*;

use crate::dispatcher::{spec_dispatch, OperationDispatcher, Update, UpdateView};
use crate::event::{spec_build_order, spec_build_trade, PangeaEvent, PangeaEventView};
use crate::store::Store;

verus! {

/// Upper bound on the number of blocks one catch-up request covers.
pub const BATCH_SIZE: u64 = 100000;

/// The chain a pipeline indexes.
#[derive(Debug, Clone, Copy, PartialEq, Eq, Structural)]
pub enum ChainId {
    Fuel,
    FuelTestnet,
}

/// The chain named by a configuration value: `"FUEL"` is the main
/// network, anything else the test network.
pub open spec fn spec_chain_of(s: Seq<char>) -> ChainId {
    if s == "FUEL"@ {
        ChainId::Fuel
    } else {
        ChainId::FuelTestnet
    }
}

/// Picks the chain a configuration value names.
pub fn chain_of(value: &String) -> (r: ChainId)
    ensures
        r == spec_chain_of(value@),
{
    let fuel: String = "FUEL".to_owned();
    if *value == fuel {
        ChainId::Fuel
    } else {
        ChainId::FuelTestnet
    }
}

/// The blockchain provider endpoint of each chain.
pub fn provider_url(chain: ChainId) -> (r: &'static str)
    ensures
        chain == ChainId::Fuel ==> r@ == "mainnet.fuel.network"@,
        chain == ChainId::FuelTestnet ==> r@ == "testnet.fuel.network"@,
{
    match chain {
        ChainId::Fuel => "mainnet.fuel.network",
        ChainId::FuelTestnet => "testnet.fuel.network",
    }
}

/// The reconnect backoff of the subscribe phase: one second at first,
/// doubled on every failure, capped at thirty-two, reset on success.
#[derive(Debug, Clone, Copy, PartialEq, Eq, Structural)]
pub struct Backoff {
    pub secs: u64,
}

impl Backoff {
    /// The backoff sits between one and thirty-two seconds.
    pub open spec fn wf(&self) -> bool {
        1 <= self.secs <= 32
    }

    /// A fresh backoff of one second.
    pub fn new() -> (r: Backoff)
        ensures
            r.secs == 1,
            r.wf(),
    {
        Backoff { secs: 1 }
    }

    /// After a failure: twice the wait, at most thirty-two seconds.
    pub fn advance(&mut self)
        requires
            old(self).wf(),
        ensures
            final(self).wf(),
            final(self).secs == if old(self).secs * 2 > 32 {
                32int
            } else {
                old(self).secs * 2
            },
    {
        self.secs = if self.secs * 2 > 32 {
            32
        } else {
            self.secs * 2
        };
    }

    /// After a successful connect: back to one second.
    pub fn reset(&mut self)
        ensures
            final(self).wf(),
            final(self).secs == 1,
    {
        self.secs = 1;
    }
}

/// The last block of the next catch-up request: at most `BATCH_SIZE`
/// blocks past `from`, clipped to the chain head `to`.
pub fn next_batch_end(from: i64, to: i64) -> (r: i64)
    requires
        from <= i64::MAX - BATCH_SIZE,
    ensures
        r == if from + BATCH_SIZE < to {
            from + BATCH_SIZE as int
        } else {
            to as int
        },
{
    let stepped = from + BATCH_SIZE as i64;
    if stepped < to {
        stepped
    } else {
        to
    }
}

/// The update an event queues: an `Open` event queues the order it
/// builds, a `Trade` event the trade it builds, a `Cancel` event the
/// order id; anything else, a build that fails included, queues nothing.
pub open spec fn spec_handle_event(e: PangeaEventView) -> Option<UpdateView> {
    match e.event_type {
        Some(t) => if t == "Open"@ {
            match spec_build_order(e) {
                Some(o) => Some(UpdateView::OpenOrder(o)),
                None => None,
            }
        } else if t == "Trade"@ {
            match spec_build_trade(e) {
                Some(tr) => Some(UpdateView::Trade(tr)),
                None => None,
            }
        } else if t == "Cancel"@ {
            Some(UpdateView::CancelOrder(e.order_id))
        } else {
            None
        },
        None => None,
    }
}

/// Decides `spec_handle_event` for one decoded event.
pub fn handle_event(event: &PangeaEvent) -> (r: Option<Update>)
    ensures
        (match r {
            Some(u) => spec_handle_event(event@) == Some(u@),
            None => spec_handle_event(event@) is None,
        }),
{
    match &event.event_type {
        Some(t) => {
            let open_name: String = "Open".to_owned();
            let trade_name: String = "Trade".to_owned();
            let cancel_name: String = "Cancel".to_owned();
            if *t == open_name {
                match event.build_order() {
                    Some(order) => Some(Update::OpenOrder(order)),
                    None => None,
                }
            } else if *t == trade_name {
                match event.build_trade() {
                    Some(trade) => Some(Update::Trade(trade)),
                    None => None,
                }
            } else if *t == cancel_name {
                Some(Update::CancelOrder(event.order_id.clone()))
            } else {
                None
            }
        },
        None => None,
    }
}

/// The updates a run of events queues, in stream order.
pub open spec fn spec_handle_events(es: Seq<PangeaEventView>) -> Seq<UpdateView>
    decreases es.len(),
{
    if es.len() == 0 {
        Seq::empty()
    } else {
        let prefix = spec_handle_events(es.drop_last());
        match spec_handle_event(es.last()) {
            Some(u) => prefix.push(u),
            None => prefix,
        }
    }
}

/// The block the cursor reaches after a run of events: the last event's
/// block, or `from_block` when the run is empty.
pub open spec fn spec_last_block(from_block: i64, es: Seq<PangeaEventView>) -> i64 {
    if es.len() == 0 {
        from_block
    } else {
        es.last().block_number
    }
}

/// Applies one decoded catch-up batch: every event is handled in stream
/// order and its update queued, then the whole batch is dispatched at
/// the last event's block. Returns that block, `from_block` when the
/// batch was empty.
pub fn catch_up(
    dispatcher: &mut OperationDispatcher,
    store: &mut Store,
    events: &Vec<PangeaEvent>,
    from_block: i64,
    now: i64,
) -> (r: i64)
    requires
        old(store)@.wf(),
    ensures
        final(store)@.wf(),
        r == spec_last_block(from_block, events@.map_values(|e: PangeaEvent| e@)),
        final(store)@ == spec_dispatch(
            old(store)@,
            old(dispatcher)@.updates + spec_handle_events(
                events@.map_values(|e: PangeaEvent| e@),
            ),
            old(dispatcher)@.market_id,
            r,
            now,
        ),
        final(dispatcher)@.market_id == old(dispatcher)@.market_id,
        final(dispatcher)@.updates == Seq::<UpdateView>::empty(),
{
    let ghost views = events@.map_values(|e: PangeaEvent| e@);
    let mut latest = from_block;
    let n = events.len();
    proof {
        assert(views.take(0) =~= Seq::<PangeaEventView>::empty());
        assert(old(dispatcher)@.updates + spec_handle_events(views.take(0)) =~= old(
            dispatcher,
        )@.updates);
    }
    for i in 0..n
        invariant
            n == events.len(),
            views == events@.map_values(|e: PangeaEvent| e@),
            store@ == old(store)@,
            store@.wf(),
            dispatcher@.market_id == old(dispatcher)@.market_id,
            dispatcher@.updates == old(dispatcher)@.updates + spec_handle_events(
                views.take(i as int),
            ),
            latest == spec_last_block(from_block, views.take(i as int)),
    {
        proof {
            assert(views.take(i + 1).drop_last() =~= views.take(i as int));
            assert(views.take(i + 1).last() == views[i as int]);
        }
        let event = &events[i];
        latest = event.block_number;
        match handle_event(event) {
            Some(update) => {
                dispatcher.update(update);
                assert(dispatcher@.updates =~= old(dispatcher)@.updates + spec_handle_events(
                    views.take(i + 1),
                ));
            },
            None => {
                assert(dispatcher@.updates =~= old(dispatcher)@.updates + spec_handle_events(
                    views.take(i + 1),
                ));
            },
        }
    }
    proof {
        assert(views.take(n as int) =~= views);
    }
    dispatcher.dispatch(store, latest, now);
    latest
}

/// One live event of the subscribe phase: handled and dispatched on its
/// own, so the cursor follows every block.
pub fn listen_step(
    dispatcher: &mut OperationDispatcher,
    store: &mut Store,
    event: &PangeaEvent,
    now: i64,
) -> (r: i64)
    requires
        old(store)@.wf(),
    ensures
        final(store)@.wf(),
        r == event@.block_number,
        final(store)@ == spec_dispatch(
            old(store)@,
            old(dispatcher)@.updates + spec_handle_events(seq![event@]),
            old(dispatcher)@.market_id,
            event@.block_number,
            now,
        ),
        final(dispatcher)@.market_id == old(dispatcher)@.market_id,
        final(dispatcher)@.updates == Seq::<UpdateView>::empty(),
{
    proof {
        reveal_with_fuel(spec_handle_events, 2);
        assert(seq![event@].drop_last() =~= Seq::<PangeaEventView>::empty());
        assert(seq![event@].last() == event@);
    }
    match handle_event(event) {
        Some(update) => {
            dispatcher.update(update);
            assert(dispatcher@.updates =~= old(dispatcher)@.updates + spec_handle_events(
                seq![event@],
            ));
        },
        None => {
            assert(dispatcher@.updates =~= old(dispatcher)@.updates + spec_handle_events(
                seq![event@],
            ));
        },
    }
    dispatcher.dispatch(store, event.block_number, now);
    event.block_number
}

} // verus!
