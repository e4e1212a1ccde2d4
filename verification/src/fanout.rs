//! Change-notification fan-out: the events broadcast to live
//! subscribers and the filter each subscription applies.
use vstd::prelude::*;

use crate::types::{view_opt_string, Order, OrderView, Trade};

verus! {

/// Capacity of the in-process broadcast; a subscriber that lags behind
/// it loses the oldest messages.
pub const BROADCAST_CAPACITY: usize = 100;

/// One change pushed to subscribers: an order row written, or a trade
/// recorded.
#[derive(Debug)]
pub enum Event {
    OrderUpdated(Order),
    Traded(Trade),
}

impl Clone for Event {
    fn clone(&self) -> (res: Self)
        ensures
            res == *self,
    {
        match self {
            Event::OrderUpdated(o) => Event::OrderUpdated(o.clone()),
            Event::Traded(t) => Event::Traded(t.clone()),
        }
    }
}

/// Whether a subscription receives an order update: the order belongs
/// to the subscribed market, and to the subscribed user where one is
/// named.
pub open spec fn spec_order_update_matches(
    o: OrderView,
    market_id: Seq<char>,
    user: Option<Seq<char>>,
) -> bool {
    o.market_id == market_id && (match user {
        Some(u) => o.user == u,
        None => true,
    })
}

/// Decides `spec_order_update_matches`: an update is forwarded to the
/// subscriber exactly when this holds.
pub fn order_update_matches(order: &Order, market_id: &String, user: &Option<String>) -> (r: bool)
    ensures
        r == spec_order_update_matches(order@, market_id@, view_opt_string(*user)),
{
    let market_ok = order.market_id == *market_id;
    let user_ok = match user {
        Some(u) => order.user == *u,
        None => true,
    };
    market_ok && user_ok
}

} // verus!
