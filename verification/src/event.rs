//! Decoding of one upstream event record into typed orders and trades,
//! including the derived trade id.
use vstd::prelude::*;
use vstd::utf8::encode_utf8;

use crate::digest::{sha256, spec_sha256};
use crate::text::{
    lemma_hex_bytes_ascii, push_decimal_i64, push_decimal_u64, push_hex_bytes, push_str_bytes,
    spec_ascii_chars, spec_decimal_i64, spec_decimal_u64, spec_hex_bytes, string_from_ascii,
};
use crate::types::{
    view_opt_string, LimitType, Order, OrderStatus, OrderType, OrderView, Trade, TradeView,
};

verus! {

/// One raw event record as the upstream delivers it: the invariant
/// envelope fields plus the optional payload fields.
#[derive(Debug)]
pub struct PangeaEvent {
    pub chain: u64,
    pub block_number: i64,
    pub block_hash: String,
    pub block_timestamp: i64,
    pub transaction_hash: String,
    pub transaction_index: u64,
    pub log_index: u64,
    pub market_id: String,
    pub order_id: String,
    pub event_type: Option<String>,
    pub asset: Option<String>,
    pub amount: Option<u64>,
    pub asset_type: Option<String>,
    pub order_type: Option<String>,
    pub price: Option<u64>,
    pub user: Option<String>,
    pub order_matcher: Option<String>,
    pub owner: Option<String>,
    pub limit_type: Option<String>,
}

/// Mathematical image of a [`PangeaEvent`].
#[verifier::ext_equal]
pub struct PangeaEventView {
    pub chain: u64,
    pub block_number: i64,
    pub block_hash: Seq<char>,
    pub block_timestamp: i64,
    pub transaction_hash: Seq<char>,
    pub transaction_index: u64,
    pub log_index: u64,
    pub market_id: Seq<char>,
    pub order_id: Seq<char>,
    pub event_type: Option<Seq<char>>,
    pub asset: Option<Seq<char>>,
    pub amount: Option<u64>,
    pub asset_type: Option<Seq<char>>,
    pub order_type: Option<Seq<char>>,
    pub price: Option<u64>,
    pub user: Option<Seq<char>>,
    pub order_matcher: Option<Seq<char>>,
    pub owner: Option<Seq<char>>,
    pub limit_type: Option<Seq<char>>,
}

impl View for PangeaEvent {
    type V = PangeaEventView;

    open spec fn view(&self) -> PangeaEventView {
        PangeaEventView {
            chain: self.chain,
            block_number: self.block_number,
            block_hash: self.block_hash@,
            block_timestamp: self.block_timestamp,
            transaction_hash: self.transaction_hash@,
            transaction_index: self.transaction_index,
            log_index: self.log_index,
            market_id: self.market_id@,
            order_id: self.order_id@,
            event_type: view_opt_string(self.event_type),
            asset: view_opt_string(self.asset),
            amount: self.amount,
            asset_type: view_opt_string(self.asset_type),
            order_type: view_opt_string(self.order_type),
            price: self.price,
            user: view_opt_string(self.user),
            order_matcher: view_opt_string(self.order_matcher),
            owner: view_opt_string(self.owner),
            limit_type: view_opt_string(self.limit_type),
        }
    }
}

/// Order side named by the event: `"Buy"` or `"Sell"`, anything else is
/// unresolvable.
pub open spec fn spec_order_type_of(s: Option<Seq<char>>) -> Option<OrderType> {
    match s {
        Some(t) => if t == "Buy"@ {
            Some(OrderType::Buy)
        } else if t == "Sell"@ {
            Some(OrderType::Sell)
        } else {
            None
        },
        None => None,
    }
}

/// Fill discipline named by the event; anything but the three explicit
/// names, the absent case included, defaults to `GTC`.
pub open spec fn spec_limit_type_of(s: Option<Seq<char>>) -> LimitType {
    match s {
        Some(t) => if t == "FOK"@ {
            LimitType::FOK
        } else if t == "IOC"@ {
            LimitType::IOC
        } else if t == "MKT"@ {
            LimitType::MKT
        } else {
            LimitType::GTC
        },
        None => LimitType::GTC,
    }
}

/// The bytes hashed into the trade id: the textual forms of the five
/// identifying fields, concatenated without separators.
pub open spec fn spec_trade_id_preimage(e: PangeaEventView) -> Seq<u8> {
    encode_utf8(e.transaction_hash) + encode_utf8(e.order_id) + spec_decimal_i64(
        e.block_timestamp as int,
    ) + spec_decimal_u64(e.amount.unwrap() as nat) + spec_decimal_u64(e.log_index as nat)
}

/// The derived trade id: `"0x"` before the lower-case hex form of the
/// SHA-256 digest of the preimage.
pub open spec fn spec_trade_id(e: PangeaEventView) -> Seq<char> {
    spec_ascii_chars(seq![48u8, 120u8] + spec_hex_bytes(spec_sha256(spec_trade_id_preimage(e))))
}

/// The trade id is a function of the five identifying fields alone: two
/// events that agree on them derive the same id, in any run.
pub proof fn lemma_trade_id_deterministic(a: PangeaEventView, b: PangeaEventView)
    requires
        a.transaction_hash == b.transaction_hash,
        a.order_id == b.order_id,
        a.block_timestamp == b.block_timestamp,
        a.amount == b.amount,
        a.log_index == b.log_index,
    ensures
        spec_trade_id(a) == spec_trade_id(b),
{
}

/// Compares a string against a literal by characters.
fn string_eq(a: &String, b: &str) -> (r: bool)
    ensures
        r == (a@ == b@),
{
    let owned: String = b.to_owned();
    *a == owned
}

/// The order built from an `Open` event, if the event carries everything
/// an order needs. An absent asset is recorded as the empty string.
pub open spec fn spec_build_order(e: PangeaEventView) -> Option<OrderView> {
    if e.price is Some && e.amount is Some && e.user is Some && spec_order_type_of(
        e.order_type,
    ) is Some {
        Some(
            OrderView {
                tx_id: e.transaction_hash,
                order_id: e.order_id,
                order_type: spec_order_type_of(e.order_type).unwrap(),
                user: e.user.unwrap(),
                asset: match e.asset {
                    Some(a) => a,
                    None => Seq::empty(),
                },
                amount: e.amount.unwrap(),
                price: e.price.unwrap(),
                status: OrderStatus::New,
                block_number: e.block_number,
                timestamp: e.block_timestamp,
                market_id: e.market_id,
            },
        )
    } else {
        None
    }
}

/// The trade built from a `Trade` event, if the event carries a price and
/// an amount. An absent user is recorded as the empty string.
pub open spec fn spec_build_trade(e: PangeaEventView) -> Option<TradeView> {
    if e.price is Some && e.amount is Some {
        Some(
            TradeView {
                tx_id: e.transaction_hash,
                trade_id: spec_trade_id(e),
                order_id: e.order_id,
                limit_type: spec_limit_type_of(e.limit_type),
                user: match e.user {
                    Some(u) => u,
                    None => Seq::empty(),
                },
                size: e.amount.unwrap(),
                price: e.price.unwrap(),
                block_number: e.block_number,
                timestamp: e.block_timestamp,
                market_id: e.market_id,
            },
        )
    } else {
        None
    }
}

impl PangeaEvent {
    /// The order side named by the event, where it resolves.
    pub fn order_type(&self) -> (r: Option<OrderType>)
        ensures
            r == spec_order_type_of(self@.order_type),
    {
        match &self.order_type {
            Some(s) => {
                if string_eq(s, "Buy") {
                    Some(OrderType::Buy)
                } else if string_eq(s, "Sell") {
                    Some(OrderType::Sell)
                } else {
                    None
                }
            },
            None => None,
        }
    }

    /// The fill discipline named by the event, `GTC` by default.
    pub fn limit_type(&self) -> (r: LimitType)
        ensures
            r == spec_limit_type_of(self@.limit_type),
    {
        match &self.limit_type {
            Some(s) => {
                if string_eq(s, "FOK") {
                    LimitType::FOK
                } else if string_eq(s, "IOC") {
                    LimitType::IOC
                } else if string_eq(s, "MKT") {
                    LimitType::MKT
                } else {
                    LimitType::GTC
                }
            },
            None => LimitType::GTC,
        }
    }

    /// Derives the trade id of the event.
    pub fn trade_id(&self) -> (r: String)
        requires
            self.amount is Some,
        ensures
            r@ == spec_trade_id(self@),
    {
        let mut pre: Vec<u8> = Vec::new();
        push_str_bytes(&mut pre, &self.transaction_hash);
        push_str_bytes(&mut pre, &self.order_id);
        push_decimal_i64(&mut pre, self.block_timestamp);
        if let Some(a) = self.amount {
            push_decimal_u64(&mut pre, a);
        }
        push_decimal_u64(&mut pre, self.log_index);
        assert(pre@ =~= spec_trade_id_preimage(self@));

        let hash = sha256(&pre);

        let mut hex: Vec<u8> = Vec::new();
        hex.push(48);
        hex.push(120);
        push_hex_bytes(&mut hex, &hash);
        proof {
            assert(hex@ =~= seq![48u8, 120u8] + spec_hex_bytes(hash@));
            lemma_hex_bytes_ascii(hash@);
            assert forall|i: int| 0 <= i < hex@.len() implies hex@[i] < 128 by {
                if i >= 2 {
                    assert(hex@[i] == spec_hex_bytes(hash@)[i - 2]);
                }
            }
        }
        string_from_ascii(hex)
    }

    /// Builds the order opened by an `Open` event, where the event is
    /// complete enough.
    pub fn build_order(&self) -> (r: Option<Order>)
        ensures
            (match r {
                Some(o) => spec_build_order(self@) == Some(o@),
                None => spec_build_order(self@) is None,
            }),
    {
        if self.price.is_some() && self.amount.is_some() && self.user.is_some() {
            match self.order_type() {
                Some(order_type) => {
                    let order = Order {
                        tx_id: self.transaction_hash.clone(),
                        order_id: self.order_id.clone(),
                        order_type,
                        user: match &self.user {
                            Some(u) => u.clone(),
                            None => String::new(),
                        },
                        asset: match &self.asset {
                            Some(a) => a.clone(),
                            None => String::new(),
                        },
                        amount: self.amount.unwrap(),
                        price: self.price.unwrap(),
                        status: OrderStatus::New,
                        block_number: self.block_number,
                        timestamp: self.block_timestamp,
                        market_id: self.market_id.clone(),
                    };
                    Some(order)
                },
                None => None,
            }
        } else {
            None
        }
    }

    /// Builds the trade recorded by a `Trade` event, where the event
    /// carries a price and an amount.
    pub fn build_trade(&self) -> (r: Option<Trade>)
        ensures
            (match r {
                Some(t) => spec_build_trade(self@) == Some(t@),
                None => spec_build_trade(self@) is None,
            }),
    {
        if self.price.is_some() && self.amount.is_some() {
            let trade = Trade {
                tx_id: self.transaction_hash.clone(),
                trade_id: self.trade_id(),
                order_id: self.order_id.clone(),
                limit_type: self.limit_type(),
                user: match &self.user {
                    Some(u) => u.clone(),
                    None => String::new(),
                },
                size: self.amount.unwrap(),
                price: self.price.unwrap(),
                block_number: self.block_number,
                timestamp: self.block_timestamp,
                market_id: self.market_id.clone(),
            };
            Some(trade)
        } else {
            None
        }
    }
}

} // verus!
