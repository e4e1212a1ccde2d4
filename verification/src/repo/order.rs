//! Order table: best-price lookups, id lookups, idempotent inserts,
//! partial updates and reorg pruning.
use vstd::prelude::*;

use crate::store::{
    lemma_filter_one, lemma_filter_orders_unique, lemma_insert_order_wf, lemma_insert_orders_snoc,
    lemma_update_order_wf, spec_insert_order, spec_insert_orders, spec_order_kept,
    spec_prune_orders, spec_update_order, spec_updated_order, Store,
};
use crate::types::{view_opt_string, Order, OrderType, OrderView, UpdateOrder};
use crate::Error;

verus! {

/// Whether an order row answers a book query: active, in the market, of
/// the side asked for, and not owned by the excluded user.
pub open spec fn spec_order_matches(
    o: OrderView,
    market_id: Seq<char>,
    order_type: OrderType,
    user_ne: Option<Seq<char>>,
) -> bool {
    &&& o.is_active()
    &&& o.market_id == market_id
    &&& o.order_type == order_type
    &&& (match user_ne {
        Some(u) => o.user != u,
        None => true,
    })
}

/// Decides `spec_order_matches` for one row.
fn order_matches(o: &Order, market_id: &String, order_type: OrderType, user_ne: &Option<String>) -> (r:
    bool)
    ensures
        r == spec_order_matches(o@, market_id@, order_type, view_opt_string(*user_ne)),
{
    let active = o.is_active();
    let market_ok = o.market_id == *market_id;
    let type_ok = o.order_type == order_type;
    let user_ok = match user_ne {
        Some(u) => !(o.user == *u),
        None => true,
    };
    active && market_ok && type_ok && user_ok
}

/// The output order of a book listing.
#[derive(Debug, Clone, Copy, PartialEq, Eq, Structural)]
pub enum OrderKey {
    TimestampDesc,
    PriceDesc,
    PriceAsc,
}

/// Whether `a` may stand before `b` in a listing under the key.
pub open spec fn spec_le_key(key: OrderKey, a: OrderView, b: OrderView) -> bool {
    match key {
        OrderKey::TimestampDesc => a.timestamp >= b.timestamp,
        OrderKey::PriceDesc => a.price >= b.price,
        OrderKey::PriceAsc => a.price <= b.price,
    }
}

/// The rows stand in listing order under the key.
pub open spec fn spec_sorted_by(key: OrderKey, s: Seq<OrderView>) -> bool {
    forall|i: int, j: int| 0 <= i < j < s.len() ==> spec_le_key(key, s[i], s[j])
}

/// Decides `spec_le_key` for two rows.
fn le_key(key: OrderKey, a: &Order, b: &Order) -> (r: bool)
    ensures
        r == spec_le_key(key, a@, b@),
{
    match key {
        OrderKey::TimestampDesc => a.timestamp >= b.timestamp,
        OrderKey::PriceDesc => a.price >= b.price,
        OrderKey::PriceAsc => a.price <= b.price,
    }
}

/// Sorts the rows into listing order under the key; the result is a
/// rearrangement of the input, ties left in no fixed order.
fn sort_orders(input: Vec<Order>, key: OrderKey) -> (r: Vec<Order>)
    ensures
        spec_sorted_by(key, r@.map_values(|o: Order| o@)),
        r@.map_values(|o: Order| o@).to_multiset() == input@.map_values(
            |o: Order| o@,
        ).to_multiset(),
{
    broadcast use vstd::seq_lib::group_to_multiset_ensures;

    let ghost orig = input@.map_values(|o: Order| o@);
    let mut rest = input;
    let mut out: Vec<Order> = Vec::new();
    proof {
        assert(out@.map_values(|o: Order| o@) =~= Seq::<OrderView>::empty());
        assert(Seq::<OrderView>::empty().to_multiset().add(orig.to_multiset()) =~= orig.to_multiset());
    }
    while rest.len() > 0
        invariant
            out@.map_values(|o: Order| o@).to_multiset().add(
                rest@.map_values(|o: Order| o@).to_multiset(),
            ) == orig.to_multiset(),
            forall|i: int, j: int|
                #![trigger out@[i], out@[j]]
                0 <= i < j < out@.len() ==> spec_le_key(key, out@[i]@, out@[j]@),
            forall|i: int, j: int|
                #![trigger out@[i], rest@[j]]
                0 <= i < out@.len() && 0 <= j < rest@.len() ==> spec_le_key(
                    key,
                    out@[i]@,
                    rest@[j]@,
                ),
        decreases rest.len(),
    {
        let ghost outs0 = out@;
        let ghost rests0 = rest@;
        let ghost outv0 = out@.map_values(|o: Order| o@);
        let ghost restv0 = rest@.map_values(|o: Order| o@);
        let m = rest.len();
        let mut b: usize = 0;
        for i in 1..m
            invariant
                m == rest.len(),
                rest@ == rests0,
                b < i <= m,
                forall|j: int|
                    0 <= j < i ==> spec_le_key(key, rest@[b as int]@, (#[trigger] rest@[j])@),
        {
            if !le_key(key, &rest[b], &rest[i]) {
                b = i;
            }
        }
        let e = rest.remove(b);
        proof {
            broadcast use vstd::seq_lib::group_to_multiset_ensures;

            assert(rest@.map_values(|o: Order| o@) =~= restv0.remove(b as int));
            assert(restv0.to_multiset().count(e@) > 0) by {
                assert(restv0[b as int] == e@);
                assert(restv0.contains(e@));
            }
        }
        out.push(e);
        proof {
            broadcast use vstd::seq_lib::group_to_multiset_ensures;

            assert(out@.map_values(|o: Order| o@) =~= outv0.push(e@));
            assert(out@.map_values(|o: Order| o@).to_multiset().add(
                rest@.map_values(|o: Order| o@).to_multiset(),
            ) =~= orig.to_multiset()) by {
                assert(outv0.push(e@).to_multiset() =~= outv0.to_multiset().insert(e@));
                assert(restv0.remove(b as int).to_multiset() =~= restv0.to_multiset().remove(e@));
            }
            assert forall|i: int, j: int|
                #![trigger out@[i], out@[j]]
                0 <= i < j < out@.len() implies spec_le_key(key, out@[i]@, out@[j]@) by {
                if j == out@.len() - 1 {
                    assert(out@[i] == outs0[i]);
                    assert(spec_le_key(key, outs0[i]@, rests0[b as int]@));
                }
            }
            assert forall|i: int, j: int|
                #![trigger out@[i], rest@[j]]
                0 <= i < out@.len() && 0 <= j < rest@.len() implies spec_le_key(
                key,
                out@[i]@,
                rest@[j]@,
            ) by {
                assert(rest@[j] == if j < b {
                    rests0[j]
                } else {
                    rests0[j + 1]
                });
                if i < out@.len() - 1 {
                    assert(out@[i] == outs0[i]);
                } else {
                    assert(out@[i] == rests0[b as int]);
                }
            }
        }
    }
    proof {
        assert(rest@.map_values(|o: Order| o@) =~= Seq::<OrderView>::empty());
        assert(out@.map_values(|o: Order| o@).to_multiset().add(
            Seq::<OrderView>::empty().to_multiset(),
        ) =~= out@.map_values(|o: Order| o@).to_multiset());
        assert forall|i: int, j: int|
            #![trigger out@[i], out@[j]]
            0 <= i < j < out@.map_values(|o: Order| o@).len() implies spec_le_key(
            key,
            out@.map_values(|o: Order| o@)[i],
            out@.map_values(|o: Order| o@)[j],
        ) by {
            assert(out@.map_values(|o: Order| o@)[i] == out@[i]@);
            assert(out@.map_values(|o: Order| o@)[j] == out@[j]@);
        }
    }
    out
}

/// First row of the page a listing returns: `offset` clipped to the row
/// count.
pub open spec fn spec_page_start(len: int, offset: u64) -> int {
    if offset as int > len {
        len
    } else {
        offset as int
    }
}

/// One past the last row of the page: `offset + limit` clipped to the
/// row count.
pub open spec fn spec_page_end(len: int, offset: u64, limit: u64) -> int {
    if offset as int + limit as int > len {
        len
    } else {
        offset as int + limit as int
    }
}

/// Copies the page `[offset, offset + limit)` out of the sorted rows.
fn slice_page(sorted: &Vec<Order>, limit: u64, offset: u64) -> (r: Vec<Order>)
    ensures
        r@.map_values(|o: Order| o@) == sorted@.map_values(|o: Order| o@).subrange(
            spec_page_start(sorted@.len() as int, offset),
            spec_page_end(sorted@.len() as int, offset, limit),
        ),
{
    let len = sorted.len();
    let start: usize = if offset >= len as u64 {
        len
    } else {
        offset as usize
    };
    let avail = len - start;
    let take_n: usize = if limit >= avail as u64 {
        avail
    } else {
        limit as usize
    };
    let mut out: Vec<Order> = Vec::new();
    let end = start + take_n;
    proof {
        assert(out@.map_values(|o: Order| o@) =~= sorted@.map_values(|o: Order| o@).subrange(
            start as int,
            start as int,
        ));
    }
    for i in start..end
        invariant
            end == start + take_n <= sorted@.len(),
            out@.map_values(|o: Order| o@) == sorted@.map_values(|o: Order| o@).subrange(
                start as int,
                i as int,
            ),
    {
        let ghost outp = out@.map_values(|o: Order| o@);
        out.push(sorted[i].clone());
        proof {
            assert(out@.map_values(|o: Order| o@) =~= outp.push(sorted@[i as int]@));
            assert(out@.map_values(|o: Order| o@) =~= sorted@.map_values(|o: Order| o@).subrange(
                start as int,
                i + 1,
            ));
        }
    }
    proof {
        assert(start as int == spec_page_start(sorted@.len() as int, offset));
        assert(end as int == spec_page_end(sorted@.len() as int, offset, limit));
    }
    out
}

/// Whether a row belongs to the plain book listing of a market: active
/// and in the market.
pub open spec fn spec_listed(market_id: Seq<char>) -> spec_fn(OrderView) -> bool {
    |o: OrderView| o.is_active() && o.market_id == market_id
}

/// Whether a row belongs to a user's listing.
pub open spec fn spec_listed_by_user(user: Seq<char>) -> spec_fn(OrderView) -> bool {
    |o: OrderView| o.user == user
}

/// Whether a row belongs to a one-sided listing.
pub open spec fn spec_listed_by_type(
    market_id: Seq<char>,
    order_type: OrderType,
    user_ne: Option<Seq<char>>,
) -> spec_fn(OrderView) -> bool {
    |o: OrderView| spec_order_matches(o, market_id, order_type, user_ne)
}

/// Read side of the order table.
pub struct Query;

impl Query {
    /// The best bid: an active `Buy` order of the market with the highest
    /// price, the excluded user's orders set aside.
    pub fn find_best_bid(store: &Store, market_id: String, user_ne: Option<String>) -> (r: Option<
        Order,
    >)
        requires
            store@.wf(),
        ensures
            (match r {
                Some(o) => {
                    &&& exists|i: int|
                        0 <= i < store@.orders.len() && store@.orders[i] == o@
                    &&& spec_order_matches(
                        o@,
                        market_id@,
                        OrderType::Buy,
                        view_opt_string(user_ne),
                    )
                    &&& forall|j: int|
                        0 <= j < store@.orders.len() && spec_order_matches(
                            #[trigger] store@.orders[j],
                            market_id@,
                            OrderType::Buy,
                            view_opt_string(user_ne),
                        ) ==> store@.orders[j].price <= o@.price
                },
                None => forall|j: int|
                    0 <= j < store@.orders.len() ==> !spec_order_matches(
                        #[trigger] store@.orders[j],
                        market_id@,
                        OrderType::Buy,
                        view_opt_string(user_ne),
                    ),
            }),
    {
        let mut best: Option<usize> = None;
        let n = store.orders.len();
        for i in 0..n
            invariant
                n == store.orders.len(),
                store@.wf(),
                (match best {
                    Some(b) => {
                        &&& b < i
                        &&& spec_order_matches(
                            store@.orders[b as int],
                            market_id@,
                            OrderType::Buy,
                            view_opt_string(user_ne),
                        )
                        &&& forall|j: int|
                            0 <= j < i && spec_order_matches(
                                #[trigger] store@.orders[j],
                                market_id@,
                                OrderType::Buy,
                                view_opt_string(user_ne),
                            ) ==> store@.orders[j].price <= store@.orders[b as int].price
                    },
                    None => forall|j: int|
                        0 <= j < i ==> !spec_order_matches(
                            #[trigger] store@.orders[j],
                            market_id@,
                            OrderType::Buy,
                            view_opt_string(user_ne),
                        ),
                }),
        {
            if order_matches(&store.orders[i], &market_id, OrderType::Buy, &user_ne) {
                best = match best {
                    Some(b) => if store.orders[i].price > store.orders[b].price {
                        Some(i)
                    } else {
                        Some(b)
                    },
                    None => Some(i),
                };
            }
        }
        match best {
            Some(b) => {
                let o = store.orders[b].clone();
                proof {
                    assert(store@.orders[b as int] == o@);
                }
                Some(o)
            },
            None => None,
        }
    }

    /// The best ask: an active `Sell` order of the market with the lowest
    /// price, the excluded user's orders set aside.
    pub fn find_best_ask(store: &Store, market_id: String, user_ne: Option<String>) -> (r: Option<
        Order,
    >)
        requires
            store@.wf(),
        ensures
            (match r {
                Some(o) => {
                    &&& exists|i: int|
                        0 <= i < store@.orders.len() && store@.orders[i] == o@
                    &&& spec_order_matches(
                        o@,
                        market_id@,
                        OrderType::Sell,
                        view_opt_string(user_ne),
                    )
                    &&& forall|j: int|
                        0 <= j < store@.orders.len() && spec_order_matches(
                            #[trigger] store@.orders[j],
                            market_id@,
                            OrderType::Sell,
                            view_opt_string(user_ne),
                        ) ==> store@.orders[j].price >= o@.price
                },
                None => forall|j: int|
                    0 <= j < store@.orders.len() ==> !spec_order_matches(
                        #[trigger] store@.orders[j],
                        market_id@,
                        OrderType::Sell,
                        view_opt_string(user_ne),
                    ),
            }),
    {
        let mut best: Option<usize> = None;
        let n = store.orders.len();
        for i in 0..n
            invariant
                n == store.orders.len(),
                store@.wf(),
                (match best {
                    Some(b) => {
                        &&& b < i
                        &&& spec_order_matches(
                            store@.orders[b as int],
                            market_id@,
                            OrderType::Sell,
                            view_opt_string(user_ne),
                        )
                        &&& forall|j: int|
                            0 <= j < i && spec_order_matches(
                                #[trigger] store@.orders[j],
                                market_id@,
                                OrderType::Sell,
                                view_opt_string(user_ne),
                            ) ==> store@.orders[j].price >= store@.orders[b as int].price
                    },
                    None => forall|j: int|
                        0 <= j < i ==> !spec_order_matches(
                            #[trigger] store@.orders[j],
                            market_id@,
                            OrderType::Sell,
                            view_opt_string(user_ne),
                        ),
                }),
        {
            if order_matches(&store.orders[i], &market_id, OrderType::Sell, &user_ne) {
                best = match best {
                    Some(b) => if store.orders[i].price < store.orders[b].price {
                        Some(i)
                    } else {
                        Some(b)
                    },
                    None => Some(i),
                };
            }
        }
        match best {
            Some(b) => {
                let o = store.orders[b].clone();
                proof {
                    assert(store@.orders[b as int] == o@);
                }
                Some(o)
            },
            None => None,
        }
    }

    /// Looks an order up by its id.
    pub fn find_by_id(store: &Store, order_id: &String) -> (r: Option<Order>)
        requires
            store@.wf(),
        ensures
            (match r {
                Some(o) => store@.has_order(order_id@) && o@ == store@.order_of(order_id@),
                None => !store@.has_order(order_id@),
            }),
    {
        match store.find_order_index(order_id) {
            Some(i) => Some(store.orders[i].clone()),
            None => None,
        }
    }

    /// The market's active orders, newest first by timestamp, one page of
    /// at most `limit` rows from `offset` on.
    pub fn find(store: &Store, market_id: String, limit: u64, offset: u64) -> (r: Vec<Order>)
        requires
            store@.wf(),
        ensures
            exists|sorted: Seq<OrderView>|
                #![auto]
                {
                    &&& spec_sorted_by(OrderKey::TimestampDesc, sorted)
                    &&& sorted.to_multiset() == store@.orders.filter(
                        spec_listed(market_id@),
                    ).to_multiset()
                    &&& r@.map_values(|o: Order| o@) == sorted.subrange(
                        spec_page_start(sorted.len() as int, offset),
                        spec_page_end(sorted.len() as int, offset, limit),
                    )
                },
    {
        let ghost p = spec_listed(market_id@);
        let mut matched: Vec<Order> = Vec::new();
        let n = store.orders.len();
        proof {
            assert(store@.orders.take(0) =~= Seq::<OrderView>::empty());
            reveal(Seq::filter);
        }
        for i in 0..n
            invariant
                n == store.orders.len(),
                p == spec_listed(market_id@),
                matched@.map_values(|o: Order| o@) == store@.orders.take(i as int).filter(p),
        {
            let o = &store.orders[i];
            proof {
                assert(store@.orders.take(i + 1) =~= store@.orders.take(i as int) + seq![
                    store@.orders[i as int],
                ]);
                Seq::filter_distributes_over_add(
                    store@.orders.take(i as int),
                    seq![store@.orders[i as int]],
                    p,
                );
                lemma_filter_one(store@.orders[i as int], p);
            }
            if o.is_active() && o.market_id == market_id {
                matched.push(o.clone());
            }
            assert(matched@.map_values(|o: Order| o@) =~= store@.orders.take(i + 1).filter(p));
        }
        proof {
            assert(store@.orders.take(n as int) =~= store@.orders);
        }
        let sorted = sort_orders(matched, OrderKey::TimestampDesc);
        let page = slice_page(&sorted, limit, offset);
        proof {
            let sortedv = sorted@.map_values(|o: Order| o@);
            assert(spec_sorted_by(OrderKey::TimestampDesc, sortedv) && sortedv.to_multiset()
                == store@.orders.filter(spec_listed(market_id@)).to_multiset() && page@.map_values(
                |o: Order| o@,
            ) == sortedv.subrange(
                spec_page_start(sortedv.len() as int, offset),
                spec_page_end(sortedv.len() as int, offset, limit),
            ));
        }
        page
    }

    /// A user's orders, newest first by timestamp, one page of at most
    /// `limit` rows from `offset` on.
    pub fn find_by_user(store: &Store, user: String, limit: u64, offset: u64) -> (r: Vec<Order>)
        requires
            store@.wf(),
        ensures
            exists|sorted: Seq<OrderView>|
                #![auto]
                {
                    &&& spec_sorted_by(OrderKey::TimestampDesc, sorted)
                    &&& sorted.to_multiset() == store@.orders.filter(
                        spec_listed_by_user(user@),
                    ).to_multiset()
                    &&& r@.map_values(|o: Order| o@) == sorted.subrange(
                        spec_page_start(sorted.len() as int, offset),
                        spec_page_end(sorted.len() as int, offset, limit),
                    )
                },
    {
        let ghost p = spec_listed_by_user(user@);
        let mut matched: Vec<Order> = Vec::new();
        let n = store.orders.len();
        proof {
            assert(store@.orders.take(0) =~= Seq::<OrderView>::empty());
            reveal(Seq::filter);
        }
        for i in 0..n
            invariant
                n == store.orders.len(),
                p == spec_listed_by_user(user@),
                matched@.map_values(|o: Order| o@) == store@.orders.take(i as int).filter(p),
        {
            let o = &store.orders[i];
            proof {
                assert(store@.orders.take(i + 1) =~= store@.orders.take(i as int) + seq![
                    store@.orders[i as int],
                ]);
                Seq::filter_distributes_over_add(
                    store@.orders.take(i as int),
                    seq![store@.orders[i as int]],
                    p,
                );
                lemma_filter_one(store@.orders[i as int], p);
            }
            if o.user == user {
                matched.push(o.clone());
            }
            assert(matched@.map_values(|o: Order| o@) =~= store@.orders.take(i + 1).filter(p));
        }
        proof {
            assert(store@.orders.take(n as int) =~= store@.orders);
        }
        let sorted = sort_orders(matched, OrderKey::TimestampDesc);
        let page = slice_page(&sorted, limit, offset);
        proof {
            let sortedv = sorted@.map_values(|o: Order| o@);
            assert(spec_sorted_by(OrderKey::TimestampDesc, sortedv) && sortedv.to_multiset()
                == store@.orders.filter(spec_listed_by_user(user@)).to_multiset()
                && page@.map_values(|o: Order| o@) == sortedv.subrange(
                spec_page_start(sortedv.len() as int, offset),
                spec_page_end(sortedv.len() as int, offset, limit),
            ));
        }
        page
    }

    /// One side of the market's book: active orders of the side, the
    /// excluded user's set aside, best price first — highest for `Buy`,
    /// lowest for `Sell` — one page of at most `limit` rows from
    /// `offset` on.
    pub fn find_by_type(
        store: &Store,
        market_id: String,
        order_type: OrderType,
        limit: u64,
        offset: u64,
        user_ne: Option<String>,
    ) -> (r: Vec<Order>)
        requires
            store@.wf(),
        ensures
            exists|sorted: Seq<OrderView>|
                #![auto]
                {
                    &&& spec_sorted_by(
                        (match order_type {
                            OrderType::Buy => OrderKey::PriceDesc,
                            OrderType::Sell => OrderKey::PriceAsc,
                        }),
                        sorted,
                    )
                    &&& sorted.to_multiset() == store@.orders.filter(
                        spec_listed_by_type(market_id@, order_type, view_opt_string(user_ne)),
                    ).to_multiset()
                    &&& r@.map_values(|o: Order| o@) == sorted.subrange(
                        spec_page_start(sorted.len() as int, offset),
                        spec_page_end(sorted.len() as int, offset, limit),
                    )
                },
    {
        let ghost p = spec_listed_by_type(market_id@, order_type, view_opt_string(user_ne));
        let mut matched: Vec<Order> = Vec::new();
        let n = store.orders.len();
        proof {
            assert(store@.orders.take(0) =~= Seq::<OrderView>::empty());
            reveal(Seq::filter);
        }
        for i in 0..n
            invariant
                n == store.orders.len(),
                p == spec_listed_by_type(market_id@, order_type, view_opt_string(user_ne)),
                matched@.map_values(|o: Order| o@) == store@.orders.take(i as int).filter(p),
        {
            proof {
                assert(store@.orders.take(i + 1) =~= store@.orders.take(i as int) + seq![
                    store@.orders[i as int],
                ]);
                Seq::filter_distributes_over_add(
                    store@.orders.take(i as int),
                    seq![store@.orders[i as int]],
                    p,
                );
                lemma_filter_one(store@.orders[i as int], p);
            }
            if order_matches(&store.orders[i], &market_id, order_type, &user_ne) {
                matched.push(store.orders[i].clone());
            }
            assert(matched@.map_values(|o: Order| o@) =~= store@.orders.take(i + 1).filter(p));
        }
        proof {
            assert(store@.orders.take(n as int) =~= store@.orders);
        }
        let key = match order_type {
            OrderType::Buy => OrderKey::PriceDesc,
            OrderType::Sell => OrderKey::PriceAsc,
        };
        let sorted = sort_orders(matched, key);
        let page = slice_page(&sorted, limit, offset);
        proof {
            let sortedv = sorted@.map_values(|o: Order| o@);
            assert(spec_sorted_by(key, sortedv) && sortedv.to_multiset() == store@.orders.filter(
                spec_listed_by_type(market_id@, order_type, view_opt_string(user_ne)),
            ).to_multiset() && page@.map_values(|o: Order| o@) == sortedv.subrange(
                spec_page_start(sortedv.len() as int, offset),
                spec_page_end(sortedv.len() as int, offset, limit),
            ));
        }
        page
    }
}

/// Write side of the order table.
pub struct Mutation;

impl Mutation {
    /// Inserts the order; a row with the same id already present is left
    /// as it is.
    pub fn insert(store: &mut Store, data: Order)
        requires
            old(store)@.wf(),
        ensures
            final(store)@.wf(),
            final(store)@ == spec_insert_order(old(store)@, data@),
    {
        proof {
            lemma_insert_order_wf(old(store)@, data@);
        }
        match store.find_order_index(&data.order_id) {
            Some(_) => {},
            None => {
                store.orders.push(data);
                assert(store@.orders =~= old(store)@.orders.push(data@));
                assert(store@ =~= spec_insert_order(old(store)@, data@));
            },
        }
    }

    /// Inserts each order in turn, skipping ids already present; an empty
    /// batch changes nothing.
    pub fn insert_many(store: &mut Store, data: Vec<Order>)
        requires
            old(store)@.wf(),
        ensures
            final(store)@.wf(),
            final(store)@ == spec_insert_orders(
                old(store)@,
                data@.map_values(|o: Order| o@),
            ),
    {
        let ghost views = data@.map_values(|o: Order| o@);
        let n = data.len();
        assert(views.take(0) =~= Seq::<OrderView>::empty());
        for i in 0..n
            invariant
                n == data.len(),
                views == data@.map_values(|o: Order| o@),
                store@.wf(),
                store@ == spec_insert_orders(old(store)@, views.take(i as int)),
        {
            proof {
                assert(views.take(i + 1) =~= views.take(i as int).push(views[i as int]));
                lemma_insert_orders_snoc(old(store)@, views.take(i as int), views[i as int]);
            }
            Mutation::insert(store, data[i].clone());
        }
        proof {
            assert(views.take(n as int) =~= views);
        }
    }

    /// Loads the order named by the update, applies the new amount and
    /// status, and returns the updated row; fails when the id is absent.
    pub fn update(store: &mut Store, data: UpdateOrder) -> (r: Result<Order, Error>)
        requires
            old(store)@.wf(),
        ensures
            final(store)@.wf(),
            final(store)@ == spec_update_order(old(store)@, data@),
            (match r {
                Ok(o) => old(store)@.has_order(data.order_id@) && o@ == spec_updated_order(
                    old(store)@.order_of(data.order_id@),
                    data.amount,
                    data.status,
                ),
                Err(e) => !old(store)@.has_order(data.order_id@) && e == Error::RecordNotFound(
                    data.order_id,
                ),
            }),
    {
        proof {
            lemma_update_order_wf(old(store)@, data@);
        }
        match store.find_order_index(&data.order_id) {
            Some(i) => {
                let mut updated = store.orders[i].clone();
                if let Some(a) = data.amount {
                    updated.amount = a;
                }
                updated.status = data.status;
                let result = updated.clone();
                store.orders[i] = updated;
                proof {
                    assert(result@ =~= spec_updated_order(
                        old(store)@.order_of(data.order_id@),
                        data.amount,
                        data.status,
                    ));
                    assert(store@.orders =~= old(store)@.orders.update(i as int, result@));
                    assert(store@ =~= spec_update_order(old(store)@, data@));
                }
                Ok(result)
            },
            None => Err(Error::RecordNotFound(data.order_id)),
        }
    }

    /// Removes the market's orders at or after `from_block` and returns
    /// how many rows went.
    pub fn delete_many(store: &mut Store, market_id: String, from_block: i64) -> (r: u64)
        requires
            old(store)@.wf(),
        ensures
            final(store)@.wf(),
            final(store)@.orders == spec_prune_orders(old(store)@.orders, market_id@, from_block),
            final(store)@.trades == old(store)@.trades,
            final(store)@.states == old(store)@.states,
            r == old(store)@.orders.len() - final(store)@.orders.len(),
    {
        let ghost p = spec_order_kept(market_id@, from_block);
        let mut kept: Vec<Order> = Vec::new();
        let n = store.orders.len();
        proof {
            assert(store@.orders.take(0) =~= Seq::<OrderView>::empty());
            reveal(Seq::filter);
        }
        for i in 0..n
            invariant
                n == store.orders.len(),
                store@ == old(store)@,
                store@.wf(),
                p == spec_order_kept(market_id@, from_block),
                kept@.map_values(|o: Order| o@) == store@.orders.take(i as int).filter(p),
        {
            let o = &store.orders[i];
            let keep = !(o.market_id == market_id && o.block_number >= from_block);
            proof {
                assert(store@.orders.take(i + 1) =~= store@.orders.take(i as int) + seq![
                    store@.orders[i as int],
                ]);
                Seq::filter_distributes_over_add(
                    store@.orders.take(i as int),
                    seq![store@.orders[i as int]],
                    p,
                );
                lemma_filter_one(store@.orders[i as int], p);
            }
            if keep {
                kept.push(o.clone());
            }
            assert(kept@.map_values(|o: Order| o@) =~= store@.orders.take(i + 1).filter(p));
        }
        proof {
            assert(store@.orders.take(n as int) =~= store@.orders);
            lemma_filter_orders_unique(store@.orders, p);
            store@.orders.lemma_filter_len(p);
        }
        let removed = store.orders.len() - kept.len();
        store.orders = kept;
        removed as u64
    }
}

} // verus!
