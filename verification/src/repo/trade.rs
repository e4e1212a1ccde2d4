//! Trade table: idempotent inserts and reorg pruning.
use vstd::prelude::*;

use crate::store::{
    lemma_filter_one, lemma_filter_trades_unique, lemma_insert_trade_wf, lemma_insert_trades_snoc,
    spec_insert_trade, spec_insert_trades, spec_prune_trades, spec_trade_kept, Store,
};
use crate::types::{Trade, TradeView};

verus! {

/// Whether `a` may stand before `b` in a trade listing: newest first.
pub open spec fn spec_trade_le(a: TradeView, b: TradeView) -> bool {
    a.timestamp >= b.timestamp
}

/// The rows stand newest first.
pub open spec fn spec_trades_sorted(s: Seq<TradeView>) -> bool {
    forall|i: int, j: int| 0 <= i < j < s.len() ==> spec_trade_le(s[i], s[j])
}

/// Whether a trade row belongs to the market's listing.
pub open spec fn spec_trade_listed(market_id: Seq<char>) -> spec_fn(TradeView) -> bool {
    |t: TradeView| t.market_id == market_id
}

/// First row of the page a listing returns: `offset` clipped to the row
/// count.
pub open spec fn spec_trade_page_start(len: int, offset: u64) -> int {
    if offset as int > len {
        len
    } else {
        offset as int
    }
}

/// One past the last row of the page: `offset + limit` clipped to the
/// row count.
pub open spec fn spec_trade_page_end(len: int, offset: u64, limit: u64) -> int {
    if offset as int + limit as int > len {
        len
    } else {
        offset as int + limit as int
    }
}

/// Sorts the rows newest first; the result is a rearrangement of the
/// input, ties left in no fixed order.
fn sort_trades(input: Vec<Trade>) -> (r: Vec<Trade>)
    ensures
        spec_trades_sorted(r@.map_values(|t: Trade| t@)),
        r@.map_values(|t: Trade| t@).to_multiset() == input@.map_values(
            |t: Trade| t@,
        ).to_multiset(),
{
    broadcast use vstd::seq_lib::group_to_multiset_ensures;

    let ghost orig = input@.map_values(|t: Trade| t@);
    let mut rest = input;
    let mut out: Vec<Trade> = Vec::new();
    proof {
        assert(out@.map_values(|t: Trade| t@) =~= Seq::<TradeView>::empty());
        assert(Seq::<TradeView>::empty().to_multiset().add(orig.to_multiset())
            =~= orig.to_multiset());
    }
    while rest.len() > 0
        invariant
            out@.map_values(|t: Trade| t@).to_multiset().add(
                rest@.map_values(|t: Trade| t@).to_multiset(),
            ) == orig.to_multiset(),
            forall|i: int, j: int|
                #![trigger out@[i], out@[j]]
                0 <= i < j < out@.len() ==> spec_trade_le(out@[i]@, out@[j]@),
            forall|i: int, j: int|
                #![trigger out@[i], rest@[j]]
                0 <= i < out@.len() && 0 <= j < rest@.len() ==> spec_trade_le(
                    out@[i]@,
                    rest@[j]@,
                ),
        decreases rest.len(),
    {
        let ghost outs0 = out@;
        let ghost rests0 = rest@;
        let ghost outv0 = out@.map_values(|t: Trade| t@);
        let ghost restv0 = rest@.map_values(|t: Trade| t@);
        let m = rest.len();
        let mut b: usize = 0;
        for i in 1..m
            invariant
                m == rest.len(),
                rest@ == rests0,
                b < i <= m,
                forall|j: int|
                    0 <= j < i ==> spec_trade_le(rest@[b as int]@, (#[trigger] rest@[j])@),
        {
            if !(rest[b].timestamp >= rest[i].timestamp) {
                b = i;
            }
        }
        let e = rest.remove(b);
        proof {
            broadcast use vstd::seq_lib::group_to_multiset_ensures;

            assert(rest@.map_values(|t: Trade| t@) =~= restv0.remove(b as int));
            assert(restv0.to_multiset().count(e@) > 0) by {
                assert(restv0[b as int] == e@);
                assert(restv0.contains(e@));
            }
        }
        out.push(e);
        proof {
            broadcast use vstd::seq_lib::group_to_multiset_ensures;

            assert(out@.map_values(|t: Trade| t@) =~= outv0.push(e@));
            assert(out@.map_values(|t: Trade| t@).to_multiset().add(
                rest@.map_values(|t: Trade| t@).to_multiset(),
            ) =~= orig.to_multiset()) by {
                assert(outv0.push(e@).to_multiset() =~= outv0.to_multiset().insert(e@));
                assert(restv0.remove(b as int).to_multiset() =~= restv0.to_multiset().remove(e@));
            }
            assert forall|i: int, j: int|
                #![trigger out@[i], out@[j]]
                0 <= i < j < out@.len() implies spec_trade_le(out@[i]@, out@[j]@) by {
                if j == out@.len() - 1 {
                    assert(out@[i] == outs0[i]);
                    assert(spec_trade_le(outs0[i]@, rests0[b as int]@));
                }
            }
            assert forall|i: int, j: int|
                #![trigger out@[i], rest@[j]]
                0 <= i < out@.len() && 0 <= j < rest@.len() implies spec_trade_le(
                out@[i]@,
                rest@[j]@,
            ) by {
                assert(rest@[j] == if j < b {
                    rests0[j]
                } else {
                    rests0[j + 1]
                });
                if i < out@.len() - 1 {
                    assert(out@[i] == outs0[i]);
                } else {
                    assert(out@[i] == rests0[b as int]);
                }
            }
        }
    }
    proof {
        assert(rest@.map_values(|t: Trade| t@) =~= Seq::<TradeView>::empty());
        assert(out@.map_values(|t: Trade| t@).to_multiset().add(
            Seq::<TradeView>::empty().to_multiset(),
        ) =~= out@.map_values(|t: Trade| t@).to_multiset());
        assert forall|i: int, j: int|
            #![trigger out@[i], out@[j]]
            0 <= i < j < out@.map_values(|t: Trade| t@).len() implies spec_trade_le(
            out@.map_values(|t: Trade| t@)[i],
            out@.map_values(|t: Trade| t@)[j],
        ) by {
            assert(out@.map_values(|t: Trade| t@)[i] == out@[i]@);
            assert(out@.map_values(|t: Trade| t@)[j] == out@[j]@);
        }
    }
    out
}

/// Read side of the trade table.
pub struct Query;

impl Query {
    /// The market's trades, newest first by timestamp, one page of at
    /// most `limit` rows from `offset` on.
    pub fn find(store: &Store, market_id: String, limit: u64, offset: u64) -> (r: Vec<Trade>)
        requires
            store@.wf(),
        ensures
            exists|sorted: Seq<TradeView>|
                #![auto]
                {
                    &&& spec_trades_sorted(sorted)
                    &&& sorted.to_multiset() == store@.trades.filter(
                        spec_trade_listed(market_id@),
                    ).to_multiset()
                    &&& r@.map_values(|t: Trade| t@) == sorted.subrange(
                        spec_trade_page_start(sorted.len() as int, offset),
                        spec_trade_page_end(sorted.len() as int, offset, limit),
                    )
                },
    {
        let ghost p = spec_trade_listed(market_id@);
        let mut matched: Vec<Trade> = Vec::new();
        let n = store.trades.len();
        proof {
            assert(store@.trades.take(0) =~= Seq::<TradeView>::empty());
            reveal(Seq::filter);
        }
        for i in 0..n
            invariant
                n == store.trades.len(),
                p == spec_trade_listed(market_id@),
                matched@.map_values(|t: Trade| t@) == store@.trades.take(i as int).filter(p),
        {
            proof {
                assert(store@.trades.take(i + 1) =~= store@.trades.take(i as int) + seq![
                    store@.trades[i as int],
                ]);
                Seq::filter_distributes_over_add(
                    store@.trades.take(i as int),
                    seq![store@.trades[i as int]],
                    p,
                );
                lemma_filter_one(store@.trades[i as int], p);
            }
            if store.trades[i].market_id == market_id {
                matched.push(store.trades[i].clone());
            }
            assert(matched@.map_values(|t: Trade| t@) =~= store@.trades.take(i + 1).filter(p));
        }
        proof {
            assert(store@.trades.take(n as int) =~= store@.trades);
        }
        let sorted = sort_trades(matched);
        let len = sorted.len();
        let start: usize = if offset >= len as u64 {
            len
        } else {
            offset as usize
        };
        let avail = len - start;
        let take_n: usize = if limit >= avail as u64 {
            avail
        } else {
            limit as usize
        };
        let mut page: Vec<Trade> = Vec::new();
        let end = start + take_n;
        proof {
            assert(page@.map_values(|t: Trade| t@) =~= sorted@.map_values(
                |t: Trade| t@,
            ).subrange(start as int, start as int));
        }
        for i in start..end
            invariant
                end == start + take_n <= sorted@.len(),
                page@.map_values(|t: Trade| t@) == sorted@.map_values(|t: Trade| t@).subrange(
                    start as int,
                    i as int,
                ),
        {
            let ghost pagep = page@.map_values(|t: Trade| t@);
            page.push(sorted[i].clone());
            proof {
                assert(page@.map_values(|t: Trade| t@) =~= pagep.push(sorted@[i as int]@));
                assert(page@.map_values(|t: Trade| t@) =~= sorted@.map_values(
                    |t: Trade| t@,
                ).subrange(start as int, i + 1));
            }
        }
        proof {
            let sortedv = sorted@.map_values(|t: Trade| t@);
            assert(start as int == spec_trade_page_start(sortedv.len() as int, offset));
            assert(end as int == spec_trade_page_end(sortedv.len() as int, offset, limit));
            assert(spec_trades_sorted(sortedv) && sortedv.to_multiset() == store@.trades.filter(
                spec_trade_listed(market_id@),
            ).to_multiset() && page@.map_values(|t: Trade| t@) == sortedv.subrange(
                spec_trade_page_start(sortedv.len() as int, offset),
                spec_trade_page_end(sortedv.len() as int, offset, limit),
            ));
        }
        page
    }
}

/// Write side of the trade table.
pub struct Mutation;

impl Mutation {
    /// Inserts the trade; a row with the same id already present is left
    /// as it is.
    pub fn insert(store: &mut Store, data: Trade)
        requires
            old(store)@.wf(),
        ensures
            final(store)@.wf(),
            final(store)@ == spec_insert_trade(old(store)@, data@),
    {
        proof {
            lemma_insert_trade_wf(old(store)@, data@);
        }
        match store.find_trade_index(&data.trade_id) {
            Some(_) => {},
            None => {
                store.trades.push(data);
                assert(store@.trades =~= old(store)@.trades.push(data@));
                assert(store@ =~= spec_insert_trade(old(store)@, data@));
            },
        }
    }

    /// Inserts each trade in turn, skipping ids already present; an empty
    /// batch changes nothing.
    pub fn insert_many(store: &mut Store, data: Vec<Trade>)
        requires
            old(store)@.wf(),
        ensures
            final(store)@.wf(),
            final(store)@ == spec_insert_trades(
                old(store)@,
                data@.map_values(|t: Trade| t@),
            ),
    {
        let ghost views = data@.map_values(|t: Trade| t@);
        let n = data.len();
        assert(views.take(0) =~= Seq::<TradeView>::empty());
        for i in 0..n
            invariant
                n == data.len(),
                views == data@.map_values(|t: Trade| t@),
                store@.wf(),
                store@ == spec_insert_trades(old(store)@, views.take(i as int)),
        {
            proof {
                assert(views.take(i + 1) =~= views.take(i as int).push(views[i as int]));
                lemma_insert_trades_snoc(old(store)@, views.take(i as int), views[i as int]);
            }
            Mutation::insert(store, data[i].clone());
        }
        proof {
            assert(views.take(n as int) =~= views);
        }
    }

    /// Removes the market's trades at or after `from_block` and returns
    /// how many rows went.
    pub fn delete_many(store: &mut Store, market_id: String, from_block: i64) -> (r: u64)
        requires
            old(store)@.wf(),
        ensures
            final(store)@.wf(),
            final(store)@.trades == spec_prune_trades(old(store)@.trades, market_id@, from_block),
            final(store)@.orders == old(store)@.orders,
            final(store)@.states == old(store)@.states,
            r == old(store)@.trades.len() - final(store)@.trades.len(),
    {
        let ghost p = spec_trade_kept(market_id@, from_block);
        let mut kept: Vec<Trade> = Vec::new();
        let n = store.trades.len();
        proof {
            assert(store@.trades.take(0) =~= Seq::<TradeView>::empty());
            reveal(Seq::filter);
        }
        for i in 0..n
            invariant
                n == store.trades.len(),
                store@ == old(store)@,
                store@.wf(),
                p == spec_trade_kept(market_id@, from_block),
                kept@.map_values(|t: Trade| t@) == store@.trades.take(i as int).filter(p),
        {
            let t = &store.trades[i];
            let keep = !(t.market_id == market_id && t.block_number >= from_block);
            proof {
                assert(store@.trades.take(i + 1) =~= store@.trades.take(i as int) + seq![
                    store@.trades[i as int],
                ]);
                Seq::filter_distributes_over_add(
                    store@.trades.take(i as int),
                    seq![store@.trades[i as int]],
                    p,
                );
                lemma_filter_one(store@.trades[i as int], p);
            }
            if keep {
                kept.push(t.clone());
            }
            assert(kept@.map_values(|t: Trade| t@) =~= store@.trades.take(i + 1).filter(p));
        }
        proof {
            assert(store@.trades.take(n as int) =~= store@.trades);
            lemma_filter_trades_unique(store@.trades, p);
            store@.trades.lemma_filter_len(p);
        }
        let removed = store.trades.len() - kept.len();
        store.trades = kept;
        removed as u64
    }
}

} // verus!
