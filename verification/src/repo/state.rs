//! State table: the durable per-market cursor.
use vstd::prelude::*;

use crate::store::{lemma_upsert_state_wf, spec_upsert_state, Store};
use crate::types::State;

verus! {

/// Read side of the state table.
pub struct Query;

impl Query {
    /// The market's cursor, if one was ever written.
    pub fn find_latest_processed_block(store: &Store, market_id: &String) -> (r: Option<i64>)
        requires
            store@.wf(),
        ensures
            (match r {
                Some(b) => store@.has_state(market_id@) && b == store@.state_of(
                    market_id@,
                ).latest_processed_block,
                None => !store@.has_state(market_id@),
            }),
    {
        match store.find_state_index(market_id) {
            Some(i) => Some(store.states[i].latest_processed_block),
            None => None,
        }
    }
}

/// Write side of the state table.
pub struct Mutation;

impl Mutation {
    /// Writes the market's cursor: the existing row is overwritten, or a
    /// row is created; `now` is recorded as the write time.
    pub fn upsert_latest_processed_block(
        store: &mut Store,
        block: i64,
        market_id: &String,
        now: i64,
    )
        requires
            old(store)@.wf(),
        ensures
            final(store)@.wf(),
            final(store)@ == spec_upsert_state(old(store)@, market_id@, block, now),
    {
        proof {
            lemma_upsert_state_wf(old(store)@, market_id@, block, now);
        }
        let row = State {
            market_id: market_id.clone(),
            latest_processed_block: block,
            timestamp: now,
        };
        match store.find_state_index(market_id) {
            Some(i) => {
                store.states[i] = row;
                assert(store@.states =~= old(store)@.states.update(
                    i as int,
                    spec_upsert_state(old(store)@, market_id@, block, now).states[i as int],
                ));
                assert(store@ =~= spec_upsert_state(old(store)@, market_id@, block, now));
            },
            None => {
                store.states.push(row);
                assert(store@.states =~= old(store)@.states.push(
                    spec_upsert_state(old(store)@, market_id@, block, now).states.last(),
                ));
                assert(store@ =~= spec_upsert_state(old(store)@, market_id@, block, now));
            },
        }
    }
}

} // verus!
