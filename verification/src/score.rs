//! The score ledger: named counters created on first use.  Counters are
//! keyed by small integer tokens; `SCORE_GAME` is the counter the game
//! view feeds when an item is collected.

use vstd::prelude::*;
use std::collections::HashMap;

verus! {

/// Token of the main gameplay score counter.
pub const SCORE_GAME: u32 = 0;

/// Largest magnitude a counter may reach; increments saturate there so
/// that the ledger never overflows.
pub const SCORE_LIMIT: i32 = 1_000_000_000;

/// A ledger of named counters.
pub struct Score {
    counters: HashMap<u32, i32>,
}

/// `delta` added to `cur`, saturated into `[-SCORE_LIMIT, SCORE_LIMIT]`.
pub open spec fn spec_saturate_add(cur: int, delta: int) -> int {
    if cur + delta > SCORE_LIMIT as int {
        SCORE_LIMIT as int
    } else if cur + delta < -(SCORE_LIMIT as int) {
        -(SCORE_LIMIT as int)
    } else {
        cur + delta
    }
}

impl Score {
    /// The counters as a map from token to value.
    pub closed spec fn view(&self) -> Map<u32, i32> {
        self.counters@
    }

    /// An empty ledger.
    pub fn new() -> (s: Score)
        ensures
            s@ == Map::<u32, i32>::empty(),
    {
        Score { counters: HashMap::new() }
    }

    /// Creates `name` with value zero; an existing counter is reset.
    pub fn add_score(&mut self, name: u32)
        ensures
            final(self)@ == old(self)@.insert(name, 0),
    {
        broadcast use vstd::std_specs::hash::group_hash_axioms;

        self.counters.insert(name, 0);
    }

    /// The value of `name`, or nothing when the counter does not exist.
    pub fn score(&self, name: u32) -> (r: Option<i32>)
        ensures
            r == if self@.contains_key(name) {
                Option::Some(self@[name])
            } else {
                Option::None::<i32>
            },
    {
        broadcast use vstd::std_specs::hash::group_hash_axioms;

        match self.counters.get(&name) {
            Option::Some(v) => Option::Some(*v),
            Option::None => Option::None,
        }
    }

    /// Adds `delta` to `name`, creating the counter at zero first when it
    /// does not exist; the sum saturates at `SCORE_LIMIT` in magnitude.
    pub fn increment_score(&mut self, name: u32, delta: i32)
        ensures
            final(self)@ == old(self)@.insert(
                name,
                spec_saturate_add(
                    if old(self)@.contains_key(name) {
                        old(self)@[name] as int
                    } else {
                        0int
                    },
                    delta as int,
                ) as i32,
            ),
    {
        broadcast use vstd::std_specs::hash::group_hash_axioms;

        let cur: i32 = match self.counters.get(&name) {
            Option::Some(v) => *v,
            Option::None => 0,
        };
        let sum: i64 = cur as i64 + delta as i64;
        let clamped: i32 = if sum > SCORE_LIMIT as i64 {
            SCORE_LIMIT
        } else if sum < -(SCORE_LIMIT as i64) {
            -SCORE_LIMIT
        } else {
            sum as i32
        };
        self.counters.insert(name, clamped);
    }
}

} // verus!
