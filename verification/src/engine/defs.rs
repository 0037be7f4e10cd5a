//! Transposition-table entries and the thread-local cache of them.
use crate::movegen::defs::ShortMove;
use std::collections::HashMap;
use vstd::prelude::*;

verus! {

broadcast use vstd::std_specs::hash::group_hash_axioms;

/// Scores above this are mate scores.
pub const CHECKMATE_THRESHOLD: i16 = 23_900;

/// What kind of bound a stored value is.
#[derive(Copy, Clone, PartialEq, Eq, Structural)]
pub enum HashFlag {
    Nothing,
    Exact,
    Alpha,
    Beta,
}

/// What the search stores about a position: the depth it searched to,
/// the kind of bound, the value and the best move found.
#[derive(Copy, Clone)]
pub struct SearchData {
    pub depth: i8,
    pub flag: HashFlag,
    pub value: i16,
    pub best_move: ShortMove,
}

/// The value as stored: mate scores count from the position itself
/// rather than from the root, so `ply` is added to (or taken from) them.
pub open spec fn stored_value(value: i16, ply: i8) -> int {
    if value > CHECKMATE_THRESHOLD {
        value + ply
    } else if value < -CHECKMATE_THRESHOLD {
        value - ply
    } else {
        value as int
    }
}

/// The value as read back at `ply`: the inverse adjustment.
pub open spec fn read_value(value: i16, ply: i8) -> int {
    if value > CHECKMATE_THRESHOLD {
        value - ply
    } else if value < -CHECKMATE_THRESHOLD {
        value + ply
    } else {
        value as int
    }
}

/// The value a stored entry gives a search of `depth` at `ply` with the
/// window `alpha..beta`, if it gives one.
pub open spec fn probe_value(data: SearchData, depth: i8, ply: i8, alpha: i16, beta: i16) -> Option<int> {
    if data.depth >= depth {
        match data.flag {
            HashFlag::Exact => Some(read_value(data.value, ply)),
            HashFlag::Alpha => if data.value <= alpha { Some(alpha as int) } else { None },
            HashFlag::Beta => if data.value >= beta { Some(beta as int) } else { None },
            HashFlag::Nothing => None,
        }
    } else {
        None
    }
}

impl SearchData {
    /// An entry for a position searched to `depth` at `ply`.
    pub fn create(depth: i8, ply: i8, flag: HashFlag, value: i16, best_move: ShortMove) -> (d: Self)
        requires
            0 <= ply,
            value + ply <= i16::MAX,
            value - ply >= i16::MIN,
        ensures
            d.depth == depth,
            d.flag == flag,
            d.value == stored_value(value, ply),
            d.best_move == best_move,
    {
        let mut v = value;
        if v > CHECKMATE_THRESHOLD {
            v += ply as i16;
        }
        if v < -CHECKMATE_THRESHOLD {
            v -= ply as i16;
        }
        Self { depth, flag, value: v, best_move }
    }

    /// Reads the entry for a search of `depth` at `ply` with the window
    /// `alpha..beta`: the value, where the entry decides the position,
    /// and the best move stored with it.
    pub fn get(&self, depth: i8, ply: i8, alpha: i16, beta: i16) -> (r: (Option<i16>, ShortMove))
        requires
            0 <= ply,
        ensures
            match probe_value(*self, depth, ply, alpha, beta) {
                Some(v) => r.0 == Some(v as i16),
                None => r.0 is None,
            },
            r.1 == self.best_move,
    {
        let mut value: Option<i16> = None;
        if self.depth >= depth {
            match self.flag {
                HashFlag::Exact => {
                    let mut v = self.value;
                    if v > CHECKMATE_THRESHOLD {
                        v -= ply as i16;
                    }
                    if v < -CHECKMATE_THRESHOLD {
                        v += ply as i16;
                    }
                    value = Some(v);
                },
                HashFlag::Alpha => {
                    if self.value <= alpha {
                        value = Some(alpha);
                    }
                },
                HashFlag::Beta => {
                    if self.value >= beta {
                        value = Some(beta);
                    }
                },
                HashFlag::Nothing => {},
            }
        }
        (value, self.best_move)
    }
}

/// An exact value stored at some ply reads back as the same value at that
/// ply, for every search that asks for no more depth than was stored.
pub proof fn lemma_exact_round_trip(
    depth: i8,
    ply: i8,
    value: i16,
    best_move: ShortMove,
    probe_depth: i8,
    alpha: i16,
    beta: i16,
)
    requires
        0 <= ply,
        value + ply <= i16::MAX,
        value - ply >= i16::MIN,
        probe_depth <= depth,
    ensures
        probe_value(
            SearchData { depth, flag: HashFlag::Exact, value: stored_value(value, ply) as i16, best_move },
            probe_depth,
            ply,
            alpha,
            beta,
        ) == Some(value as int),
{
}

/// A small per-thread cache of transposition-table entries, keyed by the
/// position's hash key.
pub struct LocalTTCache {
    pub entries: HashMap<u64, SearchData>,
}

impl LocalTTCache {
    /// An empty cache.
    pub fn new() -> (c: Self)
        ensures
            c.entries@ == Map::<u64, SearchData>::empty(),
    {
        Self { entries: HashMap::new() }
    }

    /// The entry stored for `key`, if there is one.
    pub fn probe(&self, key: u64) -> (r: Option<SearchData>)
        ensures
            match r {
                Some(d) => self.entries@.contains_key(key) && self.entries@[key] == d,
                None => !self.entries@.contains_key(key),
            },
    {
        match self.entries.get(&key) {
            Some(d) => Some(*d),
            None => None,
        }
    }

    /// Stores `data` for `key`, replacing what was there.
    pub fn insert(&mut self, key: u64, data: SearchData)
        ensures
            final(self).entries@ == old(self).entries@.insert(key, data),
    {
        self.entries.insert(key, data);
    }

    /// Empties the cache.
    pub fn clear(&mut self)
        ensures
            final(self).entries@ == Map::<u64, SearchData>::empty(),
    {
        self.entries.clear();
    }
}

} // verus!
