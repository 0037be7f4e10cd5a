//! The search's constants, parameters, statistics and per-thread data.
use crate::defs::MAX_PLY;
use crate::engine::defs::{LocalTTCache, SearchData};
use crate::movegen::defs::{square_name, promotion_name, field, Move, ShortMove};
use std::collections::HashMap;
use std::time::Instant;
use vstd::prelude::*;

verus! {

broadcast use vstd::std_specs::hash::group_hash_axioms;

pub const INF: i16 = 25_000;
pub const ASPIRATION_WINDOW: i16 = 50;
pub const CHECKMATE: i16 = 24_000;
pub const CHECKMATE_THRESHOLD: i16 = 23_900;
pub const STALEMATE: i16 = 0;
pub const DRAW: i16 = 0;
pub const SHARP_MARGIN: i16 = 30;
pub const SHARP_SEQUENCE_DEPTH_CAP: i8 = 3;
pub const CHECK_TERMINATION: usize = 0x7FF;
pub const SEND_STATS: usize = 0x7FFFF;
pub const MIN_TIME_STATS: u128 = 2_000;
pub const MIN_TIME_CURR_MOVE: u128 = 1_000;
pub const MAX_KILLER_MOVES: usize = 2;
pub const NULL_MOVE_REDUCTION: i8 = 3;
pub const LMR_REDUCTION: i8 = 1;
pub const LMR_MOVE_THRESHOLD: u8 = 3;
pub const LMR_LATE_THRESHOLD: u8 = 6;
pub const LMR_LATE_REDUCTION: i8 = 2;
pub const MULTICUT_DEPTH: i8 = 4;
pub const MULTICUT_REDUCTION: i8 = 3;
pub const MULTICUT_CUTOFFS: u8 = 2;
pub const MULTICUT_MOVES: u8 = 4;
pub const RECAPTURE_EXTENSION: i8 = 1;

/// Less time than this per move (in milliseconds) puts the search in
/// emergency mode.
pub const EMERGENCY_TIME_THRESHOLD: u128 = 2_000;
/// The depth limit in emergency mode.
pub const EMERGENCY_MAX_DEPTH: i8 = 8;

pub const OPENING_PLY_THRESHOLD: usize = 20;
pub const EARLY_MIDDLEGAME_PLY_THRESHOLD: usize = 30;
pub const LATE_MIDDLEGAME_PLY_THRESHOLD: usize = 40;
pub const ENDGAME_PIECE_THRESHOLD: usize = 12;

/// Number of table updates a thread collects before it writes them out.
pub const TT_BATCH_SIZE: usize = 16;

/// The stage of the game, for time management.
#[derive(Copy, Clone, PartialEq, Eq, Structural, Hash, Debug)]
pub enum GamePhase {
    Opening,
    EarlyMiddlegame,
    LateMiddlegame,
    Endgame,
}

/// The kind of time control, judged by the clock.
#[derive(Copy, Clone, PartialEq, Eq, Structural, Debug)]
pub enum TimeControl {
    Bullet,
    Blitz,
    Rapid,
    Classical,
}

/// How clear the choice of move was, judged from the root moves.
#[derive(Copy, Clone, PartialEq, Eq, Structural)]
pub enum MoveQuality {
    Excellent,
    Good,
    Acceptable,
    Poor,
    Critical,
}

/// The key under which the time used in a game phase is kept.
pub open spec fn phase_key(phase: GamePhase) -> u64 {
    match phase {
        GamePhase::Opening => 0,
        GamePhase::EarlyMiddlegame => 1,
        GamePhase::LateMiddlegame => 2,
        GamePhase::Endgame => 3,
    }
}

/// The key under which the time used in a game phase is kept.
pub fn phase_index(phase: GamePhase) -> (k: u64)
    ensures
        k == phase_key(phase),
{
    match phase {
        GamePhase::Opening => 0,
        GamePhase::EarlyMiddlegame => 1,
        GamePhase::LateMiddlegame => 2,
        GamePhase::Endgame => 3,
    }
}

#[verifier::external_type_specification]
#[verifier::external_body]
pub struct ExInstant(std::time::Instant);

/// Calls `Instant::now`: the current moment. Nothing is stated of it; it
/// depends on the clock.
#[verifier::external_body]
pub(crate) fn instant_now() -> Instant {
    Instant::now()
}

/// Calls `Instant::elapsed` on `start` and gives the duration in whole
/// milliseconds (`Duration::as_millis`). Nothing is stated of it; it
/// depends on the clock.
#[verifier::external_body]
pub(crate) fn millis_since(start: &Instant) -> u128 {
    start.elapsed().as_millis()
}

/// Statistics about the time management over a game.
pub struct TimeStats {
    pub total_moves: usize,
    pub successful_allocations: usize,
    pub time_losses: usize,
    pub average_time_per_move: u128,
    /// Running time per game phase, keyed by `phase_key`.
    pub time_usage_by_phase: HashMap<u64, u128>,
    pub last_update: Instant,
}

/// The new running time of a phase after a move that used `time_used`.
pub open spec fn phase_time_after(usage: Map<u64, u128>, phase: GamePhase, time_used: u128) -> int {
    let before = if usage.contains_key(phase_key(phase)) {
        usage[phase_key(phase)] as int
    } else {
        0int
    };
    (before + time_used) / 2
}

impl TimeStats {
    /// Empty statistics.
    pub fn new() -> (s: Self)
        ensures
            s.total_moves == 0,
            s.successful_allocations == 0,
            s.time_losses == 0,
            s.average_time_per_move == 0,
            s.time_usage_by_phase@ == Map::<u64, u128>::empty(),
    {
        Self {
            total_moves: 0,
            successful_allocations: 0,
            time_losses: 0,
            average_time_per_move: 0,
            time_usage_by_phase: HashMap::new(),
            last_update: instant_now(),
        }
    }

    /// Records one more move that used `time_used` milliseconds in game
    /// phase `phase`, and whether its time allocation succeeded.
    pub fn update(&mut self, time_used: u128, success: bool, phase: GamePhase)
        requires
            old(self).total_moves < usize::MAX,
            success ==> old(self).successful_allocations < usize::MAX,
            !success ==> old(self).time_losses < usize::MAX,
            old(self).average_time_per_move * old(self).total_moves + time_used <= u128::MAX,
            old(self).time_usage_by_phase@.contains_key(phase_key(phase)) ==> old(self).time_usage_by_phase@[phase_key(phase)] + time_used <= u128::MAX,
        ensures
            final(self).total_moves == old(self).total_moves + 1,
            final(self).successful_allocations == old(self).successful_allocations + if success { 1int } else { 0int },
            final(self).time_losses == old(self).time_losses + if success { 0int } else { 1int },
            final(self).average_time_per_move == (old(self).average_time_per_move * old(self).total_moves + time_used) / (old(self).total_moves + 1),
            final(self).time_usage_by_phase@ == old(self).time_usage_by_phase@.insert(
                phase_key(phase),
                phase_time_after(old(self).time_usage_by_phase@, phase, time_used) as u128,
            ),
    {
        self.total_moves += 1;
        if success {
            self.successful_allocations += 1;
        } else {
            self.time_losses += 1;
        }
        let n = self.total_moves as u128;
        let total_time = self.average_time_per_move * (n - 1) + time_used;
        self.average_time_per_move = total_time / n;
        let key = phase_index(phase);
        let before: u128 = match self.time_usage_by_phase.get(&key) {
            Some(t) => *t,
            None => 0,
        };
        self.time_usage_by_phase.insert(key, (before + time_used) / 2);
        self.last_update = instant_now();
    }
}

/// A position's table entry waiting to be written out.
#[derive(Copy, Clone)]
pub struct TTUpdate {
    pub zobrist_key: u64,
    pub data: SearchData,
}

/// Table updates collected by one thread, written out together so the
/// shared table is locked less often.
pub struct TTBatch {
    pub updates: Vec<TTUpdate>,
    pub size: usize,
}

impl TTBatch {
    /// An empty batch of the standard size.
    pub fn new() -> (b: Self)
        ensures
            b.updates@ == Seq::<TTUpdate>::empty(),
            b.size == TT_BATCH_SIZE,
    {
        Self { updates: Vec::with_capacity(TT_BATCH_SIZE), size: TT_BATCH_SIZE }
    }

    /// Appends an update.
    pub fn add(&mut self, zobrist_key: u64, data: SearchData)
        ensures
            final(self).updates@ == old(self).updates@.push(TTUpdate { zobrist_key, data }),
            final(self).size == old(self).size,
    {
        self.updates.push(TTUpdate { zobrist_key, data });
    }

    /// Whether the batch holds as many updates as it should before being
    /// written out.
    pub fn is_full(&self) -> (full: bool)
        ensures
            full == (self.updates@.len() >= self.size),
    {
        self.updates.len() >= self.size
    }

    /// Drops all updates.
    pub fn clear(&mut self)
        ensures
            final(self).updates@ == Seq::<TTUpdate>::empty(),
            final(self).size == old(self).size,
    {
        self.updates.clear();
    }

    /// The number of updates waiting.
    pub fn len(&self) -> (n: usize)
        ensures
            n == self.updates@.len(),
    {
        self.updates.len()
    }

    /// Two batches are alike when they have the same size and the same
    /// number of waiting updates.
    pub fn eq(&self, other: &Self) -> (r: bool)
        ensures
            r == (self.size == other.size && self.updates@.len() == other.updates@.len()),
    {
        self.size == other.size && self.updates.len() == other.updates.len()
    }
}

/// Data each search thread keeps for itself.
pub struct ThreadLocalData {
    pub thread_id: u32,
    pub local_tt_cache: LocalTTCache,
    pub tt_batch: TTBatch,
    pub search_start_time: Option<Instant>,
    pub nodes_searched: usize,
    pub best_move_found: Option<Move>,
    pub search_depth: i8,
}

impl ThreadLocalData {
    /// Fresh data for thread `thread_id`.
    pub fn new(thread_id: u32) -> (t: Self)
        ensures
            t.thread_id == thread_id,
            t.local_tt_cache.entries@ == Map::<u64, SearchData>::empty(),
            t.tt_batch.updates@ == Seq::<TTUpdate>::empty(),
            t.tt_batch.size == TT_BATCH_SIZE,
            t.search_start_time is None,
            t.nodes_searched == 0,
            t.best_move_found is None,
            t.search_depth == 0,
    {
        Self {
            thread_id,
            local_tt_cache: LocalTTCache::new(),
            tt_batch: TTBatch::new(),
            search_start_time: None,
            nodes_searched: 0,
            best_move_found: None,
            search_depth: 0,
        }
    }

    /// Starts the clock and resets the counters and caches for a new
    /// search.
    pub fn start_search(&mut self)
        ensures
            final(self).search_start_time is Some,
            final(self).nodes_searched == 0,
            final(self).best_move_found is None,
            final(self).search_depth == 0,
            final(self).local_tt_cache.entries@ == Map::<u64, SearchData>::empty(),
            final(self).tt_batch.updates@ == Seq::<TTUpdate>::empty(),
            final(self).tt_batch.size == old(self).tt_batch.size,
            final(self).thread_id == old(self).thread_id,
    {
        self.search_start_time = Some(instant_now());
        self.nodes_searched = 0;
        self.best_move_found = None;
        self.search_depth = 0;
        self.local_tt_cache.clear();
        self.tt_batch.clear();
    }

    /// Milliseconds since the search started; 0 if it has not started.
    pub fn elapsed_time(&self) -> (ms: u128)
        ensures
            self.search_start_time is None ==> ms == 0,
    {
        match &self.search_start_time {
            Some(start_time) => millis_since(start_time),
            None => 0,
        }
    }

    /// Remembers the best move found so far.
    pub fn update_best_move(&mut self, mv: Move)
        ensures
            final(self).best_move_found == Some(mv),
            final(self).nodes_searched == old(self).nodes_searched,
            final(self).thread_id == old(self).thread_id,
            final(self).search_depth == old(self).search_depth,
    {
        self.best_move_found = Some(mv);
    }

    /// Counts one more node.
    pub fn increment_nodes(&mut self)
        requires
            old(self).nodes_searched < usize::MAX,
        ensures
            final(self).nodes_searched == old(self).nodes_searched + 1,
            final(self).best_move_found == old(self).best_move_found,
            final(self).thread_id == old(self).thread_id,
    {
        self.nodes_searched += 1;
    }
}

/// Commands for a search thread.
#[derive(Copy, Clone, PartialEq, Eq, Structural)]
pub enum SearchControl {
    Start(SearchParams),
    Stop,
    Quit,
    Nothing,
}

/// Why a search ended early, if it did.
#[derive(Copy, Clone, PartialEq, Eq, Structural)]
pub enum SearchTerminate {
    Stop,
    Quit,
    Nothing,
}

/// What limits a search.
#[derive(Copy, Clone, PartialEq, Eq, Structural)]
pub enum SearchMode {
    Depth,
    MoveTime,
    Nodes,
    GameTime,
    Ponder,
    Infinite,
    Nothing,
}

/// The clocks and increments of both sides, in milliseconds.
#[derive(Copy, Clone, PartialEq, Eq, Structural)]
pub struct GameTime {
    pub wtime: u128,
    pub btime: u128,
    pub winc: u128,
    pub binc: u128,
    pub moves_to_go: Option<usize>,
}

impl GameTime {
    pub fn new(wtime: u128, btime: u128, winc: u128, binc: u128, moves_to_go: Option<usize>) -> (gt: Self)
        ensures
            gt == (GameTime { wtime, btime, winc, binc, moves_to_go }),
    {
        Self { wtime, btime, winc, binc, moves_to_go }
    }
}

/// How a search is to be run.
#[derive(Copy, Clone, PartialEq, Eq, Structural)]
pub struct SearchParams {
    pub depth: i8,
    pub move_time: u128,
    pub nodes: usize,
    pub game_time: GameTime,
    pub search_mode: SearchMode,
    pub quiet: bool,
    pub sharp_margin: i16,
}

impl SearchParams {
    /// Defaults: full depth, no limits, no mode chosen yet.
    pub fn new() -> (p: Self)
        ensures
            p.depth == MAX_PLY,
            p.move_time == 0,
            p.nodes == 0,
            p.game_time == (GameTime { wtime: 0, btime: 0, winc: 0, binc: 0, moves_to_go: None }),
            p.search_mode == SearchMode::Nothing,
            !p.quiet,
            p.sharp_margin == SHARP_MARGIN,
    {
        Self {
            depth: MAX_PLY,
            move_time: 0,
            nodes: 0,
            game_time: GameTime::new(0, 0, 0, 0, None),
            search_mode: SearchMode::Nothing,
            quiet: false,
            sharp_margin: SHARP_MARGIN,
        }
    }

    /// Whether the search is limited by the game clock.
    pub fn is_game_time(&self) -> (b: bool)
        ensures
            b == (self.search_mode == SearchMode::GameTime),
    {
        match self.search_mode {
            SearchMode::GameTime => true,
            _ => false,
        }
    }
}

/// What the search found out about one root move.
pub struct RootMoveAnalysis {
    pub mv: Move,
    pub eval: i16,
    pub good_replies: usize,
    pub reply: Option<Move>,
    pub reply_sequence: Vec<Move>,
}

/// The running state of one search.
pub struct SearchInfo {
    pub start_time: Option<Instant>,
    pub depth: i8,
    pub seldepth: i8,
    pub nodes: usize,
    pub ply: i8,
    pub killer_moves: [[ShortMove; 2]; 125],
    pub last_stats_sent: u128,
    pub history_heuristic: [[[u32; 64]; 6]; 2],
    pub counter_moves: [[[ShortMove; 64]; 6]; 2],
    pub last_curr_move_sent: u128,
    pub allocated_time: u128,
    pub terminate: SearchTerminate,
    pub root_analysis: Vec<RootMoveAnalysis>,
    pub local_tt_cache: LocalTTCache,
    pub tt_batch: TTBatch,
    pub emergency_mode: bool,
    pub max_depth: i8,
    pub time_stats: TimeStats,
}

/// The state of a search that has not started yet, apart from its time
/// statistics.
pub open spec fn fresh_info(info: SearchInfo) -> bool {
    &&& info.start_time is None
    &&& info.depth == 0
    &&& info.seldepth == 0
    &&& info.nodes == 0
    &&& info.ply == 0
    &&& forall|p: int, n: int| 0 <= p < 125 && 0 <= n < 2 ==> (#[trigger] info.killer_moves[p][n]).data == 0
    &&& forall|s: int, p: int, q: int|
        0 <= s < 2 && 0 <= p < 6 && 0 <= q < 64 ==> #[trigger] info.history_heuristic[s][p][q] == 0
    &&& forall|s: int, p: int, q: int|
        0 <= s < 2 && 0 <= p < 6 && 0 <= q < 64 ==> (#[trigger] info.counter_moves[s][p][q]).data == 0
    &&& info.last_stats_sent == 0
    &&& info.last_curr_move_sent == 0
    &&& info.allocated_time == 0
    &&& info.terminate == SearchTerminate::Nothing
    &&& info.root_analysis@.len() == 0
    &&& info.local_tt_cache.entries@ == Map::<u64, SearchData>::empty()
    &&& info.tt_batch.updates@ == Seq::<TTUpdate>::empty()
    &&& info.tt_batch.size == TT_BATCH_SIZE
    &&& !info.emergency_mode
    &&& info.max_depth == 0
}

impl SearchInfo {
    /// The state of a search that has not started yet.
    pub fn new() -> (info: Self)
        ensures
            fresh_info(info),
            info.time_stats.total_moves == 0,
            info.time_stats.successful_allocations == 0,
            info.time_stats.time_losses == 0,
            info.time_stats.average_time_per_move == 0,
            info.time_stats.time_usage_by_phase@ == Map::<u64, u128>::empty(),
    {
        Self {
            start_time: None,
            depth: 0,
            seldepth: 0,
            nodes: 0,
            ply: 0,
            killer_moves: [[ShortMove::new(0); 2]; 125],
            history_heuristic: [[[0u32; 64]; 6]; 2],
            counter_moves: [[[ShortMove::new(0); 64]; 6]; 2],
            last_stats_sent: 0,
            last_curr_move_sent: 0,
            allocated_time: 0,
            terminate: SearchTerminate::Nothing,
            root_analysis: Vec::new(),
            local_tt_cache: LocalTTCache::new(),
            tt_batch: TTBatch::new(),
            emergency_mode: false,
            max_depth: 0,
            time_stats: TimeStats::new(),
        }
    }

    /// Starts the search clock.
    pub fn timer_start(&mut self)
        ensures
            final(self).start_time is Some,
            final(self).allocated_time == old(self).allocated_time,
            final(self).terminate == old(self).terminate,
            final(self).nodes == old(self).nodes,
    {
        self.start_time = Some(instant_now());
    }

    /// Milliseconds since the search clock started; 0 if it has not.
    pub fn timer_elapsed(&self) -> (ms: u128)
        ensures
            self.start_time is None ==> ms == 0,
    {
        match &self.start_time {
            Some(x) => millis_since(x),
            None => 0,
        }
    }

    /// Whether the search was told to stop or quit.
    pub fn interrupted(&self) -> (b: bool)
        ensures
            b == (self.terminate != SearchTerminate::Nothing),
    {
        match self.terminate {
            SearchTerminate::Nothing => false,
            _ => true,
        }
    }

    /// Resets everything but the time statistics.
    pub fn preserve_time_stats(&mut self)
        ensures
            fresh_info(*final(self)),
            final(self).time_stats == old(self).time_stats,
    {
        let mut other = Self::new();
        std::mem::swap(self, &mut other);
        self.time_stats = other.time_stats;
    }
}

/// The principal variation as text: each move preceded by a space.
pub open spec fn pv_text(pv: Seq<Move>) -> Seq<char>
    decreases pv.len(),
{
    if pv.len() == 0 {
        Seq::empty()
    } else {
        pv_text(pv.drop_last()) + seq![' '] + move_text(pv.last())
    }
}

/// A move in coordinate notation, such as "e2e4" or "e7e8q".
pub open spec fn move_text(m: Move) -> Seq<char> {
    square_name(field(m.data as int, 3, 64)) + square_name(field(m.data as int, 9, 64))
        + promotion_name(field(m.data as int, 18, 8))
}

/// What the search reports after finishing a depth.
pub struct SearchSummary {
    pub depth: i8,
    pub seldepth: i8,
    pub time: u128,
    pub cp: i16,
    pub mate: u8,
    pub nodes: usize,
    pub nps: usize,
    pub hash_full: u16,
    pub pv: Vec<Move>,
}

impl SearchSummary {
    /// The principal variation as text, each move preceded by a space.
    pub fn pv_as_string(&self) -> (s: String)
        ensures
            s@ == pv_text(self.pv@),
    {
        let mut pv = String::new();
        let mut i: usize = 0;
        proof {
            reveal_strlit(" ");
            assert(self.pv@.take(0) =~= Seq::<Move>::empty());
        }
        while i < self.pv.len()
            invariant
                0 <= i <= self.pv@.len(),
                pv@ == pv_text(self.pv@.take(i as int)),
            decreases self.pv@.len() - i,
        {
            let next_move = self.pv[i];
            pv.append(" ");
            let m = next_move.as_string();
            pv.append(m.as_str());
            proof {
                reveal_strlit(" ");
                assert(self.pv@.take(i as int + 1).drop_last() =~= self.pv@.take(i as int));
            }
            i += 1;
        }
        proof {
            assert(self.pv@.take(self.pv@.len() as int) =~= self.pv@);
        }
        pv
    }
}

/// The move the search is looking at, for the user interface.
#[derive(Copy, Clone)]
pub struct SearchCurrentMove {
    pub curr_move: Move,
    pub curr_move_number: u8,
}

impl SearchCurrentMove {
    pub fn new(curr_move: Move, curr_move_number: u8) -> (c: Self)
        ensures
            c.curr_move == curr_move,
            c.curr_move_number == curr_move_number,
    {
        Self { curr_move, curr_move_number }
    }
}

/// Intermediate statistics for the user interface.
#[derive(Copy, Clone)]
pub struct SearchStats {
    pub time: u128,
    pub nodes: usize,
    pub nps: usize,
    pub hash_full: u16,
}

impl SearchStats {
    pub fn new(time: u128, nodes: usize, nps: usize, hash_full: u16) -> (s: Self)
        ensures
            s.time == time,
            s.nodes == nodes,
            s.nps == nps,
            s.hash_full == hash_full,
    {
        Self { time, nodes, nps, hash_full }
    }
}

/// What a search thread reports.
pub enum SearchReport {
    Finished(Move),
    SearchSummary(SearchSummary),
    SearchCurrentMove(SearchCurrentMove),
    SearchStats(SearchStats),
    InfoString(String),
}

} // verus!
