//! Time management: how much of the clock a move may use, how the game
//! phase and the time control are judged, and when the time is up.
use crate::defs::MAX_PLY;
use crate::search::defs::{
    GamePhase, GameTime, MoveQuality, RootMoveAnalysis, SearchInfo, SearchParams,
    SearchTerminate, TimeControl, EARLY_MIDDLEGAME_PLY_THRESHOLD, EMERGENCY_MAX_DEPTH,
    EMERGENCY_TIME_THRESHOLD, ENDGAME_PIECE_THRESHOLD, LATE_MIDDLEGAME_PLY_THRESHOLD,
    OPENING_PLY_THRESHOLD,
};
use crate::search::Search;
use vstd::prelude::*;

verus! {

/// Milliseconds kept back for the lag between engine and user interface.
pub const OVERHEAD: u128 = 50;
/// The number of moves a game is assumed to last when nothing is known.
pub const GAME_LENGTH: usize = 25;
/// Moves added to the estimate as a safety margin.
pub const MOVES_BUFFER: usize = 5;
/// Below this allocation (milliseconds) the engine is short on time.
pub const CRITICAL_TIME: u128 = 1_000;
/// Above this allocation (milliseconds) the engine has time enough.
pub const OK_TIME: u128 = 5_000;

/// How far past its allocation a search may run: half as much again when
/// the allocation is between the critical and the comfortable amount
/// (rounded half up), exactly the allocation otherwise.
pub open spec fn allowed_time(allocated: u128) -> int {
    if CRITICAL_TIME < allocated && allocated <= OK_TIME {
        (3 * allocated + 1) / 2
    } else {
        allocated as int
    }
}

/// `clock / moves`, rounded half up.
pub open spec fn rounded_share(clock: u128, moves: usize) -> int {
    (2 * clock + moves) / (2 * moves as int)
}

/// The time slice for a clock, an increment and a number of moves to go:
/// the clock's share per move plus the increment, minus the overhead;
/// without the overhead when subtracting it leaves nothing but the slice
/// is still above a fifth of it; and nothing when even that is too little.
pub open spec fn time_slice(clock: u128, increment: u128, moves: usize) -> int {
    let base = rounded_share(clock, moves) + increment;
    if base > OVERHEAD {
        base - OVERHEAD
    } else if base > OVERHEAD / 5 {
        base
    } else {
        0
    }
}

/// The moves-to-go estimate from the game's progress: fewer as the game
/// advances and as pieces come off.
pub open spec fn adaptive_estimate(ply: usize, piece_count: usize) -> usize {
    if ply <= OPENING_PLY_THRESHOLD {
        30
    } else if ply <= EARLY_MIDDLEGAME_PLY_THRESHOLD {
        if piece_count >= 20 {
            25
        } else if piece_count >= 10 {
            20
        } else {
            15
        }
    } else if piece_count >= 10 {
        15
    } else {
        10
    }
}

/// The game phase from the number of plies played and the pieces left.
pub open spec fn game_phase(ply: usize, piece_count: usize) -> GamePhase {
    if ply <= OPENING_PLY_THRESHOLD {
        GamePhase::Opening
    } else if ply <= EARLY_MIDDLEGAME_PLY_THRESHOLD {
        GamePhase::EarlyMiddlegame
    } else if ply <= LATE_MIDDLEGAME_PLY_THRESHOLD {
        GamePhase::LateMiddlegame
    } else if piece_count <= ENDGAME_PIECE_THRESHOLD {
        GamePhase::Endgame
    } else {
        GamePhase::LateMiddlegame
    }
}

/// The time control from the clock, in milliseconds.
pub open spec fn time_control(clock: u128) -> TimeControl {
    let seconds = clock / 1000;
    if seconds < 60 {
        TimeControl::Bullet
    } else if seconds < 300 {
        TimeControl::Blitz
    } else if seconds < 1800 {
        TimeControl::Rapid
    } else {
        TimeControl::Classical
    }
}

/// The move quality from the difference between the two best root moves
/// and whether the side to move is in check.
pub open spec fn move_quality(eval_diff: int, in_check: bool) -> MoveQuality {
    if !in_check {
        if eval_diff < 30 {
            MoveQuality::Acceptable
        } else if eval_diff < 100 {
            MoveQuality::Good
        } else {
            MoveQuality::Excellent
        }
    } else if eval_diff < 50 {
        MoveQuality::Critical
    } else {
        MoveQuality::Poor
    }
}

/// The percentage of the time slice a move of a given quality gets.
pub open spec fn quality_percent(q: MoveQuality) -> int {
    match q {
        MoveQuality::Excellent => 70,
        MoveQuality::Good => 85,
        MoveQuality::Acceptable => 100,
        MoveQuality::Poor => 120,
        MoveQuality::Critical => 150,
    }
}

/// The percentage of the time slice a time control gets.
pub open spec fn control_percent(tc: TimeControl) -> int {
    match tc {
        TimeControl::Bullet => 80,
        TimeControl::Blitz => 90,
        TimeControl::Rapid => 100,
        TimeControl::Classical => 110,
    }
}

impl Search {
    /// Whether a search that has run `elapsed` milliseconds has used up
    /// its allocation, overshoot included.
    pub fn time_exceeded(elapsed: u128, allocated: u128) -> (b: bool)
        ensures
            b == (elapsed >= allowed_time(allocated)),
    {
        if CRITICAL_TIME < allocated && allocated <= OK_TIME {
            elapsed >= (3 * allocated + 1) / 2
        } else {
            elapsed >= allocated
        }
    }

    /// Whether the allocated search time has been used up. The elapsed
    /// time comes from the clock; whatever it is, the answer is that of
    /// `time_exceeded` for it.
    pub fn out_of_time(info: &SearchInfo) -> (b: bool)
        ensures
            info.allocated_time == 0 ==> b,
            info.start_time is None ==> b == (0 >= allowed_time(info.allocated_time)),
    {
        let elapsed = info.timer_elapsed();
        Search::time_exceeded(elapsed, info.allocated_time)
    }

    /// Whether the search must end: out of time, or told to stop.
    pub fn time_up(info: &SearchInfo) -> (b: bool)
        ensures
            info.terminate != SearchTerminate::Nothing ==> b,
            info.allocated_time == 0 ==> b,
            info.start_time is None && info.terminate == SearchTerminate::Nothing ==> b == (0 >= allowed_time(info.allocated_time)),
    {
        let out = Search::out_of_time(info);
        out || info.interrupted()
    }

    /// The time slice for one move: the side's clock shared out over the
    /// moves to go, plus the increment, less the overhead.
    pub fn calculate_time_slice(params: &SearchParams, white: bool, ply: usize, piece_count: usize) -> (t: u128)
        requires
            params.game_time.moves_to_go != Some(0usize),
            (if white { params.game_time.wtime + params.game_time.winc } else { params.game_time.btime + params.game_time.binc }) <= u128::MAX / 4,
        ensures
            t == time_slice(
                if white { params.game_time.wtime } else { params.game_time.btime },
                if white { params.game_time.winc } else { params.game_time.binc },
                match params.game_time.moves_to_go {
                    Some(x) => x,
                    None => adaptive_estimate(ply, piece_count),
                },
            ),
    {
        let gt = &params.game_time;
        let mtg = Search::adaptive_moves_to_go(gt, ply, piece_count);
        let clock = if white { gt.wtime } else { gt.btime };
        let increment = if white { gt.winc } else { gt.binc };
        let m = mtg as u128;
        let base_time = (2 * clock + m) / (2 * m);
        proof {
            assert(base_time <= clock) by (nonlinear_arith)
                requires
                    base_time == (2 * clock + m) / (2 * m),
                    m >= 1,
            ;
        }
        let slice = base_time + increment;
        if slice > OVERHEAD {
            slice - OVERHEAD
        } else if slice > OVERHEAD / 5 {
            slice
        } else {
            0
        }
    }

    /// The number of moves still to go: the given number, or a guess from
    /// the number of moves made so far, counting in cycles of the assumed
    /// game length plus a buffer.
    pub fn moves_to_go(gt: &GameTime, white: bool, ply: usize) -> (m: usize)
        requires
            gt.moves_to_go is None && !white ==> ply >= 1,
        ensures
            m == match gt.moves_to_go {
                Some(x) => x as int,
                None => {
                    let made: int = if white { ply as int / 2 } else { (ply - 1) / 2 };
                    GAME_LENGTH - (made % GAME_LENGTH as int) + MOVES_BUFFER
                },
            },
    {
        match gt.moves_to_go {
            Some(x) => x,
            None => {
                let moves_made = if white { ply / 2 } else { (ply - 1) / 2 };
                GAME_LENGTH - (moves_made % GAME_LENGTH) + MOVES_BUFFER
            },
        }
    }

    /// The number of moves still to go: the given number, or an estimate
    /// from the game's progress.
    pub fn adaptive_moves_to_go(gt: &GameTime, ply: usize, piece_count: usize) -> (m: usize)
        ensures
            m == match gt.moves_to_go {
                Some(x) => x,
                None => adaptive_estimate(ply, piece_count),
            },
    {
        if let Some(mtg) = gt.moves_to_go {
            return mtg;
        }
        if ply <= OPENING_PLY_THRESHOLD {
            30
        } else if ply <= EARLY_MIDDLEGAME_PLY_THRESHOLD {
            if piece_count >= 20 {
                25
            } else if piece_count >= 10 {
                20
            } else {
                15
            }
        } else {
            if piece_count >= 10 {
                15
            } else {
                10
            }
        }
    }

    /// The game phase from the number of plies played and the pieces left.
    pub fn determine_game_phase(ply: usize, piece_count: usize) -> (p: GamePhase)
        ensures
            p == game_phase(ply, piece_count),
    {
        if ply <= OPENING_PLY_THRESHOLD {
            GamePhase::Opening
        } else if ply <= EARLY_MIDDLEGAME_PLY_THRESHOLD {
            GamePhase::EarlyMiddlegame
        } else if ply <= LATE_MIDDLEGAME_PLY_THRESHOLD {
            GamePhase::LateMiddlegame
        } else if piece_count <= ENDGAME_PIECE_THRESHOLD {
            GamePhase::Endgame
        } else {
            GamePhase::LateMiddlegame
        }
    }

    /// The time control from the side's clock (the increment is not
    /// counted).
    pub fn classify_time_control(gt: &GameTime, white: bool) -> (tc: TimeControl)
        ensures
            tc == time_control(if white { gt.wtime } else { gt.btime }),
    {
        let clock = if white { gt.wtime } else { gt.btime };
        let total_time = clock / 1000;
        if total_time < 60 {
            TimeControl::Bullet
        } else if total_time < 300 {
            TimeControl::Blitz
        } else if total_time < 1800 {
            TimeControl::Rapid
        } else {
            TimeControl::Classical
        }
    }

    /// Switches emergency mode on when the clock gives less than the
    /// threshold per move to go, limiting the depth; switches it off
    /// otherwise. Returns whether it is on.
    pub fn emergency_time_management(info: &mut SearchInfo, gt: &GameTime, white: bool, moves_to_go: usize) -> (on: bool)
        ensures
            on == ((if white { gt.wtime } else { gt.btime }) < moves_to_go * EMERGENCY_TIME_THRESHOLD),
            final(info).emergency_mode == on,
            final(info).max_depth == if on { EMERGENCY_MAX_DEPTH } else { MAX_PLY },
            final(info).allocated_time == old(info).allocated_time,
            final(info).terminate == old(info).terminate,
    {
        let clock = if white { gt.wtime } else { gt.btime };
        if clock < (moves_to_go as u128) * EMERGENCY_TIME_THRESHOLD {
            info.emergency_mode = true;
            info.max_depth = EMERGENCY_MAX_DEPTH;
            true
        } else {
            info.emergency_mode = false;
            info.max_depth = MAX_PLY;
            false
        }
    }

    /// Judges how clear the choice at the root is, from the evaluations
    /// of the first two root moves (the first alone counts twice) and
    /// whether the side to move is in check.
    pub fn assess_move_quality(root_analysis: &Vec<RootMoveAnalysis>, in_check: bool) -> (q: MoveQuality)
        requires
            root_analysis@.len() > 1 ==> -32767 <= root_analysis@[0].eval - root_analysis@[1].eval <= 32767,
        ensures
            root_analysis@.len() == 0 ==> q == MoveQuality::Acceptable,
            root_analysis@.len() == 1 ==> q == move_quality(0, in_check),
            root_analysis@.len() > 1 ==> q == move_quality(
                {
                    let d = root_analysis@[0].eval - root_analysis@[1].eval;
                    if d < 0 { -d } else { d }
                },
                in_check,
            ),
    {
        if root_analysis.len() == 0 {
            return MoveQuality::Acceptable;
        }
        let best_eval = root_analysis[0].eval;
        let second_eval = if root_analysis.len() > 1 { root_analysis[1].eval } else { best_eval };
        let diff = best_eval - second_eval;
        let eval_diff = if diff < 0 { -diff } else { diff };
        if !in_check {
            if eval_diff < 30 {
                MoveQuality::Acceptable
            } else if eval_diff < 100 {
                MoveQuality::Good
            } else {
                MoveQuality::Excellent
            }
        } else if eval_diff < 50 {
            MoveQuality::Critical
        } else {
            MoveQuality::Poor
        }
    }

    /// Scales the time slice by the quality of the move choice.
    pub fn quality_based_time_allocation(base_time: u128, quality: MoveQuality) -> (t: u128)
        requires
            base_time * 150 <= u128::MAX,
        ensures
            t == base_time * quality_percent(quality) / 100,
    {
        match quality {
            MoveQuality::Excellent => base_time * 70 / 100,
            MoveQuality::Good => base_time * 85 / 100,
            MoveQuality::Acceptable => base_time,
            MoveQuality::Poor => base_time * 120 / 100,
            MoveQuality::Critical => base_time * 150 / 100,
        }
    }

    /// Scales the time slice by the time control.
    pub fn time_control_specific_allocation(base_time: u128, tc: TimeControl) -> (t: u128)
        requires
            base_time * 110 <= u128::MAX,
        ensures
            t == base_time * control_percent(tc) / 100,
    {
        match tc {
            TimeControl::Bullet => base_time * 80 / 100,
            TimeControl::Blitz => base_time * 90 / 100,
            TimeControl::Rapid => base_time,
            TimeControl::Classical => base_time * 110 / 100,
        }
    }

    /// The time for this move: half the slice in emergency mode, else the
    /// smaller of the quality-scaled and the control-scaled slice.
    pub fn calculate_enhanced_time_slice(
        base_time: u128,
        emergency_mode: bool,
        quality: MoveQuality,
        tc: TimeControl,
    ) -> (t: u128)
        requires
            base_time * 150 <= u128::MAX,
        ensures
            emergency_mode ==> t == base_time / 2,
            !emergency_mode ==> t == if base_time * quality_percent(quality) / 100 <= base_time * control_percent(tc) / 100 {
                base_time * quality_percent(quality) / 100
            } else {
                base_time * control_percent(tc) / 100
            },
    {
        if emergency_mode {
            return base_time / 2;
        }
        let quality_time = Search::quality_based_time_allocation(base_time, quality);
        let control_time = Search::time_control_specific_allocation(base_time, tc);
        if quality_time <= control_time {
            quality_time
        } else {
            control_time
        }
    }

    /// Records the time a search used in the statistics, under the game
    /// phase of the position.
    pub fn update_time_statistics(info: &mut SearchInfo, ply: usize, piece_count: usize, time_used: u128, success: bool)
        requires
            old(info).time_stats.total_moves < usize::MAX,
            success ==> old(info).time_stats.successful_allocations < usize::MAX,
            !success ==> old(info).time_stats.time_losses < usize::MAX,
            old(info).time_stats.average_time_per_move * old(info).time_stats.total_moves + time_used <= u128::MAX,
            old(info).time_stats.time_usage_by_phase@.contains_key(crate::search::defs::phase_key(game_phase(ply, piece_count)))
                ==> old(info).time_stats.time_usage_by_phase@[crate::search::defs::phase_key(game_phase(ply, piece_count))] + time_used <= u128::MAX,
        ensures
            final(info).time_stats.total_moves == old(info).time_stats.total_moves + 1,
            final(info).time_stats.time_usage_by_phase@ == old(info).time_stats.time_usage_by_phase@.insert(
                crate::search::defs::phase_key(game_phase(ply, piece_count)),
                crate::search::defs::phase_time_after(old(info).time_stats.time_usage_by_phase@, game_phase(ply, piece_count), time_used) as u128,
            ),
            final(info).time_stats.average_time_per_move == (old(info).time_stats.average_time_per_move * old(info).time_stats.total_moves + time_used) / (old(info).time_stats.total_moves + 1),
            final(info).time_stats.successful_allocations == old(info).time_stats.successful_allocations + if success { 1int } else { 0int },
            final(info).time_stats.time_losses == old(info).time_stats.time_losses + if success { 0int } else { 1int },
            *final(info) == (SearchInfo { time_stats: final(info).time_stats, ..*old(info) }),
    {
        let phase = Search::determine_game_phase(ply, piece_count);
        info.time_stats.update(time_used, success, phase);
    }
}

} // verus!
