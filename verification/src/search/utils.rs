//! Search bookkeeping: when a running search must end, and the killer
//! moves kept per ply.
use crate::movegen::defs::Move;
use crate::search::defs::{
    SearchControl, SearchCurrentMove, SearchInfo, SearchMode, SearchParams, SearchStats, SearchTerminate,
    MIN_TIME_CURR_MOVE, MIN_TIME_STATS,
};
use crate::search::Search;
use crate::search::time::allowed_time;
use vstd::prelude::*;

verus! {

/// The reason a command gives for ending the search, if it gives one.
pub open spec fn command_termination(cmd: SearchControl) -> SearchTerminate {
    match cmd {
        SearchControl::Stop => SearchTerminate::Stop,
        SearchControl::Quit => SearchTerminate::Quit,
        _ => SearchTerminate::Nothing,
    }
}

/// What the search's termination flag becomes after a check: a stop or
/// quit command ends the search at once; otherwise, where it was not ended
/// before, a node limit ends it when reached, and a move-time or
/// game-clock limit when `elapsed` milliseconds have used up the time.
pub open spec fn termination_after(
    terminate: SearchTerminate,
    nodes: usize,
    allocated_time: u128,
    params: SearchParams,
    cmd: SearchControl,
    elapsed: u128,
) -> SearchTerminate {
    if command_termination(cmd) != SearchTerminate::Nothing {
        command_termination(cmd)
    } else if terminate != SearchTerminate::Nothing {
        terminate
    } else {
        match params.search_mode {
            SearchMode::MoveTime => if elapsed >= params.move_time {
                SearchTerminate::Stop
            } else {
                SearchTerminate::Nothing
            },
            SearchMode::Nodes => if nodes >= params.nodes {
                SearchTerminate::Stop
            } else {
                SearchTerminate::Nothing
            },
            SearchMode::GameTime => if elapsed >= allowed_time(allocated_time) {
                SearchTerminate::Stop
            } else {
                SearchTerminate::Nothing
            },
            _ => SearchTerminate::Nothing,
        }
    }
}

impl Search {
    /// Records in `info` whether the search must end, for a command
    /// received while searching (`Nothing` if none) and a search that has
    /// run `elapsed` milliseconds.
    pub fn termination_at(info: &mut SearchInfo, params: &SearchParams, cmd: SearchControl, elapsed: u128)
        ensures
            final(info).terminate == termination_after(
                old(info).terminate,
                old(info).nodes,
                old(info).allocated_time,
                *params,
                cmd,
                elapsed,
            ),
            final(info).nodes == old(info).nodes,
            final(info).allocated_time == old(info).allocated_time,
            final(info).start_time == old(info).start_time,
    {
        match cmd {
            SearchControl::Stop => info.terminate = SearchTerminate::Stop,
            SearchControl::Quit => info.terminate = SearchTerminate::Quit,
            _ => {},
        }
        if info.terminate == SearchTerminate::Nothing {
            match params.search_mode {
                SearchMode::MoveTime => {
                    if elapsed >= params.move_time {
                        info.terminate = SearchTerminate::Stop;
                    }
                },
                SearchMode::Nodes => {
                    if info.nodes >= params.nodes {
                        info.terminate = SearchTerminate::Stop;
                    }
                },
                SearchMode::GameTime => {
                    if Search::time_exceeded(elapsed, info.allocated_time) {
                        info.terminate = SearchTerminate::Stop;
                    }
                },
                _ => {},
            }
        }
    }

    /// Looks at a command received while searching (`Nothing` if none)
    /// and at the search's limits, and records in `info` whether the
    /// search must end. The elapsed time comes from the search clock; for
    /// whatever it is, the flag is set as `termination_at` sets it.
    pub fn check_termination(info: &mut SearchInfo, params: &SearchParams, cmd: SearchControl)
        ensures
            exists|elapsed: u128|
                final(info).terminate == #[trigger] termination_after(
                    old(info).terminate,
                    old(info).nodes,
                    old(info).allocated_time,
                    *params,
                    cmd,
                    elapsed,
                ),
            old(info).start_time is None ==> final(info).terminate == termination_after(
                old(info).terminate,
                old(info).nodes,
                old(info).allocated_time,
                *params,
                cmd,
                0,
            ),
            final(info).nodes == old(info).nodes,
            final(info).allocated_time == old(info).allocated_time,
            final(info).start_time == old(info).start_time,
    {
        let elapsed = info.timer_elapsed();
        Search::termination_at(info, params, cmd, elapsed);
    }

    /// The move being searched, to be reported to the user interface when
    /// at least `MIN_TIME_CURR_MOVE` milliseconds have passed since the
    /// last such report; the search has run `elapsed` milliseconds, which
    /// is recorded as the time of the report.
    pub fn current_move_report(info: &mut SearchInfo, elapsed: u128, current_move: Move, nr: u8) -> (r: Option<
        SearchCurrentMove,
    >)
        requires
            old(info).last_curr_move_sent <= u128::MAX - MIN_TIME_CURR_MOVE,
        ensures
            elapsed >= old(info).last_curr_move_sent + MIN_TIME_CURR_MOVE ==> {
                &&& r == Some(SearchCurrentMove { curr_move: current_move, curr_move_number: nr })
                &&& final(info).last_curr_move_sent == elapsed
            },
            elapsed < old(info).last_curr_move_sent + MIN_TIME_CURR_MOVE ==> {
                &&& r is None
                &&& final(info).last_curr_move_sent == old(info).last_curr_move_sent
            },
            final(info).last_stats_sent == old(info).last_stats_sent,
            final(info).nodes == old(info).nodes,
            final(info).terminate == old(info).terminate,
    {
        if elapsed >= info.last_curr_move_sent + MIN_TIME_CURR_MOVE {
            info.last_curr_move_sent = elapsed;
            Some(SearchCurrentMove::new(current_move, nr))
        } else {
            None
        }
    }

    /// Intermediate statistics, to be reported to the user interface when
    /// at least `MIN_TIME_STATS` milliseconds have passed since the last
    /// such report; the search has run `elapsed` milliseconds, which is
    /// recorded as the time of the report. The report holds the time
    /// `msecs` read for it, the nodes searched, the speed `nps` and how
    /// full the hash table is.
    pub fn stats_report(info: &mut SearchInfo, elapsed: u128, msecs: u128, nps: usize, hash_full: u16) -> (r:
        Option<SearchStats>)
        requires
            old(info).last_stats_sent <= u128::MAX - MIN_TIME_STATS,
        ensures
            elapsed >= old(info).last_stats_sent + MIN_TIME_STATS ==> {
                &&& r == Some(SearchStats { time: msecs, nodes: old(info).nodes, nps, hash_full })
                &&& final(info).last_stats_sent == elapsed
            },
            elapsed < old(info).last_stats_sent + MIN_TIME_STATS ==> {
                &&& r is None
                &&& final(info).last_stats_sent == old(info).last_stats_sent
            },
            final(info).last_curr_move_sent == old(info).last_curr_move_sent,
            final(info).nodes == old(info).nodes,
            final(info).terminate == old(info).terminate,
    {
        if elapsed >= info.last_stats_sent + MIN_TIME_STATS {
            info.last_stats_sent = elapsed;
            Some(SearchStats::new(msecs, info.nodes, nps, hash_full))
        } else {
            None
        }
    }

    /// Stores a move that caused a cutoff as the first killer move of the
    /// current ply, shifting the earlier one down, unless it already is
    /// the first killer move.
    pub fn store_killer_move(current_move: &Move, info: &mut SearchInfo)
        requires
            0 <= old(info).ply < 125,
        ensures
            ({
                let ply = old(info).ply as int;
                let first = old(info).killer_moves[ply][0];
                if first.data != current_move.data % 16777216 {
                    &&& final(info).killer_moves[ply][0].data == current_move.data % 16777216
                    &&& final(info).killer_moves[ply][1] == first
                    &&& forall|p: int| 0 <= p < 125 && p != ply ==> #[trigger] final(info).killer_moves[p] == old(info).killer_moves[p]
                } else {
                    final(info).killer_moves == old(info).killer_moves
                }
            }),
            final(info).ply == old(info).ply,
            final(info).nodes == old(info).nodes,
    {
        let ply = info.ply as usize;
        let first_killer = info.killer_moves[ply][0];
        if first_killer.get_move() != current_move.get_move() {
            let mut row = info.killer_moves[ply];
            row[1] = row[0];
            row[0] = current_move.to_short_move();
            info.killer_moves[ply] = row;
        }
    }
}

} // verus!
