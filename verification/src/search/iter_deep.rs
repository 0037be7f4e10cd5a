//! The decisions of iterative deepening: the aspiration window, which
//! move counts as best after an iteration, when to go one ply deeper,
//! and which root moves lead into forced lines.
use crate::movegen::defs::Move;
use crate::search::defs::{RootMoveAnalysis, ASPIRATION_WINDOW, INF};
use crate::search::Search;
use vstd::prelude::*;

verus! {

/// The forced lines among the analysed root moves: each root move whose
/// opponent had exactly one good reply, with the line that follows.
pub open spec fn forced_lines_of(analysis: Seq<RootMoveAnalysis>) -> Seq<(Move, Seq<Move>)>
    decreases analysis.len(),
{
    if analysis.len() == 0 {
        Seq::empty()
    } else {
        let prev = forced_lines_of(analysis.drop_last());
        let a = analysis.last();
        if a.good_replies == 1 {
            prev.push((a.mv, a.reply_sequence@))
        } else {
            prev
        }
    }
}

impl Search {
    /// The window of an iteration: narrow around the previous evaluation
    /// from the second iteration on, the full range at first.
    pub fn aspiration_window(depth: i8, prev_eval: i16) -> (w: (i16, i16))
        requires
            depth > 1 ==> -INF <= prev_eval <= INF,
        ensures
            depth > 1 ==> w.0 == prev_eval - ASPIRATION_WINDOW && w.1 == prev_eval + ASPIRATION_WINDOW,
            depth <= 1 ==> w.0 == -INF && w.1 == INF,
    {
        if depth > 1 {
            (prev_eval - ASPIRATION_WINDOW, prev_eval + ASPIRATION_WINDOW)
        } else {
            (-INF, INF)
        }
    }

    /// Whether the evaluation fell outside the window, so the iteration
    /// has to be searched again with the full window.
    pub fn aspiration_failed(eval: i16, alpha: i16, beta: i16) -> (b: bool)
        ensures
            b == (eval <= alpha || eval >= beta),
    {
        eval <= alpha || eval >= beta
    }

    /// The best move after an iteration: the first move of the principal
    /// variation, or, when there is none (the iteration was cut short),
    /// the first analysed root move; `None` keeps the previous best move.
    pub fn iteration_best_move(root_pv: &Vec<Move>, root_analysis: &Vec<RootMoveAnalysis>) -> (m: Option<Move>)
        ensures
            root_pv@.len() > 0 ==> m == Some(root_pv@[0]),
            root_pv@.len() == 0 && root_analysis@.len() > 0 ==> m == Some(root_analysis@[0].mv),
            root_pv@.len() == 0 && root_analysis@.len() == 0 ==> m is None,
    {
        if root_pv.len() > 0 {
            Some(root_pv[0])
        } else if root_analysis.len() > 0 {
            Some(root_analysis[0].mv)
        } else {
            None
        }
    }

    /// Whether another iteration is to be searched.
    pub fn continue_deepening(depth: i8, max_depth: i8, depth_limit: i8, stop: bool) -> (b: bool)
        ensures
            b == (depth <= max_depth && depth <= depth_limit && !stop),
    {
        depth <= max_depth && depth <= depth_limit && !stop
    }

    /// Whether iterative deepening stops after an iteration: it was told
    /// to, or (on the game clock) the allocated time is gone.
    pub fn stop_after_iteration(interrupted: bool, is_game_time: bool, elapsed: u128, allocated: u128) -> (b: bool)
        ensures
            b == (interrupted || (is_game_time && elapsed > allocated)),
    {
        let time_up = if is_game_time { elapsed > allocated } else { false };
        interrupted || time_up
    }

    /// Whether the search counts as a success for the time statistics:
    /// it found a move and was not cut short.
    pub fn search_succeeded(best_move: &Move, interrupted: bool) -> (b: bool)
        ensures
            b == (best_move.data % 16777216 != 0 && !interrupted),
    {
        best_move.get_move() != 0 && !interrupted
    }

    /// The root moves that lead into forced lines, with those lines.
    pub fn forced_lines(root_analysis: &Vec<RootMoveAnalysis>) -> (lines: Vec<(Move, Vec<Move>)>)
        ensures
            lines@.len() == forced_lines_of(root_analysis@).len(),
            forall|i: int| 0 <= i < lines@.len() ==> (#[trigger] lines@[i]).0 == forced_lines_of(root_analysis@)[i].0
                && lines@[i].1@ == forced_lines_of(root_analysis@)[i].1,
    {
        let mut lines: Vec<(Move, Vec<Move>)> = Vec::new();
        let mut i: usize = 0;
        proof {
            assert(root_analysis@.take(0) =~= Seq::<RootMoveAnalysis>::empty());
        }
        while i < root_analysis.len()
            invariant
                0 <= i <= root_analysis@.len(),
                lines@.len() == forced_lines_of(root_analysis@.take(i as int)).len(),
                forall|k: int| 0 <= k < lines@.len() ==> (#[trigger] lines@[k]).0 == forced_lines_of(root_analysis@.take(i as int))[k].0
                    && lines@[k].1@ == forced_lines_of(root_analysis@.take(i as int))[k].1,
            decreases root_analysis@.len() - i,
        {
            proof {
                assert(root_analysis@.take(i as int + 1).drop_last() =~= root_analysis@.take(i as int));
            }
            let a = &root_analysis[i];
            if a.good_replies == 1 {
                let mut line: Vec<Move> = Vec::new();
                let mut j: usize = 0;
                while j < a.reply_sequence.len()
                    invariant
                        0 <= j <= a.reply_sequence@.len(),
                        line@ == a.reply_sequence@.take(j as int),
                    decreases a.reply_sequence@.len() - j,
                {
                    line.push(a.reply_sequence[j]);
                    proof {
                        assert(a.reply_sequence@.take(j as int + 1) =~= a.reply_sequence@.take(j as int).push(a.reply_sequence@[j as int]));
                    }
                    j += 1;
                }
                proof {
                    assert(a.reply_sequence@.take(a.reply_sequence@.len() as int) =~= a.reply_sequence@);
                }
                lines.push((a.mv, line));
            }
            i += 1;
        }
        proof {
            assert(root_analysis@.take(root_analysis@.len() as int) =~= root_analysis@);
        }
        lines
    }
}

} // verus!
