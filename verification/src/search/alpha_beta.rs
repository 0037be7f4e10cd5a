//! The decisions of the alpha-beta search and the quiescence search at a
//! node: when a node may be cut short, how a move's score updates the
//! node's bounds, what a node without legal moves is worth, and which
//! replies to a root move are good enough to count.
use crate::engine::defs::HashFlag;
use crate::movegen::defs::{Move, ShortMove};
use crate::search::defs::{
    CHECKMATE, INF, MULTICUT_DEPTH, MULTICUT_MOVES, NULL_MOVE_REDUCTION, STALEMATE,
};
use crate::search::Search;
use vstd::prelude::*;

verus! {

/// The bookkeeping of an alpha-beta node while it goes through its moves.
#[derive(Copy, Clone)]
pub struct NodeBounds {
    /// The best score found so far.
    pub best_eval_score: i16,
    /// The lower bound of the window.
    pub alpha: i16,
    /// What kind of bound the best score is.
    pub hash_flag: HashFlag,
    /// The move that gave the best score.
    pub best_move: ShortMove,
}

/// What one move's score does to a node.
#[derive(Copy, Clone)]
pub struct NodeUpdate {
    pub bounds: NodeBounds,
    /// The move raised alpha: it becomes the node's principal variation.
    pub raised_alpha: bool,
    /// The move reached beta: the remaining moves need no search.
    pub cutoff: bool,
}

/// The bounds of a node before any move was searched.
pub open spec fn initial_bounds(alpha: i16) -> NodeBounds {
    NodeBounds { best_eval_score: (0 - INF) as i16, alpha, hash_flag: HashFlag::Alpha, best_move: ShortMove { data: 0 } }
}

/// A score better than the best so far becomes the best, with its move;
/// if it also beats alpha it becomes alpha and the bound is exact; if it
/// reaches beta the bound is a lower one and the node is cut off.
pub open spec fn node_update(b: NodeBounds, beta: i16, score: i16, mv: ShortMove) -> NodeUpdate {
    if score > b.best_eval_score {
        if score > b.alpha {
            let cut = score >= beta;
            NodeUpdate {
                bounds: NodeBounds {
                    best_eval_score: score,
                    alpha: score,
                    hash_flag: if cut { HashFlag::Beta } else { HashFlag::Exact },
                    best_move: mv,
                },
                raised_alpha: true,
                cutoff: cut,
            }
        } else {
            NodeUpdate {
                bounds: NodeBounds { best_eval_score: score, best_move: mv, ..b },
                raised_alpha: false,
                cutoff: false,
            }
        }
    } else {
        NodeUpdate { bounds: b, raised_alpha: false, cutoff: false }
    }
}

/// The best score and the lowest score below it among `evals`, searched
/// from the start: `(best score, index of its first occurrence)`, with the
/// best score starting at `INF`.
pub open spec fn lowest_eval(evals: Seq<(Move, i16)>) -> (int, int)
    decreases evals.len(),
{
    if evals.len() == 0 {
        (INF as int, -1)
    } else {
        let prev = lowest_eval(evals.drop_last());
        if (evals.last().1 as int) < prev.0 {
            (evals.last().1 as int, evals.len() - 1)
        } else {
            prev
        }
    }
}

/// The moves among `evals` whose score is within `margin` of `best`, in
/// order.
pub open spec fn good_moves(evals: Seq<(Move, i16)>, best: int, margin: i16) -> Seq<Move>
    decreases evals.len(),
{
    if evals.len() == 0 {
        Seq::empty()
    } else {
        let prev = good_moves(evals.drop_last(), best, margin);
        if evals.last().1 <= best + margin {
            prev.push(evals.last().0)
        } else {
            prev
        }
    }
}

/// The reply to report: the only good one if there is exactly one,
/// otherwise the first lowest-scored one, if any.
pub open spec fn chosen_reply(evals: Seq<(Move, i16)>, margin: i16) -> Option<Move> {
    let good = good_moves(evals, lowest_eval(evals).0, margin);
    if good.len() == 1 {
        Some(good[0])
    } else if lowest_eval(evals).1 >= 0 {
        Some(evals[lowest_eval(evals).1].0)
    } else {
        None
    }
}

impl Search {
    /// The bounds of a node before any move was searched.
    pub fn start_node(alpha: i16) -> (b: NodeBounds)
        ensures
            b == initial_bounds(alpha),
    {
        NodeBounds { best_eval_score: -INF, alpha, hash_flag: HashFlag::Alpha, best_move: ShortMove::new(0) }
    }

    /// Takes a searched move's score into the node's bounds.
    pub fn record_score(b: NodeBounds, beta: i16, score: i16, mv: &Move) -> (u: NodeUpdate)
        ensures
            u == node_update(b, beta, score, ShortMove { data: (mv.data % 16777216) as u32 }),
    {
        let short = mv.to_short_move();
        if score > b.best_eval_score {
            if score > b.alpha {
                let cut = score >= beta;
                NodeUpdate {
                    bounds: NodeBounds {
                        best_eval_score: score,
                        alpha: score,
                        hash_flag: if cut { HashFlag::Beta } else { HashFlag::Exact },
                        best_move: short,
                    },
                    raised_alpha: true,
                    cutoff: cut,
                }
            } else {
                NodeUpdate {
                    bounds: NodeBounds {
                        best_eval_score: score,
                        alpha: b.alpha,
                        hash_flag: b.hash_flag,
                        best_move: short,
                    },
                    raised_alpha: false,
                    cutoff: false,
                }
            }
        } else {
            NodeUpdate { bounds: b, raised_alpha: false, cutoff: false }
        }
    }

    /// The score of a node without legal moves: mate (the sooner, the
    /// worse) when in check, a draw otherwise.
    pub fn no_moves_score(is_check: bool, ply: i8) -> (score: i16)
        requires
            0 <= ply,
        ensures
            score == if is_check { -CHECKMATE + ply } else { STALEMATE as int },
    {
        if is_check {
            -CHECKMATE + ply as i16
        } else {
            STALEMATE
        }
    }

    /// Whether a move searched with a null window must be searched again
    /// with the full window: its score fell strictly inside the window.
    pub fn needs_research(score: i16, alpha: i16, beta: i16) -> (b: bool)
        ensures
            b == (alpha < score && score < beta),
    {
        score > alpha && score < beta
    }

    /// Whether the null-move test may be tried: not at the root, deep
    /// enough, not in check, and with material enough to mate.
    pub fn null_move_allowed(is_root: bool, depth: i8, is_check: bool, insufficient_material: bool) -> (b: bool)
        ensures
            b == (!is_root && depth > NULL_MOVE_REDUCTION && !is_check && !insufficient_material),
    {
        !is_root && depth > NULL_MOVE_REDUCTION && !is_check && !insufficient_material
    }

    /// The number of moves the multi-cut test looks at, or `None` where it
    /// is not tried (at the root, too shallow, or in check).
    pub fn multicut_moves(is_root: bool, depth: i8, is_check: bool, moves: usize) -> (n: Option<usize>)
        ensures
            n == if !is_root && depth >= MULTICUT_DEPTH && !is_check {
                Some(if (MULTICUT_MOVES as usize) < moves { MULTICUT_MOVES as usize } else { moves })
            } else {
                None
            },
    {
        if !is_root && depth >= MULTICUT_DEPTH && !is_check {
            let limit = MULTICUT_MOVES as usize;
            Some(if limit < moves { limit } else { moves })
        } else {
            None
        }
    }

    /// The node's principal variation after `mv` raised alpha: `mv`
    /// followed by the variation found below it.
    pub fn update_pv(pv: &mut Vec<Move>, mv: Move, below: Vec<Move>)
        ensures
            final(pv)@ == seq![mv] + below@,
    {
        pv.clear();
        pv.push(mv);
        let mut i: usize = 0;
        while i < below.len()
            invariant
                0 <= i <= below@.len(),
                pv@ == seq![mv] + below@.take(i as int),
            decreases below@.len() - i,
        {
            pv.push(below[i]);
            proof {
                assert(below@.take(i as int + 1) =~= below@.take(i as int).push(below@[i as int]));
            }
            i += 1;
        }
        proof {
            assert(below@.take(below@.len() as int) =~= below@);
        }
    }

    /// The stand-pat test of the quiescence search: the node's value if
    /// the static evaluation already reaches beta, and otherwise the new
    /// alpha (raised to the evaluation if that is better).
    pub fn stand_pat(eval_score: i16, alpha: i16, beta: i16) -> (r: Result<i16, i16>)
        ensures
            eval_score >= beta ==> r == Ok::<i16, i16>(beta),
            eval_score < beta ==> r == Err::<i16, i16>(if eval_score > alpha { eval_score } else { alpha }),
    {
        if eval_score >= beta {
            Ok(beta)
        } else if eval_score > alpha {
            Err(eval_score)
        } else {
            Err(alpha)
        }
    }

    /// Whether a root move scored close enough to alpha for its replies to
    /// be examined for a forced line.
    pub fn worth_sharp_check(score: i16, alpha: i16, sharp_margin: i16) -> (b: bool)
        requires
            alpha - sharp_margin >= i16::MIN,
            alpha - sharp_margin <= i16::MAX,
        ensures
            b == (score > alpha - sharp_margin),
    {
        score > alpha - sharp_margin
    }

    /// From the scores of the opponent's replies, the replies within
    /// `margin` of the best one (the lowest score, from the side to move's
    /// view) and the reply to report.
    pub fn sharp_replies(evals: &Vec<(Move, i16)>, margin: i16) -> (r: (Vec<Move>, Option<Move>))
        requires
            forall|i: int| 0 <= i < evals@.len() ==> i16::MIN <= #[trigger] evals@[i].1 + margin <= i16::MAX,
            INF + margin <= i16::MAX,
        ensures
            r.0@ == good_moves(evals@, lowest_eval(evals@).0, margin),
            r.1 == chosen_reply(evals@, margin),
    {
        let mut best_eval: i16 = INF;
        let mut best_index: Option<usize> = None;
        let mut i: usize = 0;
        proof {
            assert(evals@.take(0) =~= Seq::<(Move, i16)>::empty());
        }
        while i < evals.len()
            invariant
                0 <= i <= evals@.len(),
                best_eval == lowest_eval(evals@.take(i as int)).0,
                match best_index {
                    Some(k) => k == lowest_eval(evals@.take(i as int)).1 && k < i,
                    None => lowest_eval(evals@.take(i as int)).1 == -1,
                },
            decreases evals@.len() - i,
        {
            proof {
                assert(evals@.take(i as int + 1).drop_last() =~= evals@.take(i as int));
            }
            if evals[i].1 < best_eval {
                best_eval = evals[i].1;
                best_index = Some(i);
            }
            i += 1;
        }
        proof {
            assert(evals@.take(evals@.len() as int) =~= evals@);
        }
        let ghost best = lowest_eval(evals@).0;
        proof {
            lemma_lowest_at_most_inf(evals@);
            if lowest_eval(evals@).1 >= 0 {
                let k = lowest_eval(evals@).1;
                assert(i16::MIN <= evals@[k].1 + margin);
            }
        }
        let mut good: Vec<Move> = Vec::new();
        let mut j: usize = 0;
        while j < evals.len()
            invariant
                0 <= j <= evals@.len(),
                best_eval == best,
                best == lowest_eval(evals@).0,
                INF + margin <= i16::MAX,
                best <= INF,
                i16::MIN <= best + margin,
                good@ == good_moves(evals@.take(j as int), best, margin),
            decreases evals@.len() - j,
        {
            proof {
                assert(evals@.take(j as int + 1).drop_last() =~= evals@.take(j as int));
            }
            if evals[j].1 <= best_eval + margin {
                good.push(evals[j].0);
            }
            j += 1;
        }
        proof {
            assert(evals@.take(evals@.len() as int) =~= evals@);
        }
        let reply = if good.len() == 1 {
            Some(good[0])
        } else {
            match best_index {
                Some(k) => Some(evals[k].0),
                None => None,
            }
        };
        (good, reply)
    }
}

/// Taking a move's score into a node never lowers alpha or the best
/// score; the best score is at least the move's score; a cutoff happens
/// exactly when alpha reaches beta, and then the bound is a lower one;
/// a raised alpha below beta makes the bound exact; otherwise alpha and
/// the kind of bound stay.
pub proof fn lemma_node_update_bounds(b: NodeBounds, beta: i16, score: i16, mv: ShortMove)
    requires
        b.alpha < beta,
    ensures
        ({
            let u = node_update(b, beta, score, mv);
            &&& u.bounds.alpha >= b.alpha
            &&& u.bounds.best_eval_score >= b.best_eval_score
            &&& u.bounds.best_eval_score >= score
            &&& u.cutoff <==> u.bounds.alpha >= beta
            &&& u.cutoff ==> u.bounds.hash_flag == HashFlag::Beta
            &&& u.raised_alpha && !u.cutoff ==> u.bounds.hash_flag == HashFlag::Exact && b.alpha < u.bounds.alpha < beta
            &&& !u.raised_alpha ==> u.bounds.alpha == b.alpha && u.bounds.hash_flag == b.hash_flag
        }),
{
}

/// A lemma for the bound on `lowest_eval`: it never exceeds `INF`.
pub proof fn lemma_lowest_at_most_inf(evals: Seq<(Move, i16)>)
    ensures
        lowest_eval(evals).0 <= INF,
        -1 <= lowest_eval(evals).1 < evals.len(),
        lowest_eval(evals).1 >= 0 ==> lowest_eval(evals).0 == evals[lowest_eval(evals).1].1,
        lowest_eval(evals).1 == -1 ==> lowest_eval(evals).0 == INF,
    decreases evals.len(),
{
    if evals.len() > 0 {
        lemma_lowest_at_most_inf(evals.drop_last());
    }
}

} // verus!
