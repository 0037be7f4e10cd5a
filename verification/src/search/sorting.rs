//! Move ordering: bringing the most promising remaining move forward.
use crate::defs::{Side, KING, PAWN, PNONE, QUEEN};
use crate::movegen::defs::{field, Move, ShortMove};
use crate::search::defs::SearchInfo;
use crate::movegen::movelist::MoveList;
use crate::search::Search;
use vstd::prelude::*;

verus! {

/// Captures ordered by most valuable victim, least valuable attacker:
/// `MVV_LVA[victim][attacker]`, piece types in engine order with "none"
/// last.
pub const MVV_LVA: [[u16; 7]; 7] = [
    [0, 0, 0, 0, 0, 0, 0],
    [50, 51, 52, 53, 54, 55, 0],
    [40, 41, 42, 43, 44, 45, 0],
    [30, 31, 32, 33, 34, 35, 0],
    [20, 21, 22, 23, 24, 25, 0],
    [10, 11, 12, 13, 14, 15, 0],
    [0, 0, 0, 0, 0, 0, 0],
];

/// Sort values of captures and of the transposition table's move lie
/// above this base; killer and counter moves just below it.
pub const MVV_LVA_OFFSET: u32 = 4_294_967_039;

pub const TTMOVE_SORT_VALUE: u32 = 60;

pub const KILLER_VALUE: u32 = 10;

pub const COUNTER_VALUE: u32 = 15;

/// The move data without the sort score.
pub open spec fn move_part(m: Move) -> int {
    m.data as int % 16777216
}

/// The sort value of move `m`, at position `i` of the list: the move from
/// the transposition table first; then captures, by most valuable victim
/// and least valuable attacker; then the killer moves of the ply and the
/// counter move to the previous move, earlier positions higher; the other
/// moves by their history score.
pub open spec fn sort_value(
    m: Move,
    i: int,
    tt_move: ShortMove,
    killers: [ShortMove; 2],
    counter: Option<ShortMove>,
    history: [[u32; 64]; 6],
) -> int {
    if move_part(m) == tt_move.data {
        MVV_LVA_OFFSET + TTMOVE_SORT_VALUE
    } else if field(m.data as int, 15, 8) != PNONE {
        MVV_LVA_OFFSET + MVV_LVA[field(m.data as int, 15, 8)][field(m.data as int, 0, 8)]
    } else if move_part(m) == killers[0].data || move_part(m) == killers[1].data {
        MVV_LVA_OFFSET - (i + 1) * KILLER_VALUE
    } else if counter matches Some(c) && move_part(m) == c.data {
        MVV_LVA_OFFSET - (i + 1) * COUNTER_VALUE
    } else {
        history[field(m.data as int, 0, 8)][field(m.data as int, 9, 64)] as int
    }
}

/// How captures are ordered, over all moves that are not the move from
/// the transposition table: every capture ranks above the killer and
/// counter moves and below the transposition table's move, a capture of a more valuable victim
/// (queen, rook, bishop, knight, pawn, in that order: a lower piece number)
/// ranks above a capture of a less valuable one whatever the attackers,
/// and for the same victim the less valuable attacker (higher piece
/// number) ranks higher. So a pawn taking a queen comes before a queen
/// taking a pawn.
pub proof fn lemma_capture_order(
    m1: Move,
    m2: Move,
    i1: int,
    i2: int,
    tt_move: ShortMove,
    killers: [ShortMove; 2],
    counter: Option<ShortMove>,
    history: [[u32; 64]; 6],
)
    requires
        move_part(m1) != tt_move.data,
        move_part(m2) != tt_move.data,
        0 <= i1 < 256,
        0 <= i2 < 256,
        QUEEN <= field(m1.data as int, 15, 8) <= PAWN,
        KING <= field(m1.data as int, 0, 8) <= PAWN,
        KING <= field(m2.data as int, 0, 8) <= PAWN,
    ensures
        field(m2.data as int, 15, 8) == PNONE && (move_part(m2) == killers[0].data || move_part(m2)
            == killers[1].data || (counter matches Some(c) && move_part(m2) == c.data)) ==> sort_value(
            m1,
            i1,
            tt_move,
            killers,
            counter,
            history,
        ) > sort_value(m2, i2, tt_move, killers, counter, history),
        QUEEN <= field(m2.data as int, 15, 8) <= PAWN && field(m1.data as int, 15, 8) < field(m2.data as int, 15, 8)
            ==> sort_value(m1, i1, tt_move, killers, counter, history) > sort_value(
            m2,
            i2,
            tt_move,
            killers,
            counter,
            history,
        ),
        field(m1.data as int, 15, 8) == field(m2.data as int, 15, 8) && field(m1.data as int, 0, 8) > field(
            m2.data as int,
            0,
            8,
        ) ==> sort_value(m1, i1, tt_move, killers, counter, history) > sort_value(
            m2,
            i2,
            tt_move,
            killers,
            counter,
            history,
        ),
        sort_value(m1, i1, tt_move, killers, counter, history) > MVV_LVA_OFFSET,
        sort_value(m1, i1, tt_move, killers, counter, history) < MVV_LVA_OFFSET + TTMOVE_SORT_VALUE,
{
    let t = MVV_LVA;
    assert(t[1][0] == 50 && t[1][1] == 51 && t[1][2] == 52 && t[1][3] == 53 && t[1][4] == 54 && t[1][5] == 55);
    assert(t[2][0] == 40 && t[2][1] == 41 && t[2][2] == 42 && t[2][3] == 43 && t[2][4] == 44 && t[2][5] == 45);
    assert(t[3][0] == 30 && t[3][1] == 31 && t[3][2] == 32 && t[3][3] == 33 && t[3][4] == 34 && t[3][5] == 35);
    assert(t[4][0] == 20 && t[4][1] == 21 && t[4][2] == 22 && t[4][3] == 23 && t[4][4] == 24 && t[4][5] == 25);
    assert(t[5][0] == 10 && t[5][1] == 11 && t[5][2] == 12 && t[5][3] == 13 && t[5][4] == 14 && t[5][5] == 15);
    assert(forall|v: int, a: int| 1 <= v <= 5 && 0 <= a <= 5 ==> #[trigger] t[v][a] == 60 - 10 * v + a);
}

/// The piece and capture fields of `m` index the ordering tables.
pub open spec fn sortable(m: Move) -> bool {
    field(m.data as int, 0, 8) < 6 && field(m.data as int, 15, 8) <= 6
}

/// The position of the first move with the highest score among the moves
/// at `start..n` of `s`.
pub open spec fn first_best(s: Seq<Move>, start: int, n: int) -> int
    decreases n - start,
{
    if n <= start + 1 {
        start
    } else {
        let k = first_best(s, start, n - 1);
        if score_of(s[n - 1]) > score_of(s[k]) {
            n - 1
        } else {
            k
        }
    }
}

/// The sort score stored in a move (`get_sort_score`).
pub open spec fn score_of(m: Move) -> int {
    field(m.data as int, 24, 4294967296)
}

impl Search {
    /// Stores the sort value of every move in the list in the move (see
    /// `sort_value`): `tt_move` is the move from the transposition table,
    /// `us` the side to move and `prev` the move that led to the position,
    /// if any, whose counter move is looked up.
    pub fn score_moves(ml: &mut MoveList, tt_move: ShortMove, info: &SearchInfo, us: Side, prev: Option<Move>)
        requires
            old(ml)@.len() < 256,
            us < 2,
            0 <= info.ply < 125,
            forall|k: int| 0 <= k < old(ml)@.len() ==> sortable(#[trigger] old(ml)@[k]),
            prev matches Some(p) ==> field(p.data as int, 0, 8) < 6,
        ensures
            final(ml)@.len() == old(ml)@.len(),
            forall|k: int|
                0 <= k < old(ml)@.len() ==> #[trigger] final(ml)@[k].data == old(ml)@[k].data | ((sort_value(
                    old(ml)@[k],
                    k,
                    tt_move,
                    info.killer_moves[info.ply as int],
                    match prev {
                        Some(p) => Some(
                            info.counter_moves[us as int][field(p.data as int, 0, 8)][field(p.data as int, 9, 64)],
                        ),
                        None => None,
                    },
                    info.history_heuristic[us as int],
                ) as u32 as usize) << 24usize),
    {
        let ghost counter = match prev {
            Some(p) => Some(info.counter_moves[us as int][field(p.data as int, 0, 8)][field(p.data as int, 9, 64)]),
            None => None,
        };
        let ghost start = ml@;
        let ply = info.ply as usize;
        let mut i: usize = 0;
        while i < ml.len()
            invariant
                ml@.len() == start.len(),
                start.len() < 256,
                us < 2,
                ply == info.ply,
                ply < 125,
                i <= ml@.len(),
                prev matches Some(p) ==> field(p.data as int, 0, 8) < 6,
                counter == match prev {
                    Some(p) => Some(info.counter_moves[us as int][field(p.data as int, 0, 8)][field(p.data as int, 9, 64)]),
                    None => None,
                },
                forall|k: int| 0 <= k < start.len() ==> sortable(#[trigger] start[k]),
                forall|k: int| i <= k < start.len() ==> #[trigger] ml@[k] == start[k],
                forall|k: int|
                    0 <= k < i ==> #[trigger] ml@[k].data == start[k].data | ((sort_value(
                        start[k],
                        k,
                        tt_move,
                        info.killer_moves[ply as int],
                        counter,
                        info.history_heuristic[us as int],
                    ) as u32 as usize) << 24usize),
            decreases start.len() - i,
        {
            let m = ml.get_move(i);
            assert(sortable(start[i as int]));
            let mut value: u32 = 0;
            if m.get_move() == tt_move.get_move() {
                value = MVV_LVA_OFFSET + TTMOVE_SORT_VALUE;
            } else if m.captured() != PNONE {
                value = MVV_LVA_OFFSET + MVV_LVA[m.captured()][m.piece()] as u32;
            } else {
                let mut n: usize = 0;
                while n < 2 && value == 0
                    invariant
                        n <= 2,
                        i < 256,
                        ply < 125,
                        value == 0 || (value == MVV_LVA_OFFSET - (i + 1) * KILLER_VALUE && n >= 1
                            && (m.data % 16777216 == info.killer_moves[ply as int][0].data
                            || m.data % 16777216 == info.killer_moves[ply as int][1].data)),
                        value == 0 ==> forall|q: int| 0 <= q < n ==> m.data % 16777216 != info.killer_moves[ply as int][q].data,
                    decreases 2 - n,
                {
                    let killer = info.killer_moves[ply][n];
                    if m.get_move() == killer.get_move() {
                        value = MVV_LVA_OFFSET - ((i as u32 + 1) * KILLER_VALUE);
                    }
                    n += 1;
                }
                if value == 0 {
                    match prev {
                        Some(p) => {
                            let cm = info.counter_moves[us][p.piece()][p.to()];
                            if m.get_move() == cm.get_move() {
                                value = MVV_LVA_OFFSET - ((i as u32 + 1) * COUNTER_VALUE);
                            }
                        },
                        None => {},
                    }
                }
            }
            if value == 0 {
                value = info.history_heuristic[us][m.piece()][m.to()];
            }
            assert(value as int == sort_value(start[i as int], i as int, tt_move, info.killer_moves[ply as int], counter, info.history_heuristic[us as int]));
            ml.get_mut_ref_move(i).set_sort_score(value);
            i += 1;
        }
    }

    /// Puts the move with the highest sort score among those from
    /// `start_index` on at `start_index`, where the search picks its next
    /// move; among equal scores, the first of them in the list. Each move
    /// that scores higher than all before it (from `start_index` on) takes
    /// the place of the one with the best score before it, which moves to
    /// the place it left; all other moves stay where they are.
    pub fn pick_move(ml: &mut MoveList, start_index: usize)
        ensures
            final(ml)@.len() == old(ml)@.len(),
            final(ml)@.to_multiset() == old(ml)@.to_multiset(),
            forall|j: int| 0 <= j < start_index && j < old(ml)@.len() ==> final(ml)@[j] == old(ml)@[j],
            start_index < old(ml)@.len() ==> forall|j: int|
                start_index <= j < final(ml)@.len() ==> score_of(#[trigger] final(ml)@[j]) <= score_of(final(ml)@[start_index as int]),
            start_index < old(ml)@.len() ==> exists|k: int|
                #![trigger old(ml)@[k]]
                start_index <= k < old(ml)@.len() && final(ml)@[start_index as int] == old(ml)@[k]
                    && (forall|j: int| start_index <= j < old(ml)@.len() ==> score_of(#[trigger] old(ml)@[j]) <= score_of(old(ml)@[k]))
                    && (forall|j: int| start_index <= j < k ==> score_of(#[trigger] old(ml)@[j]) < score_of(old(ml)@[k])),
            start_index < old(ml)@.len() ==> final(ml)@[start_index as int] == old(ml)@[first_best(old(ml)@, start_index as int, old(ml)@.len() as int)],
            forall|j: int|
                start_index < j < old(ml)@.len() ==> #[trigger] final(ml)@[j] == if score_of(old(ml)@[j]) > score_of(
                    old(ml)@[first_best(old(ml)@, start_index as int, j)],
                ) {
                    old(ml)@[first_best(old(ml)@, start_index as int, j)]
                } else {
                    old(ml)@[j]
                },
    {
        let len = ml.len();
        if start_index >= len {
            return;
        }
        let mut i = start_index + 1;
        let ghost mut best: int = start_index as int;
        while i < len
            invariant
                start_index < i <= len,
                len == ml@.len(),
                start_index <= best < i,
                best == first_best(old(ml)@, start_index as int, i as int),
                ml@[start_index as int] == old(ml)@[best],
                forall|j: int|
                    start_index < j < i ==> #[trigger] ml@[j] == if score_of(old(ml)@[j]) > score_of(
                        old(ml)@[first_best(old(ml)@, start_index as int, j)],
                    ) {
                        old(ml)@[first_best(old(ml)@, start_index as int, j)]
                    } else {
                        old(ml)@[j]
                    },
                forall|j: int| i <= j < len ==> #[trigger] ml@[j] == old(ml)@[j],
                forall|j: int| start_index <= j < i ==> score_of(#[trigger] old(ml)@[j]) <= score_of(old(ml)@[best]),
                forall|j: int| start_index <= j < best ==> score_of(#[trigger] old(ml)@[j]) < score_of(old(ml)@[best]),
                ml@.len() == old(ml)@.len(),
                ml@.to_multiset() == old(ml)@.to_multiset(),
                forall|j: int| 0 <= j < start_index ==> ml@[j] == old(ml)@[j],
                forall|j: int| start_index <= j < i ==> score_of(#[trigger] ml@[j]) <= score_of(ml@[start_index as int]),
            decreases len - i,
        {
            if ml.get_move(i).get_sort_score() > ml.get_move(start_index).get_sort_score() {
                let ghost before = ml@;
                ml.swap(start_index, i);
                proof {
                    best = i as int;
                    broadcast use vstd::seq_lib::to_multiset_update;
                    broadcast use vstd::multiset::group_multiset_properties;
                    broadcast use vstd::multiset::group_multiset_axioms;
                    broadcast use vstd::seq_lib::to_multiset_contains;
                    assert(before.contains(before[start_index as int]));
                    assert(before.to_multiset().count(before[start_index as int]) > 0);
                    let mid = before.update(start_index as int, before[i as int]);
                    assert(mid.to_multiset() == before.to_multiset().insert(before[i as int]).remove(before[start_index as int]));
                    assert(mid.update(i as int, before[start_index as int]).to_multiset()
                        == mid.to_multiset().insert(before[start_index as int]).remove(mid[i as int]));
                    assert(mid[i as int] == before[i as int]);
                    assert(before.to_multiset().insert(before[i as int]).remove(before[start_index as int]).insert(
                        before[start_index as int]).remove(before[i as int]) =~= before.to_multiset());
                }
            }
            i += 1;
        }
        proof {
            assert(old(ml)@[best] == old(ml)@[best]);
        }
    }
}

} // verus!
