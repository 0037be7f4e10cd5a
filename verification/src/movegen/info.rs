//! Is a square attacked by a side?
use super::MoveGenerator;
use crate::attacks::{
    king_bb, king_target, knight_bb, knight_target, lemma_king_bb, lemma_knight_bb, lemma_pawn_bb, pawn_bb, pawn_target,
};
use crate::bitboard::{bit_set, hits, lemma_and_positive};
use crate::board::Board;
use crate::defs::{Side, Square, BISHOP, KING, KNIGHT, PAWN, QUEEN, ROOK};
use crate::sliders::{bishop_bb, rook_bb};
use vstd::prelude::*;

verus! {

/// `square` is attacked by a piece of `attacker`. A piece on one square
/// attacks another exactly when the same piece on the other square
/// attacks the first, so this looks from `square` outwards: it asks
/// whether a piece of `attacker` stands on a square that a piece of the
/// same type on `square` would attack.
pub open spec fn attacked(board: Board, attacker: int, square: int) -> bool {
    let pieces = board.bb_pieces[attacker];
    let occupancy = board.bb_side[0] | board.bb_side[1];
    let bb_rook = rook_bb(occupancy, square);
    let bb_bishop = bishop_bb(occupancy, square);
    ||| hits(king_bb(square as u64), pieces[KING as int])
    ||| hits(bb_rook, pieces[ROOK as int])
    ||| hits(bb_rook | bb_bishop, pieces[QUEEN as int])
    ||| hits(bb_bishop, pieces[BISHOP as int])
    ||| hits(knight_bb(square as u64), pieces[KNIGHT as int])
    ||| hits(pawn_bb(1 - attacker, square as u64), pieces[PAWN as int])
}

/// A king, knight or pawn of `attacker` on `s` that can reach `square`
/// in one move (by the geometry of its moves) attacks `square`.
pub proof fn lemma_leaper_attacks(board: Board, attacker: int, square: u64, s: u64)
    requires
        attacker == 0 || attacker == 1,
        square < 64,
        s < 64,
    ensures
        knight_target(s as int, square as int) && bit_set(board.bb_pieces[attacker][KNIGHT as int], s)
            ==> attacked(board, attacker, square as int),
        king_target(s as int, square as int) && bit_set(board.bb_pieces[attacker][KING as int], s)
            ==> attacked(board, attacker, square as int),
        pawn_target(attacker, s as int, square as int) && bit_set(board.bb_pieces[attacker][PAWN as int], s)
            ==> attacked(board, attacker, square as int),
{
    lemma_knight_bb(square, s);
    lemma_king_bb(square, s);
    lemma_pawn_bb(1 - attacker, square, s);
    let pieces = board.bb_pieces[attacker];
    if knight_target(s as int, square as int) && bit_set(pieces[KNIGHT as int], s) {
        assert(bit_set(knight_bb(square), s));
        assert(hits(knight_bb(square), pieces[KNIGHT as int]));
    }
    if king_target(s as int, square as int) && bit_set(pieces[KING as int], s) {
        assert(bit_set(king_bb(square), s));
        assert(hits(king_bb(square), pieces[KING as int]));
    }
    if pawn_target(attacker, s as int, square as int) && bit_set(pieces[PAWN as int], s) {
        assert(bit_set(pawn_bb(1 - attacker, square), s));
        assert(hits(pawn_bb(1 - attacker, square), pieces[PAWN as int]));
    }
}

/// Reports whether `square` is attacked by `attacker`.
pub fn square_attacked(board: &Board, attacker: Side, square: Square, mg: &MoveGenerator) -> (b: bool)
    requires
        mg.wf(),
        attacker < 2,
        square < 64,
    ensures
        b == attacked(*board, attacker as int, square as int),
{
    let pieces = board.bb_pieces[attacker];
    let occupancy = board.occupancy();
    let bb_king = mg.get_non_slider_attacks(KING, square);
    let bb_rook = mg.get_slider_attacks(ROOK, square, occupancy);
    let bb_bishop = mg.get_slider_attacks(BISHOP, square, occupancy);
    let bb_knight = mg.get_non_slider_attacks(KNIGHT, square);
    let other = attacker ^ 1;
    assert(attacker < 2 ==> attacker ^ 1 == 1 - attacker) by (bit_vector);
    let bb_pawns = mg.get_pawn_attacks(other, square);
    let bb_queen = bb_rook | bb_bishop;
    proof {
        lemma_and_positive(bb_king, pieces[KING as int]);
        lemma_and_positive(bb_rook, pieces[ROOK as int]);
        lemma_and_positive(bb_queen, pieces[QUEEN as int]);
        lemma_and_positive(bb_bishop, pieces[BISHOP as int]);
        lemma_and_positive(bb_knight, pieces[KNIGHT as int]);
        lemma_and_positive(bb_pawns, pieces[PAWN as int]);
    }
    (bb_king & pieces[KING] > 0) || (bb_rook & pieces[ROOK] > 0) || (bb_queen & pieces[QUEEN] > 0)
        || (bb_bishop & pieces[BISHOP] > 0) || (bb_knight & pieces[KNIGHT] > 0) || (bb_pawns
        & pieces[PAWN] > 0)
}

impl MoveGenerator {
    /// Reports whether `square` is attacked by `attacker`.
    pub fn square_attacked(&self, board: &Board, attacker: Side, square: Square) -> (b: bool)
        requires
            self.wf(),
            attacker < 2,
            square < 64,
        ensures
            b == attacked(*board, attacker as int, square as int),
    {
        square_attacked(board, attacker, square, self)
    }
}

} // verus!
