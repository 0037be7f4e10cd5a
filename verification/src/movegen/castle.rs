//! Castling passes only over empty squares.
use super::{castle_side_moves, castling_moves, move_datas, targets_moves};
use crate::bitboard::{bit_set, bits_seq, lemma_and_positive, lemma_bit_or, lemma_bit_single};
use crate::board::{Board, GameState, CASTLE_BK, CASTLE_BQ, CASTLE_WK, CASTLE_WQ};
use crate::defs::{BLACK, KING, WHITE};
use super::defs::Move;
use vstd::prelude::*;

verus! {

/// The moves to some targets read of the board only the pieces on the
/// squares, the en-passant square and the side to move.
proof fn lemma_targets_same(b1: Board, b2: Board, piece: int, from: int, targets: Seq<u64>)
    requires
        b1.piece_list == b2.piece_list,
        b1.game_state.en_passant == b2.game_state.en_passant,
        b1.game_state.active_color == b2.game_state.active_color,
    ensures
        targets_moves(b1, piece, from, targets) == targets_moves(b2, piece, from, targets),
    decreases targets.len(),
{
    if targets.len() > 0 {
        assert(move_datas(b1, piece, from, targets[0] as int) == move_datas(b2, piece, from, targets[0] as int));
        lemma_targets_same(b1, b2, piece, from, targets.drop_first());
    }
}

/// The board with castling right `right` taken away.
pub open spec fn without_right(board: Board, right: u8) -> Board {
    Board { game_state: GameState { castling: board.game_state.castling & !right, ..board.game_state }, ..board }
}

/// Square `s` is occupied by a piece of either side.
pub open spec fn occupied(board: Board, s: u64) -> bool {
    bit_set(board.bb_side[0] | board.bb_side[1], s)
}

/// Clearing one right of a pair leaves the other right as it was.
proof fn lemma_clear_right(c: u8, r: u8, o: u8)
    by (bit_vector)
    requires
        (r == 1u8 && o == 2u8) || (r == 2u8 && o == 1u8) || (r == 4u8 && o == 8u8) || (r == 8u8 && o == 4u8),
    ensures
        (c & !r) & r == 0u8,
        (c & !r) & o == c & o,
        ((c & !r) & (r | o) > 0u8) == ((c & !r) & o > 0u8),
        (c & (r | o) > 0u8) == (c & r > 0u8 || c & o > 0u8),
        (c & !r) & (o | r) == (c & !r) & (r | o),
        c & (o | r) == c & (r | o),
{
}

/// An occupied square of `blockers` makes `blockers` meet the occupancy.
proof fn lemma_blocked(board: Board, blockers: u64, s: u64)
    requires
        s < 64,
        occupied(board, s),
        bit_set(blockers, s),
    ensures
        ((board.bb_side[0] | board.bb_side[1]) & blockers) > 0,
{
    lemma_and_positive(board.bb_side[0] | board.bb_side[1], blockers);
}

/// The squares of a mask of two or three single squares.
proof fn lemma_in_mask(s1: u64, s2: u64, s3: u64, s: u64)
    requires
        s1 < 64 && s2 < 64 && s3 < 64 && s < 64,
    ensures
        bit_set((1u64 << s1) | (1u64 << s2), s) == (s == s1 || s == s2),
        bit_set((1u64 << s1) | (1u64 << s2) | (1u64 << s3), s) == (s == s1 || s == s2 || s == s3),
{
    lemma_bit_single(s1, s);
    lemma_bit_single(s2, s);
    lemma_bit_single(s3, s);
    lemma_bit_or(1u64 << s1, 1u64 << s2, s);
    lemma_bit_or((1u64 << s1) | (1u64 << s2), 1u64 << s3, s);
}

/// A castling is generated only through empty squares: when a square
/// strictly between the king's and the rook's starting squares is
/// occupied (f1, g1 for white kingside; b1, c1, d1 for white queenside;
/// f8, g8 and b8, c8, d8 for black), the castling moves are the same as
/// when that right had been lost.
pub proof fn lemma_blocked_castling(board: Board, from: int)
    ensures
        board.game_state.active_color == WHITE && (occupied(board, 5) || occupied(board, 6))
            ==> castling_moves(board, from) == castling_moves(without_right(board, CASTLE_WK), from),
        board.game_state.active_color == WHITE && (occupied(board, 1) || occupied(board, 2) || occupied(board, 3))
            ==> castling_moves(board, from) == castling_moves(without_right(board, CASTLE_WQ), from),
        board.game_state.active_color == BLACK && (occupied(board, 61) || occupied(board, 62))
            ==> castling_moves(board, from) == castling_moves(without_right(board, CASTLE_BK), from),
        board.game_state.active_color == BLACK && (occupied(board, 57) || occupied(board, 58) || occupied(
            board,
            59,
        )) ==> castling_moves(board, from) == castling_moves(without_right(board, CASTLE_BQ), from),
{
    let c = board.game_state.castling;
    lemma_clear_right(c, CASTLE_WK, CASTLE_WQ);
    lemma_clear_right(c, CASTLE_WQ, CASTLE_WK);
    lemma_clear_right(c, CASTLE_BK, CASTLE_BQ);
    lemma_clear_right(c, CASTLE_BQ, CASTLE_BK);
    let w_k: u64 = (1u64 << 5u64) | (1u64 << 6u64);
    let w_q: u64 = (1u64 << 1u64) | (1u64 << 2u64) | (1u64 << 3u64);
    let b_k: u64 = (1u64 << 61u64) | (1u64 << 62u64);
    let b_q: u64 = (1u64 << 57u64) | (1u64 << 58u64) | (1u64 << 59u64);
    if occupied(board, 5) || occupied(board, 6) {
        let s = if occupied(board, 5) { 5u64 } else { 6u64 };
        lemma_in_mask(5, 6, 0, s);
        lemma_blocked(board, w_k, s);
    }
    if occupied(board, 1) || occupied(board, 2) || occupied(board, 3) {
        let s = if occupied(board, 1) { 1u64 } else if occupied(board, 2) { 2u64 } else { 3u64 };
        lemma_in_mask(1, 2, 3, s);
        lemma_blocked(board, w_q, s);
    }
    if occupied(board, 61) || occupied(board, 62) {
        let s = if occupied(board, 61) { 61u64 } else { 62u64 };
        lemma_in_mask(61, 62, 0, s);
        lemma_blocked(board, b_k, s);
    }
    if occupied(board, 57) || occupied(board, 58) || occupied(board, 59) {
        let s = if occupied(board, 57) { 57u64 } else if occupied(board, 58) { 58u64 } else { 59u64 };
        lemma_in_mask(57, 58, 59, s);
        lemma_blocked(board, b_q, s);
    }
    let king_side = ((1u64 << (from as u64)) << 2u64);
    let queen_side = ((1u64 << (from as u64)) >> 2u64);
    let e = Seq::<Move>::empty();
    if board.game_state.active_color == WHITE && (occupied(board, 5) || occupied(board, 6)) {
        let b2 = without_right(board, CASTLE_WK);
        lemma_targets_same(board, b2, KING as int, from, bits_seq(queen_side));
        assert(castle_side_moves(board, CASTLE_WK, w_k, 4, 5, from, king_side) == e);
        assert(castle_side_moves(b2, CASTLE_WK, w_k, 4, 5, from, king_side) == e);
        assert(castle_side_moves(b2, CASTLE_WQ, w_q, 4, 3, from, queen_side) == castle_side_moves(
            board, CASTLE_WQ, w_q, 4, 3, from, queen_side));
        assert(e + castle_side_moves(board, CASTLE_WQ, w_q, 4, 3, from, queen_side) =~= castle_side_moves(
            board, CASTLE_WQ, w_q, 4, 3, from, queen_side));
        assert(e + e =~= e);
    }
    if board.game_state.active_color == WHITE && (occupied(board, 1) || occupied(board, 2) || occupied(board, 3)) {
        let b2 = without_right(board, CASTLE_WQ);
        lemma_targets_same(board, b2, KING as int, from, bits_seq(king_side));
        assert(castle_side_moves(board, CASTLE_WQ, w_q, 4, 3, from, queen_side) == e);
        assert(castle_side_moves(b2, CASTLE_WQ, w_q, 4, 3, from, queen_side) == e);
        assert(castle_side_moves(b2, CASTLE_WK, w_k, 4, 5, from, king_side) == castle_side_moves(
            board, CASTLE_WK, w_k, 4, 5, from, king_side));
        assert(castle_side_moves(board, CASTLE_WK, w_k, 4, 5, from, king_side) + e =~= castle_side_moves(
            board, CASTLE_WK, w_k, 4, 5, from, king_side));
        assert(e + e =~= e);
    }
    if board.game_state.active_color == BLACK && (occupied(board, 61) || occupied(board, 62)) {
        let b2 = without_right(board, CASTLE_BK);
        lemma_targets_same(board, b2, KING as int, from, bits_seq(queen_side));
        assert(castle_side_moves(board, CASTLE_BK, b_k, 60, 61, from, king_side) == e);
        assert(castle_side_moves(b2, CASTLE_BK, b_k, 60, 61, from, king_side) == e);
        assert(castle_side_moves(b2, CASTLE_BQ, b_q, 60, 59, from, queen_side) == castle_side_moves(
            board, CASTLE_BQ, b_q, 60, 59, from, queen_side));
        assert(e + castle_side_moves(board, CASTLE_BQ, b_q, 60, 59, from, queen_side) =~= castle_side_moves(
            board, CASTLE_BQ, b_q, 60, 59, from, queen_side));
        assert(e + e =~= e);
    }
    if board.game_state.active_color == BLACK && (occupied(board, 57) || occupied(board, 58) || occupied(board, 59)) {
        let b2 = without_right(board, CASTLE_BQ);
        lemma_targets_same(board, b2, KING as int, from, bits_seq(king_side));
        assert(castle_side_moves(board, CASTLE_BQ, b_q, 60, 59, from, queen_side) == e);
        assert(castle_side_moves(b2, CASTLE_BQ, b_q, 60, 59, from, queen_side) == e);
        assert(castle_side_moves(b2, CASTLE_BK, b_k, 60, 61, from, king_side) == castle_side_moves(
            board, CASTLE_BK, b_k, 60, 61, from, king_side));
        assert(castle_side_moves(board, CASTLE_BK, b_k, 60, 61, from, king_side) + e =~= castle_side_moves(
            board, CASTLE_BK, b_k, 60, 61, from, king_side));
        assert(e + e =~= e);
    }
}

} // verus!
