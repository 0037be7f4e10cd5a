//! Facts about the side to move.
use crate::board::Board;
use crate::defs::KING;
use crate::movegen::info::attacked;
use crate::movegen::{king_square, MoveGenerator};
use vstd::prelude::*;

verus! {

/// Whether the king of the side to move is attacked.
pub fn in_check(board: &Board, mg: &MoveGenerator) -> (b: bool)
    requires
        mg.wf(),
        board.game_state.active_color < 2,
        board.bb_pieces[board.game_state.active_color as int][KING as int] != 0,
    ensures
        b == attacked(
            *board,
            1 - board.game_state.active_color,
            king_square(*board, board.game_state.active_color as int),
        ),
{
    let us = board.us();
    mg.square_attacked(board, board.opponent(), board.king_square(us))
}

} // verus!
