//! Attack boards of the sliding pieces for a list of blocker boards.
use super::MoveGenerator;
use crate::defs::{Bitboard, Square};
use crate::sliders::{bishop_bb, rook_bb};
use vstd::prelude::*;

verus! {

/// The rook attack board of `square` for each of the blocker boards.
pub fn create_rook_attack_boards(square: Square, blockers: &[Bitboard]) -> (boards: Vec<Bitboard>)
    requires
        square < 64,
    ensures
        boards@.len() == blockers@.len(),
        forall|i: int| 0 <= i < blockers@.len() ==> boards@[i] == rook_bb(#[trigger] blockers@[i], square as int),
{
    MoveGenerator::rook_attack_boards(square, blockers)
}

/// The bishop attack board of `square` for each of the blocker boards.
pub fn create_bishop_attack_boards(square: Square, blockers: &[Bitboard]) -> (boards: Vec<Bitboard>)
    requires
        square < 64,
    ensures
        boards@.len() == blockers@.len(),
        forall|i: int| 0 <= i < blockers@.len() ==> boards@[i] == bishop_bb(#[trigger] blockers@[i], square as int),
{
    MoveGenerator::bishop_attack_boards(square, blockers)
}

} // verus!
