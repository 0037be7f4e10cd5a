//! Rays of the sliding pieces.
use crate::defs::{Bitboard, Square};
use crate::geometry::{ray, ray_bb, Direction};
use vstd::prelude::*;

verus! {

/// The ray from `square` in `direction`: it runs to the board edge, or up
/// to and including the first square that is set in `bb_in`.
pub fn create_bb_ray(bb_in: Bitboard, square: Square, direction: Direction) -> (bb: Bitboard)
    requires
        square < 64,
    ensures
        bb == ray_bb(bb_in, square as int, direction),
{
    ray(bb_in, square as u64, direction)
}

} // verus!
