//! Walking the set bits of a bitboard.
use crate::bitboard::{bit_set, lemma_bit_single, lemma_bit_xor};
use crate::defs::{Bitboard, Square};
use vstd::prelude::*;

verus! {

/// Get the lowest set bit of a bitboard and unset it. Given a piece
/// bitboard, this yields the square of the next piece of that type.
pub fn next(bitboard: &mut Bitboard) -> (square: Square)
    requires
        *old(bitboard) != 0,
    ensures
        square < 64,
        square == vstd::std_specs::bits::u64_trailing_zeros(*old(bitboard)),
        *final(bitboard) == *old(bitboard) ^ (1u64 << (square as u64)),
        bit_set(*old(bitboard), square as u64),
        forall|j: u64| j < square ==> !bit_set(*old(bitboard), j),
        forall|j: u64|
            j < 64 ==> bit_set(*final(bitboard), j) == (bit_set(*old(bitboard), j) && j
                != square),
{
    proof {
        vstd::std_specs::bits::axiom_u64_trailing_zeros(*bitboard);
    }
    let tz = bitboard.trailing_zeros();
    let square = tz as Square;
    let ghost b0 = *bitboard;
    *bitboard ^= 1u64 << tz;
    proof {
        assert forall|j: u64| j < 64 implies bit_set(*bitboard, j) == (bit_set(b0, j) && j
            != square) by {
            lemma_bit_xor(b0, 1u64 << tz, j);
            lemma_bit_single(tz as u64, j);
        }
        assert forall|j: u64| j < square implies !bit_set(b0, j) by {}
    }
    square
}

} // verus!
