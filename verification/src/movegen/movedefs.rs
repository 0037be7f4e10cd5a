//! The compact move of 64 bits: piece, from- and to-square, captured and
//! promotion piece, and the en-passant, double-step and castling flags,
//! packed from the lowest bit up.
use crate::movegen::defs::field;
use vstd::prelude::*;

verus! {

/// A move packed into 64 bits.
#[derive(Copy, Clone, Debug)]
pub struct Move {
    pub data: u64,
}

/// Reading a field with a shift and a mask is division and remainder.
proof fn lemma_fields64(d: u64)
    by (bit_vector)
    ensures
        d & 0x7 == d % 8,
        (d >> 3u64) & 0x3F == (d / 8) % 64,
        (d >> 9u64) & 0x3F == (d / 512) % 64,
        (d >> 15u64) & 0x7 == (d / 32768) % 8,
        (d >> 18u64) & 0x7 == (d / 262144) % 8,
        (d >> 21u64) & 0x1 == (d / 2097152) % 2,
        (d >> 22u64) & 0x1 == (d / 4194304) % 2,
        (d >> 23u64) & 0x1 == (d / 8388608) % 2,
{
}

proof fn lemma_pow2_values64()
    ensures
        vstd::arithmetic::power2::pow2(0) == 1,
        vstd::arithmetic::power2::pow2(3) == 8,
        vstd::arithmetic::power2::pow2(9) == 512,
        vstd::arithmetic::power2::pow2(15) == 32768,
        vstd::arithmetic::power2::pow2(18) == 262144,
        vstd::arithmetic::power2::pow2(21) == 2097152,
        vstd::arithmetic::power2::pow2(22) == 4194304,
        vstd::arithmetic::power2::pow2(23) == 8388608,
{
    vstd::arithmetic::power2::lemma2_to64();
}

impl Move {
    /// The moving piece (bits 0 to 2).
    pub fn piece(self) -> (p: u8)
        ensures
            p == field(self.data as int, 0, 8),
    {
        proof { lemma_fields64(self.data); lemma_pow2_values64(); }
        (self.data & 0x7) as u8
    }

    /// The from-square (bits 3 to 8).
    pub fn from(self) -> (sq: u8)
        ensures
            sq == field(self.data as int, 3, 64),
    {
        proof { lemma_fields64(self.data); lemma_pow2_values64(); }
        ((self.data >> 3u64) & 0x3F) as u8
    }

    /// The to-square (bits 9 to 14).
    pub fn to(self) -> (sq: u8)
        ensures
            sq == field(self.data as int, 9, 64),
    {
        proof { lemma_fields64(self.data); lemma_pow2_values64(); }
        ((self.data >> 9u64) & 0x3F) as u8
    }

    /// The captured piece (bits 15 to 17).
    pub fn captured(self) -> (p: u8)
        ensures
            p == field(self.data as int, 15, 8),
    {
        proof { lemma_fields64(self.data); lemma_pow2_values64(); }
        ((self.data >> 15u64) & 0x7) as u8
    }

    /// The promotion piece (bits 18 to 20).
    pub fn promoted(self) -> (p: u8)
        ensures
            p == field(self.data as int, 18, 8),
    {
        proof { lemma_fields64(self.data); lemma_pow2_values64(); }
        ((self.data >> 18u64) & 0x7) as u8
    }

    /// Whether the move captures en passant (bit 21).
    pub fn en_passant(self) -> (b: bool)
        ensures
            b == (field(self.data as int, 21, 2) == 1),
    {
        proof { lemma_fields64(self.data); lemma_pow2_values64(); }
        ((self.data >> 21u64) & 0x1) as u8 == 1
    }

    /// Whether the move is a pawn's double step (bit 22).
    pub fn double_step(self) -> (b: bool)
        ensures
            b == (field(self.data as int, 22, 2) == 1),
    {
        proof { lemma_fields64(self.data); lemma_pow2_values64(); }
        ((self.data >> 22u64) & 0x1) as u8 == 1
    }

    /// Whether the move castles (bit 23).
    pub fn castling(self) -> (b: bool)
        ensures
            b == (field(self.data as int, 23, 2) == 1),
    {
        proof { lemma_fields64(self.data); lemma_pow2_values64(); }
        ((self.data >> 23u64) & 0x1) as u8 == 1
    }
}

} // verus!
