//! The layout of the slider attack tables: the mask of every square, how
//! many squares it holds, and that the squares' parts of the attack table,
//! one per blocker board, fill the table exactly.
use crate::attacks::{bishop_mask_value, edges_value, rook_mask_value};
use crate::bitboard::{
    bit_set, lemma_bit_and, lemma_bit_not, lemma_bit_or, lemma_bits_equal, lemma_pop_count_low_bits, low_bits,
    pop_count,
};
use crate::blockers::two_to;
use crate::geometry::{lemma_empty_ray, lemma_ray_bb_bits, ray_bb, Direction};
use crate::movements::magics::{
    boards_before, layout_ok, slider_mask, square_layout_ok, BISHOP_TABLE_SIZE, ROOK_TABLE_SIZE,
};
use vstd::prelude::*;

verus! {

/// The rook mask of every square.
pub open spec fn rook_mask_table(s: u64) -> u64 {
    if s == 0 {
        0x000101010101017Eu64
    } else if s == 1 {
        0x000202020202027Cu64
    } else if s == 2 {
        0x000404040404047Au64
    } else if s == 3 {
        0x0008080808080876u64
    } else if s == 4 {
        0x001010101010106Eu64
    } else if s == 5 {
        0x002020202020205Eu64
    } else if s == 6 {
        0x004040404040403Eu64
    } else if s == 7 {
        0x008080808080807Eu64
    } else if s == 8 {
        0x0001010101017E00u64
    } else if s == 9 {
        0x0002020202027C00u64
    } else if s == 10 {
        0x0004040404047A00u64
    } else if s == 11 {
        0x0008080808087600u64
    } else if s == 12 {
        0x0010101010106E00u64
    } else if s == 13 {
        0x0020202020205E00u64
    } else if s == 14 {
        0x0040404040403E00u64
    } else if s == 15 {
        0x0080808080807E00u64
    } else if s == 16 {
        0x00010101017E0100u64
    } else if s == 17 {
        0x00020202027C0200u64
    } else if s == 18 {
        0x00040404047A0400u64
    } else if s == 19 {
        0x0008080808760800u64
    } else if s == 20 {
        0x00101010106E1000u64
    } else if s == 21 {
        0x00202020205E2000u64
    } else if s == 22 {
        0x00404040403E4000u64
    } else if s == 23 {
        0x00808080807E8000u64
    } else if s == 24 {
        0x000101017E010100u64
    } else if s == 25 {
        0x000202027C020200u64
    } else if s == 26 {
        0x000404047A040400u64
    } else if s == 27 {
        0x0008080876080800u64
    } else if s == 28 {
        0x001010106E101000u64
    } else if s == 29 {
        0x002020205E202000u64
    } else if s == 30 {
        0x004040403E404000u64
    } else if s == 31 {
        0x008080807E808000u64
    } else if s == 32 {
        0x0001017E01010100u64
    } else if s == 33 {
        0x0002027C02020200u64
    } else if s == 34 {
        0x0004047A04040400u64
    } else if s == 35 {
        0x0008087608080800u64
    } else if s == 36 {
        0x0010106E10101000u64
    } else if s == 37 {
        0x0020205E20202000u64
    } else if s == 38 {
        0x0040403E40404000u64
    } else if s == 39 {
        0x0080807E80808000u64
    } else if s == 40 {
        0x00017E0101010100u64
    } else if s == 41 {
        0x00027C0202020200u64
    } else if s == 42 {
        0x00047A0404040400u64
    } else if s == 43 {
        0x0008760808080800u64
    } else if s == 44 {
        0x00106E1010101000u64
    } else if s == 45 {
        0x00205E2020202000u64
    } else if s == 46 {
        0x00403E4040404000u64
    } else if s == 47 {
        0x00807E8080808000u64
    } else if s == 48 {
        0x007E010101010100u64
    } else if s == 49 {
        0x007C020202020200u64
    } else if s == 50 {
        0x007A040404040400u64
    } else if s == 51 {
        0x0076080808080800u64
    } else if s == 52 {
        0x006E101010101000u64
    } else if s == 53 {
        0x005E202020202000u64
    } else if s == 54 {
        0x003E404040404000u64
    } else if s == 55 {
        0x007E808080808000u64
    } else if s == 56 {
        0x7E01010101010100u64
    } else if s == 57 {
        0x7C02020202020200u64
    } else if s == 58 {
        0x7A04040404040400u64
    } else if s == 59 {
        0x7608080808080800u64
    } else if s == 60 {
        0x6E10101010101000u64
    } else if s == 61 {
        0x5E20202020202000u64
    } else if s == 62 {
        0x3E40404040404000u64
    } else {
        0x7E80808080808000u64
    }
}
/// The bishop mask of every square.
pub open spec fn bishop_mask_table(s: u64) -> u64 {
    if s == 0 {
        0x0040201008040200u64
    } else if s == 1 {
        0x0000402010080400u64
    } else if s == 2 {
        0x0000004020100A00u64
    } else if s == 3 {
        0x0000000040221400u64
    } else if s == 4 {
        0x0000000002442800u64
    } else if s == 5 {
        0x0000000204085000u64
    } else if s == 6 {
        0x0000020408102000u64
    } else if s == 7 {
        0x0002040810204000u64
    } else if s == 8 {
        0x0020100804020000u64
    } else if s == 9 {
        0x0040201008040000u64
    } else if s == 10 {
        0x00004020100A0000u64
    } else if s == 11 {
        0x0000004022140000u64
    } else if s == 12 {
        0x0000000244280000u64
    } else if s == 13 {
        0x0000020408500000u64
    } else if s == 14 {
        0x0002040810200000u64
    } else if s == 15 {
        0x0004081020400000u64
    } else if s == 16 {
        0x0010080402000200u64
    } else if s == 17 {
        0x0020100804000400u64
    } else if s == 18 {
        0x004020100A000A00u64
    } else if s == 19 {
        0x0000402214001400u64
    } else if s == 20 {
        0x0000024428002800u64
    } else if s == 21 {
        0x0002040850005000u64
    } else if s == 22 {
        0x0004081020002000u64
    } else if s == 23 {
        0x0008102040004000u64
    } else if s == 24 {
        0x0008040200020400u64
    } else if s == 25 {
        0x0010080400040800u64
    } else if s == 26 {
        0x0020100A000A1000u64
    } else if s == 27 {
        0x0040221400142200u64
    } else if s == 28 {
        0x0002442800284400u64
    } else if s == 29 {
        0x0004085000500800u64
    } else if s == 30 {
        0x0008102000201000u64
    } else if s == 31 {
        0x0010204000402000u64
    } else if s == 32 {
        0x0004020002040800u64
    } else if s == 33 {
        0x0008040004081000u64
    } else if s == 34 {
        0x00100A000A102000u64
    } else if s == 35 {
        0x0022140014224000u64
    } else if s == 36 {
        0x0044280028440200u64
    } else if s == 37 {
        0x0008500050080400u64
    } else if s == 38 {
        0x0010200020100800u64
    } else if s == 39 {
        0x0020400040201000u64
    } else if s == 40 {
        0x0002000204081000u64
    } else if s == 41 {
        0x0004000408102000u64
    } else if s == 42 {
        0x000A000A10204000u64
    } else if s == 43 {
        0x0014001422400000u64
    } else if s == 44 {
        0x0028002844020000u64
    } else if s == 45 {
        0x0050005008040200u64
    } else if s == 46 {
        0x0020002010080400u64
    } else if s == 47 {
        0x0040004020100800u64
    } else if s == 48 {
        0x0000020408102000u64
    } else if s == 49 {
        0x0000040810204000u64
    } else if s == 50 {
        0x00000A1020400000u64
    } else if s == 51 {
        0x0000142240000000u64
    } else if s == 52 {
        0x0000284402000000u64
    } else if s == 53 {
        0x0000500804020000u64
    } else if s == 54 {
        0x0000201008040200u64
    } else if s == 55 {
        0x0000402010080400u64
    } else if s == 56 {
        0x0002040810204000u64
    } else if s == 57 {
        0x0004081020400000u64
    } else if s == 58 {
        0x000A102040000000u64
    } else if s == 59 {
        0x0014224000000000u64
    } else if s == 60 {
        0x0028440200000000u64
    } else if s == 61 {
        0x0050080402000000u64
    } else if s == 62 {
        0x0020100804020000u64
    } else {
        0x0040201008040200u64
    }
}
/// The number of squares in the rook mask of every square.
pub open spec fn rook_mask_bits(s: u64) -> u64 {
    if s == 0 {
        12
    } else if s == 1 {
        11
    } else if s == 2 {
        11
    } else if s == 3 {
        11
    } else if s == 4 {
        11
    } else if s == 5 {
        11
    } else if s == 6 {
        11
    } else if s == 7 {
        12
    } else if s == 8 {
        11
    } else if s == 9 {
        10
    } else if s == 10 {
        10
    } else if s == 11 {
        10
    } else if s == 12 {
        10
    } else if s == 13 {
        10
    } else if s == 14 {
        10
    } else if s == 15 {
        11
    } else if s == 16 {
        11
    } else if s == 17 {
        10
    } else if s == 18 {
        10
    } else if s == 19 {
        10
    } else if s == 20 {
        10
    } else if s == 21 {
        10
    } else if s == 22 {
        10
    } else if s == 23 {
        11
    } else if s == 24 {
        11
    } else if s == 25 {
        10
    } else if s == 26 {
        10
    } else if s == 27 {
        10
    } else if s == 28 {
        10
    } else if s == 29 {
        10
    } else if s == 30 {
        10
    } else if s == 31 {
        11
    } else if s == 32 {
        11
    } else if s == 33 {
        10
    } else if s == 34 {
        10
    } else if s == 35 {
        10
    } else if s == 36 {
        10
    } else if s == 37 {
        10
    } else if s == 38 {
        10
    } else if s == 39 {
        11
    } else if s == 40 {
        11
    } else if s == 41 {
        10
    } else if s == 42 {
        10
    } else if s == 43 {
        10
    } else if s == 44 {
        10
    } else if s == 45 {
        10
    } else if s == 46 {
        10
    } else if s == 47 {
        11
    } else if s == 48 {
        11
    } else if s == 49 {
        10
    } else if s == 50 {
        10
    } else if s == 51 {
        10
    } else if s == 52 {
        10
    } else if s == 53 {
        10
    } else if s == 54 {
        10
    } else if s == 55 {
        11
    } else if s == 56 {
        12
    } else if s == 57 {
        11
    } else if s == 58 {
        11
    } else if s == 59 {
        11
    } else if s == 60 {
        11
    } else if s == 61 {
        11
    } else if s == 62 {
        11
    } else {
        12
    }
}
/// The number of squares in the bishop mask of every square.
pub open spec fn bishop_mask_bits(s: u64) -> u64 {
    if s == 0 {
        6
    } else if s == 1 {
        5
    } else if s == 2 {
        5
    } else if s == 3 {
        5
    } else if s == 4 {
        5
    } else if s == 5 {
        5
    } else if s == 6 {
        5
    } else if s == 7 {
        6
    } else if s == 8 {
        5
    } else if s == 9 {
        5
    } else if s == 10 {
        5
    } else if s == 11 {
        5
    } else if s == 12 {
        5
    } else if s == 13 {
        5
    } else if s == 14 {
        5
    } else if s == 15 {
        5
    } else if s == 16 {
        5
    } else if s == 17 {
        5
    } else if s == 18 {
        7
    } else if s == 19 {
        7
    } else if s == 20 {
        7
    } else if s == 21 {
        7
    } else if s == 22 {
        5
    } else if s == 23 {
        5
    } else if s == 24 {
        5
    } else if s == 25 {
        5
    } else if s == 26 {
        7
    } else if s == 27 {
        9
    } else if s == 28 {
        9
    } else if s == 29 {
        7
    } else if s == 30 {
        5
    } else if s == 31 {
        5
    } else if s == 32 {
        5
    } else if s == 33 {
        5
    } else if s == 34 {
        7
    } else if s == 35 {
        9
    } else if s == 36 {
        9
    } else if s == 37 {
        7
    } else if s == 38 {
        5
    } else if s == 39 {
        5
    } else if s == 40 {
        5
    } else if s == 41 {
        5
    } else if s == 42 {
        7
    } else if s == 43 {
        7
    } else if s == 44 {
        7
    } else if s == 45 {
        7
    } else if s == 46 {
        5
    } else if s == 47 {
        5
    } else if s == 48 {
        5
    } else if s == 49 {
        5
    } else if s == 50 {
        5
    } else if s == 51 {
        5
    } else if s == 52 {
        5
    } else if s == 53 {
        5
    } else if s == 54 {
        5
    } else if s == 55 {
        5
    } else if s == 56 {
        6
    } else if s == 57 {
        5
    } else if s == 58 {
        5
    } else if s == 59 {
        5
    } else if s == 60 {
        5
    } else if s == 61 {
        5
    } else if s == 62 {
        5
    } else {
        6
    }
}
/// The set bits of `x`, added up one by one.
pub open spec fn bits64(x: u64) -> int {
    (x & 1u64) as int
        + ((x >> 1u64) & 1u64) as int
        + (((x >> 1u64) >> 1u64) & 1u64) as int
        + ((((x >> 1u64) >> 1u64) >> 1u64) & 1u64) as int
        + (((((x >> 1u64) >> 1u64) >> 1u64) >> 1u64) & 1u64) as int
        + ((((((x >> 1u64) >> 1u64) >> 1u64) >> 1u64) >> 1u64) & 1u64) as int
        + (((((((x >> 1u64) >> 1u64) >> 1u64) >> 1u64) >> 1u64) >> 1u64) & 1u64) as int
        + ((((((((x >> 1u64) >> 1u64) >> 1u64) >> 1u64) >> 1u64) >> 1u64) >> 1u64) & 1u64) as int
        + (((((((((x >> 1u64) >> 1u64) >> 1u64) >> 1u64) >> 1u64) >> 1u64) >> 1u64) >> 1u64) & 1u64) as int
        + ((((((((((x >> 1u64) >> 1u64) >> 1u64) >> 1u64) >> 1u64) >> 1u64) >> 1u64) >> 1u64) >> 1u64) & 1u64) as int
        + (((((((((((x >> 1u64) >> 1u64) >> 1u64) >> 1u64) >> 1u64) >> 1u64) >> 1u64) >> 1u64) >> 1u64) >> 1u64) & 1u64) as int
        + ((((((((((((x >> 1u64) >> 1u64) >> 1u64) >> 1u64) >> 1u64) >> 1u64) >> 1u64) >> 1u64) >> 1u64) >> 1u64) >> 1u64) & 1u64) as int
        + (((((((((((((x >> 1u64) >> 1u64) >> 1u64) >> 1u64) >> 1u64) >> 1u64) >> 1u64) >> 1u64) >> 1u64) >> 1u64) >> 1u64) >> 1u64) & 1u64) as int
        + ((((((((((((((x >> 1u64) >> 1u64) >> 1u64) >> 1u64) >> 1u64) >> 1u64) >> 1u64) >> 1u64) >> 1u64) >> 1u64) >> 1u64) >> 1u64) >> 1u64) & 1u64) as int
        + (((((((((((((((x >> 1u64) >> 1u64) >> 1u64) >> 1u64) >> 1u64) >> 1u64) >> 1u64) >> 1u64) >> 1u64) >> 1u64) >> 1u64) >> 1u64) >> 1u64) >> 1u64) & 1u64) as int
        + ((((((((((((((((x >> 1u64) >> 1u64) >> 1u64) >> 1u64) >> 1u64) >> 1u64) >> 1u64) >> 1u64) >> 1u64) >> 1u64) >> 1u64) >> 1u64) >> 1u64) >> 1u64) >> 1u64) & 1u64) as int
        + (((((((((((((((((x >> 1u64) >> 1u64) >> 1u64) >> 1u64) >> 1u64) >> 1u64) >> 1u64) >> 1u64) >> 1u64) >> 1u64) >> 1u64) >> 1u64) >> 1u64) >> 1u64) >> 1u64) >> 1u64) & 1u64) as int
        + ((((((((((((((((((x >> 1u64) >> 1u64) >> 1u64) >> 1u64) >> 1u64) >> 1u64) >> 1u64) >> 1u64) >> 1u64) >> 1u64) >> 1u64) >> 1u64) >> 1u64) >> 1u64) >> 1u64) >> 1u64) >> 1u64) & 1u64) as int
        + (((((((((((((((((((x >> 1u64) >> 1u64) >> 1u64) >> 1u64) >> 1u64) >> 1u64) >> 1u64) >> 1u64) >> 1u64) >> 1u64) >> 1u64) >> 1u64) >> 1u64) >> 1u64) >> 1u64) >> 1u64) >> 1u64) >> 1u64) & 1u64) as int
        + ((((((((((((((((((((x >> 1u64) >> 1u64) >> 1u64) >> 1u64) >> 1u64) >> 1u64) >> 1u64) >> 1u64) >> 1u64) >> 1u64) >> 1u64) >> 1u64) >> 1u64) >> 1u64) >> 1u64) >> 1u64) >> 1u64) >> 1u64) >> 1u64) & 1u64) as int
        + (((((((((((((((((((((x >> 1u64) >> 1u64) >> 1u64) >> 1u64) >> 1u64) >> 1u64) >> 1u64) >> 1u64) >> 1u64) >> 1u64) >> 1u64) >> 1u64) >> 1u64) >> 1u64) >> 1u64) >> 1u64) >> 1u64) >> 1u64) >> 1u64) >> 1u64) & 1u64) as int
        + ((((((((((((((((((((((x >> 1u64) >> 1u64) >> 1u64) >> 1u64) >> 1u64) >> 1u64) >> 1u64) >> 1u64) >> 1u64) >> 1u64) >> 1u64) >> 1u64) >> 1u64) >> 1u64) >> 1u64) >> 1u64) >> 1u64) >> 1u64) >> 1u64) >> 1u64) >> 1u64) & 1u64) as int
        + (((((((((((((((((((((((x >> 1u64) >> 1u64) >> 1u64) >> 1u64) >> 1u64) >> 1u64) >> 1u64) >> 1u64) >> 1u64) >> 1u64) >> 1u64) >> 1u64) >> 1u64) >> 1u64) >> 1u64) >> 1u64) >> 1u64) >> 1u64) >> 1u64) >> 1u64) >> 1u64) >> 1u64) & 1u64) as int
        + ((((((((((((((((((((((((x >> 1u64) >> 1u64) >> 1u64) >> 1u64) >> 1u64) >> 1u64) >> 1u64) >> 1u64) >> 1u64) >> 1u64) >> 1u64) >> 1u64) >> 1u64) >> 1u64) >> 1u64) >> 1u64) >> 1u64) >> 1u64) >> 1u64) >> 1u64) >> 1u64) >> 1u64) >> 1u64) & 1u64) as int
        + (((((((((((((((((((((((((x >> 1u64) >> 1u64) >> 1u64) >> 1u64) >> 1u64) >> 1u64) >> 1u64) >> 1u64) >> 1u64) >> 1u64) >> 1u64) >> 1u64) >> 1u64) >> 1u64) >> 1u64) >> 1u64) >> 1u64) >> 1u64) >> 1u64) >> 1u64) >> 1u64) >> 1u64) >> 1u64) >> 1u64) & 1u64) as int
        + ((((((((((((((((((((((((((x >> 1u64) >> 1u64) >> 1u64) >> 1u64) >> 1u64) >> 1u64) >> 1u64) >> 1u64) >> 1u64) >> 1u64) >> 1u64) >> 1u64) >> 1u64) >> 1u64) >> 1u64) >> 1u64) >> 1u64) >> 1u64) >> 1u64) >> 1u64) >> 1u64) >> 1u64) >> 1u64) >> 1u64) >> 1u64) & 1u64) as int
        + (((((((((((((((((((((((((((x >> 1u64) >> 1u64) >> 1u64) >> 1u64) >> 1u64) >> 1u64) >> 1u64) >> 1u64) >> 1u64) >> 1u64) >> 1u64) >> 1u64) >> 1u64) >> 1u64) >> 1u64) >> 1u64) >> 1u64) >> 1u64) >> 1u64) >> 1u64) >> 1u64) >> 1u64) >> 1u64) >> 1u64) >> 1u64) >> 1u64) & 1u64) as int
        + ((((((((((((((((((((((((((((x >> 1u64) >> 1u64) >> 1u64) >> 1u64) >> 1u64) >> 1u64) >> 1u64) >> 1u64) >> 1u64) >> 1u64) >> 1u64) >> 1u64) >> 1u64) >> 1u64) >> 1u64) >> 1u64) >> 1u64) >> 1u64) >> 1u64) >> 1u64) >> 1u64) >> 1u64) >> 1u64) >> 1u64) >> 1u64) >> 1u64) >> 1u64) & 1u64) as int
        + (((((((((((((((((((((((((((((x >> 1u64) >> 1u64) >> 1u64) >> 1u64) >> 1u64) >> 1u64) >> 1u64) >> 1u64) >> 1u64) >> 1u64) >> 1u64) >> 1u64) >> 1u64) >> 1u64) >> 1u64) >> 1u64) >> 1u64) >> 1u64) >> 1u64) >> 1u64) >> 1u64) >> 1u64) >> 1u64) >> 1u64) >> 1u64) >> 1u64) >> 1u64) >> 1u64) & 1u64) as int
        + ((((((((((((((((((((((((((((((x >> 1u64) >> 1u64) >> 1u64) >> 1u64) >> 1u64) >> 1u64) >> 1u64) >> 1u64) >> 1u64) >> 1u64) >> 1u64) >> 1u64) >> 1u64) >> 1u64) >> 1u64) >> 1u64) >> 1u64) >> 1u64) >> 1u64) >> 1u64) >> 1u64) >> 1u64) >> 1u64) >> 1u64) >> 1u64) >> 1u64) >> 1u64) >> 1u64) >> 1u64) & 1u64) as int
        + (((((((((((((((((((((((((((((((x >> 1u64) >> 1u64) >> 1u64) >> 1u64) >> 1u64) >> 1u64) >> 1u64) >> 1u64) >> 1u64) >> 1u64) >> 1u64) >> 1u64) >> 1u64) >> 1u64) >> 1u64) >> 1u64) >> 1u64) >> 1u64) >> 1u64) >> 1u64) >> 1u64) >> 1u64) >> 1u64) >> 1u64) >> 1u64) >> 1u64) >> 1u64) >> 1u64) >> 1u64) >> 1u64) & 1u64) as int
        + ((((((((((((((((((((((((((((((((x >> 1u64) >> 1u64) >> 1u64) >> 1u64) >> 1u64) >> 1u64) >> 1u64) >> 1u64) >> 1u64) >> 1u64) >> 1u64) >> 1u64) >> 1u64) >> 1u64) >> 1u64) >> 1u64) >> 1u64) >> 1u64) >> 1u64) >> 1u64) >> 1u64) >> 1u64) >> 1u64) >> 1u64) >> 1u64) >> 1u64) >> 1u64) >> 1u64) >> 1u64) >> 1u64) >> 1u64) & 1u64) as int
        + (((((((((((((((((((((((((((((((((x >> 1u64) >> 1u64) >> 1u64) >> 1u64) >> 1u64) >> 1u64) >> 1u64) >> 1u64) >> 1u64) >> 1u64) >> 1u64) >> 1u64) >> 1u64) >> 1u64) >> 1u64) >> 1u64) >> 1u64) >> 1u64) >> 1u64) >> 1u64) >> 1u64) >> 1u64) >> 1u64) >> 1u64) >> 1u64) >> 1u64) >> 1u64) >> 1u64) >> 1u64) >> 1u64) >> 1u64) >> 1u64) & 1u64) as int
        + ((((((((((((((((((((((((((((((((((x >> 1u64) >> 1u64) >> 1u64) >> 1u64) >> 1u64) >> 1u64) >> 1u64) >> 1u64) >> 1u64) >> 1u64) >> 1u64) >> 1u64) >> 1u64) >> 1u64) >> 1u64) >> 1u64) >> 1u64) >> 1u64) >> 1u64) >> 1u64) >> 1u64) >> 1u64) >> 1u64) >> 1u64) >> 1u64) >> 1u64) >> 1u64) >> 1u64) >> 1u64) >> 1u64) >> 1u64) >> 1u64) >> 1u64) & 1u64) as int
        + (((((((((((((((((((((((((((((((((((x >> 1u64) >> 1u64) >> 1u64) >> 1u64) >> 1u64) >> 1u64) >> 1u64) >> 1u64) >> 1u64) >> 1u64) >> 1u64) >> 1u64) >> 1u64) >> 1u64) >> 1u64) >> 1u64) >> 1u64) >> 1u64) >> 1u64) >> 1u64) >> 1u64) >> 1u64) >> 1u64) >> 1u64) >> 1u64) >> 1u64) >> 1u64) >> 1u64) >> 1u64) >> 1u64) >> 1u64) >> 1u64) >> 1u64) >> 1u64) & 1u64) as int
        + ((((((((((((((((((((((((((((((((((((x >> 1u64) >> 1u64) >> 1u64) >> 1u64) >> 1u64) >> 1u64) >> 1u64) >> 1u64) >> 1u64) >> 1u64) >> 1u64) >> 1u64) >> 1u64) >> 1u64) >> 1u64) >> 1u64) >> 1u64) >> 1u64) >> 1u64) >> 1u64) >> 1u64) >> 1u64) >> 1u64) >> 1u64) >> 1u64) >> 1u64) >> 1u64) >> 1u64) >> 1u64) >> 1u64) >> 1u64) >> 1u64) >> 1u64) >> 1u64) >> 1u64) & 1u64) as int
        + (((((((((((((((((((((((((((((((((((((x >> 1u64) >> 1u64) >> 1u64) >> 1u64) >> 1u64) >> 1u64) >> 1u64) >> 1u64) >> 1u64) >> 1u64) >> 1u64) >> 1u64) >> 1u64) >> 1u64) >> 1u64) >> 1u64) >> 1u64) >> 1u64) >> 1u64) >> 1u64) >> 1u64) >> 1u64) >> 1u64) >> 1u64) >> 1u64) >> 1u64) >> 1u64) >> 1u64) >> 1u64) >> 1u64) >> 1u64) >> 1u64) >> 1u64) >> 1u64) >> 1u64) >> 1u64) & 1u64) as int
        + ((((((((((((((((((((((((((((((((((((((x >> 1u64) >> 1u64) >> 1u64) >> 1u64) >> 1u64) >> 1u64) >> 1u64) >> 1u64) >> 1u64) >> 1u64) >> 1u64) >> 1u64) >> 1u64) >> 1u64) >> 1u64) >> 1u64) >> 1u64) >> 1u64) >> 1u64) >> 1u64) >> 1u64) >> 1u64) >> 1u64) >> 1u64) >> 1u64) >> 1u64) >> 1u64) >> 1u64) >> 1u64) >> 1u64) >> 1u64) >> 1u64) >> 1u64) >> 1u64) >> 1u64) >> 1u64) >> 1u64) & 1u64) as int
        + (((((((((((((((((((((((((((((((((((((((x >> 1u64) >> 1u64) >> 1u64) >> 1u64) >> 1u64) >> 1u64) >> 1u64) >> 1u64) >> 1u64) >> 1u64) >> 1u64) >> 1u64) >> 1u64) >> 1u64) >> 1u64) >> 1u64) >> 1u64) >> 1u64) >> 1u64) >> 1u64) >> 1u64) >> 1u64) >> 1u64) >> 1u64) >> 1u64) >> 1u64) >> 1u64) >> 1u64) >> 1u64) >> 1u64) >> 1u64) >> 1u64) >> 1u64) >> 1u64) >> 1u64) >> 1u64) >> 1u64) >> 1u64) & 1u64) as int
        + ((((((((((((((((((((((((((((((((((((((((x >> 1u64) >> 1u64) >> 1u64) >> 1u64) >> 1u64) >> 1u64) >> 1u64) >> 1u64) >> 1u64) >> 1u64) >> 1u64) >> 1u64) >> 1u64) >> 1u64) >> 1u64) >> 1u64) >> 1u64) >> 1u64) >> 1u64) >> 1u64) >> 1u64) >> 1u64) >> 1u64) >> 1u64) >> 1u64) >> 1u64) >> 1u64) >> 1u64) >> 1u64) >> 1u64) >> 1u64) >> 1u64) >> 1u64) >> 1u64) >> 1u64) >> 1u64) >> 1u64) >> 1u64) >> 1u64) & 1u64) as int
        + (((((((((((((((((((((((((((((((((((((((((x >> 1u64) >> 1u64) >> 1u64) >> 1u64) >> 1u64) >> 1u64) >> 1u64) >> 1u64) >> 1u64) >> 1u64) >> 1u64) >> 1u64) >> 1u64) >> 1u64) >> 1u64) >> 1u64) >> 1u64) >> 1u64) >> 1u64) >> 1u64) >> 1u64) >> 1u64) >> 1u64) >> 1u64) >> 1u64) >> 1u64) >> 1u64) >> 1u64) >> 1u64) >> 1u64) >> 1u64) >> 1u64) >> 1u64) >> 1u64) >> 1u64) >> 1u64) >> 1u64) >> 1u64) >> 1u64) >> 1u64) & 1u64) as int
        + ((((((((((((((((((((((((((((((((((((((((((x >> 1u64) >> 1u64) >> 1u64) >> 1u64) >> 1u64) >> 1u64) >> 1u64) >> 1u64) >> 1u64) >> 1u64) >> 1u64) >> 1u64) >> 1u64) >> 1u64) >> 1u64) >> 1u64) >> 1u64) >> 1u64) >> 1u64) >> 1u64) >> 1u64) >> 1u64) >> 1u64) >> 1u64) >> 1u64) >> 1u64) >> 1u64) >> 1u64) >> 1u64) >> 1u64) >> 1u64) >> 1u64) >> 1u64) >> 1u64) >> 1u64) >> 1u64) >> 1u64) >> 1u64) >> 1u64) >> 1u64) >> 1u64) & 1u64) as int
        + (((((((((((((((((((((((((((((((((((((((((((x >> 1u64) >> 1u64) >> 1u64) >> 1u64) >> 1u64) >> 1u64) >> 1u64) >> 1u64) >> 1u64) >> 1u64) >> 1u64) >> 1u64) >> 1u64) >> 1u64) >> 1u64) >> 1u64) >> 1u64) >> 1u64) >> 1u64) >> 1u64) >> 1u64) >> 1u64) >> 1u64) >> 1u64) >> 1u64) >> 1u64) >> 1u64) >> 1u64) >> 1u64) >> 1u64) >> 1u64) >> 1u64) >> 1u64) >> 1u64) >> 1u64) >> 1u64) >> 1u64) >> 1u64) >> 1u64) >> 1u64) >> 1u64) >> 1u64) & 1u64) as int
        + ((((((((((((((((((((((((((((((((((((((((((((x >> 1u64) >> 1u64) >> 1u64) >> 1u64) >> 1u64) >> 1u64) >> 1u64) >> 1u64) >> 1u64) >> 1u64) >> 1u64) >> 1u64) >> 1u64) >> 1u64) >> 1u64) >> 1u64) >> 1u64) >> 1u64) >> 1u64) >> 1u64) >> 1u64) >> 1u64) >> 1u64) >> 1u64) >> 1u64) >> 1u64) >> 1u64) >> 1u64) >> 1u64) >> 1u64) >> 1u64) >> 1u64) >> 1u64) >> 1u64) >> 1u64) >> 1u64) >> 1u64) >> 1u64) >> 1u64) >> 1u64) >> 1u64) >> 1u64) >> 1u64) & 1u64) as int
        + (((((((((((((((((((((((((((((((((((((((((((((x >> 1u64) >> 1u64) >> 1u64) >> 1u64) >> 1u64) >> 1u64) >> 1u64) >> 1u64) >> 1u64) >> 1u64) >> 1u64) >> 1u64) >> 1u64) >> 1u64) >> 1u64) >> 1u64) >> 1u64) >> 1u64) >> 1u64) >> 1u64) >> 1u64) >> 1u64) >> 1u64) >> 1u64) >> 1u64) >> 1u64) >> 1u64) >> 1u64) >> 1u64) >> 1u64) >> 1u64) >> 1u64) >> 1u64) >> 1u64) >> 1u64) >> 1u64) >> 1u64) >> 1u64) >> 1u64) >> 1u64) >> 1u64) >> 1u64) >> 1u64) >> 1u64) & 1u64) as int
        + ((((((((((((((((((((((((((((((((((((((((((((((x >> 1u64) >> 1u64) >> 1u64) >> 1u64) >> 1u64) >> 1u64) >> 1u64) >> 1u64) >> 1u64) >> 1u64) >> 1u64) >> 1u64) >> 1u64) >> 1u64) >> 1u64) >> 1u64) >> 1u64) >> 1u64) >> 1u64) >> 1u64) >> 1u64) >> 1u64) >> 1u64) >> 1u64) >> 1u64) >> 1u64) >> 1u64) >> 1u64) >> 1u64) >> 1u64) >> 1u64) >> 1u64) >> 1u64) >> 1u64) >> 1u64) >> 1u64) >> 1u64) >> 1u64) >> 1u64) >> 1u64) >> 1u64) >> 1u64) >> 1u64) >> 1u64) >> 1u64) & 1u64) as int
        + (((((((((((((((((((((((((((((((((((((((((((((((x >> 1u64) >> 1u64) >> 1u64) >> 1u64) >> 1u64) >> 1u64) >> 1u64) >> 1u64) >> 1u64) >> 1u64) >> 1u64) >> 1u64) >> 1u64) >> 1u64) >> 1u64) >> 1u64) >> 1u64) >> 1u64) >> 1u64) >> 1u64) >> 1u64) >> 1u64) >> 1u64) >> 1u64) >> 1u64) >> 1u64) >> 1u64) >> 1u64) >> 1u64) >> 1u64) >> 1u64) >> 1u64) >> 1u64) >> 1u64) >> 1u64) >> 1u64) >> 1u64) >> 1u64) >> 1u64) >> 1u64) >> 1u64) >> 1u64) >> 1u64) >> 1u64) >> 1u64) >> 1u64) & 1u64) as int
        + ((((((((((((((((((((((((((((((((((((((((((((((((x >> 1u64) >> 1u64) >> 1u64) >> 1u64) >> 1u64) >> 1u64) >> 1u64) >> 1u64) >> 1u64) >> 1u64) >> 1u64) >> 1u64) >> 1u64) >> 1u64) >> 1u64) >> 1u64) >> 1u64) >> 1u64) >> 1u64) >> 1u64) >> 1u64) >> 1u64) >> 1u64) >> 1u64) >> 1u64) >> 1u64) >> 1u64) >> 1u64) >> 1u64) >> 1u64) >> 1u64) >> 1u64) >> 1u64) >> 1u64) >> 1u64) >> 1u64) >> 1u64) >> 1u64) >> 1u64) >> 1u64) >> 1u64) >> 1u64) >> 1u64) >> 1u64) >> 1u64) >> 1u64) >> 1u64) & 1u64) as int
        + (((((((((((((((((((((((((((((((((((((((((((((((((x >> 1u64) >> 1u64) >> 1u64) >> 1u64) >> 1u64) >> 1u64) >> 1u64) >> 1u64) >> 1u64) >> 1u64) >> 1u64) >> 1u64) >> 1u64) >> 1u64) >> 1u64) >> 1u64) >> 1u64) >> 1u64) >> 1u64) >> 1u64) >> 1u64) >> 1u64) >> 1u64) >> 1u64) >> 1u64) >> 1u64) >> 1u64) >> 1u64) >> 1u64) >> 1u64) >> 1u64) >> 1u64) >> 1u64) >> 1u64) >> 1u64) >> 1u64) >> 1u64) >> 1u64) >> 1u64) >> 1u64) >> 1u64) >> 1u64) >> 1u64) >> 1u64) >> 1u64) >> 1u64) >> 1u64) >> 1u64) & 1u64) as int
        + ((((((((((((((((((((((((((((((((((((((((((((((((((x >> 1u64) >> 1u64) >> 1u64) >> 1u64) >> 1u64) >> 1u64) >> 1u64) >> 1u64) >> 1u64) >> 1u64) >> 1u64) >> 1u64) >> 1u64) >> 1u64) >> 1u64) >> 1u64) >> 1u64) >> 1u64) >> 1u64) >> 1u64) >> 1u64) >> 1u64) >> 1u64) >> 1u64) >> 1u64) >> 1u64) >> 1u64) >> 1u64) >> 1u64) >> 1u64) >> 1u64) >> 1u64) >> 1u64) >> 1u64) >> 1u64) >> 1u64) >> 1u64) >> 1u64) >> 1u64) >> 1u64) >> 1u64) >> 1u64) >> 1u64) >> 1u64) >> 1u64) >> 1u64) >> 1u64) >> 1u64) >> 1u64) & 1u64) as int
        + (((((((((((((((((((((((((((((((((((((((((((((((((((x >> 1u64) >> 1u64) >> 1u64) >> 1u64) >> 1u64) >> 1u64) >> 1u64) >> 1u64) >> 1u64) >> 1u64) >> 1u64) >> 1u64) >> 1u64) >> 1u64) >> 1u64) >> 1u64) >> 1u64) >> 1u64) >> 1u64) >> 1u64) >> 1u64) >> 1u64) >> 1u64) >> 1u64) >> 1u64) >> 1u64) >> 1u64) >> 1u64) >> 1u64) >> 1u64) >> 1u64) >> 1u64) >> 1u64) >> 1u64) >> 1u64) >> 1u64) >> 1u64) >> 1u64) >> 1u64) >> 1u64) >> 1u64) >> 1u64) >> 1u64) >> 1u64) >> 1u64) >> 1u64) >> 1u64) >> 1u64) >> 1u64) >> 1u64) & 1u64) as int
        + ((((((((((((((((((((((((((((((((((((((((((((((((((((x >> 1u64) >> 1u64) >> 1u64) >> 1u64) >> 1u64) >> 1u64) >> 1u64) >> 1u64) >> 1u64) >> 1u64) >> 1u64) >> 1u64) >> 1u64) >> 1u64) >> 1u64) >> 1u64) >> 1u64) >> 1u64) >> 1u64) >> 1u64) >> 1u64) >> 1u64) >> 1u64) >> 1u64) >> 1u64) >> 1u64) >> 1u64) >> 1u64) >> 1u64) >> 1u64) >> 1u64) >> 1u64) >> 1u64) >> 1u64) >> 1u64) >> 1u64) >> 1u64) >> 1u64) >> 1u64) >> 1u64) >> 1u64) >> 1u64) >> 1u64) >> 1u64) >> 1u64) >> 1u64) >> 1u64) >> 1u64) >> 1u64) >> 1u64) >> 1u64) & 1u64) as int
        + (((((((((((((((((((((((((((((((((((((((((((((((((((((x >> 1u64) >> 1u64) >> 1u64) >> 1u64) >> 1u64) >> 1u64) >> 1u64) >> 1u64) >> 1u64) >> 1u64) >> 1u64) >> 1u64) >> 1u64) >> 1u64) >> 1u64) >> 1u64) >> 1u64) >> 1u64) >> 1u64) >> 1u64) >> 1u64) >> 1u64) >> 1u64) >> 1u64) >> 1u64) >> 1u64) >> 1u64) >> 1u64) >> 1u64) >> 1u64) >> 1u64) >> 1u64) >> 1u64) >> 1u64) >> 1u64) >> 1u64) >> 1u64) >> 1u64) >> 1u64) >> 1u64) >> 1u64) >> 1u64) >> 1u64) >> 1u64) >> 1u64) >> 1u64) >> 1u64) >> 1u64) >> 1u64) >> 1u64) >> 1u64) >> 1u64) & 1u64) as int
        + ((((((((((((((((((((((((((((((((((((((((((((((((((((((x >> 1u64) >> 1u64) >> 1u64) >> 1u64) >> 1u64) >> 1u64) >> 1u64) >> 1u64) >> 1u64) >> 1u64) >> 1u64) >> 1u64) >> 1u64) >> 1u64) >> 1u64) >> 1u64) >> 1u64) >> 1u64) >> 1u64) >> 1u64) >> 1u64) >> 1u64) >> 1u64) >> 1u64) >> 1u64) >> 1u64) >> 1u64) >> 1u64) >> 1u64) >> 1u64) >> 1u64) >> 1u64) >> 1u64) >> 1u64) >> 1u64) >> 1u64) >> 1u64) >> 1u64) >> 1u64) >> 1u64) >> 1u64) >> 1u64) >> 1u64) >> 1u64) >> 1u64) >> 1u64) >> 1u64) >> 1u64) >> 1u64) >> 1u64) >> 1u64) >> 1u64) >> 1u64) & 1u64) as int
        + (((((((((((((((((((((((((((((((((((((((((((((((((((((((x >> 1u64) >> 1u64) >> 1u64) >> 1u64) >> 1u64) >> 1u64) >> 1u64) >> 1u64) >> 1u64) >> 1u64) >> 1u64) >> 1u64) >> 1u64) >> 1u64) >> 1u64) >> 1u64) >> 1u64) >> 1u64) >> 1u64) >> 1u64) >> 1u64) >> 1u64) >> 1u64) >> 1u64) >> 1u64) >> 1u64) >> 1u64) >> 1u64) >> 1u64) >> 1u64) >> 1u64) >> 1u64) >> 1u64) >> 1u64) >> 1u64) >> 1u64) >> 1u64) >> 1u64) >> 1u64) >> 1u64) >> 1u64) >> 1u64) >> 1u64) >> 1u64) >> 1u64) >> 1u64) >> 1u64) >> 1u64) >> 1u64) >> 1u64) >> 1u64) >> 1u64) >> 1u64) >> 1u64) & 1u64) as int
        + ((((((((((((((((((((((((((((((((((((((((((((((((((((((((x >> 1u64) >> 1u64) >> 1u64) >> 1u64) >> 1u64) >> 1u64) >> 1u64) >> 1u64) >> 1u64) >> 1u64) >> 1u64) >> 1u64) >> 1u64) >> 1u64) >> 1u64) >> 1u64) >> 1u64) >> 1u64) >> 1u64) >> 1u64) >> 1u64) >> 1u64) >> 1u64) >> 1u64) >> 1u64) >> 1u64) >> 1u64) >> 1u64) >> 1u64) >> 1u64) >> 1u64) >> 1u64) >> 1u64) >> 1u64) >> 1u64) >> 1u64) >> 1u64) >> 1u64) >> 1u64) >> 1u64) >> 1u64) >> 1u64) >> 1u64) >> 1u64) >> 1u64) >> 1u64) >> 1u64) >> 1u64) >> 1u64) >> 1u64) >> 1u64) >> 1u64) >> 1u64) >> 1u64) >> 1u64) & 1u64) as int
        + (((((((((((((((((((((((((((((((((((((((((((((((((((((((((x >> 1u64) >> 1u64) >> 1u64) >> 1u64) >> 1u64) >> 1u64) >> 1u64) >> 1u64) >> 1u64) >> 1u64) >> 1u64) >> 1u64) >> 1u64) >> 1u64) >> 1u64) >> 1u64) >> 1u64) >> 1u64) >> 1u64) >> 1u64) >> 1u64) >> 1u64) >> 1u64) >> 1u64) >> 1u64) >> 1u64) >> 1u64) >> 1u64) >> 1u64) >> 1u64) >> 1u64) >> 1u64) >> 1u64) >> 1u64) >> 1u64) >> 1u64) >> 1u64) >> 1u64) >> 1u64) >> 1u64) >> 1u64) >> 1u64) >> 1u64) >> 1u64) >> 1u64) >> 1u64) >> 1u64) >> 1u64) >> 1u64) >> 1u64) >> 1u64) >> 1u64) >> 1u64) >> 1u64) >> 1u64) >> 1u64) & 1u64) as int
        + ((((((((((((((((((((((((((((((((((((((((((((((((((((((((((x >> 1u64) >> 1u64) >> 1u64) >> 1u64) >> 1u64) >> 1u64) >> 1u64) >> 1u64) >> 1u64) >> 1u64) >> 1u64) >> 1u64) >> 1u64) >> 1u64) >> 1u64) >> 1u64) >> 1u64) >> 1u64) >> 1u64) >> 1u64) >> 1u64) >> 1u64) >> 1u64) >> 1u64) >> 1u64) >> 1u64) >> 1u64) >> 1u64) >> 1u64) >> 1u64) >> 1u64) >> 1u64) >> 1u64) >> 1u64) >> 1u64) >> 1u64) >> 1u64) >> 1u64) >> 1u64) >> 1u64) >> 1u64) >> 1u64) >> 1u64) >> 1u64) >> 1u64) >> 1u64) >> 1u64) >> 1u64) >> 1u64) >> 1u64) >> 1u64) >> 1u64) >> 1u64) >> 1u64) >> 1u64) >> 1u64) >> 1u64) & 1u64) as int
        + (((((((((((((((((((((((((((((((((((((((((((((((((((((((((((x >> 1u64) >> 1u64) >> 1u64) >> 1u64) >> 1u64) >> 1u64) >> 1u64) >> 1u64) >> 1u64) >> 1u64) >> 1u64) >> 1u64) >> 1u64) >> 1u64) >> 1u64) >> 1u64) >> 1u64) >> 1u64) >> 1u64) >> 1u64) >> 1u64) >> 1u64) >> 1u64) >> 1u64) >> 1u64) >> 1u64) >> 1u64) >> 1u64) >> 1u64) >> 1u64) >> 1u64) >> 1u64) >> 1u64) >> 1u64) >> 1u64) >> 1u64) >> 1u64) >> 1u64) >> 1u64) >> 1u64) >> 1u64) >> 1u64) >> 1u64) >> 1u64) >> 1u64) >> 1u64) >> 1u64) >> 1u64) >> 1u64) >> 1u64) >> 1u64) >> 1u64) >> 1u64) >> 1u64) >> 1u64) >> 1u64) >> 1u64) >> 1u64) & 1u64) as int
        + ((((((((((((((((((((((((((((((((((((((((((((((((((((((((((((x >> 1u64) >> 1u64) >> 1u64) >> 1u64) >> 1u64) >> 1u64) >> 1u64) >> 1u64) >> 1u64) >> 1u64) >> 1u64) >> 1u64) >> 1u64) >> 1u64) >> 1u64) >> 1u64) >> 1u64) >> 1u64) >> 1u64) >> 1u64) >> 1u64) >> 1u64) >> 1u64) >> 1u64) >> 1u64) >> 1u64) >> 1u64) >> 1u64) >> 1u64) >> 1u64) >> 1u64) >> 1u64) >> 1u64) >> 1u64) >> 1u64) >> 1u64) >> 1u64) >> 1u64) >> 1u64) >> 1u64) >> 1u64) >> 1u64) >> 1u64) >> 1u64) >> 1u64) >> 1u64) >> 1u64) >> 1u64) >> 1u64) >> 1u64) >> 1u64) >> 1u64) >> 1u64) >> 1u64) >> 1u64) >> 1u64) >> 1u64) >> 1u64) >> 1u64) & 1u64) as int
        + (((((((((((((((((((((((((((((((((((((((((((((((((((((((((((((x >> 1u64) >> 1u64) >> 1u64) >> 1u64) >> 1u64) >> 1u64) >> 1u64) >> 1u64) >> 1u64) >> 1u64) >> 1u64) >> 1u64) >> 1u64) >> 1u64) >> 1u64) >> 1u64) >> 1u64) >> 1u64) >> 1u64) >> 1u64) >> 1u64) >> 1u64) >> 1u64) >> 1u64) >> 1u64) >> 1u64) >> 1u64) >> 1u64) >> 1u64) >> 1u64) >> 1u64) >> 1u64) >> 1u64) >> 1u64) >> 1u64) >> 1u64) >> 1u64) >> 1u64) >> 1u64) >> 1u64) >> 1u64) >> 1u64) >> 1u64) >> 1u64) >> 1u64) >> 1u64) >> 1u64) >> 1u64) >> 1u64) >> 1u64) >> 1u64) >> 1u64) >> 1u64) >> 1u64) >> 1u64) >> 1u64) >> 1u64) >> 1u64) >> 1u64) >> 1u64) & 1u64) as int
        + ((((((((((((((((((((((((((((((((((((((((((((((((((((((((((((((x >> 1u64) >> 1u64) >> 1u64) >> 1u64) >> 1u64) >> 1u64) >> 1u64) >> 1u64) >> 1u64) >> 1u64) >> 1u64) >> 1u64) >> 1u64) >> 1u64) >> 1u64) >> 1u64) >> 1u64) >> 1u64) >> 1u64) >> 1u64) >> 1u64) >> 1u64) >> 1u64) >> 1u64) >> 1u64) >> 1u64) >> 1u64) >> 1u64) >> 1u64) >> 1u64) >> 1u64) >> 1u64) >> 1u64) >> 1u64) >> 1u64) >> 1u64) >> 1u64) >> 1u64) >> 1u64) >> 1u64) >> 1u64) >> 1u64) >> 1u64) >> 1u64) >> 1u64) >> 1u64) >> 1u64) >> 1u64) >> 1u64) >> 1u64) >> 1u64) >> 1u64) >> 1u64) >> 1u64) >> 1u64) >> 1u64) >> 1u64) >> 1u64) >> 1u64) >> 1u64) >> 1u64) & 1u64) as int
        + (((((((((((((((((((((((((((((((((((((((((((((((((((((((((((((((x >> 1u64) >> 1u64) >> 1u64) >> 1u64) >> 1u64) >> 1u64) >> 1u64) >> 1u64) >> 1u64) >> 1u64) >> 1u64) >> 1u64) >> 1u64) >> 1u64) >> 1u64) >> 1u64) >> 1u64) >> 1u64) >> 1u64) >> 1u64) >> 1u64) >> 1u64) >> 1u64) >> 1u64) >> 1u64) >> 1u64) >> 1u64) >> 1u64) >> 1u64) >> 1u64) >> 1u64) >> 1u64) >> 1u64) >> 1u64) >> 1u64) >> 1u64) >> 1u64) >> 1u64) >> 1u64) >> 1u64) >> 1u64) >> 1u64) >> 1u64) >> 1u64) >> 1u64) >> 1u64) >> 1u64) >> 1u64) >> 1u64) >> 1u64) >> 1u64) >> 1u64) >> 1u64) >> 1u64) >> 1u64) >> 1u64) >> 1u64) >> 1u64) >> 1u64) >> 1u64) >> 1u64) >> 1u64) & 1u64) as int
        + ((((((((((((((((((((((((((((((((((((((((((((((((((((((((((((((((x >> 1u64) >> 1u64) >> 1u64) >> 1u64) >> 1u64) >> 1u64) >> 1u64) >> 1u64) >> 1u64) >> 1u64) >> 1u64) >> 1u64) >> 1u64) >> 1u64) >> 1u64) >> 1u64) >> 1u64) >> 1u64) >> 1u64) >> 1u64) >> 1u64) >> 1u64) >> 1u64) >> 1u64) >> 1u64) >> 1u64) >> 1u64) >> 1u64) >> 1u64) >> 1u64) >> 1u64) >> 1u64) >> 1u64) >> 1u64) >> 1u64) >> 1u64) >> 1u64) >> 1u64) >> 1u64) >> 1u64) >> 1u64) >> 1u64) >> 1u64) >> 1u64) >> 1u64) >> 1u64) >> 1u64) >> 1u64) >> 1u64) >> 1u64) >> 1u64) >> 1u64) >> 1u64) >> 1u64) >> 1u64) >> 1u64) >> 1u64) >> 1u64) >> 1u64) >> 1u64) >> 1u64) >> 1u64) >> 1u64) & 1u64) as int
}

#[verifier::rlimit(100)]
proof fn lemma_bits64(x: u64)
    ensures
        pop_count(x) == bits64(x),
{
    vstd::arithmetic::power2::lemma2_to64();
    lemma_pop_count_low_bits(x, 64);
    reveal_with_fuel(low_bits, 65);
}

pub(crate) proof fn lemma_rook_table(s: u64)
    by (bit_vector)
    requires
        s < 64,
    ensures
        rook_mask_value(s) == rook_mask_table(s),
        bits64(rook_mask_table(s)) == rook_mask_bits(s),
{
}

proof fn lemma_bishop_table_bits(s: u64, t: u64)
    by (bit_vector)
    requires
        s < 64,
        t < 64,
    ensures
        ((bishop_mask_table(s) >> t) & 1u64 == 1u64) == (t != s && (t % 8 + s / 8 == s % 8 + t / 8 || t % 8
            + t / 8 == s % 8 + s / 8) && !((t % 8 == 0 && s % 8 != 0) || (t % 8 == 7 && s % 8 != 7) || (t / 8
            == 0 && s / 8 != 0) || (t / 8 == 7 && s / 8 != 7))),
{
}

proof fn lemma_bishop_table_count(s: u64)
    by (bit_vector)
    requires
        s < 64,
    ensures
        bits64(bishop_mask_table(s)) == bishop_mask_bits(s),
{
}

proof fn lemma_edges_bits(f: u64, r: u64, t: u64)
    by (bit_vector)
    requires
        f < 8,
        r < 8,
        t < 64,
    ensures
        ((edges_value(f, r) >> t) & 1u64 == 1u64) == ((t % 8 == 0 && f != 0) || (t % 8 == 7 && f != 7) || (t
            / 8 == 0 && r != 0) || (t / 8 == 7 && r != 7)),
{
}

pub(crate) proof fn lemma_bishop_table(s: u64)
    requires
        s < 64,
    ensures
        bishop_mask_value(s) == bishop_mask_table(s),
{
    let sq = s as int;
    let ul = ray_bb(0, sq, Direction::UpLeft);
    let ur = ray_bb(0, sq, Direction::UpRight);
    let dr = ray_bb(0, sq, Direction::DownRight);
    let dl = ray_bb(0, sq, Direction::DownLeft);
    let rays = ul | ur | dr | dl;
    let edges = edges_value(s % 8, s / 8);
    assert forall|t: u64| t < 64 implies bit_set(bishop_mask_value(s), t) == bit_set(bishop_mask_table(s), t) by {
        lemma_bit_and(rays, !edges, t);
        lemma_bit_not(edges, t);
        lemma_bit_or(ul, ur, t);
        lemma_bit_or(ul | ur, dr, t);
        lemma_bit_or(ul | ur | dr, dl, t);
        lemma_ray_bb_bits(0, sq, Direction::UpLeft, t);
        lemma_ray_bb_bits(0, sq, Direction::UpRight, t);
        lemma_ray_bb_bits(0, sq, Direction::DownRight, t);
        lemma_ray_bb_bits(0, sq, Direction::DownLeft, t);
        lemma_empty_ray(sq, Direction::UpLeft, t as int);
        lemma_empty_ray(sq, Direction::UpRight, t as int);
        lemma_empty_ray(sq, Direction::DownRight, t as int);
        lemma_empty_ray(sq, Direction::DownLeft, t as int);
        lemma_edges_bits(s % 8, s / 8, t);
        lemma_bishop_table_bits(s, t);
    }
    lemma_bits_equal(bishop_mask_value(s), bishop_mask_table(s));
}

/// The number of squares in the mask of square `s`.
pub open spec fn mask_bits(s: int, is_rook: bool) -> nat {
    if is_rook {
        rook_mask_bits(s as u64) as nat
    } else {
        bishop_mask_bits(s as u64) as nat
    }
}

/// The mask of every square holds `mask_bits` squares.
pub proof fn lemma_mask_bits(s: int, is_rook: bool)
    requires
        0 <= s < 64,
    ensures
        pop_count(slider_mask(s, is_rook)) == mask_bits(s, is_rook),
{
    if is_rook {
        lemma_rook_table(s as u64);
        lemma_bits64(rook_mask_table(s as u64));
    } else {
        lemma_bishop_table(s as u64);
        lemma_bishop_table_count(s as u64);
        lemma_bits64(bishop_mask_table(s as u64));
    }
}

/// The number of blocker boards of the first `n` squares, from the mask
/// sizes.
pub open spec fn boards_of_bits(n: int, is_rook: bool) -> nat
    decreases n,
{
    if n <= 0 {
        0
    } else {
        boards_of_bits(n - 1, is_rook) + two_to(mask_bits(n - 1, is_rook))
    }
}

proof fn lemma_boards_before_bits(n: int, is_rook: bool)
    requires
        0 <= n <= 64,
    ensures
        boards_before(n, is_rook) == boards_of_bits(n, is_rook),
    decreases n,
{
    if n > 0 {
        lemma_boards_before_bits(n - 1, is_rook);
        lemma_mask_bits(n - 1, is_rook);
    }
}

proof fn lemma_boards_grow(a: int, b: int, is_rook: bool)
    requires
        0 <= a <= b,
    ensures
        boards_of_bits(a, is_rook) <= boards_of_bits(b, is_rook),
    decreases b - a,
{
    if a < b {
        lemma_boards_grow(a, b - 1, is_rook);
    }
}

#[verifier::rlimit(100)]
proof fn lemma_table_sizes()
    ensures
        boards_of_bits(64, true) == ROOK_TABLE_SIZE,
        boards_of_bits(64, false) == BISHOP_TABLE_SIZE,
{
    reveal_with_fuel(boards_of_bits, 65);
    reveal_with_fuel(two_to, 13);
}

/// The masks lay out the attack tables of both sliders: every mask has
/// between 1 and 63 squares, and the squares' parts fill the table exactly.
pub proof fn lemma_layout_ok(is_rook: bool)
    ensures
        layout_ok(is_rook),
{
    lemma_table_sizes();
    lemma_boards_before_bits(64, is_rook);
    assert forall|s: int| 0 <= s < 64 implies #[trigger] square_layout_ok(s, is_rook) by {
        lemma_mask_bits(s, is_rook);
        lemma_boards_before_bits(s + 1, is_rook);
        lemma_boards_grow(s + 1, 64, is_rook);
    }
}

} // verus!
