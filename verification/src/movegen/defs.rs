//! Move encoding: a move is one integer holding all its data fields.
//!
//! Field       bits  shift
//! PIECE       3     0
//! FROM        6     3
//! TO          6     9
//! CAPTURE     3     15
//! PROMOTION   3     18
//! ENPASSANT   1     21
//! DOUBLESTEP  1     22
//! CASTLING    1     23
//! SORTSCORE   16    24
pub use super::movelist::MoveList;
use crate::defs::{Piece, Square};
use vstd::prelude::*;

verus! {

const MOVE_ONLY: usize = 0xFF_FF_FF;

/// The bit offsets of the fields within the move data.
pub struct Shift;

impl Shift {
    pub const PIECE: usize = 0;
    pub const FROM_SQ: usize = 3;
    pub const TO_SQ: usize = 9;
    pub const CAPTURE: usize = 15;
    pub const PROMOTION: usize = 18;
    pub const EN_PASSANT: usize = 21;
    pub const DOUBLE_STEP: usize = 22;
    pub const CASTLING: usize = 23;
    pub const SORTSCORE: usize = 24;
}

/// Which moves a generator should produce.
#[derive(Copy, Clone, PartialEq, Eq)]
pub enum MoveType {
    Quiet,
    Capture,
    All,
}

/// The field of `width` values that starts at bit `shift` of `data`.
pub open spec fn field(data: int, shift: nat, width: int) -> int {
    (data / vstd::arithmetic::power2::pow2(shift) as int) % width
}

/// The move data of a move with the given fields (no sort score).
pub open spec fn encode(
    piece: int,
    from: int,
    to: int,
    capture: int,
    promotion: int,
    en_passant: bool,
    double_step: bool,
    castling: bool,
) -> int {
    piece + from * 8 + to * 512 + capture * 32768 + promotion * 262144 + (if en_passant {
        2097152int
    } else {
        0int
    }) + (if double_step {
        4194304int
    } else {
        0int
    }) + (if castling {
        8388608int
    } else {
        0int
    })
}

/// A chess move, with all its information packed into one integer.
#[derive(Copy, Clone, PartialEq, Eq, Debug)]
pub struct Move {
    pub data: usize,
}

proof fn lemma_pow2_values()
    ensures
        vstd::arithmetic::power2::pow2(0) == 1,
        vstd::arithmetic::power2::pow2(3) == 8,
        vstd::arithmetic::power2::pow2(9) == 512,
        vstd::arithmetic::power2::pow2(15) == 32768,
        vstd::arithmetic::power2::pow2(18) == 262144,
        vstd::arithmetic::power2::pow2(21) == 2097152,
        vstd::arithmetic::power2::pow2(22) == 4194304,
        vstd::arithmetic::power2::pow2(23) == 8388608,
        vstd::arithmetic::power2::pow2(24) == 16777216,
{
    vstd::arithmetic::power2::lemma2_to64();
}

/// Reading a field with a shift and a mask is division and remainder.
proof fn lemma_fields(d: usize)
    by (bit_vector)
    ensures
        (d >> 0usize) & 0x7 == d % 8,
        (d >> 3usize) & 0x3F == (d / 8) % 64,
        (d >> 9usize) & 0x3F == (d / 512) % 64,
        (d >> 15usize) & 0x7 == (d / 32768) % 8,
        (d >> 18usize) & 0x7 == (d / 262144) % 8,
        (d >> 21usize) & 0x1 == (d / 2097152) % 2,
        (d >> 22usize) & 0x1 == (d / 4194304) % 2,
        (d >> 23usize) & 0x1 == (d / 8388608) % 2,
        (d >> 24usize) & 0xFFFF == (d / 16777216) % 65536,
        d & 0xFFFFFFusize == d % 16777216,
{
}

/// Reading the 32-bit sort score with a shift and a mask.
proof fn lemma_score_field(d: usize)
    by (bit_vector)
    ensures
        ((d >> 24usize) & 0xFFFF_FFFFusize) as u64 == (d as u64 / 16777216u64) % 4294967296u64,
{
}

/// A field holding `f`, with `lo` below it and `hi` above it, reads back as `f`.
proof fn lemma_field_of(e: int, d: int, w: int, hi: int, f: int, lo: int)
    requires
        d > 0,
        w > 0,
        0 <= lo < d,
        0 <= f < w,
        e == (hi * w + f) * d + lo,
    ensures
        (e / d) % w == f,
{
    vstd::arithmetic::div_mod::lemma_fundamental_div_mod_converse(e, d, hi * w + f, lo);
    vstd::arithmetic::div_mod::lemma_fundamental_div_mod_converse(hi * w + f, w, hi, f);
}

/// Every field of an encoded move reads back as the value that was encoded, and the
/// sort score of a freshly encoded move is zero.
pub proof fn lemma_encode_fields(
    piece: int,
    from: int,
    to: int,
    capture: int,
    promotion: int,
    en_passant: bool,
    double_step: bool,
    castling: bool,
)
    requires
        0 <= piece < 8,
        0 <= from < 64,
        0 <= to < 64,
        0 <= capture < 8,
        0 <= promotion < 8,
    ensures
        field(encode(piece, from, to, capture, promotion, en_passant, double_step, castling), 0, 8)
            == piece,
        field(encode(piece, from, to, capture, promotion, en_passant, double_step, castling), 3, 64)
            == from,
        field(encode(piece, from, to, capture, promotion, en_passant, double_step, castling), 9, 64)
            == to,
        field(encode(piece, from, to, capture, promotion, en_passant, double_step, castling), 15, 8)
            == capture,
        field(encode(piece, from, to, capture, promotion, en_passant, double_step, castling), 18, 8)
            == promotion,
        field(encode(piece, from, to, capture, promotion, en_passant, double_step, castling), 21, 2)
            == (if en_passant { 1int } else { 0int }),
        field(encode(piece, from, to, capture, promotion, en_passant, double_step, castling), 22, 2)
            == (if double_step { 1int } else { 0int }),
        field(encode(piece, from, to, capture, promotion, en_passant, double_step, castling), 23, 2)
            == (if castling { 1int } else { 0int }),
        field(encode(piece, from, to, capture, promotion, en_passant, double_step, castling), 24, 65536)
            == 0,
{
    lemma_pow2_values();
    let e = encode(piece, from, to, capture, promotion, en_passant, double_step, castling);
    let ep: int = if en_passant { 1 } else { 0 };
    let ds: int = if double_step { 1 } else { 0 };
    let cs: int = if castling { 1 } else { 0 };
    assert(e == piece + from * 8 + to * 512 + capture * 32768 + promotion * 262144 + ep * 2097152
        + ds * 4194304 + cs * 8388608);
    lemma_field_of(
        e,
        1,
        8,
        from + to * 64 + capture * 4096 + promotion * 32768 + ep * 262144 + ds * 524288 + cs
            * 1048576,
        piece,
        0,
    );
    lemma_field_of(
        e,
        8,
        64,
        to + capture * 64 + promotion * 512 + ep * 4096 + ds * 8192 + cs * 16384,
        from,
        piece,
    );
    lemma_field_of(
        e,
        512,
        64,
        capture + promotion * 8 + ep * 64 + ds * 128 + cs * 256,
        to,
        piece + from * 8,
    );
    lemma_field_of(
        e,
        32768,
        8,
        promotion + ep * 8 + ds * 16 + cs * 32,
        capture,
        piece + from * 8 + to * 512,
    );
    lemma_field_of(
        e,
        262144,
        8,
        ep + ds * 2 + cs * 4,
        promotion,
        piece + from * 8 + to * 512 + capture * 32768,
    );
    lemma_field_of(
        e,
        2097152,
        2,
        ds + cs * 2,
        ep,
        piece + from * 8 + to * 512 + capture * 32768 + promotion * 262144,
    );
    lemma_field_of(
        e,
        4194304,
        2,
        cs,
        ds,
        piece + from * 8 + to * 512 + capture * 32768 + promotion * 262144 + ep * 2097152,
    );
    lemma_field_of(
        e,
        8388608,
        2,
        0,
        cs,
        piece + from * 8 + to * 512 + capture * 32768 + promotion * 262144 + ep * 2097152 + ds
            * 4194304,
    );
    lemma_field_of(e, 16777216, 65536, 0, 0, e);
}

/// Storing a sort score in a move whose score is still zero makes
/// `sort_score` read it back and leaves the move data below it
/// (`get_move`) as it was. The score lies in bits 24 to 39, so where move
/// data has 32 bits only scores below 256 survive the shift.
pub proof fn lemma_set_score_reads_back(data: usize, value: u16)
    requires
        usize::BITS == 64 || value < 256,
        field(data as int, 24, 65536) == 0,
    ensures
        field((data | ((value as usize) << 24usize)) as int, 24, 65536) == value,
        (data | ((value as usize) << 24usize)) % 16777216 == data % 16777216,
{
    lemma_pow2_values();
    assert((usize::BITS == 64 || value < 256) && (data / 16777216) % 65536 == 0 ==> ((data | ((value as usize)
        << 24usize)) / 16777216) % 65536 == value as usize && (data | ((value as usize) << 24usize)) % 16777216
        == data % 16777216) by (bit_vector);
}

/// Storing a sort score with `set_sort_score` in a move whose score bits
/// are still zero makes `get_sort_score` read it back and leaves the move
/// data below it (`get_move`) as it was. Where move data has 32 bits only
/// scores below 256 survive the shift.
pub proof fn lemma_set_sort_score_reads_back(data: usize, value: u32)
    requires
        usize::BITS == 64 || value < 256,
        field(data as int, 24, 4294967296) == 0,
    ensures
        field((data | ((value as usize) << 24usize)) as int, 24, 4294967296) == value,
        (data | ((value as usize) << 24usize)) % 16777216 == data % 16777216,
{
    lemma_pow2_values();
    assert((usize::BITS == 64 || value < 256) && (data as u64 / 16777216u64) % 4294967296u64 == 0 ==> ((data
        | ((value as usize) << 24usize)) as u64 / 16777216u64) % 4294967296u64 == value as u64 && (data | ((value
        as usize) << 24usize)) % 16777216 == data % 16777216) by (bit_vector);
}

impl Move {
    pub fn new(data: usize) -> (m: Self)
        ensures
            m.data == data,
    {
        Self { data }
    }

    pub fn piece(&self) -> (p: Piece)
        ensures
            p == field(self.data as int, 0, 8),
    {
        proof { lemma_pow2_values(); }
        proof { lemma_fields(self.data); }
        (self.data >> Shift::PIECE) & 0x7
    }

    pub fn from(&self) -> (sq: Square)
        ensures
            sq == field(self.data as int, 3, 64),
    {
        proof { lemma_pow2_values(); }
        proof { lemma_fields(self.data); }
        (self.data >> Shift::FROM_SQ) & 0x3F
    }

    pub fn to(&self) -> (sq: Square)
        ensures
            sq == field(self.data as int, 9, 64),
    {
        proof { lemma_pow2_values(); }
        proof { lemma_fields(self.data); }
        (self.data >> Shift::TO_SQ) & 0x3F
    }

    pub fn captured(&self) -> (p: Piece)
        ensures
            p == field(self.data as int, 15, 8),
    {
        proof { lemma_pow2_values(); }
        proof { lemma_fields(self.data); }
        (self.data >> Shift::CAPTURE) & 0x7
    }

    pub fn promoted(&self) -> (p: Piece)
        ensures
            p == field(self.data as int, 18, 8),
    {
        proof { lemma_pow2_values(); }
        proof { lemma_fields(self.data); }
        (self.data >> Shift::PROMOTION) & 0x7
    }

    pub fn en_passant(&self) -> (b: bool)
        ensures
            b == (field(self.data as int, 21, 2) == 1),
    {
        proof { lemma_pow2_values(); }
        proof { lemma_fields(self.data); }
        ((self.data >> Shift::EN_PASSANT) & 0x1) as u8 == 1
    }

    pub fn double_step(&self) -> (b: bool)
        ensures
            b == (field(self.data as int, 22, 2) == 1),
    {
        proof { lemma_pow2_values(); }
        proof { lemma_fields(self.data); }
        ((self.data >> Shift::DOUBLE_STEP) & 0x1) as u8 == 1
    }

    pub fn castling(&self) -> (b: bool)
        ensures
            b == (field(self.data as int, 23, 2) == 1),
    {
        proof { lemma_pow2_values(); }
        proof { lemma_fields(self.data); }
        ((self.data >> Shift::CASTLING) & 0x1) as u8 == 1
    }

    /// The sort score stored in the move.
    pub fn sort_score(self) -> (score: u16)
        ensures
            score == field(self.data as int, 24, 65536),
    {
        proof { lemma_pow2_values(); }
        proof { lemma_fields(self.data); }
        ((self.data >> Shift::SORTSCORE) & 0xFFFF) as u16
    }

    /// Stores a sort score in the move (or-ing it into the score bits).
    pub fn set_score(&mut self, value: u16)
        ensures
            final(self).data == old(self).data | ((value as usize) << 24usize),
    {
        self.data = self.data | ((value as usize) << Shift::SORTSCORE);
    }

    /// The sort score the move ordering uses: the 32 bits from bit 24 on
    /// (the 16-bit score field and the bits above it).
    pub fn get_sort_score(&self) -> (score: u32)
        ensures
            score == field(self.data as int, 24, 4294967296),
    {
        proof { lemma_pow2_values(); }
        proof { lemma_score_field(self.data); }
        ((self.data >> Shift::SORTSCORE) & 0xFFFF_FFFF) as u32
    }

    /// Stores the move ordering's sort score in the move (or-ing it into
    /// the bits from 24 on).
    pub fn set_sort_score(&mut self, value: u32)
        ensures
            final(self).data == old(self).data | ((value as usize) << 24usize),
    {
        self.data = self.data | ((value as usize) << Shift::SORTSCORE);
    }

    /// The move in coordinate notation, such as "e2e4" or "e7e8q".
    pub fn as_string(&self) -> (s: String)
        ensures
            s@ == square_name(field(self.data as int, 3, 64)) + square_name(field(self.data as int, 9, 64))
                + promotion_name(field(self.data as int, 18, 8)),
    {
        let mut s = String::new();
        push_square_name(&mut s, self.from());
        push_square_name(&mut s, self.to());
        s.append(piece_char_small(self.promoted()));
        s
    }

    /// The move without its sort score, as a short move.
    pub fn to_short_move(&self) -> (sm: ShortMove)
        ensures
            sm.data == self.data % 16777216,
    {
        proof { lemma_fields(self.data); }
        ShortMove::new((self.data & MOVE_ONLY) as u32)
    }

    /// The move data without the sort score.
    pub fn get_move(&self) -> (m: u32)
        ensures
            m == self.data % 16777216,
    {
        proof { lemma_fields(self.data); }
        (self.data & MOVE_ONLY) as u32
    }
}

/// A move without its sort score.
#[derive(Copy, Clone, PartialEq, Eq, Debug)]
pub struct ShortMove {
    pub data: u32,
}

impl ShortMove {
    pub fn new(m: u32) -> (sm: Self)
        ensures
            sm.data == m,
    {
        Self { data: m }
    }

    pub fn get_move(&self) -> (m: u32)
        ensures
            m == self.data,
    {
        self.data
    }
}

/// The name of a square, such as "e4".
pub open spec fn square_name(sq: int) -> Seq<char> {
    seq![(97 + sq % 8) as char, (49 + sq / 8) as char]
}

/// The lowercase letter of a promotion piece (empty when there is none).
pub open spec fn promotion_name(p: int) -> Seq<char> {
    if p == 0 {
        seq!['k']
    } else if p == 1 {
        seq!['q']
    } else if p == 2 {
        seq!['r']
    } else if p == 3 {
        seq!['b']
    } else if p == 4 {
        seq!['n']
    } else {
        Seq::empty()
    }
}

/// The lowercase letter of a piece, as used in move strings.
pub fn piece_char_small(p: Piece) -> (s: &'static str)
    ensures
        s@ == promotion_name(p as int),
{
    proof {
        reveal_strlit("k");
        reveal_strlit("q");
        reveal_strlit("r");
        reveal_strlit("b");
        reveal_strlit("n");
        reveal_strlit("");
    }
    match p {
        0 => "k",
        1 => "q",
        2 => "r",
        3 => "b",
        4 => "n",
        _ => "",
    }
}

fn file_letter(f: usize) -> (s: &'static str)
    requires
        f < 8,
    ensures
        s@ == seq![(97 + f) as char],
{
    proof {
        reveal_strlit("a");
        reveal_strlit("b");
        reveal_strlit("c");
        reveal_strlit("d");
        reveal_strlit("e");
        reveal_strlit("f");
        reveal_strlit("g");
        reveal_strlit("h");
    }
    match f {
        0 => "a",
        1 => "b",
        2 => "c",
        3 => "d",
        4 => "e",
        5 => "f",
        6 => "g",
        _ => "h",
    }
}

fn rank_digit(r: usize) -> (s: &'static str)
    requires
        r < 8,
    ensures
        s@ == seq![(49 + r) as char],
{
    proof {
        reveal_strlit("1");
        reveal_strlit("2");
        reveal_strlit("3");
        reveal_strlit("4");
        reveal_strlit("5");
        reveal_strlit("6");
        reveal_strlit("7");
        reveal_strlit("8");
    }
    match r {
        0 => "1",
        1 => "2",
        2 => "3",
        3 => "4",
        4 => "5",
        5 => "6",
        6 => "7",
        _ => "8",
    }
}

/// Appends the name of square `sq` to `s`.
fn push_square_name(s: &mut String, sq: usize)
    requires
        sq < 64,
    ensures
        final(s)@ == old(s)@ + square_name(sq as int),
{
    s.append(file_letter(sq % 8));
    s.append(rank_digit(sq / 8));
    proof {
        assert(final(s)@ =~= old(s)@ + square_name(sq as int));
    }
}

} // verus!
