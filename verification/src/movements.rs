//! An earlier form of the attack tables: king, knight and pawn attacks
//! per square, and the slider masks with their shifts, prepared for magic
//! indexing. The magic tables themselves are in `magics`.
use crate::attacks::{create_bishop_mask, king_board, king_bb, knight_board, knight_bb, pawn_bb, pawn_boards, create_rook_mask};
use crate::bitboard::{count_ones, pop_count};
use crate::defs::{Bitboard, Piece, Side, KING, KNIGHT};
use crate::movements::magics::{mask_ok, Magics};
use vstd::prelude::*;

pub mod fit;
pub mod layout;
pub mod magics;

verus! {

/// The first and one-past-last square on which a pawn can stand.
pub const PAWN_SQUARES_START: usize = 8;
pub const PAWN_SQUARES_END: usize = 56;

/// Attack tables of the non-sliding pieces, and the slider masks.
pub struct Movements {
    pub king: Vec<Bitboard>,
    pub knight: Vec<Bitboard>,
    pub pawns: [Vec<Bitboard>; 2],
    pub rook_magics: Vec<Magics>,
    pub bishop_magics: Vec<Magics>,
}

/// The tables after initialization: king and knight attacks on every
/// square, pawn attacks on the squares a pawn can stand on (none on the
/// first and last rank), and for every square the rook and bishop mask
/// with a shift of 64 minus the number of mask bits.
pub open spec fn movements_ready(m: Movements) -> bool {
    &&& m.king@.len() == 64
    &&& m.knight@.len() == 64
    &&& m.pawns[0]@.len() == 64
    &&& m.pawns[1]@.len() == 64
    &&& m.rook_magics@.len() == 64
    &&& m.bishop_magics@.len() == 64
    &&& forall|sq: int| 0 <= sq < 64 ==> #[trigger] m.king@[sq] == king_bb(sq as u64)
    &&& forall|sq: int| 0 <= sq < 64 ==> #[trigger] m.knight@[sq] == knight_bb(sq as u64)
    &&& forall|s: int, sq: int| 0 <= s < 2 && 0 <= sq < 64 ==> #[trigger] m.pawns[s]@[sq] == if PAWN_SQUARES_START <= sq < PAWN_SQUARES_END {
        pawn_bb(s, sq as u64)
    } else {
        0u64
    }
    &&& forall|sq: int| 0 <= sq < 64 ==> mask_ok(#[trigger] m.rook_magics@[sq].mask, sq, true)
        && m.rook_magics@[sq].shift == 64 - pop_count(m.rook_magics@[sq].mask)
    &&& forall|sq: int| 0 <= sq < 64 ==> mask_ok(#[trigger] m.bishop_magics@[sq].mask, sq, false)
        && m.bishop_magics@[sq].shift == 64 - pop_count(m.bishop_magics@[sq].mask)
}

fn empty_table() -> (t: Vec<Bitboard>)
    ensures
        t@.len() == 64,
        forall|i: int| 0 <= i < 64 ==> #[trigger] t@[i] == 0,
{
    let mut t: Vec<Bitboard> = Vec::new();
    while t.len() < 64
        invariant
            t@.len() <= 64,
            forall|i: int| 0 <= i < t@.len() ==> #[trigger] t@[i] == 0,
        decreases 64 - t@.len(),
    {
        t.push(0);
    }
    t
}

fn empty_magics() -> (t: Vec<Magics>)
    ensures
        t@.len() == 64,
        forall|i: int| 0 <= i < 64 ==> #[trigger] t@[i] == (Magics { mask: 0, shift: 0, offset: 0, magic: 0 }),
{
    let mut t: Vec<Magics> = Vec::new();
    while t.len() < 64
        invariant
            t@.len() <= 64,
            forall|i: int| 0 <= i < t@.len() ==> #[trigger] t@[i] == (Magics { mask: 0, shift: 0, offset: 0, magic: 0 }),
        decreases 64 - t@.len(),
    {
        t.push(Magics { mask: 0, shift: 0, offset: 0, magic: 0 });
    }
    t
}

impl Movements {
    /// Empty tables.
    pub fn new() -> (m: Self)
        ensures
            m.king@.len() == 64 && m.knight@.len() == 64,
            m.pawns[0]@.len() == 64 && m.pawns[1]@.len() == 64,
            m.rook_magics@.len() == 64 && m.bishop_magics@.len() == 64,
            forall|i: int| 0 <= i < 64 ==> #[trigger] m.king@[i] == 0 && m.knight@[i] == 0 && m.pawns[0]@[i] == 0 && m.pawns[1]@[i] == 0,
    {
        Movements {
            king: empty_table(),
            knight: empty_table(),
            pawns: [empty_table(), empty_table()],
            rook_magics: empty_magics(),
            bishop_magics: empty_magics(),
        }
    }

    /// Fills all tables.
    pub fn initialize(&mut self)
        requires
            old(self).king@.len() == 64,
            old(self).knight@.len() == 64,
            old(self).pawns[0]@.len() == 64,
            old(self).pawns[1]@.len() == 64,
            forall|s: int, sq: int| 0 <= s < 2 && 0 <= sq < 64 ==> #[trigger] old(self).pawns[s]@[sq] == 0,
            old(self).rook_magics@.len() == 64,
            old(self).bishop_magics@.len() == 64,
        ensures
            movements_ready(*final(self)),
    {
        self.init_king();
        self.init_knight();
        self.init_pawns();
        self.init_magics();
    }

    /// The attacks of a king or knight on `square`; nothing for other
    /// pieces.
    pub fn get_non_slider_attacks(&self, piece: Piece, square: usize) -> (bb: Bitboard)
        requires
            movements_ready(*self),
            square < 64,
        ensures
            piece == KING ==> bb == king_bb(square as u64),
            piece == KNIGHT ==> bb == knight_bb(square as u64),
            piece != KING && piece != KNIGHT ==> bb == 0,
    {
        if piece == KING {
            self.king[square]
        } else if piece == KNIGHT {
            self.knight[square]
        } else {
            0
        }
    }

    /// The squares a pawn of `side` on `square` attacks.
    pub fn get_pawn_attacks(&self, side: Side, square: usize) -> (bb: Bitboard)
        requires
            movements_ready(*self),
            side < 2,
            square < 64,
        ensures
            bb == if PAWN_SQUARES_START <= square < PAWN_SQUARES_END {
                pawn_bb(side as int, square as u64)
            } else {
                0u64
            },
    {
        if side == 0 {
            self.pawns[0][square]
        } else {
            self.pawns[1][square]
        }
    }

    /// The king attacks of every square.
    fn init_king(&mut self)
        requires
            old(self).king@.len() == 64,
        ensures
            final(self).king@.len() == 64,
            forall|sq: int| 0 <= sq < 64 ==> #[trigger] final(self).king@[sq] == king_bb(sq as u64),
            final(self).knight == old(self).knight,
            final(self).pawns == old(self).pawns,
            final(self).rook_magics == old(self).rook_magics,
            final(self).bishop_magics == old(self).bishop_magics,
    {
        let mut sq: usize = 0;
        while sq < 64
            invariant
                sq <= 64,
                self.king@.len() == 64,
                forall|s: int| 0 <= s < sq ==> #[trigger] self.king@[s] == king_bb(s as u64),
                self.knight == old(self).knight,
                self.pawns == old(self).pawns,
                self.rook_magics == old(self).rook_magics,
                self.bishop_magics == old(self).bishop_magics,
            decreases 64 - sq,
        {
            let bb = king_board(sq as u64);
            self.king.set(sq, bb);
            sq += 1;
        }
    }

    /// The knight attacks of every square.
    fn init_knight(&mut self)
        requires
            old(self).knight@.len() == 64,
        ensures
            final(self).knight@.len() == 64,
            forall|sq: int| 0 <= sq < 64 ==> #[trigger] final(self).knight@[sq] == knight_bb(sq as u64),
            final(self).king == old(self).king,
            final(self).pawns == old(self).pawns,
            final(self).rook_magics == old(self).rook_magics,
            final(self).bishop_magics == old(self).bishop_magics,
    {
        let mut sq: usize = 0;
        while sq < 64
            invariant
                sq <= 64,
                self.knight@.len() == 64,
                forall|s: int| 0 <= s < sq ==> #[trigger] self.knight@[s] == knight_bb(s as u64),
                self.king == old(self).king,
                self.pawns == old(self).pawns,
                self.rook_magics == old(self).rook_magics,
                self.bishop_magics == old(self).bishop_magics,
            decreases 64 - sq,
        {
            let bb = knight_board(sq as u64);
            self.knight.set(sq, bb);
            sq += 1;
        }
    }

    /// The pawn attacks of both sides on the squares a pawn can stand on.
    fn init_pawns(&mut self)
        requires
            old(self).pawns[0]@.len() == 64,
            old(self).pawns[1]@.len() == 64,
            forall|s: int, sq: int| 0 <= s < 2 && 0 <= sq < 64 ==> #[trigger] old(self).pawns[s]@[sq] == 0,
        ensures
            final(self).pawns[0]@.len() == 64,
            final(self).pawns[1]@.len() == 64,
            forall|s: int, sq: int| 0 <= s < 2 && 0 <= sq < 64 ==> #[trigger] final(self).pawns[s]@[sq] == if PAWN_SQUARES_START <= sq < PAWN_SQUARES_END {
                pawn_bb(s, sq as u64)
            } else {
                0u64
            },
            final(self).king == old(self).king,
            final(self).knight == old(self).knight,
            final(self).rook_magics == old(self).rook_magics,
            final(self).bishop_magics == old(self).bishop_magics,
    {
        let mut white = empty_table();
        let mut black = empty_table();
        let mut sq: usize = PAWN_SQUARES_START;
        while sq < PAWN_SQUARES_END
            invariant
                PAWN_SQUARES_START <= sq <= PAWN_SQUARES_END,
                white@.len() == 64,
                black@.len() == 64,
                forall|s: int| 0 <= s < 64 ==> #[trigger] white@[s] == if PAWN_SQUARES_START <= s < sq { pawn_bb(0, s as u64) } else { 0u64 },
                forall|s: int| 0 <= s < 64 ==> #[trigger] black@[s] == if PAWN_SQUARES_START <= s < sq { pawn_bb(1, s as u64) } else { 0u64 },
            decreases PAWN_SQUARES_END - sq,
        {
            let (w, b) = pawn_boards(sq as u64);
            white.set(sq, w);
            black.set(sq, b);
            sq += 1;
        }
        self.pawns = [white, black];
    }

    /// The rook and bishop masks of every square, with their shifts.
    fn init_magics(&mut self)
        requires
            old(self).rook_magics@.len() == 64,
            old(self).bishop_magics@.len() == 64,
        ensures
            final(self).rook_magics@.len() == 64,
            final(self).bishop_magics@.len() == 64,
            forall|sq: int| 0 <= sq < 64 ==> mask_ok(#[trigger] final(self).rook_magics@[sq].mask, sq, true)
                && final(self).rook_magics@[sq].shift == 64 - pop_count(final(self).rook_magics@[sq].mask),
            forall|sq: int| 0 <= sq < 64 ==> mask_ok(#[trigger] final(self).bishop_magics@[sq].mask, sq, false)
                && final(self).bishop_magics@[sq].shift == 64 - pop_count(final(self).bishop_magics@[sq].mask),
            final(self).king == old(self).king,
            final(self).knight == old(self).knight,
            final(self).pawns == old(self).pawns,
    {
        let mut sq: usize = 0;
        while sq < 64
            invariant
                sq <= 64,
                self.rook_magics@.len() == 64,
                self.bishop_magics@.len() == 64,
                forall|s: int| 0 <= s < sq ==> mask_ok(#[trigger] self.rook_magics@[s].mask, s, true)
                    && self.rook_magics@[s].shift == 64 - pop_count(self.rook_magics@[s].mask),
                forall|s: int| 0 <= s < sq ==> mask_ok(#[trigger] self.bishop_magics@[s].mask, s, false)
                    && self.bishop_magics@[s].shift == 64 - pop_count(self.bishop_magics@[s].mask),
                self.king == old(self).king,
                self.knight == old(self).knight,
                self.pawns == old(self).pawns,
            decreases 64 - sq,
        {
            let mask = create_rook_mask(sq as u8);
            let bits = count_ones(mask);
            let mut m = self.rook_magics[sq];
            m.mask = mask;
            m.shift = (64 - bits) as u8;
            self.rook_magics.set(sq, m);
            let bmask = create_bishop_mask(sq as u8);
            let bbits = count_ones(bmask);
            let mut bm = self.bishop_magics[sq];
            bm.mask = bmask;
            bm.shift = (64 - bbits) as u8;
            self.bishop_magics.set(sq, bm);
            sq += 1;
        }
    }
}

impl Default for Movements {
    /// Empty tables, as `new` gives them.
    fn default() -> (m: Self)
        ensures
            m.king@.len() == 64 && m.knight@.len() == 64,
            m.pawns[0]@.len() == 64 && m.pawns[1]@.len() == 64,
            m.rook_magics@.len() == 64 && m.bishop_magics@.len() == 64,
            forall|i: int| 0 <= i < 64 ==> #[trigger] m.king@[i] == 0 && m.knight@[i] == 0 && m.pawns[0]@[i] == 0 && m.pawns[1]@[i] == 0,
    {
        Movements::new()
    }
}

} // verus!
