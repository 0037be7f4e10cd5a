//! Filling the attack tables of the move generator.
use super::{non_slider_table_ok, pawn_table_ok, MoveGenerator};
use crate::attacks::{king_board, knight_board, pawn_boards};
use crate::defs::{Piece, BISHOP, KING, KNIGHT, ROOK};
use crate::movements::magics::{
    build_table, constants_fit, lemma_parts_tile, magic_data_ok, next_offset, parts_tile, table_ok, BISHOP_TABLE_SIZE,
    ROOK_TABLE_SIZE,
};
use vstd::prelude::*;

verus! {

impl MoveGenerator {
    /// Generates the king attacks for each square.
    pub fn init_king(&mut self)
        requires
            old(self).king@.len() == 64,
        ensures
            non_slider_table_ok(final(self).king@, KING as int),
            final(self).knight == old(self).knight,
            final(self).pawns == old(self).pawns,
            final(self).rook == old(self).rook,
            final(self).bishop == old(self).bishop,
            final(self).rook_magics == old(self).rook_magics,
            final(self).bishop_magics == old(self).bishop_magics,
            final(self).rook_indexed == old(self).rook_indexed,
            final(self).bishop_indexed == old(self).bishop_indexed,
    {
        let mut sq: usize = 0;
        while sq < 64
            invariant
                sq <= 64,
                self.king@.len() == 64,
                forall|s: int| 0 <= s < sq ==> #[trigger] self.king@[s] == crate::attacks::king_bb(s as u64),
                self.knight == old(self).knight,
                self.pawns == old(self).pawns,
                self.rook == old(self).rook,
                self.bishop == old(self).bishop,
                self.rook_magics == old(self).rook_magics,
                self.bishop_magics == old(self).bishop_magics,
                self.rook_indexed == old(self).rook_indexed,
                self.bishop_indexed == old(self).bishop_indexed,
            decreases 64 - sq,
        {
            let bb = king_board(sq as u64);
            self.king.set(sq, bb);
            sq = sq + 1;
        }
    }

    /// Generates the knight attacks for each square.
    pub fn init_knight(&mut self)
        requires
            old(self).knight@.len() == 64,
        ensures
            non_slider_table_ok(final(self).knight@, KNIGHT as int),
            final(self).king == old(self).king,
            final(self).pawns == old(self).pawns,
            final(self).rook == old(self).rook,
            final(self).bishop == old(self).bishop,
            final(self).rook_magics == old(self).rook_magics,
            final(self).bishop_magics == old(self).bishop_magics,
            final(self).rook_indexed == old(self).rook_indexed,
            final(self).bishop_indexed == old(self).bishop_indexed,
    {
        let mut sq: usize = 0;
        while sq < 64
            invariant
                sq <= 64,
                self.knight@.len() == 64,
                forall|s: int| 0 <= s < sq ==> #[trigger] self.knight@[s] == crate::attacks::knight_bb(s as u64),
                self.king == old(self).king,
                self.pawns == old(self).pawns,
                self.rook == old(self).rook,
                self.bishop == old(self).bishop,
                self.rook_magics == old(self).rook_magics,
                self.bishop_magics == old(self).bishop_magics,
                self.rook_indexed == old(self).rook_indexed,
                self.bishop_indexed == old(self).bishop_indexed,
            decreases 64 - sq,
        {
            let bb = knight_board(sq as u64);
            self.knight.set(sq, bb);
            sq = sq + 1;
        }
    }

    /// Generates the pawn capture targets of both sides for each square.
    pub fn init_pawns(&mut self)
        requires
            old(self).pawns@.len() == 2,
            old(self).pawns@[0]@.len() == 64,
            old(self).pawns@[1]@.len() == 64,
        ensures
            final(self).pawns@.len() == 2,
            pawn_table_ok(final(self).pawns@[0]@, 0),
            pawn_table_ok(final(self).pawns@[1]@, 1),
            final(self).king == old(self).king,
            final(self).knight == old(self).knight,
            final(self).rook == old(self).rook,
            final(self).bishop == old(self).bishop,
            final(self).rook_magics == old(self).rook_magics,
            final(self).bishop_magics == old(self).bishop_magics,
            final(self).rook_indexed == old(self).rook_indexed,
            final(self).bishop_indexed == old(self).bishop_indexed,
    {
        let mut white = self.pawns[0].clone();
        let mut black = self.pawns[1].clone();
        let mut sq: usize = 0;
        while sq < 64
            invariant
                sq <= 64,
                white@.len() == 64,
                black@.len() == 64,
                forall|s: int| 0 <= s < sq ==> #[trigger] white@[s] == crate::attacks::pawn_bb(0, s as u64),
                forall|s: int| 0 <= s < sq ==> #[trigger] black@[s] == crate::attacks::pawn_bb(1, s as u64),
            decreases 64 - sq,
        {
            let (w, b) = pawn_boards(sq as u64);
            white.set(sq, w);
            black.set(sq, b);
            sq = sq + 1;
        }
        let mut pawns: Vec<Vec<u64>> = Vec::new();
        pawns.push(white);
        pawns.push(black);
        self.pawns = pawns;
    }

    /// Builds the attack table of the rook or the bishop, indexed with the
    /// pre-generated magic numbers (a perfect hash of all blocker boards).
    /// Each square's part of the table, from its offset on, one entry per
    /// blocker board of its mask, lies after the part of the square before
    /// it; the 64 parts do not overlap and together fill the whole table.
    pub fn init_magics(&mut self, piece: Piece)
        requires
            piece == ROOK || piece == BISHOP,
        ensures
            piece == ROOK ==> final(self).rook_indexed == constants_fit(true),
            piece == ROOK ==> final(self).rook_indexed,
            piece == ROOK ==> magic_data_ok(final(self).rook_magics@, true),
            piece == ROOK ==> (final(self).rook_indexed ==> table_ok(final(self).rook@, final(self).rook_magics@, true, 64)),
            piece == ROOK ==> final(self).rook@.len() == ROOK_TABLE_SIZE && final(self).rook_magics@.len() == 64,
            piece == ROOK ==> next_offset(final(self).rook_magics@) == ROOK_TABLE_SIZE,
            piece == ROOK ==> parts_tile(final(self).rook_magics@),
            piece == ROOK ==> final(self).bishop == old(self).bishop && final(self).bishop_magics == old(self).bishop_magics && final(self).bishop_indexed == old(self).bishop_indexed,
            piece == BISHOP ==> final(self).bishop_indexed == constants_fit(false),
            piece == BISHOP ==> final(self).bishop_indexed,
            piece == BISHOP ==> magic_data_ok(final(self).bishop_magics@, false),
            piece == BISHOP ==> (final(self).bishop_indexed ==> table_ok(final(self).bishop@, final(self).bishop_magics@, false, 64)),
            piece == BISHOP ==> final(self).bishop@.len() == BISHOP_TABLE_SIZE && final(self).bishop_magics@.len() == 64,
            piece == BISHOP ==> next_offset(final(self).bishop_magics@) == BISHOP_TABLE_SIZE,
            piece == BISHOP ==> parts_tile(final(self).bishop_magics@),
            piece == BISHOP ==> final(self).rook == old(self).rook && final(self).rook_magics == old(self).rook_magics && final(self).rook_indexed == old(self).rook_indexed,
            final(self).king == old(self).king,
            final(self).knight == old(self).knight,
            final(self).pawns == old(self).pawns,
    {
        let is_rook = piece == ROOK;
        let (table, magics, indexed) = build_table(is_rook);
        proof {
            lemma_parts_tile(magics@, is_rook);
        }
        if is_rook {
            self.rook = table;
            self.rook_magics = magics;
            self.rook_indexed = indexed;
        } else {
            self.bishop = table;
            self.bishop_magics = magics;
            self.bishop_indexed = indexed;
        }
    }
}

} // verus!
