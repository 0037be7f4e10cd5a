//! The position: piece bitboards per side, the piece on each square, and
//! the game state (side to move, castling rights, en-passant square,
//! move counters) with the history of earlier game states.
use crate::bitboard::{bit_set, lemma_bit_or, lemma_bit_zero};
use crate::defs::{Bitboard, Piece, Side, Square, BLACK, KING, PNONE, WHITE};
use vstd::prelude::*;

verus! {

pub const CASTLE_WK: u8 = 1;
pub const CASTLE_WQ: u8 = 2;
pub const CASTLE_BK: u8 = 4;
pub const CASTLE_BQ: u8 = 8;

/// The part of the position that moves change besides the pieces.
#[derive(Copy, Clone, PartialEq, Eq)]
pub struct GameState {
    pub active_color: u8,
    pub castling: u8,
    pub halfmove_clock: u8,
    pub en_passant: Option<u8>,
    pub fullmove_number: u16,
    pub zobrist_key: u64,
    pub phase_value: i16,
}

impl GameState {
    /// The game state of an empty board.
    pub open spec fn new_spec() -> Self {
        GameState {
            active_color: 0,
            castling: 0,
            halfmove_clock: 0,
            en_passant: None,
            fullmove_number: 0,
            zobrist_key: 0,
            phase_value: 0,
        }
    }

    pub fn new() -> (gs: Self)
        ensures
            gs == Self::new_spec(),
            gs.active_color == 0,
            gs.castling == 0,
            gs.halfmove_clock == 0,
            gs.en_passant is None,
            gs.fullmove_number == 0,
            gs.zobrist_key == 0,
            gs.phase_value == 0,
    {
        Self {
            active_color: 0,
            castling: 0,
            halfmove_clock: 0,
            en_passant: None,
            fullmove_number: 0,
            zobrist_key: 0,
            phase_value: 0,
        }
    }
}

/// The union of the first `n` piece bitboards of one side.
pub open spec fn side_union(bbs: [u64; 6], n: int) -> u64
    decreases n,
{
    if n <= 0 {
        0
    } else {
        side_union(bbs, n - 1) | bbs[n - 1]
    }
}

/// The highest piece type below `n` with a piece (of either side) on `t`,
/// or "no piece".
pub open spec fn piece_on(bbs: [[u64; 6]; 2], t: u64, n: int) -> usize
    decreases n,
{
    if n <= 0 {
        PNONE
    } else if bit_set(bbs[0][n - 1], t) || bit_set(bbs[1][n - 1], t) {
        (n - 1) as usize
    } else {
        piece_on(bbs, t, n - 1)
    }
}

/// A chess position.
pub struct Board {
    /// Piece bitboards: `bb_pieces[side][piece]`.
    pub bb_pieces: [[Bitboard; 6]; 2],
    /// All pieces of each side.
    pub bb_side: [Bitboard; 2],
    /// The piece type on each square (`PNONE` when empty).
    pub piece_list: [Piece; 64],
    pub game_state: GameState,
    /// The game states of the earlier positions, oldest first.
    pub history: Vec<GameState>,
}

impl Board {
    /// The bitboards and the piece list describe the same pieces: every
    /// square holds at most one piece, of one side.
    pub open spec fn wf(&self) -> bool {
        &&& self.game_state.active_color < 2
        &&& (self.game_state.en_passant matches Some(ep) ==> ep < 64)
        &&& forall|t: u64| t < 64 ==> #[trigger] self.piece_list[t as int] <= PNONE
        &&& forall|t: u64|
            t < 64 ==> !(#[trigger] bit_set(self.bb_side[0], t) && bit_set(self.bb_side[1], t))
        &&& forall|t: u64|
            t < 64 ==> ((#[trigger] self.piece_list[t as int] == PNONE) == (!bit_set(self.bb_side[0], t)
                && !bit_set(self.bb_side[1], t)))
        &&& forall|s: int, p: int, t: u64|
            0 <= s < 2 && 0 <= p < 6 && t < 64 ==> #[trigger] bit_set(self.bb_pieces[s][p], t)
                == (bit_set(self.bb_side[s], t) && self.piece_list[t as int] == p)
    }

    /// An empty board, white to move.
    pub fn new() -> (b: Self)
        ensures
            forall|s: int, p: int| 0 <= s < 2 && 0 <= p < 6 ==> b.bb_pieces[s][p] == 0,
            b.bb_side[0] == 0 && b.bb_side[1] == 0,
            forall|t: int| 0 <= t < 64 ==> b.piece_list[t] == PNONE,
            b.wf(),
            b.game_state.active_color == 0,
            b.game_state.castling == 0,
            b.game_state.halfmove_clock == 0,
            b.game_state.en_passant is None,
            b.game_state.fullmove_number == 0,
            b.game_state.zobrist_key == 0,
            b.history@.len() == 0,
    {
        let b = Self {
            bb_pieces: [[0u64; 6]; 2],
            bb_side: [0u64; 2],
            piece_list: [PNONE; 64],
            game_state: GameState::new(),
            history: Vec::new(),
        };
        proof {
            assert forall|t: u64| t < 64 implies !bit_set(0u64, t) by {
                lemma_bit_zero(t);
            }
        }
        b
    }

    /// Empties the board: no pieces, a fresh game state, no history.
    pub fn reset(&mut self)
        ensures
            forall|s: int, p: int| 0 <= s < 2 && 0 <= p < 6 ==> #[trigger] final(self).bb_pieces[s][p] == 0,
            final(self).bb_side[0] == 0 && final(self).bb_side[1] == 0,
            forall|t: int| 0 <= t < 64 ==> #[trigger] final(self).piece_list[t] == PNONE,
            final(self).game_state == GameState::new_spec(),
            final(self).history@.len() == 0,
    {
        self.bb_pieces = [[0u64; 6]; 2];
        self.bb_side = [0u64; 2];
        self.piece_list = [PNONE; 64];
        self.game_state = GameState::new();
        self.history = Vec::new();
    }

    /// Derives the side bitboards and the piece list from the piece
    /// bitboards: a side holds the squares of all its pieces, and a square
    /// lists the highest piece type found on it (of either side).
    pub fn init_pieces(&mut self)
        ensures
            final(self).bb_pieces == old(self).bb_pieces,
            forall|s: int| 0 <= s < 2 ==> #[trigger] final(self).bb_side[s] == side_union(old(self).bb_pieces[s], 6),
            forall|t: int| 0 <= t < 64 ==> #[trigger] final(self).piece_list[t] == piece_on(old(self).bb_pieces, t as u64, 6),
            final(self).game_state == old(self).game_state,
            final(self).history@ == old(self).history@,
    {
        let mut sides = [0u64; 2];
        let mut s: usize = 0;
        while s < 2
            invariant
                0 <= s <= 2,
                forall|a: int| 0 <= a < s ==> #[trigger] sides[a] == side_union(self.bb_pieces[a], 6),
            decreases 2 - s,
        {
            let mut acc: u64 = 0;
            let mut p: usize = 0;
            while p < 6
                invariant
                    0 <= p <= 6,
                    s < 2,
                    acc == side_union(self.bb_pieces[s as int], p as int),
                decreases 6 - p,
            {
                acc = acc | self.bb_pieces[s][p];
                p += 1;
            }
            sides[s] = acc;
            s += 1;
        }
        let mut list = [PNONE; 64];
        let mut t: usize = 0;
        while t < 64
            invariant
                0 <= t <= 64,
                forall|q: int| 0 <= q < t ==> #[trigger] list[q] == piece_on(self.bb_pieces, q as u64, 6),
            decreases 64 - t,
        {
            let mut found = PNONE;
            let mut p: usize = 0;
            while p < 6
                invariant
                    0 <= p <= 6,
                    t < 64,
                    found == piece_on(self.bb_pieces, t as u64, p as int),
                decreases 6 - p,
            {
                let w = (self.bb_pieces[0][p] >> (t as u64)) & 1 == 1;
                let b = (self.bb_pieces[1][p] >> (t as u64)) & 1 == 1;
                if w || b {
                    found = p;
                }
                p += 1;
            }
            list[t] = found;
            t += 1;
        }
        self.bb_side = sides;
        self.piece_list = list;
    }

    /// All occupied squares.
    pub fn occupancy(&self) -> (bb: Bitboard)
        ensures
            bb == self.bb_side[0] | self.bb_side[1],
    {
        self.bb_side[WHITE] | self.bb_side[BLACK]
    }

    /// The bitboard of the pieces of type `piece` of `side`.
    pub fn get_pieces(&self, piece: Piece, side: Side) -> (bb: Bitboard)
        requires
            piece < 6,
            side < 2,
        ensures
            bb == self.bb_pieces[side as int][piece as int],
    {
        self.bb_pieces[side][piece]
    }

    /// The square of the king of `side` (the lowest one, should there be
    /// more than one).
    pub fn king_square(&self, side: Side) -> (sq: Square)
        requires
            side < 2,
            self.bb_pieces[side as int][KING as int] != 0,
        ensures
            sq == vstd::std_specs::bits::u64_trailing_zeros(self.bb_pieces[side as int][KING as int]),
            sq < 64,
    {
        proof {
            vstd::std_specs::bits::axiom_u64_trailing_zeros(self.bb_pieces[side as int][KING as int]);
        }
        self.bb_pieces[side][KING].trailing_zeros() as usize
    }

    /// The side to move.
    pub fn us(&self) -> (s: usize)
        ensures
            s == self.game_state.active_color,
    {
        self.game_state.active_color as usize
    }

    /// The side not to move.
    pub fn opponent(&self) -> (s: usize)
        requires
            self.game_state.active_color < 2,
        ensures
            s == 1 - self.game_state.active_color,
    {
        let c = self.game_state.active_color;
        assert(c < 2 ==> c ^ 1 == 1 - c) by (bit_vector);
        (c ^ 1) as usize
    }
}

} // verus!
