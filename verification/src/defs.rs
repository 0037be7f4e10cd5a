//! Basic types and constants shared by the whole engine.
use vstd::prelude::*;

verus! {

/// A set of squares, one bit per square (bit 0 is A1, bit 63 is H8).
pub type Bitboard = u64;
/// A square number, 0 (A1) up to 63 (H8).
pub type Square = usize;
/// A piece type number (see the piece constants below).
pub type Piece = usize;
/// A side number: 0 is white, 1 is black.
pub type Side = usize;

pub const KING: usize = 0;
pub const QUEEN: usize = 1;
pub const ROOK: usize = 2;
pub const BISHOP: usize = 3;
pub const KNIGHT: usize = 4;
pub const PAWN: usize = 5;
pub const PNONE: usize = 6;

pub const WHITE: usize = 0;
pub const BLACK: usize = 1;

/// The deepest ply the search goes to.
pub const MAX_PLY: i8 = 125;

pub const EMPTY: u64 = 0;
pub const NR_OF_SQUARES: usize = 64;

} // verus!
