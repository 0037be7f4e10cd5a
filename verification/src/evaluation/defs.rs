//! Evaluation constants: piece values, phase values, the square flip
//! table, and the pair type holding a middlegame and an endgame value.
use vstd::prelude::*;

verus! {

/// A pair of weights: the middlegame value and the endgame value.
#[derive(Copy, Clone, PartialEq, Eq)]
pub struct W(pub i16, pub i16);

impl W {
    /// The middlegame value.
    pub fn mg(&self) -> (v: i16)
        ensures
            v == self.0,
    {
        self.0
    }

    /// The endgame value.
    pub fn eg(&self) -> (v: i16)
        ensures
            v == self.1,
    {
        self.1
    }
}

/// Material value of each piece type (king, queen, rook, bishop, knight,
/// pawn), in centipawns.
pub const PIECE_VALUES: [u16; 6] = [0, 900, 500, 320, 310, 100];

/// Contribution of each piece type to the game phase.
pub const PHASE_VALUES: [i16; 6] = [0, 1050, 405, 305, 155, 0];

/// Phase value at or below which the position counts as a pure endgame.
pub const PHASE_MIN: i16 = 435;

/// Phase value at or above which the position counts as a pure opening.
pub const PHASE_MAX: i16 = 5255;

/// Maps a square to the table element that belongs to it when the table
/// is read from white's point of view (tables are laid out with A8 first).
pub const FLIP: [usize; 64] = [
    56, 57, 58, 59, 60, 61, 62, 63,
    48, 49, 50, 51, 52, 53, 54, 55,
    40, 41, 42, 43, 44, 45, 46, 47,
    32, 33, 34, 35, 36, 37, 38, 39,
    24, 25, 26, 27, 28, 29, 30, 31,
    16, 17, 18, 19, 20, 21, 22, 23,
    8, 9, 10, 11, 12, 13, 14, 15,
    0, 1, 2, 3, 4, 5, 6, 7,
];

/// The evaluation parameters gathered in one place.
pub struct EvalParams;

impl EvalParams {
    pub const PHASE_VALUES: [i16; 6] = PHASE_VALUES;
    pub const PHASE_MIN: i16 = PHASE_MIN;
    pub const PHASE_MAX: i16 = PHASE_MAX;
    pub const FLIP: [usize; 64] = FLIP;
}

} // verus!
