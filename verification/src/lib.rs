//! A chess engine library: bitboards, attack tables, move encoding,
//! move generation, position evaluation helpers and search bookkeeping.
use vstd::prelude::*;

pub mod attacks;
pub mod bitboard;
pub mod blockers;
pub mod board;
pub mod defs;
pub mod geometry;
pub mod sliders;
pub mod engine;
pub mod evaluation;
pub mod fen;
pub mod interface;
pub mod extra;
pub mod magics;
pub mod masks;
pub mod misc;
pub mod movegen;
pub mod movements;
pub mod print;
pub mod search;
