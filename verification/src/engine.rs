//! Data the engine shares between its parts: what the transposition
//! table stores per position.
pub mod defs;
