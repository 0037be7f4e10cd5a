//! Messages of the Texel tuner.
pub mod defs;
