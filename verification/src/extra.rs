//! Tooling around the engine: loading tuning data.
pub mod texel;
pub mod wizardry;
