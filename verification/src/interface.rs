//! The engine's text interfaces.
pub mod console;
