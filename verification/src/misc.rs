pub mod active_side;
pub mod bits;
pub mod parse;
pub mod result;
pub mod texel;
