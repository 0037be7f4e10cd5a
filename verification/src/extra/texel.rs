//! Loading the data file of the Texel tuner.
pub mod data_file;
pub mod result_types;
