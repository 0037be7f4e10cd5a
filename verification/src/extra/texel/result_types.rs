//! What loading the tuning data can end in.
use vstd::prelude::*;

verus! {

/// Loading the tuning data failed.
#[derive(Copy, Clone, PartialEq, Eq, Structural, Debug)]
pub enum TunerLoadrror {
    DataFileReadError,
}

impl TunerLoadrror {
    /// The message describing the error.
    pub fn message(&self) -> (m: &'static str)
        ensures
            m@ == "Data file could not be read"@,
    {
        match self {
            TunerLoadrror::DataFileReadError => "Data file could not be read",
        }
    }
}

} // verus!
