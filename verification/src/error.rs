//! Error handling for the vegas lattice crate

use vstd::prelude::*;

verus! {

/// Error type for the vegas lattice crate
#[derive(Debug, Clone, Copy, PartialEq, Eq, Structural)]
pub enum VegasLatticeError {
    /// An edge references a site index at or beyond the site count
    InconsistentEdges,
    /// A size component is negative
    NegativeSize,
    /// An alloy's kind and weight lists disagree in length, or no weight is positive
    InvalidRatios,
    /// A serialized document could not be read as the type it should hold
    SerializationError,
    /// A file or stream could not be read
    IoError,
}

impl VegasLatticeError {
    /// A short description of the error, for reports at the boundary.
    pub fn message(&self) -> (r: &'static str)
        ensures
            r@ == self.spec_message(),
    {
        proof {
            reveal_strlit("inconsistent edges");
            reveal_strlit("negative size");
            reveal_strlit("invalid ratios");
            reveal_strlit("serialization error");
            reveal_strlit("io error");
        }
        match self {
            VegasLatticeError::InconsistentEdges => "inconsistent edges",
            VegasLatticeError::NegativeSize => "negative size",
            VegasLatticeError::InvalidRatios => "invalid ratios",
            VegasLatticeError::SerializationError => "serialization error",
            VegasLatticeError::IoError => "io error",
        }
    }

    /// What `message` returns for each variant.
    pub open spec fn spec_message(&self) -> Seq<char> {
        match self {
            VegasLatticeError::InconsistentEdges => "inconsistent edges"@,
            VegasLatticeError::NegativeSize => "negative size"@,
            VegasLatticeError::InvalidRatios => "invalid ratios"@,
            VegasLatticeError::SerializationError => "serialization error"@,
            VegasLatticeError::IoError => "io error"@,
        }
    }
}

} // verus!
