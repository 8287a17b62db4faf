//! Granular module: grains on a vibrating square plate.
//!
//! The configuration clauses that speak of integers (population, mode
//! indices), their order among the float clauses, the initial grid layout
//! and the dispatch size live here.

pub mod config;
pub mod placement;

pub use config::{
    check_grain_count, check_modes, dispatch_groups, invalid, validate, GrainBed,
    InitialDistribution, MeasuredIndex, ModeIndices, MAX_GRAINS,
};
pub use placement::{grid_cell, grid_cells};

use vstd::prelude::*;

verus! {

/// Module-local failures, wrapped by [`crate::Error`].
#[derive(Debug)]
pub enum GranularError {
    /// A configuration precondition was violated; the message names the
    /// clause and its bounds.
    InvalidConfig(String),
}

impl GranularError {
    /// The clause-naming detail carried by the error.
    pub open spec fn detail(self) -> Seq<char> {
        match self {
            GranularError::InvalidConfig(s) => s@,
        }
    }

    /// The full message of the error.
    pub open spec fn text(self) -> Seq<char> {
        "invalid granular configuration: "@ + self.detail()
    }

    /// Human-readable message: `invalid granular configuration: ` and the detail.
    pub fn message(&self) -> (m: String)
        ensures
            m@ == self.text(),
    {
        let mut m = String::from_str("invalid granular configuration: ");
        match self {
            GranularError::InvalidConfig(s) => m.append(s.as_str()),
        }
        m
    }
}

} // verus!
