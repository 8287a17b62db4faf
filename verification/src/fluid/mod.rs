//! Fluid module: a liquid surface under vertical vibration.
//!
//! The integer clauses of the configuration (grid size, readback stride),
//! their order among the float clauses, and the layout of the strided
//! readback live here.

pub mod config;

pub use config::{invalid, validate, SurfaceDims, MAX_GRID_DIM, MAX_STRIDE, MIN_GRID_DIM};

use vstd::prelude::*;

verus! {

/// Module-local failures, wrapped by [`crate::Error`].
#[derive(Debug)]
pub enum FluidError {
    /// A configuration precondition was violated; the message names the
    /// clause and its bounds.
    InvalidConfig(String),
}

impl FluidError {
    /// The clause-naming detail carried by the error.
    pub open spec fn detail(self) -> Seq<char> {
        match self {
            FluidError::InvalidConfig(s) => s@,
        }
    }

    /// The full message of the error.
    pub open spec fn text(self) -> Seq<char> {
        "invalid fluid configuration: "@ + self.detail()
    }

    /// Human-readable message: `invalid fluid configuration: ` and the detail.
    pub fn message(&self) -> (m: String)
        ensures
            m@ == self.text(),
    {
        let mut m = String::from_str("invalid fluid configuration: ");
        match self {
            FluidError::InvalidConfig(s) => m.append(s.as_str()),
        }
        m
    }
}

} // verus!
