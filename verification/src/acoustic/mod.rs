//! Acoustic module: a standing-wave pressure field in a rigid enclosure.
//!
//! The integer clauses of the configuration (grid size, readback stride),
//! their order among the float clauses, and the layout of the strided
//! readback and the transducer encoding live here.

pub mod config;

pub use config::{
    invalid, transducer_codes, validate, Axis, Side, TransducerSpec, VolumeDims, MAX_GRID_DIM,
    MAX_STRIDE, MIN_GRID_DIM,
};

use vstd::prelude::*;

verus! {

/// Module-local failures, wrapped by [`crate::Error`].
#[derive(Debug)]
pub enum AcousticError {
    /// A configuration precondition was violated; the message names the
    /// clause and its bounds.
    InvalidConfig(String),
}

impl AcousticError {
    /// The clause-naming detail carried by the error.
    pub open spec fn detail(self) -> Seq<char> {
        match self {
            AcousticError::InvalidConfig(s) => s@,
        }
    }

    /// The full message of the error.
    pub open spec fn text(self) -> Seq<char> {
        "invalid acoustic configuration: "@ + self.detail()
    }

    /// Human-readable message: `invalid acoustic configuration: ` and the detail.
    pub fn message(&self) -> (m: String)
        ensures
            m@ == self.text(),
    {
        let mut m = String::from_str("invalid acoustic configuration: ");
        match self {
            AcousticError::InvalidConfig(s) => m.append(s.as_str()),
        }
        m
    }
}

} // verus!
