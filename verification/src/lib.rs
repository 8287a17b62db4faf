//! Cymatics simulation toolkit: configuration checking, output layout,
//! deterministic seeding, error reporting and the live-server helpers.

pub mod acoustic;
pub mod error;
pub mod fluid;
pub mod granular;
pub mod grid;
pub mod live;
pub mod rng;
pub mod text;

pub use error::{Error, GpuError};
