//! Configuration of the granular module: the integer clauses of its
//! preconditions and the order in which every clause is checked.
//!
//! Clause P1 bounds the grain population, P2 the physical scalars, P3 the
//! drive frequency and P4 the mode lists. P2 and P3 speak of floats; the
//! caller evaluates them and hands in the message of the first one that
//! fails, and `validate` places it between P1 and P4.

use crate::granular::GranularError;
use crate::grid::ceil_div;
use crate::text::{decimal, decimal_string, opt_text};
use vstd::prelude::*;

verus! {

/// Maximum supported grain population.
pub const MAX_GRAINS: u32 = 1_000_000;

/// Threads per workgroup of the grain update kernel.
pub const WORKGROUP_SIZE: u32 = 64;

/// How grains are laid out before the first step.
#[derive(Clone, Copy, Debug)]
pub enum InitialDistribution {
    Uniform,
    CenteredCluster,
    Grid,
}

/// Grain population and reproducibility settings.
#[derive(Clone, Copy, Debug)]
pub struct GrainBed {
    pub count: u32,
    pub distribution: InitialDistribution,
    pub seed: u64,
}

/// One measured resonance as far as clause P4 reads it: its shape indices
/// and whether its measured frequency is finite and positive.
#[derive(Clone, Copy, Debug)]
pub struct MeasuredIndex {
    pub m: u32,
    pub n: u32,
    pub omega_valid: bool,
}

/// The mode source as far as clause P4 reads it.
#[derive(Clone, Debug)]
pub enum ModeIndices {
    /// Shapes derived from the drive frequency.
    Auto,
    /// Fixed shapes `(m, n)`.
    Explicit(Vec<(u32, u32)>),
    /// Measured resonances.
    Measured(Vec<MeasuredIndex>),
}

/// Wraps a clause message into the module error.
pub fn invalid(msg: String) -> (e: GranularError)
    ensures
        e == GranularError::InvalidConfig(msg),
{
    GranularError::InvalidConfig(msg)
}

/// Clause P1: the population is within `1..=MAX_GRAINS`.
pub open spec fn count_in_range(count: u32) -> bool {
    1 <= count && count <= MAX_GRAINS
}

/// Message of a P1 violation.
pub open spec fn count_message(count: u32) -> Seq<char> {
    "P1 violated: grains.count = "@ + decimal(count as nat)
        + " must be within 1..=1000000 (see README performance targets)"@
}

pub open spec fn explicit_empty_message() -> Seq<char> {
    "P4 violated: Explicit mode list must not be empty"@
}

pub open spec fn explicit_index_message() -> Seq<char> {
    "P4 violated: mode indices must be >= 1"@
}

pub open spec fn measured_empty_message() -> Seq<char> {
    "P4 violated: Measured eigenpair list must not be empty"@
}

pub open spec fn measured_entry_message() -> Seq<char> {
    "P4 violated: EigenPair requires indices >= 1 and omega_measured_hz > 0"@
}

/// Clause P4: the first violation of the mode source, if any.
pub open spec fn mode_failure(modes: ModeIndices) -> Option<Seq<char>> {
    match modes {
        ModeIndices::Auto => None,
        ModeIndices::Explicit(list) => if list@.len() == 0 {
            Some(explicit_empty_message())
        } else if exists|i: int|
            #![trigger list@[i]]
            0 <= i < list@.len() && (list@[i].0 == 0 || list@[i].1 == 0) {
            Some(explicit_index_message())
        } else {
            None
        },
        ModeIndices::Measured(list) => if list@.len() == 0 {
            Some(measured_empty_message())
        } else if exists|i: int|
            #![trigger list@[i]]
            0 <= i < list@.len() && (list@[i].m == 0 || list@[i].n == 0
                || !list@[i].omega_valid) {
            Some(measured_entry_message())
        } else {
            None
        },
    }
}

/// The first violated clause in the order P1, P2/P3 (evaluated by the
/// caller, `scalar_failure`), P4.
pub open spec fn config_failure(
    count: u32,
    scalar_failure: Option<Seq<char>>,
    modes: ModeIndices,
) -> Option<Seq<char>> {
    if !count_in_range(count) {
        Some(count_message(count))
    } else if scalar_failure is Some {
        scalar_failure
    } else {
        mode_failure(modes)
    }
}

/// Clause P1.
pub fn check_grain_count(count: u32) -> (r: Result<(), GranularError>)
    ensures
        r is Ok <==> count_in_range(count),
        r matches Err(e) ==> e.detail() == count_message(count),
{
    if count == 0 || count > MAX_GRAINS {
        let mut msg = String::from_str("P1 violated: grains.count = ");
        let digits = decimal_string(count);
        msg.append(digits.as_str());
        msg.append(" must be within 1..=1000000 (see README performance targets)");
        return Err(invalid(msg));
    }
    Ok(())
}

/// Clause P4.
#[verifier::loop_isolation(false)]
pub fn check_modes(modes: &ModeIndices) -> (r: Result<(), GranularError>)
    ensures
        r is Ok <==> mode_failure(*modes) is None,
        r matches Err(e) ==> mode_failure(*modes) == Some(e.detail()),
        modes is Auto ==> r is Ok,
        modes matches ModeIndices::Explicit(list) ==> (r is Ok <==> (list.len() > 0 && forall|i: int|
            0 <= i < list.len() ==> #[trigger] list[i].0 >= 1 && list[i].1 >= 1)),
        modes matches ModeIndices::Measured(list) ==> (r is Ok <==> (list.len() > 0 && forall|i: int|
            0 <= i < list.len() ==> #[trigger] list[i].m >= 1 && list[i].n >= 1
                && list[i].omega_valid)),
{
    match modes {
        ModeIndices::Auto => Ok(()),
        ModeIndices::Explicit(list) => {
            if list.len() == 0 {
                return Err(invalid(String::from_str("P4 violated: Explicit mode list must not be empty")));
            }
            for i in 0..list.len()
                invariant
                    forall|j: int|
                        #![trigger list@[j]]
                        0 <= j < i ==> !(list@[j].0 == 0 || list@[j].1 == 0),
            {
                let (m, n) = list[i];
                if m == 0 || n == 0 {
                    assert(list@[i as int] == (m, n));
                    return Err(invalid(String::from_str("P4 violated: mode indices must be >= 1")));
                }
            }
            Ok(())
        },
        ModeIndices::Measured(list) => {
            if list.len() == 0 {
                return Err(invalid(String::from_str("P4 violated: Measured eigenpair list must not be empty")));
            }
            for i in 0..list.len()
                invariant
                    forall|j: int|
                        #![trigger list@[j]]
                        0 <= j < i ==> !(list@[j].m == 0 || list@[j].n == 0
                            || !list@[j].omega_valid),
            {
                let p = list[i];
                if p.m == 0 || p.n == 0 || !p.omega_valid {
                    assert(list@[i as int] == p);
                    return Err(invalid(String::from_str("P4 violated: EigenPair requires indices >= 1 and omega_measured_hz > 0")));
                }
            }
            Ok(())
        },
    }
}

/// Checks clauses P1 to P4 in order and reports the first violation.
///
/// `scalar_failure` is the message of the first violated float clause
/// (P2, then P3), or `None` when they all hold.
pub fn validate(
    count: u32,
    scalar_failure: Option<String>,
    modes: &ModeIndices,
) -> (r: Result<(), GranularError>)
    ensures
        r is Ok <==> config_failure(count, opt_text(scalar_failure), *modes) is None,
        r matches Err(e) ==> config_failure(count, opt_text(scalar_failure), *modes) == Some(
            e.detail(),
        ),
        r is Ok ==> count_in_range(count),
        r is Ok ==> 1 <= count <= 1_000_000,
        count == 0 || count > 1_000_000 ==> r is Err,
        modes matches ModeIndices::Explicit(list) && (exists|i: int|
            0 <= i < list.len() && (#[trigger] list[i].0 == 0 || list[i].1 == 0)) ==> r is Err,
        modes matches ModeIndices::Measured(list) && (exists|i: int|
            0 <= i < list.len() && (#[trigger] list[i].m == 0 || list[i].n == 0
                || !list[i].omega_valid)) ==> r is Err,
        r is Ok <==> (1 <= count <= 1_000_000 && scalar_failure is None && match *modes {
            ModeIndices::Auto => true,
            ModeIndices::Explicit(list) => list.len() > 0 && forall|i: int|
                0 <= i < list.len() ==> #[trigger] list[i].0 >= 1 && list[i].1 >= 1,
            ModeIndices::Measured(list) => list.len() > 0 && forall|i: int|
                0 <= i < list.len() ==> #[trigger] list[i].m >= 1 && list[i].n >= 1
                    && list[i].omega_valid,
        }),
{
    check_grain_count(count)?;
    if let Some(msg) = scalar_failure {
        return Err(invalid(msg));
    }
    check_modes(modes)
}

/// Number of workgroups dispatched per step: one thread per grain.
pub fn dispatch_groups(count: u32) -> (g: u32)
    ensures
        g as int * WORKGROUP_SIZE >= count,
        g > 0 ==> (g - 1) * WORKGROUP_SIZE < count,
        g as int == crate::grid::ceil_div_spec(count as int, WORKGROUP_SIZE as int),
{
    ceil_div(count, WORKGROUP_SIZE)
}

} // verus!
