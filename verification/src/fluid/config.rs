//! Integer part of the fluid configuration: grid size and readback stride.
//!
//! Clause P1 bounds the grid (`width`, `height`, then the float `extent`,
//! then `readback_stride`, then the float noise amplitude and dish); P2 to
//! P4 speak of floats only. The caller evaluates the float clauses and
//! hands in the message of the first violated one in each stretch;
//! `validate` fixes the order of all of them.

use crate::fluid::FluidError;
use crate::grid::{
    ceil_div, ceil_div_spec, index_2d, kept_2d, lemma_ceil_div, lemma_strided_2d, source_2d,
};
use crate::text::{decimal, decimal_string, opt_text};
use vstd::prelude::*;

verus! {

/// Smallest grid dimension per axis.
pub const MIN_GRID_DIM: u32 = 8;

/// Largest grid dimension per axis.
pub const MAX_GRID_DIM: u32 = 2048;

/// Largest readback stride.
pub const MAX_STRIDE: u32 = 256;

/// Side of the square workgroup of the surface kernel.
pub const WORKGROUP: u32 = 8;

/// The integer settings of the surface grid.
#[derive(Clone, Copy, Debug)]
pub struct SurfaceDims {
    pub width: u32,
    pub height: u32,
    /// Every `readback_stride`-th node per axis is returned.
    pub readback_stride: u32,
}

/// Wraps a clause message into the module error.
pub fn invalid(msg: String) -> (e: FluidError)
    ensures
        e == FluidError::InvalidConfig(msg),
{
    FluidError::InvalidConfig(msg)
}

pub open spec fn dim_ok(d: u32) -> bool {
    MIN_GRID_DIM <= d && d <= MAX_GRID_DIM
}

pub open spec fn stride_ok(s: u32) -> bool {
    1 <= s && s <= MAX_STRIDE
}

/// Message of a grid-dimension violation; `name` is the axis field.
pub open spec fn dim_message(name: Seq<char>, d: u32) -> Seq<char> {
    "P1 violated: surface."@ + name + " = "@ + decimal(d as nat) + " must be within 8..=2048"@
}

/// Message of a stride violation.
pub open spec fn stride_message(s: u32) -> Seq<char> {
    "P1 violated: readback_stride = "@ + decimal(s as nat) + " must be within 1..=256"@
}

/// The first violated clause: width, height, extent (caller), stride, then
/// everything after the stride (caller).
pub open spec fn config_failure(
    dims: SurfaceDims,
    extent_failure: Option<Seq<char>>,
    later_failure: Option<Seq<char>>,
) -> Option<Seq<char>> {
    if !dim_ok(dims.width) {
        Some(dim_message("width"@, dims.width))
    } else if !dim_ok(dims.height) {
        Some(dim_message("height"@, dims.height))
    } else if extent_failure is Some {
        extent_failure
    } else if !stride_ok(dims.readback_stride) {
        Some(stride_message(dims.readback_stride))
    } else {
        later_failure
    }
}

fn check_dim(name: &str, d: u32) -> (r: Result<(), FluidError>)
    ensures
        r is Ok <==> dim_ok(d),
        r matches Err(e) ==> e.detail() == dim_message(name@, d),
{
    if d < MIN_GRID_DIM || d > MAX_GRID_DIM {
        let mut msg = String::from_str("P1 violated: surface.");
        msg.append(name);
        msg.append(" = ");
        let digits = decimal_string(d);
        msg.append(digits.as_str());
        msg.append(" must be within 8..=2048");
        return Err(invalid(msg));
    }
    Ok(())
}

fn check_stride(s: u32) -> (r: Result<(), FluidError>)
    ensures
        r is Ok <==> stride_ok(s),
        r matches Err(e) ==> e.detail() == stride_message(s),
{
    if s < 1 || s > MAX_STRIDE {
        let mut msg = String::from_str("P1 violated: readback_stride = ");
        let digits = decimal_string(s);
        msg.append(digits.as_str());
        msg.append(" must be within 1..=256");
        return Err(invalid(msg));
    }
    Ok(())
}

/// Checks every clause in order and reports the first violation.
///
/// `extent_failure` is the message of a violated extent clause, and
/// `later_failure` that of the first violated clause after the stride
/// (noise amplitude, dish, P2, P3, P4), as the caller evaluated them.
pub fn validate(
    dims: &SurfaceDims,
    extent_failure: Option<String>,
    later_failure: Option<String>,
) -> (r: Result<(), FluidError>)
    ensures
        r is Ok <==> config_failure(*dims, opt_text(extent_failure), opt_text(later_failure))
            is None,
        r matches Err(e) ==> config_failure(
            *dims,
            opt_text(extent_failure),
            opt_text(later_failure),
        ) == Some(e.detail()),
        r is Ok ==> dims.wf(),
        r is Ok <==> (8 <= dims.width <= 2048 && 8 <= dims.height <= 2048
            && extent_failure is None && 1 <= dims.readback_stride <= 256
            && later_failure is None),
{
    proof {
        reveal_strlit("width");
        reveal_strlit("height");
    }
    check_dim("width", dims.width)?;
    check_dim("height", dims.height)?;
    if let Some(msg) = extent_failure {
        return Err(invalid(msg));
    }
    check_stride(dims.readback_stride)?;
    match later_failure {
        Some(msg) => Err(invalid(msg)),
        None => Ok(()),
    }
}

impl SurfaceDims {
    /// Every integer clause holds.
    pub open spec fn wf(self) -> bool {
        dim_ok(self.width) && dim_ok(self.height) && stride_ok(self.readback_stride)
    }

    /// Returned nodes per row.
    pub open spec fn out_w(self) -> int {
        ceil_div_spec(self.width as int, self.readback_stride as int)
    }

    /// Returned rows.
    pub open spec fn out_h(self) -> int {
        ceil_div_spec(self.height as int, self.readback_stride as int)
    }

    /// Number of values every step returns.
    pub open spec fn out_count(self) -> int {
        self.out_w() * self.out_h()
    }

    /// Grid node `(x, y)` is among the returned ones.
    pub open spec fn kept(self, x: int, y: int) -> bool {
        kept_2d(self.width as int, self.height as int, self.readback_stride as int, x, y)
    }

    /// The grid node behind output index `k`.
    pub open spec fn source(self, k: int) -> (int, int) {
        source_2d(self.out_w(), self.readback_stride as int, k)
    }

    /// Output dimensions after striding: `(⌈width/s⌉, ⌈height/s⌉)`.
    pub fn output_dims(&self) -> (d: (u32, u32))
        requires
            self.readback_stride >= 1,
        ensures
            d.0 as int == self.out_w(),
            d.1 as int == self.out_h(),
    {
        (ceil_div(self.width, self.readback_stride), ceil_div(self.height, self.readback_stride))
    }

    /// Number of values every step returns.
    pub fn output_count(&self) -> (n: u32)
        requires
            self.wf(),
        ensures
            n as int == self.out_count(),
    {
        let (ow, oh) = self.output_dims();
        proof {
            lemma_ceil_div(self.width as int, self.readback_stride as int);
            lemma_ceil_div(self.height as int, self.readback_stride as int);
        }
        assert(ow as int * oh as int <= 2048 * 2048) by (nonlinear_arith)
            requires
                ow <= 2048,
                oh <= 2048,
        ;
        ow * oh
    }

    /// Grid coordinates of the node behind output index `k`.
    pub fn output_source(&self, k: u32) -> (p: (u32, u32))
        requires
            self.wf(),
            k < self.out_count(),
        ensures
            (p.0 as int, p.1 as int) == self.source(k as int),
            self.kept(p.0 as int, p.1 as int),
    {
        proof {
            lemma_strided_2d(self.width as int, self.height as int, self.readback_stride as int);
            assert(self.kept(self.source(k as int).0, self.source(k as int).1));
        }
        let (ow, _oh) = self.output_dims();
        proof {
            lemma_ceil_div(self.width as int, self.readback_stride as int);
        }
        let x = (k % ow) * self.readback_stride;
        let y = (k / ow) * self.readback_stride;
        (x, y)
    }

    /// Workgroups dispatched per step: enough `WORKGROUP`-square tiles to
    /// cover the grid.
    pub fn workgroups(&self) -> (g: (u32, u32, u32))
        ensures
            g.0 as int == ceil_div_spec(self.width as int, WORKGROUP as int),
            g.1 as int == ceil_div_spec(self.height as int, WORKGROUP as int),
            g.2 == 1,
            g.0 as int * WORKGROUP >= self.width,
            g.1 as int * WORKGROUP >= self.height,
    {
        (ceil_div(self.width, WORKGROUP), ceil_div(self.height, WORKGROUP), 1)
    }
}

/// The strided readback returns one value per kept grid node and nothing
/// else, in row-major order.
pub proof fn lemma_readback_layout(dims: SurfaceDims)
    requires
        dims.readback_stride >= 1,
    ensures
        forall|k: int|
            0 <= k < dims.out_count() ==> dims.kept(
                #[trigger] dims.source(k).0,
                dims.source(k).1,
            ),
        forall|k1: int, k2: int|
            0 <= k1 < dims.out_count() && 0 <= k2 < dims.out_count() && k1 != k2
                ==> #[trigger] dims.source(k1) != #[trigger] dims.source(k2),
        forall|x: int, y: int|
            #[trigger] dims.kept(x, y) ==> 0 <= index_2d(
                dims.out_w(),
                dims.readback_stride as int,
                x,
                y,
            ) < dims.out_count() && dims.source(
                index_2d(dims.out_w(), dims.readback_stride as int, x, y),
            ) == (x, y),
{
    lemma_strided_2d(dims.width as int, dims.height as int, dims.readback_stride as int);
}

} // verus!
