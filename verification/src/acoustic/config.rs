//! Integer part of the acoustic configuration: grid size, readback stride
//! and transducer placement.
//!
//! Clause P1 bounds the grid (`width`, `height`, `depth`, then the float
//! `extent`, then `readback_stride`, then the float noise amplitude); P2 to
//! P4 speak of floats only. The caller evaluates the float clauses and
//! hands in the message of the first violated one in each stretch;
//! `validate` fixes the order of all of them.

use crate::acoustic::AcousticError;
use crate::grid::{
    ceil_div, ceil_div_spec, index_3d, kept_3d, lemma_ceil_div, lemma_strided_3d, source_3d,
};
use crate::text::{decimal, decimal_string, opt_text};
use vstd::prelude::*;

verus! {

/// Smallest grid dimension per axis.
pub const MIN_GRID_DIM: u32 = 8;

/// Largest grid dimension per axis.
pub const MAX_GRID_DIM: u32 = 256;

/// Largest readback stride.
pub const MAX_STRIDE: u32 = 64;

/// Side of the cubic workgroup of both kernels.
pub const WORKGROUP: u32 = 4;

/// Which wall the transducer occupies.
#[derive(Clone, Copy, Debug, PartialEq, Eq)]
pub enum Axis {
    X,
    Y,
    Z,
}

/// Which of the two walls normal to the axis.
#[derive(Clone, Copy, Debug, PartialEq, Eq)]
pub enum Side {
    Low,
    High,
}

/// The vibrating face: a whole wall of the enclosure.
#[derive(Clone, Copy, Debug)]
pub struct TransducerSpec {
    pub axis: Axis,
    pub side: Side,
}

/// The integer settings of the volume grid.
#[derive(Clone, Copy, Debug)]
pub struct VolumeDims {
    pub width: u32,
    pub height: u32,
    pub depth: u32,
    /// Every `readback_stride`-th node per axis is returned.
    pub readback_stride: u32,
}

/// Wraps a clause message into the module error.
pub fn invalid(msg: String) -> (e: AcousticError)
    ensures
        e == AcousticError::InvalidConfig(msg),
{
    AcousticError::InvalidConfig(msg)
}

pub open spec fn dim_ok(d: u32) -> bool {
    MIN_GRID_DIM <= d && d <= MAX_GRID_DIM
}

pub open spec fn stride_ok(s: u32) -> bool {
    1 <= s && s <= MAX_STRIDE
}

/// Message of a grid-dimension violation; `name` is the axis field.
pub open spec fn dim_message(name: Seq<char>, d: u32) -> Seq<char> {
    "P1 violated: volume."@ + name + " = "@ + decimal(d as nat) + " must be within 8..=256"@
}

/// Message of a stride violation.
pub open spec fn stride_message(s: u32) -> Seq<char> {
    "P1 violated: readback_stride = "@ + decimal(s as nat) + " must be within 1..=64"@
}

/// The first violated clause: width, height, depth, extent (caller),
/// stride, then everything after the stride (caller).
pub open spec fn config_failure(
    dims: VolumeDims,
    extent_failure: Option<Seq<char>>,
    later_failure: Option<Seq<char>>,
) -> Option<Seq<char>> {
    if !dim_ok(dims.width) {
        Some(dim_message("width"@, dims.width))
    } else if !dim_ok(dims.height) {
        Some(dim_message("height"@, dims.height))
    } else if !dim_ok(dims.depth) {
        Some(dim_message("depth"@, dims.depth))
    } else if extent_failure is Some {
        extent_failure
    } else if !stride_ok(dims.readback_stride) {
        Some(stride_message(dims.readback_stride))
    } else {
        later_failure
    }
}

fn check_dim(name: &str, d: u32) -> (r: Result<(), AcousticError>)
    ensures
        r is Ok <==> dim_ok(d),
        r matches Err(e) ==> e.detail() == dim_message(name@, d),
{
    if d < MIN_GRID_DIM || d > MAX_GRID_DIM {
        let mut msg = String::from_str("P1 violated: volume.");
        msg.append(name);
        msg.append(" = ");
        let digits = decimal_string(d);
        msg.append(digits.as_str());
        msg.append(" must be within 8..=256");
        return Err(invalid(msg));
    }
    Ok(())
}

fn check_stride(s: u32) -> (r: Result<(), AcousticError>)
    ensures
        r is Ok <==> stride_ok(s),
        r matches Err(e) ==> e.detail() == stride_message(s),
{
    if s < 1 || s > MAX_STRIDE {
        let mut msg = String::from_str("P1 violated: readback_stride = ");
        let digits = decimal_string(s);
        msg.append(digits.as_str());
        msg.append(" must be within 1..=64");
        return Err(invalid(msg));
    }
    Ok(())
}

/// Checks every clause in order and reports the first violation.
///
/// `extent_failure` is the message of a violated extent clause, and
/// `later_failure` that of the first violated clause after the stride
/// (noise amplitude, P3, P2 with the λ/4 bound, P4), as the caller
/// evaluated them.
pub fn validate(
    dims: &VolumeDims,
    extent_failure: Option<String>,
    later_failure: Option<String>,
) -> (r: Result<(), AcousticError>)
    ensures
        r is Ok <==> config_failure(*dims, opt_text(extent_failure), opt_text(later_failure))
            is None,
        r matches Err(e) ==> config_failure(
            *dims,
            opt_text(extent_failure),
            opt_text(later_failure),
        ) == Some(e.detail()),
        r is Ok ==> dims.wf(),
        r is Ok <==> (8 <= dims.width <= 256 && 8 <= dims.height <= 256 && 8 <= dims.depth <= 256
            && extent_failure is None && 1 <= dims.readback_stride <= 64
            && later_failure is None),
{
    proof {
        reveal_strlit("width");
        reveal_strlit("height");
        reveal_strlit("depth");
    }
    check_dim("width", dims.width)?;
    check_dim("height", dims.height)?;
    check_dim("depth", dims.depth)?;
    if let Some(msg) = extent_failure {
        return Err(invalid(msg));
    }
    check_stride(dims.readback_stride)?;
    match later_failure {
        Some(msg) => Err(invalid(msg)),
        None => Ok(()),
    }
}

/// Shader encoding of the transducer: axis `0, 1, 2` for X, Y, Z and side
/// `0, 1` for low, high.
pub open spec fn transducer_code_spec(t: TransducerSpec) -> (i32, i32) {
    (
        match t.axis {
            Axis::X => 0i32,
            Axis::Y => 1i32,
            Axis::Z => 2i32,
        },
        match t.side {
            Side::Low => 0i32,
            Side::High => 1i32,
        },
    )
}

/// The shader encoding of the transducer placement.
pub fn transducer_codes(t: &TransducerSpec) -> (c: (i32, i32))
    ensures
        c == transducer_code_spec(*t),
        0 <= c.0 <= 2,
        0 <= c.1 <= 1,
{
    match (t.axis, t.side) {
        (Axis::X, Side::Low) => (0, 0),
        (Axis::X, Side::High) => (0, 1),
        (Axis::Y, Side::Low) => (1, 0),
        (Axis::Y, Side::High) => (1, 1),
        (Axis::Z, Side::Low) => (2, 0),
        (Axis::Z, Side::High) => (2, 1),
    }
}

/// Distinct transducer placements reach the shader as distinct codes.
pub proof fn lemma_transducer_codes_distinct(a: TransducerSpec, b: TransducerSpec)
    requires
        a.axis != b.axis || a.side != b.side,
    ensures
        transducer_code_spec(a) != transducer_code_spec(b),
{
}

impl VolumeDims {
    /// Every integer clause holds.
    pub open spec fn wf(self) -> bool {
        dim_ok(self.width) && dim_ok(self.height) && dim_ok(self.depth) && stride_ok(
            self.readback_stride,
        )
    }

    pub open spec fn out_x(self) -> int {
        ceil_div_spec(self.width as int, self.readback_stride as int)
    }

    pub open spec fn out_y(self) -> int {
        ceil_div_spec(self.height as int, self.readback_stride as int)
    }

    pub open spec fn out_z(self) -> int {
        ceil_div_spec(self.depth as int, self.readback_stride as int)
    }

    /// Number of values every step returns.
    pub open spec fn out_count(self) -> int {
        self.out_x() * self.out_y() * self.out_z()
    }

    /// Grid node `(x, y, z)` is among the returned ones.
    pub open spec fn kept(self, x: int, y: int, z: int) -> bool {
        kept_3d(
            self.width as int,
            self.height as int,
            self.depth as int,
            self.readback_stride as int,
            x,
            y,
            z,
        )
    }

    /// The grid node behind output index `k`.
    pub open spec fn source(self, k: int) -> (int, int, int) {
        source_3d(self.out_x(), self.out_y(), self.readback_stride as int, k)
    }

    /// Output dimensions after striding: `⌈dim/s⌉` per axis.
    pub fn output_dims(&self) -> (d: (u32, u32, u32))
        requires
            self.readback_stride >= 1,
        ensures
            d.0 as int == self.out_x(),
            d.1 as int == self.out_y(),
            d.2 as int == self.out_z(),
    {
        (
            ceil_div(self.width, self.readback_stride),
            ceil_div(self.height, self.readback_stride),
            ceil_div(self.depth, self.readback_stride),
        )
    }

    /// Number of values every step returns.
    pub fn output_count(&self) -> (n: u32)
        requires
            self.wf(),
        ensures
            n as int == self.out_count(),
    {
        let (ox, oy, oz) = self.output_dims();
        proof {
            lemma_ceil_div(self.width as int, self.readback_stride as int);
            lemma_ceil_div(self.height as int, self.readback_stride as int);
            lemma_ceil_div(self.depth as int, self.readback_stride as int);
        }
        assert(ox as int * oy as int <= 256 * 256) by (nonlinear_arith)
            requires
                ox <= 256,
                oy <= 256,
        ;
        assert(ox as int * oy as int * oz as int <= 256 * 256 * 256) by (nonlinear_arith)
            requires
                ox as int * oy as int <= 256 * 256,
                oz <= 256,
        ;
        ox * oy * oz
    }

    /// Grid coordinates of the node behind output index `k`.
    pub fn output_source(&self, k: u32) -> (p: (u32, u32, u32))
        requires
            self.wf(),
            k < self.out_count(),
        ensures
            (p.0 as int, p.1 as int, p.2 as int) == self.source(k as int),
            self.kept(p.0 as int, p.1 as int, p.2 as int),
    {
        proof {
            lemma_strided_3d(
                self.width as int,
                self.height as int,
                self.depth as int,
                self.readback_stride as int,
            );
            let q = self.source(k as int);
            assert(self.kept(q.0, q.1, q.2));
        }
        let (ox, oy, _oz) = self.output_dims();
        proof {
            lemma_ceil_div(self.width as int, self.readback_stride as int);
            lemma_ceil_div(self.height as int, self.readback_stride as int);
        }
        let s = self.readback_stride;
        let r = k / ox;
        ((k % ox) * s, (r % oy) * s, (r / oy) * s)
    }

    /// Workgroups dispatched per kernel and step: enough `WORKGROUP`-cubes
    /// to cover the grid.
    pub fn workgroups(&self) -> (g: (u32, u32, u32))
        ensures
            g.0 as int == ceil_div_spec(self.width as int, WORKGROUP as int),
            g.1 as int == ceil_div_spec(self.height as int, WORKGROUP as int),
            g.2 as int == ceil_div_spec(self.depth as int, WORKGROUP as int),
            g.0 as int * WORKGROUP >= self.width,
            g.1 as int * WORKGROUP >= self.height,
            g.2 as int * WORKGROUP >= self.depth,
    {
        (
            ceil_div(self.width, WORKGROUP),
            ceil_div(self.height, WORKGROUP),
            ceil_div(self.depth, WORKGROUP),
        )
    }
}

/// The strided readback returns one value per kept grid node and nothing
/// else, in row-major order with `x` fastest.
pub proof fn lemma_readback_layout(dims: VolumeDims)
    requires
        dims.readback_stride >= 1,
    ensures
        forall|k: int|
            0 <= k < dims.out_count() ==> {
                let p = #[trigger] dims.source(k);
                dims.kept(p.0, p.1, p.2)
            },
        forall|k1: int, k2: int|
            0 <= k1 < dims.out_count() && 0 <= k2 < dims.out_count() && k1 != k2
                ==> #[trigger] dims.source(k1) != #[trigger] dims.source(k2),
        forall|x: int, y: int, z: int|
            #[trigger] dims.kept(x, y, z) ==> {
                let k = index_3d(dims.out_x(), dims.out_y(), dims.readback_stride as int, x, y, z);
                &&& 0 <= k < dims.out_count()
                &&& dims.source(k) == (x, y, z)
            },
{
    lemma_strided_3d(
        dims.width as int,
        dims.height as int,
        dims.depth as int,
        dims.readback_stride as int,
    );
}

} // verus!
