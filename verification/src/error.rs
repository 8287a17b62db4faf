//! Top-level error type returned by every fallible operation of the crate.

use crate::acoustic::AcousticError;
use crate::fluid::FluidError;
use crate::granular::GranularError;
use vstd::prelude::*;

verus! {

#[verifier::external_type_specification]
#[verifier::external_body]
pub struct ExRequestDeviceError(wgpu::RequestDeviceError);

/// The text `wgpu` gives for a failed device request (its `Display` impl).
///
/// Nothing is claimed of the text: it is whatever the backend reports.
#[verifier::external_body]
fn request_error_text(e: &wgpu::RequestDeviceError) -> String {
    e.to_string()
}

/// Top-level error returned by every fallible operation.
#[derive(Debug)]
pub enum Error {
    Gpu(GpuError),
    Granular(GranularError),
    Fluid(FluidError),
    Acoustic(AcousticError),
}

/// GPU-side failures.
#[derive(Debug)]
pub enum GpuError {
    /// No compatible backend was found.
    NoAdapter,
    /// An adapter was found but the device request failed.
    Request(wgpu::RequestDeviceError),
    /// Buffer mapping or device polling did not complete during a readback.
    Readback(String),
}

/// Text of [`GpuError::NoAdapter`]: it names the backends tried and a remedy.
pub open spec fn no_adapter_text() -> Seq<char> {
    "no compatible GPU backend found (tried Vulkan/Metal/DX12/WebGPU); check your drivers or install a software fallback"@
}

impl GpuError {
    /// The message of this error, where it depends on values the crate can see.
    ///
    /// For a device-request failure the message ends with the backend's own
    /// text, which is not modelled; `None` then.
    pub open spec fn text(self) -> Option<Seq<char>> {
        match self {
            GpuError::NoAdapter => Some(no_adapter_text()),
            GpuError::Request(_) => None,
            GpuError::Readback(s) => Some(
                "GPU readback failed while retrieving simulation results: "@ + s@,
            ),
        }
    }

    /// The part of the message fixed by values the crate can see: the whole
    /// message, except after a device-request failure, where it is the text
    /// before the backend's own.
    pub open spec fn known_prefix(self) -> Seq<char> {
        match self {
            GpuError::Request(_) => "GPU device request failed: "@,
            _ => self.text().unwrap(),
        }
    }

    /// Human-readable message naming what failed and, where it helps, a remedy.
    pub fn message(&self) -> (m: String)
        ensures
            self.text() matches Some(t) ==> m@ == t,
            self.known_prefix().is_prefix_of(m@),
    {
        match self {
            GpuError::NoAdapter => String::from_str(
                "no compatible GPU backend found (tried Vulkan/Metal/DX12/WebGPU); check your drivers or install a software fallback",
            ),
            GpuError::Request(e) => {
                let mut m = String::from_str("GPU device request failed: ");
                let detail = request_error_text(e);
                m.append(detail.as_str());
                m
            },
            GpuError::Readback(s) => {
                let mut m = String::from_str(
                    "GPU readback failed while retrieving simulation results: ",
                );
                m.append(s.as_str());
                m
            },
        }
    }
}

impl Error {
    /// The message of this error where every part of it is modelled.
    pub open spec fn text(self) -> Option<Seq<char>> {
        match self {
            Error::Gpu(g) => match g.text() {
                Some(t) => Some("GPU initialization failed: "@ + t),
                None => None,
            },
            Error::Granular(e) => Some("granular module error: "@ + e.text()),
            Error::Fluid(e) => Some("fluid module error: "@ + e.text()),
            Error::Acoustic(e) => Some("acoustic module error: "@ + e.text()),
        }
    }

    /// The part of the message fixed by values the crate can see: the whole
    /// message, except after a device-request failure, where the backend's
    /// own text follows it.
    pub open spec fn known_prefix(self) -> Seq<char> {
        match self {
            Error::Gpu(g) => "GPU initialization failed: "@ + g.known_prefix(),
            _ => self.text().unwrap(),
        }
    }

    /// Human-readable message: a prefix naming the failing part, then the
    /// inner error's message.
    pub fn message(&self) -> (m: String)
        ensures
            self.text() matches Some(t) ==> m@ == t,
            self.known_prefix().is_prefix_of(m@),
    {
        let (mut m, inner) = match self {
            Error::Gpu(g) => (String::from_str("GPU initialization failed: "), g.message()),
            Error::Granular(e) => (String::from_str("granular module error: "), e.message()),
            Error::Fluid(e) => (String::from_str("fluid module error: "), e.message()),
            Error::Acoustic(e) => (String::from_str("acoustic module error: "), e.message()),
        };
        let ghost head = m@;
        m.append(inner.as_str());
        proof {
            if let Error::Gpu(g) = self {
                let p = g.known_prefix();
                assert(m@ == head + inner@);
                assert((head + p) =~= m@.subrange(0, (head + p).len() as int));
            }
        }
        m
    }
}

impl From<GpuError> for Error {
    fn from(e: GpuError) -> (r: Error) {
        Error::Gpu(e)
    }
}

impl vstd::std_specs::convert::FromSpecImpl<GpuError> for Error {
    open spec fn obeys_from_spec() -> bool {
        true
    }

    open spec fn from_spec(e: GpuError) -> Error {
        Error::Gpu(e)
    }
}

impl From<GranularError> for Error {
    fn from(e: GranularError) -> (r: Error) {
        Error::Granular(e)
    }
}

impl vstd::std_specs::convert::FromSpecImpl<GranularError> for Error {
    open spec fn obeys_from_spec() -> bool {
        true
    }

    open spec fn from_spec(e: GranularError) -> Error {
        Error::Granular(e)
    }
}

impl From<FluidError> for Error {
    fn from(e: FluidError) -> (r: Error) {
        Error::Fluid(e)
    }
}

impl vstd::std_specs::convert::FromSpecImpl<FluidError> for Error {
    open spec fn obeys_from_spec() -> bool {
        true
    }

    open spec fn from_spec(e: FluidError) -> Error {
        Error::Fluid(e)
    }
}

impl From<AcousticError> for Error {
    fn from(e: AcousticError) -> (r: Error) {
        Error::Acoustic(e)
    }
}

impl vstd::std_specs::convert::FromSpecImpl<AcousticError> for Error {
    open spec fn obeys_from_spec() -> bool {
        true
    }

    open spec fn from_spec(e: AcousticError) -> Error {
        Error::Acoustic(e)
    }
}

impl From<wgpu::RequestDeviceError> for GpuError {
    fn from(e: wgpu::RequestDeviceError) -> (r: GpuError) {
        GpuError::Request(e)
    }
}

impl vstd::std_specs::convert::FromSpecImpl<wgpu::RequestDeviceError> for GpuError {
    open spec fn obeys_from_spec() -> bool {
        true
    }

    open spec fn from_spec(e: wgpu::RequestDeviceError) -> GpuError {
        GpuError::Request(e)
    }
}

} // verus!
