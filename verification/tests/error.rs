use cymatrox::acoustic::AcousticError;
use cymatrox::fluid::FluidError;
use cymatrox::granular::GranularError;
use cymatrox::{Error, GpuError};

#[test]
fn no_adapter_message_is_actionable() {
    let msg = Error::Gpu(GpuError::NoAdapter).message();
    assert!(msg.contains("Vulkan"), "message should hint at backends");
    assert!(msg.contains("drivers"), "message should suggest a remedy");
}

#[test]
fn gpu_error_converts_into_top_level_error() {
    let e: Error = GpuError::NoAdapter.into();
    assert!(matches!(e, Error::Gpu(_)));
}

#[test]
fn no_adapter_message_is_exact() {
    assert_eq!(
        Error::Gpu(GpuError::NoAdapter).message(),
        "GPU initialization failed: no compatible GPU backend found (tried Vulkan/Metal/DX12/WebGPU); \
         check your drivers or install a software fallback"
    );
}

#[test]
fn readback_message_carries_detail() {
    let e = Error::Gpu(GpuError::Readback("device poll failed: lost".to_string()));
    assert_eq!(
        e.message(),
        "GPU initialization failed: GPU readback failed while retrieving simulation results: \
         device poll failed: lost"
    );
}

#[test]
fn module_errors_name_their_module() {
    let g: Error = GranularError::InvalidConfig("P1 violated".to_string()).into();
    assert_eq!(
        g.message(),
        "granular module error: invalid granular configuration: P1 violated"
    );
    let f: Error = FluidError::InvalidConfig("P2 violated".to_string()).into();
    assert_eq!(f.message(), "fluid module error: invalid fluid configuration: P2 violated");
    let a: Error = AcousticError::InvalidConfig("P4 violated".to_string()).into();
    assert_eq!(
        a.message(),
        "acoustic module error: invalid acoustic configuration: P4 violated"
    );
    assert!(matches!(a, Error::Acoustic(_)));
}
