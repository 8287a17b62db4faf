use cymatrox::fluid::{validate, FluidError, SurfaceDims, MAX_GRID_DIM, MAX_STRIDE, MIN_GRID_DIM};

fn dims(width: u32, height: u32, stride: u32) -> SurfaceDims {
    SurfaceDims { width, height, readback_stride: stride }
}

fn detail(e: FluidError) -> String {
    match e {
        FluidError::InvalidConfig(s) => s,
    }
}

#[test]
fn fluid_oversized_grid_violates_p1() {
    let err = validate(&dims(MAX_GRID_DIM + 8, 64, 1), None, None)
        .err()
        .expect("oversized grid must fail");
    assert!(err.message().contains("P1"));
    assert_eq!(detail(err), "P1 violated: surface.width = 2056 must be within 8..=2048");
    let err = validate(&dims(96, MIN_GRID_DIM - 1, 1), None, None).err().unwrap();
    assert_eq!(detail(err), "P1 violated: surface.height = 7 must be within 8..=2048");
}

#[test]
fn fluid_bad_stride_violates_p1() {
    let err = validate(&dims(96, 64, 0), None, None).err().unwrap();
    assert_eq!(detail(err), "P1 violated: readback_stride = 0 must be within 1..=256");
    let err = validate(&dims(96, 64, MAX_STRIDE + 1), None, None).err().unwrap();
    assert_eq!(detail(err), "P1 violated: readback_stride = 257 must be within 1..=256");
}

#[test]
fn clause_order_is_dims_extent_stride_rest() {
    let extent = "P1 violated: surface.extent[0] = 0 must be finite and > 0".to_string();
    let later = "P2 violated: field `density` out of range (got -1)".to_string();
    let e = validate(&dims(96, 64, 0), Some(extent.clone()), Some(later.clone())).err().unwrap();
    assert_eq!(detail(e), extent);
    let e = validate(&dims(96, 64, 0), None, Some(later.clone())).err().unwrap();
    assert!(detail(e).starts_with("P1 violated: readback_stride"));
    let e = validate(&dims(96, 64, 2), None, Some(later.clone())).err().unwrap();
    assert_eq!(detail(e), later);
    let e = validate(&dims(4, 64, 2), Some(extent), Some(later)).err().unwrap();
    assert!(detail(e).starts_with("P1 violated: surface.width"));
    assert!(validate(&dims(96, 64, 2), None, None).is_ok());
}

#[test]
fn fluid_strided_output_length() {
    let d = dims(96, 64, 2);
    assert_eq!(d.output_dims(), (48, 32));
    assert_eq!(d.output_count(), 48 * 32);
    assert_eq!(dims(96, 64, 1).output_count(), 96 * 64);
    assert_eq!(dims(97, 65, 2).output_dims(), (49, 33));
    assert_eq!(dims(8, 8, 256).output_count(), 1);
}

#[test]
fn strided_output_is_row_major() {
    let d = dims(96, 64, 2);
    assert_eq!(d.output_source(0), (0, 0));
    assert_eq!(d.output_source(1), (2, 0));
    assert_eq!(d.output_source(47), (94, 0));
    assert_eq!(d.output_source(48), (0, 2));
    assert_eq!(d.output_source(48 * 32 - 1), (94, 62));
}

#[test]
fn fluid_workgroups_cover_grid() {
    assert_eq!(dims(96, 64, 1).workgroups(), (12, 8, 1));
    assert_eq!(dims(97, 65, 1).workgroups(), (13, 9, 1));
}
