use cymatrox::acoustic::{
    transducer_codes, validate, AcousticError, Axis, Side, TransducerSpec, VolumeDims,
    MAX_GRID_DIM, MAX_STRIDE,
};

fn dims(n: u32, stride: u32) -> VolumeDims {
    VolumeDims { width: n, height: n, depth: n, readback_stride: stride }
}

fn detail(e: AcousticError) -> String {
    match e {
        AcousticError::InvalidConfig(s) => s,
    }
}

#[test]
fn acoustic_oversized_grid_violates_p1() {
    let mut d = dims(40, 1);
    d.depth = MAX_GRID_DIM + 4;
    let err = validate(&d, None, None).err().expect("oversized grid must fail");
    assert!(err.message().contains("P1"));
    assert_eq!(detail(err), "P1 violated: volume.depth = 260 must be within 8..=256");
}

#[test]
fn acoustic_bad_stride_violates_p1() {
    let err = validate(&dims(40, MAX_STRIDE + 1), None, None).err().unwrap();
    assert_eq!(detail(err), "P1 violated: readback_stride = 65 must be within 1..=64");
}

#[test]
fn float_clauses_keep_their_place() {
    let p4 = "P4 violated: dt = 0.001 is above the CFL bound".to_string();
    let e = validate(&dims(40, 2), None, Some(p4.clone())).err().unwrap();
    assert_eq!(detail(e), p4);
    let e = validate(&dims(300, 2), None, Some(p4)).err().unwrap();
    assert_eq!(detail(e), "P1 violated: volume.width = 300 must be within 8..=256");
    assert!(validate(&dims(40, 2), None, None).is_ok());
}

#[test]
fn acoustic_strided_output_length() {
    assert_eq!(dims(40, 2).output_count(), 20 * 20 * 20);
    assert_eq!(dims(48, 1).output_count(), 48 * 48 * 48);
    assert_eq!(dims(32, 3).output_dims(), (11, 11, 11));
}

#[test]
fn strided_output_is_row_major_x_fastest() {
    let d = dims(40, 2);
    assert_eq!(d.output_source(0), (0, 0, 0));
    assert_eq!(d.output_source(1), (2, 0, 0));
    assert_eq!(d.output_source(20), (0, 2, 0));
    assert_eq!(d.output_source(400), (0, 0, 2));
    assert_eq!(d.output_source(7999), (38, 38, 38));
}

#[test]
fn acoustic_workgroups_cover_grid() {
    assert_eq!(dims(40, 1).workgroups(), (10, 10, 10));
    assert_eq!(dims(41, 1).workgroups(), (11, 11, 11));
}

#[test]
fn transducer_encoding() {
    let t = |axis, side| transducer_codes(&TransducerSpec { axis, side });
    assert_eq!(t(Axis::X, Side::Low), (0, 0));
    assert_eq!(t(Axis::X, Side::High), (0, 1));
    assert_eq!(t(Axis::Y, Side::Low), (1, 0));
    assert_eq!(t(Axis::Y, Side::High), (1, 1));
    assert_eq!(t(Axis::Z, Side::Low), (2, 0));
    assert_eq!(t(Axis::Z, Side::High), (2, 1));
}
