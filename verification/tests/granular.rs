use cymatrox::granular::{
    check_grain_count, check_modes, dispatch_groups, grid_cell, grid_cells, invalid, validate,
    GrainBed, GranularError, InitialDistribution, MeasuredIndex, ModeIndices, MAX_GRAINS,
};

fn detail(e: GranularError) -> String {
    match e {
        GranularError::InvalidConfig(s) => s,
    }
}

#[test]
fn zero_grains_violate_p1() {
    let err = validate(0, None, &ModeIndices::Auto).err().expect("count=0 must fail");
    let msg = err.message();
    assert!(msg.contains("P1"), "{msg}");
    assert_eq!(
        detail(err),
        "P1 violated: grains.count = 0 must be within 1..=1000000 (see README performance targets)"
    );
}

#[test]
fn too_many_grains_violate_p1() {
    let err = check_grain_count(MAX_GRAINS + 1).err().expect("over the cap must fail");
    assert_eq!(
        detail(err),
        "P1 violated: grains.count = 1000001 must be within 1..=1000000 (see README performance targets)"
    );
    assert!(check_grain_count(MAX_GRAINS).is_ok());
    assert!(check_grain_count(1).is_ok());
}

#[test]
fn zero_mode_index_violates_p4() {
    let err = validate(100, None, &ModeIndices::Explicit(vec![(0, 3)]))
        .err()
        .expect("mode index 0 must fail");
    assert!(err.message().contains("P4"));
    assert_eq!(detail(err), "P4 violated: mode indices must be >= 1");
}

#[test]
fn empty_mode_lists_violate_p4() {
    let e = check_modes(&ModeIndices::Explicit(vec![])).err().unwrap();
    assert_eq!(detail(e), "P4 violated: Explicit mode list must not be empty");
    let e = check_modes(&ModeIndices::Measured(vec![])).err().unwrap();
    assert_eq!(detail(e), "P4 violated: Measured eigenpair list must not be empty");
}

#[test]
fn bad_measured_entry_violates_p4() {
    let good = MeasuredIndex { m: 2, n: 1, omega_valid: true };
    let bad = MeasuredIndex { m: 1, n: 3, omega_valid: false };
    assert!(check_modes(&ModeIndices::Measured(vec![good])).is_ok());
    let e = check_modes(&ModeIndices::Measured(vec![good, bad])).err().unwrap();
    assert_eq!(
        detail(e),
        "P4 violated: EigenPair requires indices >= 1 and omega_measured_hz > 0"
    );
}

#[test]
fn float_clause_sits_between_p1_and_p4() {
    let p3 = "P3 violated: frequency_hz = 30000 must be within [20, 20000] Hz".to_string();
    let e = validate(100, Some(p3.clone()), &ModeIndices::Explicit(vec![(0, 3)])).err().unwrap();
    assert_eq!(detail(e), p3);
    let e = validate(0, Some(p3), &ModeIndices::Auto).err().unwrap();
    assert!(detail(e).starts_with("P1 violated"));
    assert!(validate(4096, None, &ModeIndices::Explicit(vec![(3, 5), (1, 1)])).is_ok());
}

#[test]
fn invalid_wraps_message() {
    let e = invalid("P2 violated: medium side must be finite and > 0".to_string());
    assert_eq!(
        e.message(),
        "invalid granular configuration: P2 violated: medium side must be finite and > 0"
    );
}

#[test]
fn grid_side_is_ceil_sqrt() {
    assert_eq!(grid_cells(0), 1);
    assert_eq!(grid_cells(1), 1);
    assert_eq!(grid_cells(2), 2);
    assert_eq!(grid_cells(4), 2);
    assert_eq!(grid_cells(5), 3);
    assert_eq!(grid_cells(4096), 64);
    assert_eq!(grid_cells(4097), 65);
    assert_eq!(grid_cells(MAX_GRAINS), 1000);
    assert_eq!(grid_cells(u32::MAX), 65536);
}

#[test]
fn grid_cells_fill_rows() {
    assert_eq!(grid_cell(0, 3), (0, 0));
    assert_eq!(grid_cell(2, 3), (2, 0));
    assert_eq!(grid_cell(3, 3), (0, 1));
    assert_eq!(grid_cell(8, 3), (2, 2));
    let n = 10u32;
    let c = grid_cells(n);
    let mut seen = std::collections::HashSet::new();
    for i in 0..n {
        let cell = grid_cell(i, c);
        assert!(cell.0 < c && cell.1 < c);
        assert!(seen.insert(cell), "cell reused");
    }
}

#[test]
fn dispatch_covers_every_grain() {
    assert_eq!(dispatch_groups(4096), 64);
    assert_eq!(dispatch_groups(4097), 65);
    assert_eq!(dispatch_groups(1), 1);
    assert_eq!(dispatch_groups(0), 0);
}

#[test]
fn grain_bed_holds_its_settings() {
    let bed = GrainBed { count: 8192, distribution: InitialDistribution::Grid, seed: 7 };
    let copy = bed;
    assert_eq!(copy.count, 8192);
    assert_eq!(copy.seed, 7);
    assert!(matches!(copy.distribution, InitialDistribution::Grid));
}
