use cymatrox::rng::Rng;

#[test]
fn splitmix64_reference_sequence() {
    let mut r = Rng::new(0);
    assert_eq!(r.next_u64(), 0xE220_A839_7B1D_CDAF);
    assert_eq!(r.next_u64(), 0x6E78_9E6A_A1B9_65F4);
    assert_eq!(r.next_u64(), 0x06C4_5D18_8009_454F);
}

#[test]
fn same_seed_same_sequence() {
    let mut a = Rng::new(123);
    let mut b = Rng::new(123);
    let mut c = Rng::new(124);
    let mut differs = false;
    for _ in 0..100 {
        let x = a.next_u64();
        assert_eq!(x, b.next_u64());
        differs |= x != c.next_u64();
    }
    assert!(differs);
}
