use xorshift_rng::Rng;

fn seed_a() -> Vec<u8> {
    vec![1, 2, 3, 4, 5, 6, 7, 8]
}

#[test]
fn golden_first_u64_for_unit_seed() {
    let mut rng = Rng::new(&vec![0, 0, 0, 0, 0, 0, 0, 1]);
    assert_eq!(rng.rand_u64(), 0x99a57b5e069d5cb3);
    assert_eq!(rng.rand_u64(), 0xe17ca185391cd2e5);
    assert_eq!(rng.rand_u64(), 0x16dc3b8f138c12a4);
}

#[test]
fn golden_u64_sequence() {
    let mut rng = Rng::new(&seed_a());
    assert_eq!(rng.rand_u64(), 0x18a53cdc859e596e);
    assert_eq!(rng.rand_u64(), 0x607c66e3822e3200);
    assert_eq!(rng.rand_u64(), 0xda9cddae57727368);
}

#[test]
fn u32_is_high_half_of_u64() {
    let mut rng = Rng::new(&seed_a());
    assert_eq!(rng.rand_u32(), 0x18a53cdc);
    assert_eq!(rng.rand_u32(), 0x607c66e3);
    assert_eq!(rng.rand_u32(), 0xda9cddae);
}

#[test]
fn u8_and_u16_are_low_bits_of_u32() {
    let mut a = Rng::new(&seed_a());
    let mut b = Rng::new(&seed_a());
    assert_eq!(a.rand_u8(), 0xdc);
    assert_eq!(b.rand_u16(), 0x3cdc);
}

#[test]
fn usize_matches_u64_on_this_platform() {
    let mut a = Rng::new(&seed_a());
    let mut b = Rng::new(&seed_a());
    let x = a.rand_usize();
    let y = b.rand_u64();
    assert_eq!(x as u64, y as usize as u64);
}

#[test]
fn determinism_same_seed_same_sequence() {
    let mut a = Rng::new(&seed_a());
    let mut b = Rng::new(&seed_a());
    for _ in 0..100 {
        assert_eq!(a.rand_u64(), b.rand_u64());
    }
    assert_eq!(a.rand_bounded_u32(17), b.rand_bounded_u32(17));
    assert_eq!(a.rand_range_i64(-5, 900), b.rand_range_i64(-5, 900));
    let mut va: Vec<u32> = (0..20).collect();
    let mut vb: Vec<u32> = (0..20).collect();
    a.shuffle(&mut va);
    b.shuffle(&mut vb);
    assert_eq!(va, vb);
}

#[test]
fn determinism_ignores_bytes_past_the_eighth() {
    let mut a = Rng::new(&vec![1, 2, 3, 4, 5, 6, 7, 8, 200, 201]);
    let mut b = Rng::new(&seed_a());
    for _ in 0..10 {
        assert_eq!(a.rand_u64(), b.rand_u64());
    }
}

#[test]
fn seed_sensitivity_distinct_seeds_diverge() {
    let mut a = Rng::new(&seed_a());
    let mut b = Rng::new(&vec![1, 2, 3, 4, 5, 6, 7, 9]);
    assert_ne!(a.rand_u64(), b.rand_u64());
}

#[test]
fn bounded_u32_stays_below_modulus() {
    let mut rng = Rng::new(&seed_a());
    for m in [1u32, 2, 3, 7, 10, 1000, u32::MAX] {
        for _ in 0..200 {
            assert!(rng.rand_bounded_u32(m) < m);
        }
    }
    let mut rng = Rng::new(&seed_a());
    assert_eq!(rng.rand_bounded_u32(10), 4);
}

#[test]
fn bounded_u64_stays_below_modulus() {
    let mut rng = Rng::new(&seed_a());
    for m in [1u64, 2, 3, 10, 1 << 33, u64::MAX] {
        for _ in 0..200 {
            assert!(rng.rand_bounded_u64(m) < m);
        }
    }
    let mut rng = Rng::new(&seed_a());
    assert_eq!(rng.rand_bounded_u64(1000), 694);
}

#[test]
fn bounded_usize_stays_below_modulus() {
    let mut rng = Rng::new(&seed_a());
    for m in [1usize, 5, 12, 100_000] {
        for _ in 0..200 {
            assert!(rng.rand_bounded_usize(m) < m);
        }
    }
}

#[test]
fn bounded_u32_frequencies_are_roughly_uniform() {
    let mut rng = Rng::new(&vec![9, 9, 9, 9, 9, 9, 9, 9]);
    let mut counts = [0u32; 3];
    for _ in 0..10_000 {
        counts[rng.rand_bounded_u32(3) as usize] += 1;
    }
    assert_eq!(counts, [3338, 3285, 3377]);
    for c in counts {
        assert!(3000 < c && c < 3700);
    }
}

#[test]
fn range_u32_stays_in_range() {
    let mut rng = Rng::new(&seed_a());
    assert_eq!(rng.rand_range_u32(50, 150), 54);
    for _ in 0..500 {
        let v = rng.rand_range_u32(10, 20);
        assert!((10..20).contains(&v));
    }
    for _ in 0..100 {
        let v = rng.rand_range_u32(0, u32::MAX);
        assert!(v < u32::MAX);
    }
}

#[test]
fn range_u64_stays_in_range() {
    let mut rng = Rng::new(&seed_a());
    for _ in 0..500 {
        let v = rng.rand_range_u64(1 << 40, (1 << 40) + 3);
        assert!(((1 << 40)..(1 << 40) + 3).contains(&v));
    }
}

#[test]
fn range_i32_stays_in_range() {
    let mut rng = Rng::new(&seed_a());
    assert_eq!(rng.rand_range_i32(i32::MIN, i32::MAX), -1734001444);
    for _ in 0..500 {
        let v = rng.rand_range_i32(-17, 25);
        assert!((-17..25).contains(&v));
    }
    for _ in 0..100 {
        let v = rng.rand_range_i32(i32::MIN, i32::MAX);
        assert!(v < i32::MAX);
    }
}

#[test]
fn range_i64_stays_in_range() {
    let mut rng = Rng::new(&seed_a());
    for _ in 0..500 {
        let v = rng.rand_range_i64(-3, 4);
        assert!((-3..4).contains(&v));
    }
    for _ in 0..100 {
        let v = rng.rand_range_i64(i64::MIN, i64::MAX);
        assert!(v < i64::MAX);
    }
}

#[test]
fn shuffle_is_a_permutation() {
    let mut rng = Rng::new(&seed_a());
    let mut v: Vec<u64> = (0..1000).collect();
    rng.shuffle(&mut v);
    assert_ne!(v, (0..1000).collect::<Vec<u64>>());
    let mut sorted = v.clone();
    sorted.sort();
    assert_eq!(sorted, (0..1000).collect::<Vec<u64>>());
}

#[test]
fn shuffle_golden_permutation() {
    let mut rng = Rng::new(&seed_a());
    let mut v: Vec<u8> = (0..10).collect();
    rng.shuffle(&mut v);
    assert_eq!(v, vec![8, 6, 7, 2, 9, 3, 5, 0, 1, 4]);
}

#[test]
fn shuffle_of_empty_and_single_is_noop() {
    let mut rng = Rng::new(&seed_a());
    let mut empty: Vec<u32> = vec![];
    rng.shuffle(&mut empty);
    assert!(empty.is_empty());
    let mut one = vec![42u32];
    rng.shuffle(&mut one);
    assert_eq!(one, vec![42]);
    // neither call consumed a draw
    assert_eq!(rng.rand_u64(), 0x18a53cdc859e596e);
}

#[test]
fn fill_writes_draws_little_endian_bytewise() {
    let mut rng = Rng::new(&seed_a());
    let mut buf = vec![0u8; 5];
    rng.fill(&mut buf);
    assert_eq!(buf, vec![220, 60, 165, 24, 227]);
}

#[test]
fn fill_consumes_one_draw_per_four_bytes() {
    // a five-byte fill consumes exactly two 32-bit draws
    let mut a = Rng::new(&seed_a());
    let mut b = Rng::new(&seed_a());
    let mut buf = vec![0u8; 5];
    a.fill(&mut buf);
    b.rand_u32();
    b.rand_u32();
    assert_eq!(a.rand_u32(), b.rand_u32());
    // an empty fill consumes none
    let mut c = Rng::new(&seed_a());
    let mut none: Vec<u8> = vec![];
    c.fill(&mut none);
    assert_eq!(c.rand_u64(), 0x18a53cdc859e596e);
}

#[test]
fn float_conversions_of_draws_stay_below_one() {
    // the float derivations scale a 32-bit draw by just under 2^-32
    let mut rng = Rng::new(&seed_a());
    for _ in 0..1000 {
        let d = rng.rand_u32();
        let f32_value = d as f32 * 2.3283064E-10;
        let f64_value = d as f64 * 2.3283064365386963E-10;
        assert!((0.0..1.0).contains(&f32_value));
        assert!((0.0..1.0).contains(&f64_value));
    }
    // the double-precision path stays strictly below 1.0 even for the
    // largest draw; the single-precision path rounds both factors and can
    // touch 1.0 there, so only the weak bound holds of it
    let top = u32::MAX;
    assert!((top as f64 * 2.3283064365386963E-10) < 1.0);
    assert!((top as f32 * 2.3283064E-10) <= 1.0);
}
