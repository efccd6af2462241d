use odeon::rng::SplitMix64;

#[test]
fn splitmix_matches_the_reference_sequence() {
    // SplitMix64 from a zero state gives e220a8397b1dcdaf, 6e789e6aa1b965f4,
    // 06c45d188009454f; `new(0)` has already taken the first increment.
    let mut r = SplitMix64::new(0);
    assert_eq!(r.next_u64(), 0x6E78_9E6A_A1B9_65F4);
    assert_eq!(r.next_u64(), 0x06C4_5D18_8009_454F);
}

#[test]
fn same_seed_same_stream_and_different_seeds_differ() {
    let draw = |seed: u64| {
        let mut r = SplitMix64::new(seed);
        (0..5).map(|_| r.next_u64()).collect::<Vec<_>>()
    };
    assert_eq!(draw(42), draw(42));
    assert_ne!(draw(42), draw(43));
}

#[test]
fn the_state_advances_by_gamma_and_wraps() {
    let mut r = SplitMix64::new(u64::MAX);
    assert_eq!(r.state, 0x9E37_79B9_7F4A_7C14);
    r.next_u64();
    assert_eq!(r.state, 0x9E37_79B9_7F4A_7C14u64.wrapping_add(0x9E37_79B9_7F4A_7C15));
}

#[test]
fn the_k_th_draw_depends_only_on_seed_and_k() {
    let seed = 7u64;
    let mut r = SplitMix64::new(seed);
    let draws: Vec<u64> = (0..4).map(|_| r.next_u64()).collect();
    for (k, d) in draws.iter().enumerate() {
        let mut fresh = SplitMix64::new(0);
        fresh.state = seed.wrapping_add((k as u64 + 1).wrapping_mul(0x9E37_79B9_7F4A_7C15));
        assert_eq!(fresh.next_u64(), *d);
    }
}

#[test]
fn uniform_bits_lie_in_one_to_two_pow_53() {
    let mut r = SplitMix64::new(3);
    for _ in 0..1000 {
        let b = r.next_uniform_bits();
        assert!(b >= 1 && b <= 1u64 << 53);
    }
    let mut a = SplitMix64::new(0);
    assert_eq!(a.next_uniform_bits(), (0x6E78_9E6A_A1B9_65F4u64 >> 11) + 1);
}

#[test]
fn distinct_seeds_give_distinct_first_draws() {
    for (a, b) in [(0u64, 1u64), (1, 2), (42, 43), (u64::MAX, 0)] {
        assert_ne!(SplitMix64::new(a).next_u64(), SplitMix64::new(b).next_u64());
    }
}
