use art_engine::prng::{Xorshift64, FALLBACK_SEED};

fn unit(mantissa: u64) -> f64 {
    mantissa as f64 / (1u64 << 53) as f64
}

#[test]
fn next_u64_produces_known_golden_value_for_seed_42() {
    let mut rng = Xorshift64::new(42);
    assert_eq!(rng.next_u64(), 45_454_805_674);
}

#[test]
fn seed_zero_does_not_produce_all_zeros() {
    let mut rng = Xorshift64::new(0);
    let first = rng.next_u64();
    assert_ne!(first, 0, "seed=0 guard failed: first value is 0");
    let second = rng.next_u64();
    let third = rng.next_u64();
    assert_ne!(second, 0);
    assert_ne!(third, 0);
}

#[test]
fn two_instances_with_same_seed_produce_identical_sequences() {
    let mut rng_a = Xorshift64::new(42);
    let mut rng_b = Xorshift64::new(42);
    for i in 0..1000 {
        assert_eq!(rng_a.next_u64(), rng_b.next_u64(), "sequences diverged at index {i}");
    }
}

#[test]
fn next_f64_always_in_unit_interval() {
    let mut rng = Xorshift64::new(12345);
    for i in 0..10_000 {
        let v = f64::from_bits(rng.next_f64());
        assert!((0.0..1.0).contains(&v), "next_f64() = {v} out of [0, 1) at iteration {i}");
    }
}

#[test]
fn next_usize_always_less_than_max() {
    let mut rng = Xorshift64::new(7777);
    for i in 0..10_000 {
        let v = rng.next_usize(100);
        assert!(v < 100, "next_usize(100) = {v} >= 100 at iteration {i}");
    }
}

#[test]
fn serialization_roundtrip_preserves_state() {
    let mut rng = Xorshift64::new(42);
    for _ in 0..50 {
        rng.next_u64();
    }
    let stored: u64 = rng.state();
    let mut restored = Xorshift64::new(stored);
    for i in 0..100 {
        assert_eq!(rng.next_u64(), restored.next_u64(), "sequences diverged at index {i}");
    }
}

#[test]
fn zero_seed_starts_from_the_fallback_state() {
    assert_eq!(Xorshift64::new(0).state(), FALLBACK_SEED);
    assert_eq!(Xorshift64::new(0).state(), 0x5EED_DEAD_BEEF_CAFE);
    assert_eq!(Xorshift64::new(7).state(), 7);
}

#[test]
fn next_u64_follows_the_shift_triple() {
    for seed in [1u64, 42, 0xFFFF_FFFF_FFFF_FFFF, 0x8000_0000_0000_0000] {
        let mut x = seed;
        x ^= x << 13;
        x ^= x >> 7;
        x ^= x << 17;
        let mut rng = Xorshift64::new(seed);
        assert_eq!(rng.next_u64(), x);
        assert_eq!(rng.state(), x);
    }
}

#[test]
fn next_mantissa_is_the_top_53_bits() {
    let mut a = Xorshift64::new(42);
    let mut b = Xorshift64::new(42);
    for _ in 0..100 {
        let word = a.next_u64();
        let mantissa = b.next_mantissa();
        assert_eq!(mantissa, word >> 11);
        assert!(mantissa < (1u64 << 53));
    }
    let mut c = Xorshift64::new(42);
    assert_eq!(c.next_mantissa(), 45_454_805_674 >> 11);
}

#[test]
fn next_usize_is_the_word_modulo_max() {
    let mut a = Xorshift64::new(42);
    let mut b = Xorshift64::new(42);
    for max in 1usize..200 {
        let word = a.next_u64();
        assert_eq!(b.next_usize(max) as u64, word % max as u64);
    }
    let mut c = Xorshift64::new(42);
    assert_eq!(c.next_usize(1000), 674);
}

#[test]
fn state_never_becomes_zero() {
    let mut rng = Xorshift64::new(1);
    for _ in 0..100_000 {
        assert_ne!(rng.next_u64(), 0);
    }
}

#[test]
fn next_f64_is_the_mantissa_over_two_to_the_53() {
    let mut a = Xorshift64::new(42);
    let mut b = Xorshift64::new(42);
    for _ in 0..10_000 {
        let expected = unit(a.next_mantissa());
        assert_eq!(b.next_f64(), expected.to_bits());
        assert_eq!(a.state(), b.state());
    }
    let mut c = Xorshift64::new(42);
    assert_eq!(f64::from_bits(c.next_f64()), (45_454_805_674u64 >> 11) as f64 / 9007199254740992.0);
}

#[test]
fn next_f64_uniformity_in_ten_buckets() {
    let mut rng = Xorshift64::new(99);
    let mut buckets = [0u32; 10];
    for _ in 0..10_000 {
        let v = f64::from_bits(rng.next_f64());
        let idx = (v * 10.0).min(9.0) as usize;
        buckets[idx] += 1;
    }
    for (i, &count) in buckets.iter().enumerate() {
        assert!(count >= 500, "bucket {i} has only {count} values");
    }
}
