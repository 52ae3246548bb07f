use bordered::fixed::{clamp, div_trunc, SCALE};
use bordered::noise::{hash_seed, noise_bits, seeded_noise, unit_from_bits};

#[test]
fn fold_of_empty_seed_is_the_basis() {
    assert_eq!(hash_seed(""), 1469598103934665603);
}

#[test]
fn fold_of_seed_is_exact() {
    assert_eq!(hash_seed("seed"), 7378351035583232718);
}

#[test]
fn noise_bits_are_exact() {
    assert_eq!(noise_bits("seed", 0, 0), 16988227916732028373);
}

#[test]
fn noise_values_are_exact() {
    assert_eq!(seeded_noise("seed", 0, 0), 8418);
    assert_eq!(seeded_noise("seed-top", 1, 1), 1974);
    assert_eq!(seeded_noise("", 0, 0), -3858);
    assert_eq!(seeded_noise("seed", -1, 2), -4791);
}

#[test]
fn noise_is_deterministic() {
    for i in 0..50i64 {
        assert_eq!(seeded_noise("homepage", i, i), seeded_noise("homepage", i, i));
    }
}

#[test]
fn noise_stays_in_unit_range() {
    for i in -200..200i64 {
        let n = seeded_noise("range", i, -i);
        assert!(-SCALE <= n && n <= SCALE);
    }
}

#[test]
fn noise_depends_on_seed_and_coordinates() {
    assert_ne!(seeded_noise("a", 3, 3), seeded_noise("b", 3, 3));
    assert_ne!(seeded_noise("a", 3, 3), seeded_noise("a", 4, 3));
    assert_ne!(seeded_noise("a", 3, 3), seeded_noise("a", 3, 4));
}

#[test]
fn unit_from_bits_at_the_ends() {
    assert_eq!(unit_from_bits(0), -SCALE);
    assert_eq!(unit_from_bits(u64::MAX), SCALE);
    assert_eq!(unit_from_bits(u64::MAX / 2), -1);
    assert_eq!(unit_from_bits(u64::MAX / 2 + 1), 0);
}

#[test]
fn clamp_limits_to_the_interval() {
    assert_eq!(clamp(-1, 0, 100), 0);
    assert_eq!(clamp(101, 0, 100), 100);
    assert_eq!(clamp(42, 0, 100), 42);
    assert_eq!(clamp(0, 0, 100), 0);
    assert_eq!(clamp(100, 0, 100), 100);
}

#[test]
fn div_trunc_rounds_toward_zero() {
    assert_eq!(div_trunc(19_999, 10_000), 1);
    assert_eq!(div_trunc(-19_999, 10_000), -1);
    assert_eq!(div_trunc(-9_999, 10_000), 0);
    assert_eq!(div_trunc(0, 7), 0);
}
