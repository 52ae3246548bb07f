//! The deterministic noise source: a seed string and two integers give a
//! reproducible value between minus one and one.

use vstd::prelude::*;
use vstd::string::*;
use crate::fixed::SCALE;

verus! {

/// Start value of the byte fold.
pub const FOLD_BASIS: u64 = 1469598103934665603;

/// Multiplier of the byte fold.
pub const FOLD_PRIME: u64 = 1099511628211;

/// First odd mixing constant.
pub const MIX_A: u64 = 0x9e3779b97f4a7c15;

/// Second odd mixing constant.
pub const MIX_B: u64 = 0xbf58476d1ce4e5b9;

/// Third odd mixing constant.
pub const MIX_C: u64 = 0x94d049bb133111eb;

/// The order-dependent multiplicative fold of a byte string into 64 bits:
/// each byte is xor-ed into the accumulator, which is then multiplied by
/// the fold prime modulo 2^64.
pub open spec fn fold_bytes(bytes: Seq<u8>) -> u64
    decreases bytes.len(),
{
    if bytes.len() == 0 {
        FOLD_BASIS
    } else {
        (fold_bytes(bytes.drop_last()) ^ (bytes.last() as u64)).wrapping_mul(FOLD_PRIME)
    }
}

/// The folded seed combined with the two coordinates.
pub open spec fn combine(h: u64, x: i64, y: i64) -> u64 {
    h.wrapping_add((x as u64).wrapping_mul(MIX_A)) ^ (y as u64).wrapping_mul(MIX_B)
}

/// The avalanche step: add, then twice xor-shift and multiply, then a last
/// xor-shift.
pub open spec fn avalanche(h: u64) -> u64 {
    let z0 = h.wrapping_add(MIX_A);
    let z1 = (z0 ^ (z0 >> 30)).wrapping_mul(MIX_B);
    let z2 = (z1 ^ (z1 >> 27)).wrapping_mul(MIX_C);
    z2 ^ (z2 >> 31)
}

/// The 64 bits that seed bytes and coordinates hash to.
pub open spec fn noise_bits_spec(bytes: Seq<u8>, x: i64, y: i64) -> u64 {
    avalanche(combine(fold_bytes(bytes), x, y))
}

/// The fixed-point number in [-1, 1] that 64 hashed bits stand for: the bits
/// divided by the largest 64-bit value, doubled, minus one.
pub open spec fn unit_of_bits(z: u64) -> int {
    (z as int * 2 * SCALE as int) / (u64::MAX as int) - SCALE as int
}

/// The noise value of a seed given by its characters.
pub open spec fn noise_spec(seed: Seq<char>, x: i64, y: i64) -> int {
    unit_of_bits(noise_bits_spec(vstd::utf8::encode_utf8(seed), x, y))
}

/// Every noise value lies between minus one and one.
pub proof fn lemma_unit_of_bits_range(z: u64)
    ensures
        -(SCALE as int) <= unit_of_bits(z) <= SCALE as int,
{
    let n = z as int * 20_000;
    let m = u64::MAX as int;
    assert(0 <= n / m <= 20_000) by (nonlinear_arith)
        requires
            0 <= n <= m * 20_000,
            m > 0,
    ;
}

/// The noise of every seed and every pair of coordinates lies between minus
/// one and one.
pub proof fn lemma_noise_in_unit(seed: Seq<char>, x: i64, y: i64)
    ensures
        -(SCALE as int) <= noise_spec(seed, x, y) <= SCALE as int,
{
    lemma_unit_of_bits_range(noise_bits_spec(vstd::utf8::encode_utf8(seed), x, y));
}

/// Folds the bytes of a seed into 64 bits.
pub fn hash_seed(seed: &str) -> (h: u64)
    ensures
        h == fold_bytes(seed.spec_bytes()),
{
    let bytes = seed.as_bytes();
    let mut h: u64 = FOLD_BASIS;
    let mut i: usize = 0;
    while i < bytes.len()
        invariant
            i <= bytes@.len(),
            h == fold_bytes(bytes@.take(i as int)),
        decreases bytes@.len() - i,
    {
        proof {
            assert(bytes@.take(i + 1).drop_last() =~= bytes@.take(i as int));
        }
        h = (h ^ (bytes[i] as u64)).wrapping_mul(FOLD_PRIME);
        i += 1;
    }
    proof {
        assert(bytes@.take(i as int) =~= bytes@);
    }
    h
}

/// The 64 hashed bits of a seed and two coordinates.
pub fn noise_bits(seed: &str, x: i64, y: i64) -> (z: u64)
    ensures
        z == noise_bits_spec(seed.spec_bytes(), x, y),
{
    let h0: u64 = hash_seed(seed);
    let h: u64 = h0.wrapping_add((x as u64).wrapping_mul(MIX_A)) ^ (y as u64).wrapping_mul(MIX_B);
    let z0: u64 = h.wrapping_add(MIX_A);
    let z1: u64 = (z0 ^ (z0 >> 30)).wrapping_mul(MIX_B);
    let z2: u64 = (z1 ^ (z1 >> 27)).wrapping_mul(MIX_C);
    z2 ^ (z2 >> 31)
}

/// Maps 64 hashed bits to a fixed-point number in [-1, 1].
pub fn unit_from_bits(z: u64) -> (n: i64)
    ensures
        n == unit_of_bits(z),
        -SCALE <= n <= SCALE,
{
    proof {
        lemma_unit_of_bits_range(z);
    }
    let wide: u128 = (z as u128) * 20_000u128;
    let q: u128 = wide / (u64::MAX as u128);
    (q as i64) - SCALE
}

/// Deterministic noise in [-1, 1] from a seed and two coordinates; a pure
/// function of its arguments.
pub fn seeded_noise(seed: &str, x: i64, y: i64) -> (n: i64)
    ensures
        n == noise_spec(seed@, x, y),
        -SCALE <= n <= SCALE,
{
    unit_from_bits(noise_bits(seed, x, y))
}

} // verus!
