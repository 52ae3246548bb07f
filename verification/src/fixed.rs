//! Decimal fixed point: every real quantity of the library is an integer
//! count of ten-thousandths, the precision of the serialized output.

use vstd::prelude::*;

verus! {

/// The integer that stands for the real number one.
pub const SCALE: i64 = 10_000;

/// The integer that stands for one hundred percent.
pub const FULL: i64 = 1_000_000;

/// `v` limited to the interval from `a` to `b`; values under `a` give `a`,
/// values over `b` give `b`.
pub open spec fn clamp_spec(v: int, a: int, b: int) -> int {
    if v < a {
        a
    } else if v > b {
        b
    } else {
        v
    }
}

/// The quotient of `n` by a positive `d`, rounded toward zero.
pub open spec fn trunc_div(n: int, d: int) -> int {
    if n >= 0 {
        n / d
    } else {
        -((-n) / d)
    }
}

/// The product of two fixed-point numbers, rounded toward zero.
pub open spec fn mul_fixed(a: int, b: int) -> int {
    trunc_div(a * b, SCALE as int)
}

/// Rounding toward zero never grows a magnitude: for `d >= 1` the quotient
/// lies between zero and the numerator.
pub proof fn lemma_trunc_div_bounds(n: int, d: int)
    requires
        d >= 1,
    ensures
        n >= 0 ==> 0 <= trunc_div(n, d) <= n,
        n <= 0 ==> n <= trunc_div(n, d) <= 0,
{
    if n >= 0 {
        assert(0 <= n / d <= n) by (nonlinear_arith)
            requires
                n >= 0,
                d >= 1,
        ;
    } else {
        let m = -n;
        assert(0 <= m / d <= m) by (nonlinear_arith)
            requires
                m >= 0,
                d >= 1,
        ;
    }
}

/// Limits `v` to the interval from `a` to `b`.
pub fn clamp(v: i128, a: i128, b: i128) -> (r: i128)
    ensures
        r == clamp_spec(v as int, a as int, b as int),
{
    if v < a {
        a
    } else if v > b {
        b
    } else {
        v
    }
}

/// Divides by a positive number, rounding toward zero.
pub fn div_trunc(n: i128, d: i128) -> (q: i128)
    requires
        d >= 1,
        n > i128::MIN,
    ensures
        q == trunc_div(n as int, d as int),
{
    proof {
        lemma_trunc_div_bounds(n as int, d as int);
    }
    if n >= 0 {
        n / d
    } else {
        let m: i128 = -n;
        let q: i128 = m / d;
        -q
    }
}

} // verus!
