//! Fixed-point decimal arithmetic.
//!
//! A decimal is an `i64` that counts units of one hundred-millionth, so the
//! number one is `SCALE`. Products and quotients are formed exactly in wider
//! integers and rounded down to the next unit.

use vstd::prelude::*;
use vstd::arithmetic::div_mod::{lemma_fundamental_div_mod, lemma_fundamental_div_mod_converse, lemma_mod_bound};

verus! {

/// Units per whole: the decimal one.
pub const SCALE: i64 = 100_000_000;

/// The nearest `i64` to `x`.
pub open spec fn saturate(x: int) -> i64 {
    if x < i64::MIN as int {
        i64::MIN
    } else if x > i64::MAX as int {
        i64::MAX
    } else {
        x as i64
    }
}

/// The product of the decimals `a` and `b`, rounded down to a unit.
pub open spec fn scaled_mul(a: int, b: int) -> int {
    (a * b) / (SCALE as int)
}

/// The quotient of the decimals `a` and `b`, rounded down to a unit.
pub open spec fn scaled_div(a: int, b: int) -> int {
    (a * (SCALE as int)) / b
}

/// Rounding down agrees with rounding the magnitude up, for a negative
/// numerator.
pub proof fn lemma_floor_of_negative(n: int, d: int)
    requires
        n < 0,
        d > 0,
    ensures
        (-n) % d == 0 ==> n / d == -((-n) / d),
        (-n) % d != 0 ==> n / d == -((-n) / d) - 1,
{
    let m = -n;
    let q = m / d;
    let r = m % d;
    lemma_fundamental_div_mod(m, d);
    lemma_mod_bound(m, d);
    if r == 0 {
        assert(n == (-q) * d + 0) by (nonlinear_arith)
            requires
                m == d * q + r,
                r == 0,
                n == -m,
        ;
        lemma_fundamental_div_mod_converse(n, d, -q, 0);
    } else {
        assert(n == (-q - 1) * d + (d - r)) by (nonlinear_arith)
            requires
                m == d * q + r,
                n == -m,
        ;
        lemma_fundamental_div_mod_converse(n, d, -q - 1, d - r);
    }
}

/// `n / d` rounded down, for a positive `d`.
pub fn floor_div(n: i128, d: i128) -> (q: i128)
    requires
        d > 0,
        n > i128::MIN,
    ensures
        q == n as int / d as int,
{
    if n >= 0 {
        n / d
    } else {
        let m: i128 = -n;
        let q: i128 = m / d;
        let r: i128 = m % d;
        proof {
            lemma_floor_of_negative(n as int, d as int);
        }
        if r == 0 {
            -q
        } else {
            -q - 1
        }
    }
}

/// The nearest `i64` to `x`.
pub fn saturating(x: i128) -> (r: i64)
    ensures
        r == saturate(x as int),
{
    if x < i64::MIN as i128 {
        i64::MIN
    } else if x > i64::MAX as i128 {
        i64::MAX
    } else {
        x as i64
    }
}

/// The exact product of two `i64` values.
pub fn wide_mul(a: i64, b: i64) -> (p: i128)
    ensures
        p == a as int * b as int,
        -0x4000_0000_0000_0000_0000_0000_0000_0000 <= p <= 0x4000_0000_0000_0000_0000_0000_0000_0000,
{
    assert(-0x4000_0000_0000_0000_0000_0000_0000_0000 <= a as int * b as int
        <= 0x4000_0000_0000_0000_0000_0000_0000_0000) by (nonlinear_arith)
        requires
            -0x8000_0000_0000_0000 <= a as int <= 0x7fff_ffff_ffff_ffff,
            -0x8000_0000_0000_0000 <= b as int <= 0x7fff_ffff_ffff_ffff,
    ;
    (a as i128) * (b as i128)
}

} // verus!
