//! The fixed-point format shared by every coordinate and depth.
//!
//! A number is held as a signed integer, its raw value, that counts steps
//! of 2^-24: the raw value `r` stands for the real number `r / 2^24`.
//! Sums and differences of numbers are sums and differences of raw values;
//! a product of two numbers is the product of the raw values divided by
//! [`ONE`].

use vstd::prelude::*;
use vstd::arithmetic::div_mod::{lemma_fundamental_div_mod, lemma_fundamental_div_mod_converse};

verus! {

/// The raw value of the real number one: 2^24.
pub const ONE: i64 = 0x100_0000;

/// Largest magnitude of a screen coordinate that the rasterizer accepts:
/// 2^24 pixels. A triangle with a vertex further out is skipped whole.
pub const GUARD_BAND: i64 = 0x1_0000_0000_0000;

/// `v` limited to the range of `i64`.
pub open spec fn clamp_i64(v: int) -> int {
    if v < i64::MIN {
        i64::MIN as int
    } else if v > i64::MAX {
        i64::MAX as int
    } else {
        v
    }
}

/// The whole part of the fixed-point number `raw`, rounded towards minus
/// infinity.
pub open spec fn floor_spec(raw: int) -> int {
    raw / (ONE as int)
}

/// The larger of two integers.
pub open spec fn max_spec(a: int, b: int) -> int {
    if a >= b {
        a
    } else {
        b
    }
}

/// The smaller of two integers.
pub open spec fn min_spec(a: int, b: int) -> int {
    if a <= b {
        a
    } else {
        b
    }
}

/// The fixed-point number that stands for the whole number `n`.
pub fn from_int(n: i32) -> (r: i64)
    ensures
        r == n * ONE,
{
    (n as i64) * ONE
}

/// The whole part of `raw`, rounded towards minus infinity.
pub fn floor(raw: i64) -> (r: i64)
    ensures
        r == floor_spec(raw as int),
        r * ONE <= raw < (r + 1) * ONE,
{
    if raw >= 0 {
        raw / ONE
    } else {
        let m: i64 = -(raw + 1);
        -(m / ONE) - 1
    }
}

/// The quotient of `v` by the positive `d`, rounded towards minus
/// infinity.
pub fn floor_div(v: i128, d: i128) -> (r: i128)
    requires
        d > 0,
    ensures
        r == (v as int) / (d as int),
{
    if v >= 0 {
        v / d
    } else {
        let m: i128 = -(v + 1);
        let q: i128 = m / d;
        proof {
            // m = q * d + s with 0 <= s < d, so v = (-q - 1) * d + (d - 1 - s)
            lemma_fundamental_div_mod(m as int, d as int);
            let s = (m as int) % (d as int);
            assert((d as int) * (q as int) + s == m);
            assert((-(q as int) - 1) * (d as int) + ((d as int) - 1 - s) == v) by (nonlinear_arith)
                requires
                    (d as int) * (q as int) + s == m,
                    m == -(v + 1),
            ;
            lemma_fundamental_div_mod_converse(
                v as int,
                d as int,
                -(q as int) - 1,
                (d as int) - 1 - s,
            );
        }
        -q - 1
    }
}

/// The larger of `a` and `b`.
pub fn max(a: i64, b: i64) -> (r: i64)
    ensures
        r == max_spec(a as int, b as int),
{
    if a >= b {
        a
    } else {
        b
    }
}

/// The smaller of `a` and `b`.
pub fn min(a: i64, b: i64) -> (r: i64)
    ensures
        r == min_spec(a as int, b as int),
{
    if a <= b {
        a
    } else {
        b
    }
}

/// `v` limited to the range of `i64`.
pub fn saturate(v: i128) -> (r: i64)
    ensures
        r == clamp_i64(v as int),
{
    if v < i64::MIN as i128 {
        i64::MIN
    } else if v > i64::MAX as i128 {
        i64::MAX
    } else {
        v as i64
    }
}

} // verus!
