//! Fixed-point scalars (16.16 in an `i32`) and the small vector algebra of the pipeline.
//!
//! Every operation computes its exact result over the integers, rounds it down to the
//! fixed-point grid and saturates it at the ends of the `i32` range.
use vstd::prelude::*;

verus! {

/// The fixed-point value of 1.0.
pub const ONE: i32 = 65536;

/// The fixed-point value of 0.5.
pub const HALF: i32 = 32768;

/// Clamps an integer into the range of `i32`.
pub open spec fn sat(v: int) -> int {
    if v < i32::MIN {
        i32::MIN as int
    } else if v > i32::MAX {
        i32::MAX as int
    } else {
        v
    }
}

/// Fixed-point rounding of an exact product sum that carries two factors of `ONE`.
pub open spec fn rescale(v: int) -> int {
    sat(v / (ONE as int))
}

pub open spec fn fadd(a: int, b: int) -> int {
    sat(a + b)
}

pub open spec fn fsub(a: int, b: int) -> int {
    sat(a - b)
}

pub open spec fn fmul(a: int, b: int) -> int {
    rescale(a * b)
}

pub open spec fn clamp01(v: int) -> int {
    if v < 0 {
        0
    } else if v > ONE as int {
        ONE as int
    } else {
        v
    }
}

/// The largest `r` with `r * r <= n`.
pub open spec fn is_isqrt(n: int, r: int) -> bool {
    0 <= r && r * r <= n && n < (r + 1) * (r + 1)
}

/// `c / len` as a fixed-point ratio, rounded toward zero so that it is symmetric in sign.
pub open spec fn unit_comp(c: int, len: int) -> int {
    if c >= 0 {
        (c * (ONE as int)) / len
    } else {
        -(((-c) * (ONE as int)) / len)
    }
}

/// Floor division by a positive divisor.
pub fn floor_div(a: i128, b: i128) -> (r: i128)
    requires
        b > 0,
        a > i128::MIN,
    ensures
        r == a / b,
{
    if a >= 0 {
        a / b
    } else {
        let n: i128 = -a - 1;
        let q: i128 = n / b;
        proof {
            let rem = n % b;
            vstd::arithmetic::div_mod::lemma_fundamental_div_mod(n as int, b as int);
            assert(a == (-q - 1) * b + (b - rem - 1)) by (nonlinear_arith)
                requires
                    n == b * q + rem,
                    a == -n - 1,
            ;
            vstd::arithmetic::div_mod::lemma_fundamental_div_mod_converse(
                a as int,
                b as int,
                -q - 1,
                b - rem - 1,
            );
        }
        -q - 1
    }
}

pub fn saturate(v: i128) -> (r: i32)
    ensures
        r == sat(v as int),
{
    if v < i32::MIN as i128 {
        i32::MIN
    } else if v > i32::MAX as i128 {
        i32::MAX
    } else {
        v as i32
    }
}

/// Rounds an exact sum of products of fixed-point values back to the grid.
pub fn rescale_exec(v: i128) -> (r: i32)
    requires
        v > i128::MIN,
    ensures
        r == rescale(v as int),
{
    saturate(floor_div(v, ONE as i128))
}

pub fn fx_add(a: i32, b: i32) -> (r: i32)
    ensures
        r == fadd(a as int, b as int),
{
    saturate(a as i128 + b as i128)
}

pub fn fx_sub(a: i32, b: i32) -> (r: i32)
    ensures
        r == fsub(a as int, b as int),
{
    saturate(a as i128 - b as i128)
}

pub fn fx_mul(a: i32, b: i32) -> (r: i32)
    ensures
        r == fmul(a as int, b as int),
{
    proof {
        lemma_mul_i32_bound(a as int, b as int);
    }
    rescale_exec(a as i128 * b as i128)
}

pub fn fx_clamp01(v: i32) -> (r: i32)
    ensures
        r == clamp01(v as int),
        0 <= r <= ONE,
{
    if v < 0 {
        0
    } else if v > ONE {
        ONE
    } else {
        v
    }
}

pub proof fn lemma_mul_i32_bound(a: int, b: int)
    requires
        i32::MIN <= a <= i32::MAX,
        i32::MIN <= b <= i32::MAX,
    ensures
        -0x4000_0000_0000_0000 <= a * b <= 0x4000_0000_0000_0000,
{
    assert(-0x4000_0000_0000_0000 <= a * b <= 0x4000_0000_0000_0000) by (nonlinear_arith)
        requires
            -0x8000_0000 <= a <= 0x8000_0000,
            -0x8000_0000 <= b <= 0x8000_0000,
    ;
}

/// Integer square root, rounded down.
pub fn isqrt(n: u128) -> (r: u128)
    requires
        n < 0x1_0000_0000_0000_0000_0000_0000,
    ensures
        is_isqrt(n as int, r as int),
{
    let mut lo: u128 = 0;
    let mut hi: u128 = 0x1_0000_0000_0000;
    assert(n < hi * hi) by (nonlinear_arith)
        requires
            n < 0x1_0000_0000_0000_0000_0000_0000,
            hi == 0x1_0000_0000_0000,
    ;
    while hi - lo > 1
        invariant
            lo < hi <= 0x1_0000_0000_0000,
            lo * lo <= n,
            n < hi * hi,
        decreases hi - lo,
    {
        let mid: u128 = lo + (hi - lo) / 2;
        assert(mid * mid <= 0x1_0000_0000_0000_0000_0000_0000) by (nonlinear_arith)
            requires
                mid <= 0x1_0000_0000_0000,
        ;
        if mid * mid <= n {
            lo = mid;
        } else {
            hi = mid;
        }
    }
    lo
}

} // verus!
