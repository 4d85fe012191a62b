//! Saturating fixed-point scalars.
//!
//! A scalar is an `i64` counting units of `1 / ONE`. Every operation is total:
//! its exact result is rounded toward zero and then saturated into
//! `[-MAX, MAX]`, the way a float overflows to infinity instead of wrapping.
use vstd::arithmetic::div_mod::{lemma_div_is_ordered, lemma_div_pos_is_pos};
use vstd::prelude::*;

verus! {

/// The scalar `1.0`: sixteen fractional bits.
pub const ONE: i64 = 65536;

/// The largest magnitude of a scalar; results saturate at `MAX` and `-MAX`.
pub const MAX: i64 = 0x7fff_ffff_ffff_ffff;

/// Saturates an exact value into `[-MAX, MAX]`.
pub open spec fn sat(v: int) -> int {
    if v > MAX {
        MAX as int
    } else if v < -MAX {
        -MAX
    } else {
        v
    }
}

/// Whether `v` lies in the range every operation produces.
pub open spec fn in_range(v: int) -> bool {
    -MAX <= v <= MAX
}

/// The quotient `n / d` for `d > 0`, rounded toward zero.
pub open spec fn quot(n: int, d: int) -> int {
    if n >= 0 {
        n / d
    } else {
        -((-n) / d)
    }
}

pub open spec fn add_spec(a: int, b: int) -> int {
    sat(a + b)
}

pub open spec fn sub_spec(a: int, b: int) -> int {
    sat(a - b)
}

pub open spec fn neg_spec(a: int) -> int {
    sat(-a)
}

pub open spec fn mul_spec(a: int, b: int) -> int {
    sat(quot(a * b, ONE as int))
}

/// Division; a zero divisor saturates by the sign of the dividend.
pub open spec fn div_spec(a: int, b: int) -> int {
    if b > 0 {
        sat(quot(a * ONE, b))
    } else if b < 0 {
        sat(quot(-a * ONE, -b))
    } else if a > 0 {
        MAX as int
    } else if a < 0 {
        -MAX
    } else {
        0
    }
}

pub open spec fn min_spec(a: int, b: int) -> int {
    if a <= b {
        a
    } else {
        b
    }
}

pub open spec fn abs_spec(a: int) -> int {
    if a < 0 {
        sat(-a)
    } else {
        sat(a)
    }
}

/// `r` is the integer square root of `n`.
pub open spec fn is_isqrt(n: int, r: int) -> bool {
    0 <= r && r * r <= n && n < (r + 1) * (r + 1)
}

/// The integer square root of `n`, for `n >= 0`.
pub open spec fn isqrt(n: int) -> int {
    choose|r: int| is_isqrt(n, r)
}

/// Square root of a scalar; non-positive inputs give zero.
pub open spec fn sqrt_spec(a: int) -> int {
    if a <= 0 {
        0
    } else {
        isqrt(a * ONE)
    }
}

proof fn lemma_product_bound(a: int, b: int)
    requires
        -0x8000_0000_0000_0000 <= a <= 0x8000_0000_0000_0000,
        -0x8000_0000_0000_0000 <= b <= 0x8000_0000_0000_0000,
    ensures
        -0x4000_0000_0000_0000_0000_0000_0000_0000 <= a * b <= 0x4000_0000_0000_0000_0000_0000_0000_0000,
{
    assert(-0x4000_0000_0000_0000_0000_0000_0000_0000 <= a * b <= 0x4000_0000_0000_0000_0000_0000_0000_0000)
        by (nonlinear_arith)
        requires
            -0x8000_0000_0000_0000 <= a <= 0x8000_0000_0000_0000,
            -0x8000_0000_0000_0000 <= b <= 0x8000_0000_0000_0000,
    ;
}

proof fn lemma_quot_monotone(n1: int, n2: int, d: int)
    requires
        n1 <= n2,
        d > 0,
    ensures
        quot(n1, d) <= quot(n2, d),
{
    if n1 >= 0 {
        lemma_div_is_ordered(n1, n2, d);
    } else if n2 >= 0 {
        lemma_div_pos_is_pos(-n1, d);
        lemma_div_pos_is_pos(n2, d);
    } else {
        lemma_div_is_ordered(-n2, -n1, d);
    }
}

/// Division by a non-negative scalar preserves order.
pub proof fn lemma_div_monotone(x1: int, x2: int, b: int)
    requires
        x1 <= x2,
        b >= 0,
    ensures
        div_spec(x1, b) <= div_spec(x2, b),
{
    if b > 0 {
        lemma_quot_monotone(x1 * ONE, x2 * ONE, b);
    }
}

fn saturate(v: i128) -> (r: i64)
    ensures
        r == sat(v as int),
{
    if v > MAX as i128 {
        MAX
    } else if v < -(MAX as i128) {
        -MAX
    } else {
        v as i64
    }
}

fn quotient(n: i128, d: i128) -> (r: i128)
    requires
        d > 0,
        n > i128::MIN,
    ensures
        r == quot(n as int, d as int),
{
    if n >= 0 {
        n / d
    } else {
        let m: i128 = -n;
        -(m / d)
    }
}

/// Saturating sum.
pub fn fx_add(a: i64, b: i64) -> (r: i64)
    ensures
        r == add_spec(a as int, b as int),
{
    saturate(a as i128 + b as i128)
}

/// Saturating difference.
pub fn fx_sub(a: i64, b: i64) -> (r: i64)
    ensures
        r == sub_spec(a as int, b as int),
{
    saturate(a as i128 - b as i128)
}

/// Saturating negation.
pub fn fx_neg(a: i64) -> (r: i64)
    ensures
        r == neg_spec(a as int),
{
    saturate(-(a as i128))
}

/// Saturating product, rounded toward zero.
pub fn fx_mul(a: i64, b: i64) -> (r: i64)
    ensures
        r == mul_spec(a as int, b as int),
{
    proof {
        lemma_product_bound(a as int, b as int);
    }
    let p: i128 = a as i128 * b as i128;
    saturate(quotient(p, ONE as i128))
}

/// Saturating quotient, rounded toward zero.
pub fn fx_div(a: i64, b: i64) -> (r: i64)
    ensures
        r == div_spec(a as int, b as int),
{
    proof {
        lemma_product_bound(a as int, ONE as int);
        lemma_product_bound(-a, ONE as int);
    }
    if b > 0 {
        saturate(quotient(a as i128 * ONE as i128, b as i128))
    } else if b < 0 {
        saturate(quotient(-(a as i128) * ONE as i128, -(b as i128)))
    } else if a > 0 {
        MAX
    } else if a < 0 {
        -MAX
    } else {
        0
    }
}

/// Saturating absolute value.
pub fn fx_abs(a: i64) -> (r: i64)
    ensures
        r == abs_spec(a as int),
{
    if a < 0 {
        fx_neg(a)
    } else {
        saturate(a as i128)
    }
}

/// The smaller of two scalars.
pub fn fx_min(a: i64, b: i64) -> (r: i64)
    ensures
        r == min_spec(a as int, b as int),
{
    if a <= b {
        a
    } else {
        b
    }
}

proof fn lemma_isqrt_unique(n: int, r: int, q: int)
    requires
        is_isqrt(n, r),
        is_isqrt(n, q),
    ensures
        r == q,
{
    if r < q {
        assert((r + 1) * (r + 1) <= q * q) by (nonlinear_arith)
            requires
                0 <= r + 1 <= q,
        ;
    } else if q < r {
        assert((q + 1) * (q + 1) <= r * r) by (nonlinear_arith)
            requires
                0 <= q + 1 <= r,
        ;
    }
}

proof fn lemma_isqrt_exists(n: int)
    requires
        n >= 0,
    ensures
        exists|r: int| #[trigger] is_isqrt(n, r),
    decreases n,
{
    if n == 0 {
        assert(is_isqrt(0, 0));
    } else {
        lemma_isqrt_exists(n - 1);
        let r = choose|r: int| #[trigger] is_isqrt(n - 1, r);
        if (r + 1) * (r + 1) <= n {
            assert((r + 1) * (r + 1) < (r + 2) * (r + 2)) by (nonlinear_arith)
                requires
                    r >= 0,
            ;
            assert(is_isqrt(n, r + 1));
        } else {
            assert(is_isqrt(n, r));
        }
    }
}

/// For `n >= 0`, `isqrt(n)` is the integer square root of `n`.
pub proof fn lemma_isqrt_spec(n: int)
    requires
        n >= 0,
    ensures
        is_isqrt(n, isqrt(n)),
{
    lemma_isqrt_exists(n);
}

/// A scalar's square root is non-negative.
pub proof fn lemma_sqrt_nonneg(a: int)
    ensures
        sqrt_spec(a) >= 0,
{
    if a > 0 {
        lemma_isqrt_exists(a * ONE);
    }
}

/// A square is non-negative.
pub proof fn lemma_mul_self_nonneg(a: int)
    ensures
        mul_spec(a, a) >= 0,
{
    assert(a * a >= 0) by (nonlinear_arith);
}

/// Once some root is known, `isqrt` is that root.
pub proof fn lemma_isqrt_is(n: int, r: int)
    requires
        is_isqrt(n, r),
    ensures
        isqrt(n) == r,
{
    lemma_isqrt_unique(n, r, isqrt(n));
}

fn isqrt_u128(n: u128) -> (r: u128)
    requires
        n <= 0x1_0000_0000_0000_0000_0000,
    ensures
        is_isqrt(n as int, r as int),
        r <= 0x100_0000_0000,
{
    let mut lo: u128 = 0;
    let mut hi: u128 = 0x100_0000_0001;
    assert(n < hi * hi) by (nonlinear_arith)
        requires
            n <= 0x1_0000_0000_0000_0000_0000,
            hi == 0x100_0000_0001,
    ;
    while hi - lo > 1
        invariant
            lo < hi <= 0x100_0000_0001,
            lo * lo <= n,
            n < hi * hi,
        decreases hi - lo,
    {
        let mid: u128 = lo + (hi - lo) / 2;
        assert(mid * mid <= 0x100_0000_0001 * 0x100_0000_0001) by (nonlinear_arith)
            requires
                mid <= 0x100_0000_0001,
        ;
        if mid * mid <= n {
            lo = mid;
        } else {
            hi = mid;
        }
    }
    lo
}

/// Square root of a scalar, rounded down; non-positive inputs give zero.
pub fn fx_sqrt(a: i64) -> (r: i64)
    ensures
        r == sqrt_spec(a as int),
        r >= 0,
{
    if a <= 0 {
        0
    } else {
        proof {
            lemma_product_bound(a as int, ONE as int);
        }
        let n: u128 = (a as u128) * (ONE as u128);
        let q: u128 = isqrt_u128(n);
        proof {
            lemma_isqrt_is(n as int, q as int);
        }
        q as i64
    }
}

} // verus!
