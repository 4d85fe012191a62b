//! How close a normalized vector comes to unit length.
use crate::fixed::{div_spec, isqrt, lemma_isqrt_spec, mul_spec, quot, ONE};
use crate::vec3::{mag, vdiv_by_len, vlen, vlen_sq, vmax_abs, Vec3, SCALE_HIGH, SCALE_LOW};
use vstd::arithmetic::div_mod::{lemma_fundamental_div_mod, lemma_mod_bound};
use vstd::prelude::*;

verus! {

/// The exact squared length of `v`, in units of `1 / ONE^2`.
pub open spec fn exact_len_sq(v: Vec3) -> int {
    v.x * v.x + v.y * v.y + v.z * v.z
}

pub open spec fn abs(x: int) -> int {
    if x < 0 {
        -x
    } else {
        x
    }
}

proof fn lemma_floor_div(n: int, d: int)
    requires
        n >= 0,
        d > 0,
    ensures
        (n / d) * d <= n < (n / d + 1) * d,
        n / d >= 0,
{
    lemma_fundamental_div_mod(n, d);
    lemma_mod_bound(n, d);
    assert((n / d) * d == d * (n / d)) by (nonlinear_arith);
    assert((n / d + 1) * d == (n / d) * d + d) by (nonlinear_arith);
    assert(n / d >= 0) by (nonlinear_arith)
        requires
            n >= 0,
            d > 0,
            n == d * (n / d) + n % d,
            n % d < d,
    ;
}

proof fn lemma_square_le(p: int, q: int)
    requires
        0 <= p <= q,
    ensures
        p * p <= q * q,
{
    assert(p * p <= q * q) by (nonlinear_arith)
        requires
            0 <= p <= q,
    ;
}

proof fn lemma_square_lt(p: int, q: int)
    requires
        0 <= p < q,
    ensures
        p * p < q * q,
{
    assert(p * p < q * q) by (nonlinear_arith)
        requires
            0 <= p < q,
    ;
}

/// From `p^2 < q^2` with `q >= 0` follows `p < q`.
proof fn lemma_root_lt(p: int, q: int)
    requires
        0 <= p,
        0 <= q,
        p * p < q * q,
    ensures
        p < q,
{
    if p >= q {
        lemma_square_le(q, p);
    }
}

/// The square of a scalar, exactly: `x^2 / ONE` rounded down.
proof fn lemma_mul_self(x: int)
    requires
        abs(x) <= 0x1_0000_0000,
    ensures
        mul_spec(x, x) == (x * x) / (ONE as int),
        ONE * mul_spec(x, x) <= x * x < ONE * mul_spec(x, x) + ONE,
        0 <= mul_spec(x, x) <= 0x1_0000_0000_0000,
{
    assert(0 <= x * x <= 0x1_0000_0000_0000_0000) by (nonlinear_arith)
        requires
            abs(x) <= 0x1_0000_0000,
    ;
    lemma_floor_div(x * x, ONE as int);
}

proof fn lemma_len_sq_exact(v: Vec3)
    requires
        abs(v.x as int) <= 0x1_0000_0000,
        abs(v.y as int) <= 0x1_0000_0000,
        abs(v.z as int) <= 0x1_0000_0000,
    ensures
        ONE * vlen_sq(v) <= exact_len_sq(v) < ONE * vlen_sq(v) + 3 * ONE,
{
    lemma_mul_self(v.x as int);
    lemma_mul_self(v.y as int);
    lemma_mul_self(v.z as int);
}

/// One component of `x / len`: with `w` its magnitude,
/// `w * len <= |x| * ONE < (w + 1) * len`.
proof fn lemma_unit_component(x: int, len: int)
    requires
        abs(x) <= 0x4000_0000,
        len >= 1,
    ensures
        ({
            let w = abs(div_spec(x, len));
            &&& w * w * (len * len) <= x * x * (ONE * ONE)
            &&& x * x * (ONE * ONE) < (w + 1) * (w + 1) * (len * len)
            &&& w * len <= abs(x) * ONE
        }),
{
    let a = abs(x);
    let n = a * ONE;
    lemma_floor_div(n, len);
    let w = n / len;
    assert(w <= n) by (nonlinear_arith)
        requires
            w * len <= n,
            len >= 1,
            w >= 0,
    ;
    if x >= 0 {
        assert(quot(x * ONE, len) == w);
    } else {
        assert(-(x * ONE) == n);
        assert(quot(x * ONE, len) == -w);
    }
    assert(abs(div_spec(x, len)) == w);
    lemma_square_le(w * len, n);
    lemma_square_lt(n, (w + 1) * len);
    assert(w * w * (len * len) == (w * len) * (w * len)) by (nonlinear_arith);
    assert((w + 1) * (w + 1) * (len * len) == ((w + 1) * len) * ((w + 1) * len)) by (nonlinear_arith);
    assert(x * x * (ONE * ONE) == n * n) by (nonlinear_arith)
        requires
            n == abs(x) * ONE,
    ;
}

/// A component of a normalized vector stays below two.
proof fn lemma_component_bound(w: int, len: int, x2: int, big_x: int)
    requires
        w >= 0,
        len >= 65534,
        w * w * (len * len) <= x2 * (65536 * 65536),
        x2 <= big_x,
        big_x < (len + 1) * (len + 1) + 3 * 65536,
    ensures
        w < 2 * 65536,
{
    if w >= 2 * 65536 {
        lemma_square_le(2 * 65536int, w);
        assert(4 * (65536 * 65536) * (len * len) <= w * w * (len * len)) by (nonlinear_arith)
            requires
                4 * (65536 * 65536) <= w * w,
        ;
        assert(x2 * (65536 * 65536) <= big_x * (65536 * 65536)) by (nonlinear_arith)
            requires
                x2 <= big_x,
        ;
        assert(4 * (len * len) <= big_x) by (nonlinear_arith)
            requires
                4 * (65536 * 65536) * (len * len) <= big_x * (65536 * 65536),
        ;
        assert((len + 1) * (len + 1) == len * len + 2 * len + 1) by (nonlinear_arith);
        assert(len * len >= 65534 * len) by (nonlinear_arith)
            requires
                len >= 65534,
        ;
    }
}

/// `(ONE + 9)^2 len^2 < ((len + 1)^2 + 3 ONE) ONE^2` fails once `len` is
/// close to `ONE`.
proof fn lemma_upper_contradiction(len: int)
    requires
        len >= 65534,
    ensures
        (65536 + 9) * (65536 + 9) * (len * len) >= ((len + 1) * (len + 1) + 3 * 65536) * (65536
            * 65536),
{
    assert(len * len >= 65534 * len) by (nonlinear_arith)
        requires
            len >= 65534,
    ;
    assert((len + 1) * (len + 1) == len * len + 2 * len + 1) by (nonlinear_arith);
    assert((65536 + 9) * (65536 + 9) * (len * len) >= ((len + 1) * (len + 1) + 3 * 65536) * (65536
        * 65536)) by (nonlinear_arith)
        requires
            len * len >= 65534 * len,
            (len + 1) * (len + 1) == len * len + 2 * len + 1,
            len >= 65534,
    ;
}

/// Normalizing a vector of length at least one, whose components stay below
/// `2^14` in magnitude, gives a length within `8 / ONE` of one.
pub proof fn lemma_unit_vector_length(v: Vec3)
    requires
        abs(v.x as int) <= 0x4000_0000,
        abs(v.y as int) <= 0x4000_0000,
        abs(v.z as int) <= 0x4000_0000,
        exact_len_sq(v) >= ONE * ONE,
    ensures
        ONE - 8 <= vlen(vdiv_by_len(v)) <= ONE + 8,
{
    let big_x = exact_len_sq(v);
    lemma_len_sq_exact(v);
    let ls = vlen_sq(v);
    assert(ls > 0);
    let len = vlen(v);
    assert(len == isqrt(ls * ONE));
    lemma_isqrt_spec(ls * ONE);
    assert(len * len <= ls * ONE && ls * ONE < (len + 1) * (len + 1));
    lemma_root_lt(65536 - 2int, len + 1);
    assert(len >= 65534);

    let u = vdiv_by_len(v);
    lemma_unit_component(v.x as int, len);
    lemma_unit_component(v.y as int, len);
    lemma_unit_component(v.z as int, len);
    let wx = abs(u.x as int);
    let wy = abs(u.y as int);
    let wz = abs(u.z as int);
    assert(wx == abs(div_spec(v.x as int, len)));
    assert(wy == abs(div_spec(v.y as int, len)));
    assert(wz == abs(div_spec(v.z as int, len)));
    assert(v.x * v.x <= big_x && v.y * v.y <= big_x && v.z * v.z <= big_x) by (nonlinear_arith)
        requires
            big_x == v.x * v.x + v.y * v.y + v.z * v.z,
    ;
    assert(big_x < (len + 1) * (len + 1) + 3 * 65536);
    lemma_component_bound(wx, len, v.x * v.x, big_x);
    lemma_component_bound(wy, len, v.y * v.y, big_x);
    lemma_component_bound(wz, len, v.z * v.z, big_x);

    lemma_len_sq_exact(u);
    let big_u = exact_len_sq(u);
    assert(big_u == wx * wx + wy * wy + wz * wz) by (nonlinear_arith)
        requires
            big_u == u.x * u.x + u.y * u.y + u.z * u.z,
            wx == abs(u.x as int),
            wy == abs(u.y as int),
            wz == abs(u.z as int),
    ;
    let lu = vlen_sq(u);
    let l2 = len * len;
    assert(l2 > 0) by (nonlinear_arith)
        requires
            len >= 65534,
            l2 == len * len,
    ;

    // lower bound
    let a = (wx + 1) * (wx + 1) + (wy + 1) * (wy + 1) + (wz + 1) * (wz + 1);
    assert(a * l2 > big_x * (65536 * 65536)) by (nonlinear_arith)
        requires
            v.x * v.x * (65536 * 65536) < (wx + 1) * (wx + 1) * l2,
            v.y * v.y * (65536 * 65536) < (wy + 1) * (wy + 1) * l2,
            v.z * v.z * (65536 * 65536) < (wz + 1) * (wz + 1) * l2,
            big_x == v.x * v.x + v.y * v.y + v.z * v.z,
            a == (wx + 1) * (wx + 1) + (wy + 1) * (wy + 1) + (wz + 1) * (wz + 1),
    ;
    assert(big_x >= l2);
    assert(a > 65536 * 65536) by (nonlinear_arith)
        requires
            a * l2 > big_x * (65536 * 65536),
            big_x >= l2,
            l2 > 0,
    ;
    assert(a == big_u + 2 * (wx + wy + wz) + 3) by (nonlinear_arith)
        requires
            a == (wx + 1) * (wx + 1) + (wy + 1) * (wy + 1) + (wz + 1) * (wz + 1),
            big_u == wx * wx + wy * wy + wz * wz,
    ;
    assert(lu > 0);
    let lenu = vlen(u);
    assert(lenu == isqrt(lu * ONE));
    lemma_isqrt_spec(lu * ONE);
    lemma_root_lt(65536 - 8int, lenu + 1);

    // upper bound
    assert(big_u * l2 <= big_x * (65536 * 65536)) by (nonlinear_arith)
        requires
            wx * wx * l2 <= v.x * v.x * (65536 * 65536),
            wy * wy * l2 <= v.y * v.y * (65536 * 65536),
            wz * wz * l2 <= v.z * v.z * (65536 * 65536),
            big_x == v.x * v.x + v.y * v.y + v.z * v.z,
            big_u == wx * wx + wy * wy + wz * wz,
    ;
    if lenu >= 65536 + 9 {
        lemma_square_le(65536 + 9int, lenu);
        assert((65536 + 9) * (65536 + 9) * l2 <= big_u * l2) by (nonlinear_arith)
            requires
                (65536 + 9) * (65536 + 9) <= big_u,
                l2 > 0,
        ;
        assert(big_x * (65536 * 65536) < ((len + 1) * (len + 1) + 3 * 65536) * (65536 * 65536))
            by (nonlinear_arith)
            requires
                big_x < (len + 1) * (len + 1) + 3 * 65536,
        ;
        lemma_upper_contradiction(len);
    }
}

/// A vector rescaled into the normalizing magnitude divides by its length
/// to within `8 / ONE` of unit length.
pub proof fn lemma_unit_length_of_rescaled(w: Vec3)
    requires
        SCALE_LOW <= vmax_abs(w) <= SCALE_HIGH,
    ensures
        ONE - 8 <= vlen(vdiv_by_len(w)) <= ONE + 8,
{
    let m = vmax_abs(w);
    assert(m * m >= 0x2000_0000 * 0x2000_0000) by (nonlinear_arith)
        requires
            m >= 0x2000_0000,
    ;
    assert(w.x * w.x == mag(w.x as int) * mag(w.x as int)) by (nonlinear_arith);
    assert(w.y * w.y == mag(w.y as int) * mag(w.y as int)) by (nonlinear_arith);
    assert(w.z * w.z == mag(w.z as int) * mag(w.z as int)) by (nonlinear_arith);
    assert(w.x * w.x >= 0 && w.y * w.y >= 0 && w.z * w.z >= 0) by (nonlinear_arith);
    assert(exact_len_sq(w) >= m * m);
    lemma_unit_vector_length(w);
}

} // verus!
