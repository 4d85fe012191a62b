//! Three-component vectors of fixed-point scalars.
use crate::fixed::{
    add_spec, div_spec, fx_add, lemma_mul_self_nonneg, fx_div, fx_mul, fx_neg, fx_sqrt, fx_sub, in_range, mul_spec, neg_spec,
    quot, sqrt_spec, sub_spec, ONE,
};
use crate::unit_length::lemma_unit_length_of_rescaled;
use crate::util::Lib;
use vstd::arithmetic::power::{lemma_pow1, lemma_pow_adds, lemma_pow_positive, pow};
use vstd::arithmetic::power2::{lemma2_to64, lemma_pow2_pos, pow2};
use vstd::prelude::*;

verus! {

/// A vector, point or color.
#[derive(Clone, Copy, Debug, PartialEq, Eq, Structural)]
pub struct Vec3 {
    pub x: i64,
    pub y: i64,
    pub z: i64,
}

pub type Point3 = Vec3;

pub type Color = Vec3;

pub open spec fn vec(x: int, y: int, z: int) -> Vec3 {
    Vec3 { x: x as i64, y: y as i64, z: z as i64 }
}

/// Every component lies in the range the scalar operations produce.
pub open spec fn vin_range(v: Vec3) -> bool {
    in_range(v.x as int) && in_range(v.y as int) && in_range(v.z as int)
}

pub open spec fn vadd(a: Vec3, b: Vec3) -> Vec3 {
    vec(add_spec(a.x as int, b.x as int), add_spec(a.y as int, b.y as int), add_spec(a.z as int, b.z as int))
}

pub open spec fn vsub(a: Vec3, b: Vec3) -> Vec3 {
    vec(sub_spec(a.x as int, b.x as int), sub_spec(a.y as int, b.y as int), sub_spec(a.z as int, b.z as int))
}

pub open spec fn vneg(a: Vec3) -> Vec3 {
    vec(neg_spec(a.x as int), neg_spec(a.y as int), neg_spec(a.z as int))
}

/// Componentwise product, used to attenuate colors.
pub open spec fn vmul(a: Vec3, b: Vec3) -> Vec3 {
    vec(mul_spec(a.x as int, b.x as int), mul_spec(a.y as int, b.y as int), mul_spec(a.z as int, b.z as int))
}

pub open spec fn vscale(a: Vec3, t: int) -> Vec3 {
    vec(mul_spec(a.x as int, t), mul_spec(a.y as int, t), mul_spec(a.z as int, t))
}

pub open spec fn vdiv(a: Vec3, t: int) -> Vec3 {
    vec(div_spec(a.x as int, t), div_spec(a.y as int, t), div_spec(a.z as int, t))
}

pub open spec fn vdot(a: Vec3, b: Vec3) -> int {
    add_spec(
        add_spec(mul_spec(a.x as int, b.x as int), mul_spec(a.y as int, b.y as int)),
        mul_spec(a.z as int, b.z as int),
    )
}

pub open spec fn vcross(a: Vec3, b: Vec3) -> Vec3 {
    vec(
        sub_spec(mul_spec(a.y as int, b.z as int), mul_spec(a.z as int, b.y as int)),
        sub_spec(mul_spec(a.z as int, b.x as int), mul_spec(a.x as int, b.z as int)),
        sub_spec(mul_spec(a.x as int, b.y as int), mul_spec(a.y as int, b.x as int)),
    )
}

pub open spec fn vlen_sq(a: Vec3) -> int {
    vdot(a, a)
}

pub open spec fn vlen(a: Vec3) -> int {
    sqrt_spec(vlen_sq(a))
}

/// `a` divided by its length.
pub open spec fn vdiv_by_len(a: Vec3) -> Vec3 {
    vdiv(a, vlen(a))
}

pub open spec fn mag(x: int) -> int {
    if x < 0 {
        -x
    } else {
        x
    }
}

/// The largest magnitude among the components.
pub open spec fn vmax_abs(a: Vec3) -> int {
    let mx = mag(a.x as int);
    let my = mag(a.y as int);
    let mz = mag(a.z as int);
    if mx >= my && mx >= mz {
        mx
    } else if my >= mz {
        my
    } else {
        mz
    }
}

/// Lower end of the magnitude a vector is rescaled into before it is
/// normalized: `2^29` units.
pub const SCALE_LOW: i64 = 0x2000_0000;

/// Upper end of that magnitude: `2^30` units.
pub const SCALE_HIGH: i64 = 0x4000_0000;

/// One step toward the normalizing magnitude: a nonzero vector whose largest
/// component lies below `SCALE_LOW` is doubled, one above `SCALE_HIGH` is
/// halved (rounding toward zero), and any other vector is kept.
pub open spec fn rescale_step(a: Vec3) -> Vec3 {
    let m = vmax_abs(a);
    if m == 0 || (SCALE_LOW <= m <= SCALE_HIGH) {
        a
    } else if m < SCALE_LOW {
        vec(2 * a.x, 2 * a.y, 2 * a.z)
    } else {
        vec(quot(a.x as int, 2), quot(a.y as int, 2), quot(a.z as int, 2))
    }
}

pub open spec fn rescale_n(a: Vec3, n: nat) -> Vec3
    decreases n,
{
    if n == 0 {
        a
    } else {
        rescale_n(rescale_step(a), (n - 1) as nat)
    }
}

/// `a` scaled by a power of two so that, unless it is zero, its largest
/// component lies in `[SCALE_LOW, SCALE_HIGH]`.
pub open spec fn rescale(a: Vec3) -> Vec3 {
    rescale_n(a, 64)
}

/// The unit vector along `a`: `a` rescaled, then divided by its length.
pub open spec fn vunit(a: Vec3) -> Vec3 {
    vdiv_by_len(rescale(a))
}

pub open spec fn is_zero(a: Vec3) -> bool {
    a.x == 0 && a.y == 0 && a.z == 0
}

proof fn lemma_rescale_n(a: Vec3, n: nat)
    requires
        !is_zero(a),
        vmax_abs(a) * pow2(n) >= SCALE_LOW,
        vmax_abs(a) <= SCALE_HIGH * pow2(n),
    ensures
        SCALE_LOW <= vmax_abs(rescale_n(a, n)) <= SCALE_HIGH,
    decreases n,
{
    let m = vmax_abs(a);
    if n == 0 {
        lemma2_to64();
    }
    if n > 0 {
        lemma_pow2_pos(n);
        lemma_pow2_pos((n - 1) as nat);
        lemma_pow_adds(2, (n - 1) as nat, 1);
        lemma_pow1(2);
        lemma_pow_positive(2, n);
        lemma_pow_positive(2, (n - 1) as nat);
        assert(pow(2, n) == 2 * pow(2, (n - 1) as nat));
        assert(pow2(n) == 2 * pow2((n - 1) as nat));
        let b = rescale_step(a);
        if SCALE_LOW <= m <= SCALE_HIGH {
            lemma_pow2_pos((n - 1) as nat);
            assert(m * pow2((n - 1) as nat) >= SCALE_LOW) by (nonlinear_arith)
                requires
                    m >= SCALE_LOW,
                    pow2((n - 1) as nat) >= 1,
            ;
            assert(m <= SCALE_HIGH * pow2((n - 1) as nat)) by (nonlinear_arith)
                requires
                    m <= SCALE_HIGH,
                    pow2((n - 1) as nat) >= 1,
            ;
        } else if m < SCALE_LOW {
            assert(vmax_abs(b) == 2 * m);
            assert(pow2(n) == 2 * pow2((n - 1) as nat));
            lemma_pow2_pos((n - 1) as nat);
            assert(2 * m * pow2((n - 1) as nat) >= SCALE_LOW) by (nonlinear_arith)
                requires
                    m * pow2(n) >= SCALE_LOW,
                    pow2(n) == 2 * pow2((n - 1) as nat),
            ;
            assert(2 * m <= SCALE_HIGH * pow2((n - 1) as nat)) by (nonlinear_arith)
                requires
                    m < SCALE_LOW,
                    pow2((n - 1) as nat) >= 1,
            ;
        } else {
            assert(vmax_abs(b) == m / 2);
            assert(pow2(n) == 2 * pow2((n - 1) as nat));
            lemma_pow2_pos((n - 1) as nat);
            assert(m / 2 * pow2((n - 1) as nat) >= SCALE_LOW) by (nonlinear_arith)
                requires
                    m / 2 >= SCALE_LOW,
                    pow2((n - 1) as nat) >= 1,
            ;
            assert(m / 2 <= SCALE_HIGH * pow2((n - 1) as nat)) by (nonlinear_arith)
                requires
                    m <= SCALE_HIGH * pow2(n),
                    pow2(n) == 2 * pow2((n - 1) as nat),
            ;
        }
        lemma_rescale_n(b, (n - 1) as nat);
    }
}

/// A nonzero vector rescales into the normalizing magnitude.
pub proof fn lemma_rescale(a: Vec3)
    requires
        !is_zero(a),
    ensures
        SCALE_LOW <= vmax_abs(rescale(a)) <= SCALE_HIGH,
{
    lemma2_to64();
    assert(pow2(64) == 0x1_0000_0000_0000_0000);
    lemma_rescale_n(a, 64);
}

proof fn lemma_mul_neg(a: int, b: int)
    requires
        in_range(a),
    ensures
        mul_spec(neg_spec(a), b) == -mul_spec(a, b),
{
    assert((-a) * b == -(a * b)) by (nonlinear_arith);
}

/// Negating the first argument negates the dot product.
pub proof fn lemma_dot_neg(a: Vec3, b: Vec3)
    requires
        vin_range(a),
    ensures
        vdot(vneg(a), b) == -vdot(a, b),
{
    lemma_mul_neg(a.x as int, b.x as int);
    lemma_mul_neg(a.y as int, b.y as int);
    lemma_mul_neg(a.z as int, b.z as int);
}

/// The dot product is symmetric.
pub proof fn lemma_dot_comm(a: Vec3, b: Vec3)
    ensures
        vdot(a, b) == vdot(b, a),
{
    assert(a.x * b.x == b.x * a.x) by (nonlinear_arith);
    assert(a.y * b.y == b.y * a.y) by (nonlinear_arith);
    assert(a.z * b.z == b.z * a.z) by (nonlinear_arith);
}

/// `p` if it points to the side of `n`, else its negation.
pub open spec fn flip_spec(p: Vec3, n: Vec3) -> Vec3 {
    if vdot(p, n) > 0 {
        p
    } else {
        vneg(p)
    }
}

/// A squared length is non-negative.
pub proof fn lemma_len_sq_nonneg(a: Vec3)
    ensures
        vlen_sq(a) >= 0,
{
    lemma_mul_self_nonneg(a.x as int);
    lemma_mul_self_nonneg(a.y as int);
    lemma_mul_self_nonneg(a.z as int);
}

/// Half of `x`, rounded toward zero.
fn half(x: i64) -> (r: i64)
    ensures
        r == quot(x as int, 2),
{
    if x >= 0 {
        x / 2
    } else {
        -((-(x as i128)) / 2) as i64
    }
}

impl Vec3 {
    pub fn x(self) -> (r: i64)
        ensures
            r == self.x,
    {
        self.x
    }

    pub fn y(self) -> (r: i64)
        ensures
            r == self.y,
    {
        self.y
    }

    pub fn z(self) -> (r: i64)
        ensures
            r == self.z,
    {
        self.z
    }

    pub fn new(e0: i64, e1: i64, e2: i64) -> (r: Vec3)
        ensures
            r == (Vec3 { x: e0, y: e1, z: e2 }),
    {
        Vec3 { x: e0, y: e1, z: e2 }
    }

    pub fn length(self) -> (r: i64)
        ensures
            r == vlen(self),
    {
        fx_sqrt(self.squared_length())
    }

    pub fn squared_length(self) -> (r: i64)
        ensures
            r == vlen_sq(self),
    {
        Vec3::dot(&self, &self)
    }

    /// `v` divided by its length; the caller keeps `v` away from zero.
    ///
    /// Squares are rounded to sixteen fractional bits, so short vectors lose
    /// precision: from length one up the result is within `8 / ONE` of unit
    /// length (see `lemma_unit_vector_length`), but a vector of length
    /// `300 / ONE` normalizes to a length of about 1.17, and one whose squared
    /// length rounds to zero saturates.
    pub fn unit_vector(v: &Vec3) -> (r: Vec3)
        ensures
            r == vunit(*v),
            !is_zero(*v) ==> ONE - 8 <= vlen(r) <= ONE + 8,
    {
        let w = v.rescaled();
        proof {
            if !is_zero(*v) {
                lemma_rescale(*v);
                lemma_unit_length_of_rescaled(w);
            }
        }
        w.div_by(w.length())
    }

    /// This vector scaled by a power of two into the normalizing magnitude.
    pub fn rescaled(&self) -> (r: Vec3)
        ensures
            r == rescale(*self),
    {
        let mut a: Vec3 = *self;
        let mut n: u32 = 64;
        while n > 0
            invariant
                rescale_n(a, n as nat) == rescale(*self),
            decreases n,
        {
            let mx: i128 = if a.x < 0 { -(a.x as i128) } else { a.x as i128 };
            let my: i128 = if a.y < 0 { -(a.y as i128) } else { a.y as i128 };
            let mz: i128 = if a.z < 0 { -(a.z as i128) } else { a.z as i128 };
            let m: i128 = if mx >= my && mx >= mz {
                mx
            } else if my >= mz {
                my
            } else {
                mz
            };
            assert(m == vmax_abs(a));
            if m == 0 || (SCALE_LOW as i128 <= m && m <= SCALE_HIGH as i128) {
            } else if m < SCALE_LOW as i128 {
                a = Vec3 { x: 2 * a.x, y: 2 * a.y, z: 2 * a.z };
            } else {
                a = Vec3 { x: half(a.x), y: half(a.y), z: half(a.z) };
            }
            n = n - 1;
        }
        a
    }

    pub fn dot(u: &Vec3, v: &Vec3) -> (r: i64)
        ensures
            r == vdot(*u, *v),
    {
        fx_add(fx_add(fx_mul(u.x, v.x), fx_mul(u.y, v.y)), fx_mul(u.z, v.z))
    }

    pub fn cross(u: &Vec3, v: &Vec3) -> (r: Vec3)
        ensures
            r == vcross(*u, *v),
    {
        Vec3 {
            x: fx_sub(fx_mul(u.y, v.z), fx_mul(u.z, v.y)),
            y: fx_sub(fx_mul(u.z, v.x), fx_mul(u.x, v.z)),
            z: fx_sub(fx_mul(u.x, v.y), fx_mul(u.y, v.x)),
        }
    }

    pub fn plus(self, rhs: Vec3) -> (r: Vec3)
        ensures
            r == vadd(self, rhs),
    {
        Vec3 { x: fx_add(self.x, rhs.x), y: fx_add(self.y, rhs.y), z: fx_add(self.z, rhs.z) }
    }

    pub fn minus(self, rhs: Vec3) -> (r: Vec3)
        ensures
            r == vsub(self, rhs),
    {
        Vec3 { x: fx_sub(self.x, rhs.x), y: fx_sub(self.y, rhs.y), z: fx_sub(self.z, rhs.z) }
    }

    pub fn negate(self) -> (r: Vec3)
        ensures
            r == vneg(self),
    {
        Vec3 { x: fx_neg(self.x), y: fx_neg(self.y), z: fx_neg(self.z) }
    }

    /// Each component times the scalar `t`.
    pub fn scale(self, t: i64) -> (r: Vec3)
        ensures
            r == vscale(self, t as int),
    {
        Vec3 { x: fx_mul(self.x, t), y: fx_mul(self.y, t), z: fx_mul(self.z, t) }
    }

    /// Each component divided by the scalar `t`.
    pub fn div_by(self, t: i64) -> (r: Vec3)
        ensures
            r == vdiv(self, t as int),
    {
        Vec3 { x: fx_div(self.x, t), y: fx_div(self.y, t), z: fx_div(self.z, t) }
    }

    /// Componentwise product.
    pub fn mul_elem(self, rhs: Vec3) -> (r: Vec3)
        ensures
            r == vmul(self, rhs),
    {
        Vec3 { x: fx_mul(self.x, rhs.x), y: fx_mul(self.y, rhs.y), z: fx_mul(self.z, rhs.z) }
    }

    /// A vector with each component uniform in `[0, 1)`.
    pub fn random() -> (r: Vec3)
        ensures
            0 <= r.x < ONE,
            0 <= r.y < ONE,
            0 <= r.z < ONE,
    {
        Vec3 { x: Lib::random_double(), y: Lib::random_double(), z: Lib::random_double() }
    }

    /// A vector with each component uniform in `[min, max)`.
    pub fn random_min_max(min: i64, max: i64) -> (r: Vec3)
        requires
            in_range(min as int),
            min < max,
        ensures
            min <= r.x < max,
            min <= r.y < max,
            min <= r.z < max,
    {
        Vec3 {
            x: Lib::random_min_max(min, max),
            y: Lib::random_min_max(min, max),
            z: Lib::random_min_max(min, max),
        }
    }

    /// A point of the unit ball, by rejection from the cube `[-1, 1)^3`.
    /// After a bounded number of rejected draws the center is returned.
    pub fn random_in_unit_sphere() -> (r: Vec3)
        ensures
            vlen_sq(r) <= ONE,
            -ONE <= r.x < ONE,
            -ONE <= r.y < ONE,
            -ONE <= r.z < ONE,
    {
        let mut tries: u32 = 0;
        while tries < 256
            decreases 256 - tries,
        {
            if let Some(p) = Vec3::ball_candidate(Vec3::random_min_max(-ONE, ONE)) {
                return p;
            }
            tries = tries + 1;
        }
        Vec3 { x: 0, y: 0, z: 0 }
    }

    /// The candidate `p` of a rejection draw from the unit ball: kept when
    /// it lies in the ball.
    pub fn ball_candidate(p: Vec3) -> (r: Option<Vec3>)
        ensures
            r == (if vlen_sq(p) <= ONE {
                Some(p)
            } else {
                None
            }),
    {
        if p.squared_length() <= ONE {
            Some(p)
        } else {
            None
        }
    }

    /// `p`, negated unless it points to the side of `n`.
    pub fn flip_into(p: Vec3, n: &Vec3) -> (r: Vec3)
        ensures
            r == flip_spec(p, *n),
            vin_range(p) ==> vdot(r, *n) >= 0,
            vin_range(p) ==> vlen_sq(r) == vlen_sq(p),
    {
        if Vec3::dot(&p, n) > 0 {
            return p;
        }
        proof {
            if vin_range(p) {
                lemma_dot_neg(p, *n);
                lemma_dot_neg(p, vneg(p));
                lemma_dot_comm(p, vneg(p));
                lemma_dot_neg(p, p);
            }
        }
        p.negate()
    }

    /// A point of the unit ball on the same side as `normal`.
    pub fn random_in_hemisphere(normal: &Vec3) -> (r: Vec3)
        ensures
            exists|p: Vec3| vlen_sq(p) <= ONE && vin_range(p) && r == #[trigger] flip_spec(p, *normal),
            vdot(r, *normal) >= 0,
            vlen_sq(r) <= ONE,
    {
        let in_unit_sphere = Vec3::random_in_unit_sphere();
        Vec3::flip_into(in_unit_sphere, normal)
    }
}

impl Default for Vec3 {
    fn default() -> (r: Vec3)
        ensures
            r == (Vec3 { x: 0, y: 0, z: 0 }),
    {
        Vec3 { x: 0, y: 0, z: 0 }
    }
}

impl std::ops::Add for Vec3 {
    type Output = Vec3;

    fn add(self, rhs: Vec3) -> (r: Vec3)
        ensures
            r == vadd(self, rhs),
    {
        self.plus(rhs)
    }
}

impl vstd::std_specs::ops::AddSpecImpl for Vec3 {
    open spec fn obeys_add_spec() -> bool {
        true
    }

    open spec fn add_req(self, rhs: Vec3) -> bool {
        true
    }

    open spec fn add_spec(self, rhs: Vec3) -> Vec3 {
        vadd(self, rhs)
    }
}

impl std::ops::Sub for Vec3 {
    type Output = Vec3;

    fn sub(self, rhs: Vec3) -> (r: Vec3)
        ensures
            r == vsub(self, rhs),
    {
        self.minus(rhs)
    }
}

impl vstd::std_specs::ops::SubSpecImpl for Vec3 {
    open spec fn obeys_sub_spec() -> bool {
        true
    }

    open spec fn sub_req(self, rhs: Vec3) -> bool {
        true
    }

    open spec fn sub_spec(self, rhs: Vec3) -> Vec3 {
        vsub(self, rhs)
    }
}

impl std::ops::Neg for Vec3 {
    type Output = Vec3;

    fn neg(self) -> (r: Vec3)
        ensures
            r == vneg(self),
    {
        self.negate()
    }
}

impl vstd::std_specs::ops::NegSpecImpl for Vec3 {
    open spec fn obeys_neg_spec() -> bool {
        true
    }

    open spec fn neg_req(self) -> bool {
        true
    }

    open spec fn neg_spec(self) -> Vec3 {
        vneg(self)
    }
}

impl std::ops::Mul<i64> for Vec3 {
    type Output = Vec3;

    fn mul(self, rhs: i64) -> (r: Vec3)
        ensures
            r == vscale(self, rhs as int),
    {
        self.scale(rhs)
    }
}

impl vstd::std_specs::ops::MulSpecImpl<i64> for Vec3 {
    open spec fn obeys_mul_spec() -> bool {
        true
    }

    open spec fn mul_req(self, rhs: i64) -> bool {
        true
    }

    open spec fn mul_spec(self, rhs: i64) -> Vec3 {
        vscale(self, rhs as int)
    }
}

impl std::ops::Mul<Vec3> for i64 {
    type Output = Vec3;

    fn mul(self, rhs: Vec3) -> (r: Vec3)
        ensures
            r == vscale(rhs, self as int),
    {
        rhs.scale(self)
    }
}

impl vstd::std_specs::ops::MulSpecImpl<Vec3> for i64 {
    open spec fn obeys_mul_spec() -> bool {
        true
    }

    open spec fn mul_req(self, rhs: Vec3) -> bool {
        true
    }

    open spec fn mul_spec(self, rhs: Vec3) -> Vec3 {
        vscale(rhs, self as int)
    }
}

impl std::ops::Div<i64> for Vec3 {
    type Output = Vec3;

    fn div(self, rhs: i64) -> (r: Vec3)
        ensures
            r == vdiv(self, rhs as int),
    {
        self.div_by(rhs)
    }
}

impl vstd::std_specs::ops::DivSpecImpl<i64> for Vec3 {
    open spec fn obeys_div_spec() -> bool {
        true
    }

    open spec fn div_req(self, rhs: i64) -> bool {
        true
    }

    open spec fn div_spec(self, rhs: i64) -> Vec3 {
        vdiv(self, rhs as int)
    }
}

} // verus!
