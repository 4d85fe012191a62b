//! Uniform random scalars.
use crate::fixed::{add_spec, fx_add, fx_mul, fx_sub, in_range, mul_spec, quot, sub_spec, ONE};
#[allow(unused_imports)]
use rand::Rng;
use vstd::prelude::*;

verus! {

/// Relies on rand's `thread_rng().gen_range(low, high)`, which panics unless
/// `low < high` and otherwise returns a value in `[low, high)`.
#[verifier::external_body]
fn draw(low: i64, high: i64) -> (r: i64)
    requires
        low < high,
    ensures
        low <= r < high,
{
    rand::thread_rng().gen_range(low, high)
}

/// Entry point for the random scalars the renderer draws.
pub struct Lib;

proof fn lemma_scaled_fraction(d: int, u: int)
    requires
        d > 0,
        0 <= u < ONE,
    ensures
        0 <= quot(d * u, ONE as int) < d,
{
    assert(0 <= d * u < d * ONE) by (nonlinear_arith)
        requires
            d > 0,
            0 <= u < ONE,
    ;
    assert((d * u) / (ONE as int) < d) by (nonlinear_arith)
        requires
            0 <= d * u < d * ONE,
            ONE == 65536,
    ;
}

impl Lib {
    /// A uniform scalar in `[min, max)`.
    pub fn random_min_max(min: i64, max: i64) -> (r: i64)
        requires
            in_range(min as int),
            min < max,
        ensures
            min <= r < max,
            exists|u: int|
                0 <= u < ONE && r == add_spec(
                    min as int,
                    #[trigger] mul_spec(sub_spec(max as int, min as int), u),
                ),
    {
        let u = Lib::random_double();
        Lib::scale_draw(min, max, u)
    }

    /// The point a fraction `u` of the way from `min` toward `max`:
    /// `min + (max - min) * u`.
    pub fn scale_draw(min: i64, max: i64, u: i64) -> (r: i64)
        requires
            in_range(min as int),
            min < max,
            0 <= u < ONE,
        ensures
            r == add_spec(min as int, mul_spec(sub_spec(max as int, min as int), u as int)),
            min <= r < max,
    {
        let d = fx_sub(max, min);
        proof {
            lemma_scaled_fraction(d as int, u as int);
        }
        fx_add(min, fx_mul(d, u))
    }

    /// A uniform scalar in `[0, 1)`.
    pub fn random_double() -> (r: i64)
        ensures
            0 <= r < ONE,
    {
        draw(0, ONE)
    }
}

} // verus!
