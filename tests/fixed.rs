use raytracer::fixed::{fx_abs, fx_add, fx_div, fx_min, fx_mul, fx_neg, fx_sqrt, fx_sub, MAX, ONE};
use raytracer::util::Lib;

#[test]
fn arithmetic_exact_values() {
    assert_eq!(fx_add(ONE, ONE / 2), 3 * ONE / 2);
    assert_eq!(fx_sub(ONE, 3 * ONE), -2 * ONE);
    assert_eq!(fx_mul(3 * ONE, ONE / 4), 3 * ONE / 4);
    assert_eq!(fx_mul(-3, ONE / 2), -1);
    assert_eq!(fx_div(ONE, 4 * ONE), ONE / 4);
    assert_eq!(fx_div(-ONE, 3 * ONE), -21845);
    assert_eq!(fx_div(ONE, -4 * ONE), -ONE / 4);
    assert_eq!(fx_sqrt(4 * ONE), 2 * ONE);
    assert_eq!(fx_sqrt(2 * ONE), 92681);
    assert_eq!(fx_sqrt(-ONE), 0);
    assert_eq!(fx_abs(-5), 5);
    assert_eq!(fx_min(3, -4), -4);
    assert_eq!(fx_neg(7), -7);
}

#[test]
fn arithmetic_saturates() {
    assert_eq!(fx_add(MAX, ONE), MAX);
    assert_eq!(fx_sub(-MAX, ONE), -MAX);
    assert_eq!(fx_mul(MAX, 2 * ONE), MAX);
    assert_eq!(fx_div(ONE, 0), MAX);
    assert_eq!(fx_div(-ONE, 0), -MAX);
    assert_eq!(fx_div(0, 0), 0);
    assert_eq!(fx_neg(i64::MIN), MAX);
}

#[test]
fn random_scalars_in_range() {
    let mut distinct = false;
    for _ in 0..200 {
        let r = Lib::random_min_max(-ONE, ONE);
        assert!(-ONE <= r && r < ONE);
        if r != -ONE {
            distinct = true;
        }
        let d = Lib::random_double();
        assert!(0 <= d && d < ONE);
    }
    assert!(distinct);
}
