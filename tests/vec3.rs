use raytracer::fixed::ONE;
use raytracer::vec3::Vec3;

#[test]
fn test_vec3() {
    assert_eq!(Vec3::new(ONE, 2 * ONE, 3 * ONE), Vec3 { x: ONE, y: 2 * ONE, z: 3 * ONE })
}

#[test]
fn test_vec_add() {
    assert_eq!(
        Vec3::new(ONE, 2 * ONE, 3 * ONE) + Vec3::new(4 * ONE, 5 * ONE, 6 * ONE),
        Vec3 { x: 5 * ONE, y: 7 * ONE, z: 9 * ONE }
    )
}

#[test]
fn test_vec_sub() {
    assert_eq!(
        Vec3::new(ONE, 2 * ONE, 3 * ONE) - Vec3::new(4 * ONE, 5 * ONE, 6 * ONE),
        Vec3 { x: -3 * ONE, y: -3 * ONE, z: -3 * ONE }
    )
}

#[test]
fn test_vec_mul() {
    assert_eq!(
        Vec3::new(ONE, 2 * ONE, 3 * ONE) * (2 * ONE),
        Vec3 { x: 2 * ONE, y: 4 * ONE, z: 6 * ONE }
    );
}

#[test]
fn test_vec_mull_2() {
    assert_eq!((2 * ONE) * Vec3::new(ONE, 2 * ONE, 3 * ONE), Vec3 { x: 2 * ONE, y: 4 * ONE, z: 6 * ONE });
}

#[test]
fn test_vec_div() {
    assert_eq!(
        Vec3::new(ONE, 2 * ONE, 3 * ONE) / (2 * ONE),
        Vec3 { x: ONE / 2, y: ONE, z: 3 * ONE / 2 }
    );
}

#[test]
fn dot_and_cross_of_axes() {
    let ex = Vec3::new(ONE, 0, 0);
    let ey = Vec3::new(0, ONE, 0);
    assert_eq!(Vec3::dot(&ex, &ey), 0);
    assert_eq!(Vec3::dot(&Vec3::new(ONE, 2 * ONE, 3 * ONE), &Vec3::new(4 * ONE, 5 * ONE, 6 * ONE)), 32 * ONE);
    assert_eq!(Vec3::cross(&ex, &ey), Vec3::new(0, 0, ONE));
    assert_eq!(Vec3::cross(&Vec3::new(ONE, 2 * ONE, 3 * ONE), &Vec3::new(4 * ONE, 5 * ONE, 6 * ONE)), Vec3::new(-3 * ONE, 6 * ONE, -3 * ONE));
}

#[test]
fn lengths() {
    let v = Vec3::new(3 * ONE, 4 * ONE, 0);
    assert_eq!(v.squared_length(), 25 * ONE);
    assert_eq!(v.length(), 5 * ONE);
    assert_eq!(v.negate(), Vec3::new(-3 * ONE, -4 * ONE, 0));
    assert_eq!(-v, Vec3::new(-3 * ONE, -4 * ONE, 0));
    assert_eq!(Vec3::default(), Vec3::new(0, 0, 0));
    assert_eq!(v.mul_elem(Vec3::new(ONE / 2, 2 * ONE, ONE)), Vec3::new(3 * ONE / 2, 8 * ONE, 0));
}

#[test]
fn unit_vector_has_unit_length() {
    let cases = [
        Vec3::new(3 * ONE, 4 * ONE, 0),
        Vec3::new(ONE, ONE, ONE),
        Vec3::new(-7 * ONE, 2 * ONE, 5 * ONE / 3),
        Vec3::new(0, 0, -1000 * ONE),
        Vec3::new(ONE / 10, -ONE / 5, ONE / 7),
    ];
    for v in cases.iter() {
        let u = Vec3::unit_vector(v);
        let len = u.length();
        assert!((len - ONE).abs() <= 8, "length {} for {:?}", len, v);
    }
    assert_eq!(Vec3::unit_vector(&Vec3::new(3 * ONE, 4 * ONE, 0)), Vec3::new(39321, 52428, 0));
}

#[test]
fn random_points_stay_in_their_sets() {
    for _ in 0..200 {
        let p = Vec3::random_in_unit_sphere();
        assert!(p.squared_length() <= ONE);
        let n = Vec3::new(0, ONE, 0);
        let h = Vec3::random_in_hemisphere(&n);
        assert!(Vec3::dot(&h, &n) >= 0);
        let r = Vec3::random();
        assert!(0 <= r.x && r.x < ONE && 0 <= r.y && r.y < ONE && 0 <= r.z && r.z < ONE);
    }
}

#[test]
fn short_vectors_normalize_to_unit_length() {
    assert_eq!(Vec3::unit_vector(&Vec3::new(300, 0, 0)), Vec3::new(ONE, 0, 0));
    assert_eq!(Vec3::unit_vector(&Vec3::new(1, 0, 0)), Vec3::new(ONE, 0, 0));
    let cases = [
        Vec3::new(1, 1, 0),
        Vec3::new(3, -4, 0),
        Vec3::new(300, 7, -2),
        Vec3::new(i64::MAX, i64::MIN, 5),
        Vec3::new(1 << 40, 3, 1 << 39),
    ];
    for v in cases.iter() {
        let len = Vec3::unit_vector(v).length();
        assert!((len - ONE).abs() <= 8, "length {} for {:?}", len, v);
    }
    assert_eq!(Vec3::unit_vector(&Vec3::new(0, 0, 0)), Vec3::new(0, 0, 0));
}

#[test]
fn rescaled_keeps_direction() {
    assert_eq!(Vec3::new(3, -4, 0).rescaled(), Vec3::new(3 << 27, -4 << 27, 0));
    assert_eq!(Vec3::new(1 << 40, 0, -(1 << 41)).rescaled(), Vec3::new(1 << 29, 0, -(1 << 30)));
}

#[test]
fn hemisphere_and_candidates() {
    let n = Vec3::new(0, ONE, 0);
    assert_eq!(Vec3::flip_into(Vec3::new(1, -5, 2), &n), Vec3::new(-1, 5, -2));
    assert_eq!(Vec3::flip_into(Vec3::new(1, 5, 2), &n), Vec3::new(1, 5, 2));
    assert_eq!(Vec3::ball_candidate(Vec3::new(ONE, ONE, 0)), None);
    assert_eq!(Vec3::ball_candidate(Vec3::new(ONE / 2, ONE / 2, 0)), Some(Vec3::new(ONE / 2, ONE / 2, 0)));
    assert_eq!(raytracer::camera::disk_candidate(ONE, 0), None);
    assert_eq!(raytracer::camera::disk_candidate(ONE / 2, -ONE / 2), Some(Vec3::new(ONE / 2, -ONE / 2, 0)));
    assert_eq!(raytracer::util::Lib::scale_draw(-ONE, ONE, ONE / 2), 0);
    assert_eq!(raytracer::util::Lib::scale_draw(2 * ONE, 4 * ONE, ONE / 4), 5 * ONE / 2);
}
