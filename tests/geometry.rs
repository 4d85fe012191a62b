use raytracer::fixed::{MAX, ONE};
use raytracer::hittable::Hittable;
use raytracer::hittable_list::HittableList;
use raytracer::material::Material;
use raytracer::ray::Ray;
use raytracer::sphere::Sphere;
use raytracer::vec3::Vec3;

fn grey() -> Material {
    Material::Lambertian { albedo: Vec3::new(ONE / 2, ONE / 2, ONE / 2) }
}

fn unit_sphere_at(z: i64) -> Sphere {
    Sphere::sphere(Vec3::new(0, 0, z), ONE / 2, grey()).unwrap()
}

#[test]
fn ray_down_negative_z_hits_sphere_in_front() {
    let s = unit_sphere_at(-ONE);
    let r = Ray::ray(Vec3::new(0, 0, 0), Vec3::new(0, 0, -ONE));
    let h = s.hit(&r, 0, MAX).unwrap();
    assert_eq!(h.t, ONE / 2);
    assert_eq!(h.p, Vec3::new(0, 0, -ONE / 2));
    assert_eq!(h.normal, Vec3::new(0, 0, ONE));
    assert!(h.front_face);
    assert_eq!(h.material, grey());
}

#[test]
fn sphere_misses_and_tangent() {
    let s = unit_sphere_at(-ONE);
    let away = Ray::ray(Vec3::new(0, 0, 0), Vec3::new(0, 0, ONE));
    assert!(s.hit(&away, 0, MAX).is_none());
    let wide = Ray::ray(Vec3::new(ONE, 0, 0), Vec3::new(0, 0, -ONE));
    assert!(s.hit(&wide, 0, MAX).is_none());
    let tangent = Ray::ray(Vec3::new(ONE / 2, 0, 0), Vec3::new(0, 0, -ONE));
    assert!(s.hit(&tangent, 0, MAX).is_none());
}

#[test]
fn sphere_root_selection_by_interval() {
    let s = unit_sphere_at(-ONE);
    let r = Ray::ray(Vec3::new(0, 0, 0), Vec3::new(0, 0, -ONE));
    let far = s.hit(&r, ONE, MAX).unwrap();
    assert_eq!(far.t, 3 * ONE / 2);
    assert!(!far.front_face);
    assert_eq!(far.normal, Vec3::new(0, 0, ONE));
    assert!(s.hit(&r, 0, ONE / 2).is_none());
    assert!(s.hit(&r, 3 * ONE / 2, MAX).is_none());
    assert!(s.hit(&r, ONE / 2, 3 * ONE / 2).is_none());
}

#[test]
fn normal_faces_ray_from_inside() {
    let s = Sphere::sphere(Vec3::new(0, 0, 0), 2 * ONE, grey()).unwrap();
    let r = Ray::ray(Vec3::new(0, 0, 0), Vec3::new(ONE, 0, 0));
    let h = s.hit(&r, 0, MAX).unwrap();
    assert_eq!(h.t, 2 * ONE);
    assert!(!h.front_face);
    assert!(Vec3::dot(&r.direction(), &h.normal) <= 0);
    assert_eq!(h.normal, Vec3::new(-ONE, 0, 0));
}

#[test]
fn sphere_construction_validates() {
    assert!(Sphere::sphere(Vec3::new(0, 0, 0), 0, grey()).is_none());
    assert!(Sphere::sphere(Vec3::new(0, 0, 0), -ONE, grey()).is_none());
    assert!(Sphere::sphere(Vec3::new(0, 0, 0), ONE, Material::Dielectric { ref_idx: 0 }).is_none());
    assert!(Sphere::sphere(Vec3::new(0, 0, 0), ONE, Material::Dielectric { ref_idx: ONE * 3 / 2 }).is_some());
}

#[test]
fn scene_returns_nearest_of_overlapping() {
    let world = HittableList::new(vec![
        unit_sphere_at(-4 * ONE),
        unit_sphere_at(-ONE),
        unit_sphere_at(-2 * ONE),
    ]);
    let r = Ray::ray(Vec3::new(0, 0, 0), Vec3::new(0, 0, -ONE));
    let h = world.hit(&r, 0, MAX).unwrap();
    assert_eq!(h.t, ONE / 2);
    let h2 = world.hit(&r, ONE, MAX).unwrap();
    assert_eq!(h2.t, 3 * ONE / 2);
    let empty: HittableList<Sphere> = HittableList::new(vec![]);
    assert!(empty.hit(&r, 0, MAX).is_none());
}

#[test]
fn point_at_parameter() {
    let r = Ray::ray(Vec3::new(ONE, 0, 0), Vec3::new(0, 2 * ONE, 0));
    assert_eq!(r.point_at_parameter(3 * ONE / 2), Vec3::new(ONE, 3 * ONE, 0));
    assert_eq!(r.origin(), Vec3::new(ONE, 0, 0));
}

#[test]
fn scene_tie_keeps_first_member() {
    let first = unit_sphere_at(-ONE);
    let mut second = unit_sphere_at(-ONE);
    second.material = Material::Dielectric { ref_idx: 3 * ONE / 2 };
    let world = HittableList::new(vec![first, second]);
    let r = Ray::ray(Vec3::new(0, 0, 0), Vec3::new(0, 0, -ONE));
    let h = world.hit(&r, 0, MAX).unwrap();
    assert_eq!(h.t, ONE / 2);
    assert_eq!(h.material, grey());
}

#[test]
fn nested_scenes() {
    let near = HittableList::new(vec![unit_sphere_at(-3 * ONE)]);
    let far = HittableList::new(vec![unit_sphere_at(-ONE), unit_sphere_at(-5 * ONE)]);
    let world = HittableList::new(vec![near, far]);
    let r = Ray::ray(Vec3::new(0, 0, 0), Vec3::new(0, 0, -ONE));
    assert_eq!(world.hit(&r, 0, MAX).unwrap().t, ONE / 2);
    assert_eq!(world.hit(&r, ONE, MAX).unwrap().t, 3 * ONE / 2);
    assert_eq!(world.hit(&r, 2 * ONE, MAX).unwrap().t, 5 * ONE / 2);
    assert!(world.hit(&r, 6 * ONE, MAX).is_none());
}

#[test]
fn default_record() {
    let h = raytracer::hittable::HitRecord::default();
    assert_eq!(h.t, 0);
    assert!(!h.front_face);
    assert_eq!(h.material, Material::Lambertian { albedo: Vec3::new(0, 0, 0) });
}
