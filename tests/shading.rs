use raytracer::camera::{random_in_unit_disk, Camera};
use raytracer::fixed::{MAX, ONE};
use raytracer::hittable::{HitRecord, Hittable};
use raytracer::hittable_list::HittableList;
use raytracer::material::{reflect, refract, scatter, scatter_with, schlick, Material};
use raytracer::ray::Ray;
use raytracer::render::{background_color, pixel_color, radiance, render_row, to_channel};
use raytracer::scene::random_scene;
use raytracer::sphere::Sphere;
use raytracer::vec3::Vec3;

fn record(material: Material, front_face: bool) -> HitRecord {
    HitRecord {
        t: ONE,
        p: Vec3::new(0, 0, -ONE),
        normal: Vec3::new(0, 0, ONE),
        material,
        front_face,
    }
}

fn down() -> Ray {
    Ray::ray(Vec3::new(0, 0, 0), Vec3::new(0, 0, -ONE))
}

#[test]
fn lambertian_always_scatters_with_albedo() {
    let albedo = Vec3::new(ONE / 2, ONE / 4, ONE);
    let m = Material::Lambertian { albedo };
    let rec = record(m, true);
    for _ in 0..50 {
        let mut att = Vec3::new(0, 0, 0);
        let mut out = Ray::ray(Vec3::new(0, 0, 0), Vec3::new(0, 0, 0));
        assert!(scatter(&m, &down(), &rec, &mut att, &mut out));
        assert_eq!(att, albedo);
        assert_eq!(out.origin(), rec.p);
    }
    let (ok, _, out) = scatter_with(&m, &down(), &rec, Vec3::new(0, 0, -ONE), 0);
    assert!(ok);
    assert_eq!(out.direction(), Vec3::new(0, 0, ONE));
    let (_, _, out) = scatter_with(&m, &down(), &rec, Vec3::new(ONE / 2, 0, 0), 0);
    assert_eq!(out.direction(), Vec3::new(ONE / 2, 0, ONE));
}

#[test]
fn metal_reflects_and_absorbs() {
    let albedo = Vec3::new(45875, 39322, 32768);
    let m = Material::metal(albedo, 0);
    let rec = record(m, true);
    let (ok, att, out) = scatter_with(&m, &down(), &rec, Vec3::new(0, 0, 0), 0);
    assert!(ok);
    assert_eq!(att, albedo);
    assert_eq!(out.direction(), Vec3::new(0, 0, ONE));
    let rough = Material::metal(albedo, 3 * ONE);
    assert_eq!(rough, Material::Metal { albedo, fuzz: ONE });
    let (ok, _, out) = scatter_with(&rough, &down(), &record(rough, true), Vec3::new(0, 0, -ONE), 0);
    assert!(!ok);
    assert!(Vec3::dot(&out.direction(), &Vec3::new(0, 0, ONE)) <= 0);
    for _ in 0..50 {
        let mut att = Vec3::new(0, 0, 0);
        let mut out = Ray::ray(Vec3::new(0, 0, 0), Vec3::new(0, 0, 0));
        let res = scatter(&rough, &down(), &record(rough, true), &mut att, &mut out);
        assert_eq!(res, Vec3::dot(&out.direction(), &Vec3::new(0, 0, ONE)) > 0);
    }
}

#[test]
fn dielectric_total_internal_reflection() {
    let m = Material::Dielectric { ref_idx: 3 * ONE / 2 };
    // leaving the glass at a grazing angle: ratio 1.5, sin_theta close to 1
    let r_in = Ray::ray(Vec3::new(0, 0, 0), Vec3::new(ONE, 0, -ONE / 10));
    let rec = record(m, false);
    let mirrored = reflect(&Vec3::unit_vector(&r_in.direction()), &rec.normal);
    for draw in [0, ONE / 2, ONE - 1] {
        let (ok, att, out) = scatter_with(&m, &r_in, &rec, Vec3::new(0, 0, 0), draw);
        assert!(ok);
        assert_eq!(att, Vec3::new(ONE, ONE, ONE));
        assert_eq!(out.direction(), mirrored);
        assert_eq!(out.origin(), rec.p);
    }
}

#[test]
fn dielectric_refracts_head_on() {
    let m = Material::Dielectric { ref_idx: 3 * ONE / 2 };
    let rec = record(m, true);
    let (ok, _, out) = scatter_with(&m, &down(), &rec, Vec3::new(0, 0, 0), ONE - 1);
    assert!(ok);
    assert_eq!(out.direction(), Vec3::new(0, 0, -ONE));
    let (_, _, out) = scatter_with(&m, &down(), &rec, Vec3::new(0, 0, 0), 0);
    assert_eq!(out.direction(), Vec3::new(0, 0, ONE));
}

#[test]
fn reflect_refract_schlick_values() {
    assert_eq!(
        reflect(&Vec3::new(ONE, -ONE, 0), &Vec3::new(0, ONE, 0)),
        Vec3::new(ONE, ONE, 0)
    );
    assert_eq!(refract(&Vec3::new(0, -ONE, 0), &Vec3::new(0, ONE, 0), ONE), Vec3::new(0, -ONE, 0));
    // r0 = ((1 - 1.5) / (1 + 1.5))^2 = 0.04 at normal incidence
    assert_eq!(schlick(ONE, 3 * ONE / 2), 2621);
    assert_eq!(schlick(0, 3 * ONE / 2), ONE);
}

#[test]
fn radiance_depth_zero_is_black() {
    let world = HittableList::new(vec![Sphere::sphere(
        Vec3::new(0, 0, -ONE),
        ONE / 2,
        Material::Lambertian { albedo: Vec3::new(ONE / 2, ONE / 2, ONE / 2) },
    )
    .unwrap()]);
    assert_eq!(radiance(&down(), &world, 0), Vec3::new(0, 0, 0));
    assert_eq!(radiance(&Ray::ray(Vec3::new(0, 0, 0), Vec3::new(0, ONE, 0)), &world, 0), Vec3::new(0, 0, 0));
}

#[test]
fn empty_scene_gives_background() {
    let world: HittableList<Sphere> = HittableList::new(vec![]);
    let up = Ray::ray(Vec3::new(0, 0, 0), Vec3::new(0, ONE, 0));
    assert_eq!(radiance(&up, &world, 50), Vec3::new(3277, 45875, ONE));
    let horizon = Ray::ray(Vec3::new(0, 0, 0), Vec3::new(ONE, 0, 0));
    assert_eq!(radiance(&horizon, &world, 50), Vec3::new(34406, 55705, ONE));
    let down_ray = Ray::ray(Vec3::new(0, 0, 0), Vec3::new(0, -ONE, 0));
    assert_eq!(radiance(&down_ray, &world, 50), Vec3::new(ONE, ONE, ONE));
    for r in [up, horizon, down_ray, down()] {
        assert_eq!(radiance(&r, &world, 5), background_color(&r));
    }
}

#[test]
fn single_sphere_end_to_end() {
    let s = Sphere::sphere(
        Vec3::new(0, 0, -ONE),
        ONE / 2,
        Material::Lambertian { albedo: Vec3::new(ONE / 2, ONE / 2, ONE / 2) },
    )
    .unwrap();
    let world = HittableList::new(vec![s]);
    let cam = Camera::new(
        Vec3::new(0, 0, 0),
        Vec3::new(0, 0, -ONE),
        Vec3::new(0, ONE, 0),
        ONE,
        ONE,
        0,
        ONE,
    );
    let r = cam.get_ray(ONE / 2, ONE / 2);
    assert_eq!(r.origin(), Vec3::new(0, 0, 0));
    assert_eq!(r.direction(), Vec3::new(0, 0, -ONE));
    let h = world.hit(&r, 66, MAX).unwrap();
    assert_eq!(h.t, ONE / 2);
    assert_eq!(h.normal, Vec3::new(0, 0, ONE));
    let c = radiance(&r, &world, 50);
    assert!(c.x <= ONE / 2 && c.y <= ONE / 2 && c.z <= ONE / 2);
}

#[test]
fn camera_basis_and_lens() {
    let cam = Camera::new(
        Vec3::new(0, 0, 0),
        Vec3::new(0, 0, -ONE),
        Vec3::new(0, ONE, 0),
        ONE,
        2 * ONE,
        2 * ONE,
        ONE,
    );
    assert_eq!(cam.w, Vec3::new(0, 0, ONE));
    assert_eq!(cam.u, Vec3::new(ONE, 0, 0));
    assert_eq!(cam.v, Vec3::new(0, ONE, 0));
    assert_eq!(cam.horizontal, Vec3::new(4 * ONE, 0, 0));
    assert_eq!(cam.vertical, Vec3::new(0, 2 * ONE, 0));
    assert_eq!(cam.lower_left_corner, Vec3::new(-2 * ONE, -ONE, -ONE));
    assert_eq!(cam.lens_radius, ONE);
    let r = cam.ray_through(0, 0, Vec3::new(ONE / 2, 0, 0));
    assert_eq!(r.origin(), Vec3::new(ONE / 2, 0, 0));
    assert_eq!(r.direction(), Vec3::new(-5 * ONE / 2, -ONE, -ONE));
    for _ in 0..100 {
        let d = random_in_unit_disk();
        assert_eq!(d.z, 0);
        assert!(d.squared_length() < ONE);
    }
}

#[test]
fn output_values() {
    assert_eq!(to_channel(0, 255), 0);
    assert_eq!(to_channel(ONE, 255), 255);
    assert_eq!(to_channel(ONE / 4, 255), 127);
    assert_eq!(to_channel(4 * ONE, 255), 255);
    assert_eq!(to_channel(-ONE, 255), 0);
    let world: HittableList<Sphere> = HittableList::new(vec![]);
    let cam = Camera::new(Vec3::new(0, 0, 0), Vec3::new(0, 0, -ONE), Vec3::new(0, ONE, 0), ONE, ONE, 0, ONE);
    let row = render_row(&cam, &world, 1, 4, 3, 2, 0, 255);
    assert_eq!(row, vec![(0, 0, 0); 4]);
    let row = render_row(&cam, &world, 2, 3, 3, 2, 5, 255);
    assert_eq!(row.len(), 3);
    assert_eq!(pixel_color(&cam, &world, 0, 0, 3, 3, 4, 0), Vec3::new(0, 0, 0));
}

#[test]
fn demonstration_scene_is_valid() {
    let world = random_scene();
    assert!(world.list.len() >= 4 && world.list.len() <= 488);
    for s in world.list.iter() {
        assert!(s.radius > 0);
        assert!(s.material.is_valid());
    }
}

#[test]
fn demonstration_scene_layout() {
    let world = random_scene();
    let n = world.list.len();
    let ground = &world.list[0];
    assert_eq!(ground.center, Vec3::new(0, -1000 * ONE, 0));
    assert_eq!(ground.radius, 1000 * ONE);
    assert_eq!(ground.material, Material::Lambertian { albedo: Vec3::new(ONE / 2, ONE / 2, ONE / 2) });
    for s in world.list[1..n - 3].iter() {
        assert_eq!(s.radius, 13107);
        assert_eq!(s.center.y, 13107);
        assert!(s.center.minus(Vec3::new(4 * ONE, 13107, 0)).length() > 58982);
    }
    assert_eq!(world.list[n - 3].material, Material::Dielectric { ref_idx: 98304 });
    assert_eq!(world.list[n - 2].center, Vec3::new(-4 * ONE, ONE, 0));
    assert_eq!(world.list[n - 1].material, Material::Metal { albedo: Vec3::new(45875, 39322, 32768), fuzz: 0 });
}

#[test]
fn sky_blend_is_clamped_for_degenerate_directions() {
    let tiny_up = Ray::ray(Vec3::new(0, 0, 0), Vec3::new(0, 1, 0));
    assert_eq!(background_color(&tiny_up), Vec3::new(3277, 45875, ONE));
    let tiny_down = Ray::ray(Vec3::new(0, 0, 0), Vec3::new(0, -1, 0));
    assert_eq!(background_color(&tiny_down), Vec3::new(ONE, ONE, ONE));
}

#[test]
fn radiance_samples_stay_in_unit_range() {
    let world = random_scene();
    let cam = Camera::new(
        Vec3::new(13 * ONE, 2 * ONE, 3 * ONE),
        Vec3::new(0, 0, 0),
        Vec3::new(0, ONE, 0),
        11556,
        3 * ONE / 2,
        6554,
        10 * ONE,
    );
    for k in 0..40 {
        let r = cam.get_ray(k * ONE / 40, (k % 7) * ONE / 7);
        let c = radiance(&r, &world, 10);
        for ch in [c.x, c.y, c.z] {
            assert!(0 <= ch && ch <= ONE, "channel {} out of range", ch);
        }
    }
}

#[test]
fn empty_scene_pixels_are_sky() {
    let world: HittableList<Sphere> = HittableList::new(vec![]);
    let cam = Camera::new(Vec3::new(0, 0, 0), Vec3::new(0, 0, -ONE), Vec3::new(0, ONE, 0), ONE, ONE, 0, ONE);
    let c = pixel_color(&cam, &world, 1, 1, 3, 3, 4, 5);
    assert!(c.x > 0 && c.y > 0 && c.z > 0);
    assert!(c.z == ONE || c.z == ONE - 1);
    let row = render_row(&cam, &world, 2, 3, 3, 4, 5, 255);
    for (r, g, b) in row {
        assert!(r > 0 && g > r && b >= 254, "{} {} {}", r, g, b);
    }
}

#[test]
fn output_maximum_is_a_parameter() {
    assert_eq!(to_channel(ONE, 15), 15);
    assert_eq!(to_channel(ONE / 4, 15), 7);
    assert_eq!(to_channel(ONE, 65535), 65535);
    let world: HittableList<Sphere> = HittableList::new(vec![]);
    let cam = Camera::new(Vec3::new(0, 0, 0), Vec3::new(0, 0, -ONE), Vec3::new(0, ONE, 0), ONE, ONE, 0, ONE);
    for (r, g, b) in render_row(&cam, &world, 1, 3, 3, 2, 5, 1) {
        assert!(r <= 1 && g <= 1 && b <= 1);
    }
}

#[test]
fn lambertian_near_cancelling_direction_falls_back_to_normal() {
    let m = Material::Lambertian { albedo: Vec3::new(ONE, ONE, ONE) };
    let rec = HitRecord { t: ONE, p: Vec3::new(0, 0, 0), normal: Vec3::new(ONE, 0, 0), material: m, front_face: true };
    let (ok, _, out) = scatter_with(&m, &down(), &rec, Vec3::new(-65534, 0, 0), 0);
    assert!(ok);
    assert_eq!(out.direction(), Vec3::new(ONE, 0, 0));
}

#[test]
fn camera_basis_is_orthonormal() {
    let views = [
        (Vec3::new(13 * ONE, 2 * ONE, 3 * ONE), Vec3::new(0, 0, 0)),
        (Vec3::new(300, 0, 0), Vec3::new(0, 0, 0)),
        (Vec3::new(0, 0, 0), Vec3::new(ONE, -ONE / 3, -7 * ONE)),
    ];
    for (from, at) in views.iter() {
        let cam = Camera::new(*from, *at, Vec3::new(0, ONE, 0), ONE, ONE, 0, ONE);
        for b in [cam.u, cam.v, cam.w] {
            assert!((b.length() - ONE).abs() <= 16, "{:?}", b);
        }
        assert!(Vec3::dot(&cam.u, &cam.v).abs() <= 16);
        assert!(Vec3::dot(&cam.v, &cam.w).abs() <= 16);
        assert!(Vec3::dot(&cam.u, &cam.w).abs() <= 16);
    }
}
