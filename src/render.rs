//! The recursive radiance estimator and per-pixel sampling.
use crate::camera::{camera_ray, in_unit_disk, Camera};
use crate::fixed::{
    add_spec, div_spec, fx_add, fx_div, fx_min, fx_mul, fx_sqrt, fx_sub, min_spec, mul_spec, quot,
    sqrt_spec, sub_spec, MAX, ONE,
};
use crate::hittable::{HitRecord, Hittable};
use crate::hittable_list::{all_miss, scan, HittableList};
use crate::sphere::Sphere;
use crate::material::{scatter, scatter_spec, white, zero, Material};
use crate::ray::Ray;
use crate::util::Lib;
use crate::vec3::{vadd, vdiv, vlen_sq, vmul, vscale, vunit, Color, Vec3};
use vstd::prelude::*;

verus! {

/// Lower end of the interval a scattered ray is intersected over (about
/// 0.001), so that a ray does not meet the surface it leaves.
pub const T_EPSILON: i64 = 66;

/// 0.99, added to the maximum output value so that a channel of `[0, 1]`
/// maps onto `0..=max_value` in equal steps.
pub const SCALE_MARGIN: i64 = 64881;

/// The largest maximum output value the plain-text image format allows.
pub const MAX_OUTPUT_VALUE: i64 = 65535;

/// The color of the sky straight up.
pub open spec fn zenith() -> Color {
    Vec3 { x: 3277, y: 45875, z: ONE }
}

/// `t` clamped into `[0, 1]`.
pub open spec fn unit_clamp(t: int) -> int {
    if t < 0 {
        0
    } else if t > ONE {
        ONE as int
    } else {
        t
    }
}

/// The sky seen along `r`: white at the horizon blending into the zenith
/// color as the direction turns upward.
pub open spec fn background(r: Ray) -> Color {
    let unit_direction = vunit(r.dir);
    let t = unit_clamp(mul_spec(ONE / 2, add_spec(unit_direction.y as int, ONE as int)));
    vadd(vscale(white(), sub_spec(ONE as int, t)), vscale(zenith(), t))
}

pub fn background_color(r: &Ray) -> (c: Color)
    ensures
        c == background(*r),
{
    let unit_direction: Vec3 = Vec3::unit_vector(&r.direction());
    let mut t: i64 = fx_mul(ONE / 2, fx_add(unit_direction.y(), ONE));
    if t < 0 {
        t = 0;
    } else if t > ONE {
        t = ONE;
    }
    Color::new(ONE, ONE, ONE).scale(fx_sub(ONE, t)).plus(Color::new(3277, 45875, ONE).scale(t))
}

/// Every channel of `c` lies in `[0, 1]`.
pub open spec fn in_unit_cube(c: Color) -> bool {
    0 <= c.x <= ONE && 0 <= c.y <= ONE && 0 <= c.z <= ONE
}

/// The material attenuates by at most one in every channel.
pub open spec fn unit_albedo(m: Material) -> bool {
    match m {
        Material::Lambertian { albedo } => in_unit_cube(albedo),
        Material::Metal { albedo, .. } => in_unit_cube(albedo),
        Material::Dielectric { .. } => true,
    }
}

/// Every surface that `world` can show has a material with
/// `unit_albedo`.
pub open spec fn unit_albedo_world<H: Hittable>(world: HittableList<H>) -> bool {
    forall|r: Ray| #![trigger world.hit_spec(r, T_EPSILON, MAX)]
        world.hit_spec(r, T_EPSILON, MAX) is Some ==> unit_albedo(
            world.hit_spec(r, T_EPSILON, MAX)->0.material,
        )
}

proof fn lemma_mul_unit(a: int, b: int)
    requires
        0 <= a <= ONE,
        0 <= b <= ONE,
    ensures
        0 <= mul_spec(a, b) <= b,
        mul_spec(a, b) <= ONE,
{
    assert(0 <= a * b <= ONE * b) by (nonlinear_arith)
        requires
            0 <= a <= ONE,
            0 <= b,
    ;
    assert((a * b) / (ONE as int) <= b) by (nonlinear_arith)
        requires
            0 <= a * b <= ONE * b,
            ONE == 65536,
    ;
    assert((a * b) / (ONE as int) >= 0) by (nonlinear_arith)
        requires
            0 <= a * b,
            ONE == 65536,
    ;
}

/// The sky's color lies in `[0, 1]` in every channel.
pub proof fn lemma_background_in_unit_cube(r: Ray)
    ensures
        in_unit_cube(background(r)),
{
    let unit_direction = vunit(r.dir);
    let t = unit_clamp(mul_spec(ONE / 2, add_spec(unit_direction.y as int, ONE as int)));
    assert(mul_spec(ONE as int, ONE - t) == ONE - t) by {
        assert((ONE as int) * (ONE - t) == (ONE - t) * ONE) by (nonlinear_arith);
    }
    lemma_mul_unit(3277, t);
    lemma_mul_unit(45875, t);
    lemma_mul_unit(ONE as int, t);
}

/// With albedos in `[0, 1]`, every possible radiance sample lies in
/// `[0, 1]` in every channel.
pub proof fn lemma_radiance_in_unit_cube<H: Hittable>(
    world: HittableList<H>,
    r: Ray,
    depth: int,
    c: Color,
)
    requires
        possible_radiance(world, r, depth, c),
        unit_albedo_world(world),
    ensures
        in_unit_cube(c),
    decreases depth,
{
    if depth > 0 {
        match world.hit_spec(r, T_EPSILON, MAX) {
            None => {
                lemma_background_in_unit_cube(r);
            },
            Some(rec) => {
                let (sample, draw, next) = choose|sample: Vec3, draw: int, next: Color|
                    vlen_sq(sample) <= ONE && 0 <= draw < ONE && (scatter_spec(
                        rec.material,
                        r,
                        rec,
                        sample,
                        draw,
                    ).0 ==> possible_radiance(
                        world,
                        scatter_spec(rec.material, r, rec, sample, draw).2,
                        depth - 1,
                        next,
                    )) && c == #[trigger] bounce_color(
                        scatter_spec(rec.material, r, rec, sample, draw),
                        next,
                    );
                let sc = scatter_spec(rec.material, r, rec, sample, draw);
                if sc.0 {
                    lemma_radiance_in_unit_cube(world, sc.2, depth - 1, next);
                    assert(unit_albedo(rec.material));
                    assert(in_unit_cube(sc.1));
                    lemma_mul_unit(sc.1.x as int, next.x as int);
                    lemma_mul_unit(sc.1.y as int, next.y as int);
                    lemma_mul_unit(sc.1.z as int, next.z as int);
                }
            },
        }
    }
}

proof fn lemma_scan_member<H: Hittable>(objs: Seq<H>, r: Ray, t_min: i64, t_max: i64)
    ensures
        scan(objs, r, t_min, t_max) is Some ==> exists|k: int, b: i64|
            0 <= k < objs.len() && #[trigger] objs[k].hit_spec(r, t_min, b) == scan(
                objs,
                r,
                t_min,
                t_max,
            ),
    decreases objs.len(),
{
    if objs.len() > 0 {
        let prefix = objs.drop_last();
        lemma_scan_member(prefix, r, t_min, t_max);
        let prev = scan(prefix, r, t_min, t_max);
        let bound = match prev {
            Some(h) => h.t,
            None => t_max,
        };
        if objs.last().hit_spec(r, t_min, bound) is Some {
            assert(objs[objs.len() - 1].hit_spec(r, t_min, bound) == scan(objs, r, t_min, t_max));
        } else if prev is Some {
            let (k, b) = choose|k: int, b: i64|
                0 <= k < prefix.len() && #[trigger] prefix[k].hit_spec(r, t_min, b) == prev;
            assert(objs[k].hit_spec(r, t_min, b) == scan(objs, r, t_min, t_max));
        }
    }
}

/// A scene of spheres whose albedos lie in `[0, 1]` shows only such
/// materials.
pub proof fn lemma_sphere_scene_unit_albedo(world: HittableList<Sphere>)
    requires
        forall|k: int| 0 <= k < world.list@.len() ==> unit_albedo(#[trigger] world.list@[k].material),
    ensures
        unit_albedo_world(world),
{
    assert forall|r: Ray| #[trigger] world.hit_spec(r, T_EPSILON, MAX) is Some implies unit_albedo(
        world.hit_spec(r, T_EPSILON, MAX)->0.material,
    ) by {
        lemma_scan_member(world.list@, r, T_EPSILON, MAX);
        let (k, b) = choose|k: int, b: i64|
            0 <= k < world.list@.len() && #[trigger] world.list@[k].hit_spec(r, T_EPSILON, b)
                == scan(world.list@, r, T_EPSILON, MAX);
        assert(world.list@[k].hit_spec(r, T_EPSILON, b)->0.material == world.list@[k].material);
    }
}

/// In an empty scene a radiance sample with bounces left is exactly the sky.
pub proof fn lemma_empty_world_radiance<H: Hittable>(
    world: HittableList<H>,
    r: Ray,
    depth: int,
    c: Color,
)
    requires
        world.list@.len() == 0,
        depth > 0,
    ensures
        possible_radiance(world, r, depth, c) <==> c == background(r),
{
}

/// What one bounce gives: black when the scattering absorbs the ray,
/// otherwise the attenuation times `next`, the light along the scattered ray.
pub open spec fn bounce_color(scattered: (bool, Color, Ray), next: Color) -> Color {
    if scattered.0 {
        vmul(scattered.1, next)
    } else {
        zero()
    }
}

/// `c` is a possible outcome of one radiance sample along `r` with `depth`
/// bounces left: black once the bounces are spent; the sky when `world` is
/// not hit; and at a hit, for some random inputs of the scattering, black
/// when the ray is absorbed, else the attenuation times a possible outcome
/// along the scattered ray with one bounce fewer.
pub open spec fn possible_radiance<H: Hittable>(
    world: HittableList<H>,
    r: Ray,
    depth: int,
    c: Color,
) -> bool
    decreases depth,
{
    if depth <= 0 {
        c == zero()
    } else {
        match world.hit_spec(r, T_EPSILON, MAX) {
            None => c == background(r),
            Some(rec) => exists|sample: Vec3, draw: int, next: Color|
                vlen_sq(sample) <= ONE && 0 <= draw < ONE && (scatter_spec(
                    rec.material,
                    r,
                    rec,
                    sample,
                    draw,
                ).0 ==> possible_radiance(
                    world,
                    scatter_spec(rec.material, r, rec, sample, draw).2,
                    depth - 1,
                    next,
                )) && c == #[trigger] bounce_color(
                    scatter_spec(rec.material, r, rec, sample, draw),
                    next,
                ),
        }
    }
}

proof fn lemma_radiance_at_hit<H: Hittable>(
    world: HittableList<H>,
    r: Ray,
    depth: int,
    rec: HitRecord,
    sample: Vec3,
    draw: int,
    next: Color,
    c: Color,
)
    requires
        depth > 0,
        world.hit_spec(r, T_EPSILON, MAX) == Some(rec),
        vlen_sq(sample) <= ONE,
        0 <= draw < ONE,
        scatter_spec(rec.material, r, rec, sample, draw).0 ==> possible_radiance(
            world,
            scatter_spec(rec.material, r, rec, sample, draw).2,
            depth - 1,
            next,
        ),
        c == bounce_color(scatter_spec(rec.material, r, rec, sample, draw), next),
    ensures
        possible_radiance(world, r, depth, c),
{
    let sc = scatter_spec(rec.material, r, rec, sample, draw);
    assert(vlen_sq(sample) <= ONE && 0 <= draw < ONE && (sc.0 ==> possible_radiance(
        world,
        sc.2,
        depth - 1,
        next,
    )) && c == bounce_color(sc, next));
    assert(possible_radiance(world, sc.2, depth - 1, next) || !sc.0);
}

/// One sample of the light arriving along `r`, following at most `depth`
/// bounces: black once the bounces are spent, the sky when nothing is hit,
/// black when the surface absorbs the ray, and otherwise the attenuation
/// times a sample of the light along the scattered ray.
pub fn radiance<H: Hittable>(r: &Ray, world: &HittableList<H>, depth: i8) -> (c: Color)
    ensures
        possible_radiance(*world, *r, depth as int, c),
        depth <= 0 ==> c == zero(),
        depth > 0 && all_miss(world.list@, *r, T_EPSILON, MAX) ==> c == background(*r),
        depth > 0 && world.list@.len() == 0 ==> c == background(*r),
    decreases depth,
{
    if depth <= 0 {
        return Color::new(0, 0, 0);
    }
    match world.hit(r, T_EPSILON, MAX) {
        Some(rec) => {
            let mut scattered: Ray = Ray::ray(Vec3::new(0, 0, 0), Vec3::new(0, 0, 0));
            let mut attenuation: Color = Color::new(0, 0, 0);
            let ok = scatter(&rec.material, r, &rec, &mut attenuation, &mut scattered);
            let ghost (sample, draw) = choose|sample: Vec3, draw: int|
                vlen_sq(sample) <= ONE && 0 <= draw < ONE && #[trigger] scatter_spec(
                    rec.material,
                    *r,
                    rec,
                    sample,
                    draw,
                ) == (ok, attenuation, scattered);
            if ok {
                let next = radiance(&scattered, world, depth - 1);
                let c = attenuation.mul_elem(next);
                proof {
                    lemma_radiance_at_hit(*world, *r, depth as int, rec, sample, draw, next, c);
                }
                c
            } else {
                let c = Color::new(0, 0, 0);
                proof {
                    lemma_radiance_at_hit(*world, *r, depth as int, rec, sample, draw, c, c);
                }
                c
            }
        },
        None => background_color(r),
    }
}

/// The componentwise sum of `s`, left to right.
pub open spec fn sum_colors(s: Seq<Color>) -> Color
    decreases s.len(),
{
    if s.len() == 0 {
        zero()
    } else {
        vadd(sum_colors(s.drop_last()), s.last())
    }
}

/// The image-plane coordinate of pixel index `i` jittered by `jitter`, in
/// an image `size` pixels across: `(i + jitter) / (size - 1)`.
pub open spec fn pixel_coord(i: int, jitter: int, size: int) -> int {
    div_spec(add_spec(i * ONE, jitter), (size - 1) * ONE)
}

/// `c` is a possible radiance sample through pixel `(i, j)`: along the
/// camera ray through the pixel jittered by some `du`, `dv` in `[0, 1)`,
/// from some point of the lens.
pub open spec fn pixel_sample<H: Hittable>(
    cam: Camera,
    world: HittableList<H>,
    i: int,
    j: int,
    image_width: int,
    image_height: int,
    max_depth: int,
    c: Color,
) -> bool {
    exists|du: int, dv: int, disk: Vec3|
        0 <= du < ONE && 0 <= dv < ONE && in_unit_disk(disk) && #[trigger] possible_radiance(
            world,
            camera_ray(
                cam,
                pixel_coord(i, du, image_width),
                pixel_coord(j, dv, image_height),
                disk,
            ),
            max_depth,
            c,
        )
}

/// `c` is a possible pixel color: the mean of `samples_per_pixel` possible
/// samples through pixel `(i, j)`.
pub open spec fn pixel_mean<H: Hittable>(
    cam: Camera,
    world: HittableList<H>,
    i: int,
    j: int,
    image_width: int,
    image_height: int,
    samples_per_pixel: int,
    max_depth: int,
    c: Color,
) -> bool {
    exists|samples: Seq<Color>|
        samples.len() == (if samples_per_pixel > 0 {
            samples_per_pixel
        } else {
            0
        }) && (forall|k: int|
            0 <= k < samples.len() ==> pixel_sample(
                cam,
                world,
                i,
                j,
                image_width,
                image_height,
                max_depth,
                #[trigger] samples[k],
            )) && c == vdiv(#[trigger] sum_colors(samples), samples_per_pixel * ONE)
}

/// The mean of `samples_per_pixel` radiance samples through pixel `(i, j)`
/// of a `image_width` by `image_height` image, each jittered within the
/// pixel.
pub fn pixel_color<H: Hittable>(
    cam: &Camera,
    world: &HittableList<H>,
    i: i32,
    j: i32,
    image_width: i32,
    image_height: i32,
    samples_per_pixel: i32,
    max_depth: i8,
) -> (c: Color)
    ensures
        pixel_mean(
            *cam,
            *world,
            i as int,
            j as int,
            image_width as int,
            image_height as int,
            samples_per_pixel as int,
            max_depth as int,
            c,
        ),
        max_depth <= 0 ==> c == zero(),
{
    let mut pixel: Color = Color::new(0, 0, 0);
    let mut k: i32 = 0;
    let ghost mut samples: Seq<Color> = Seq::empty();
    while k < samples_per_pixel
        invariant
            max_depth <= 0 ==> pixel == zero(),
            pixel == sum_colors(samples),
            samples.len() == if k > 0 {
                k as int
            } else {
                0
            },
            samples_per_pixel > 0 ==> 0 <= k <= samples_per_pixel,
            samples_per_pixel <= 0 ==> k == 0,
            forall|m: int|
                0 <= m < samples.len() ==> pixel_sample(
                    *cam,
                    *world,
                    i as int,
                    j as int,
                    image_width as int,
                    image_height as int,
                    max_depth as int,
                    #[trigger] samples[m],
                ),
        decreases samples_per_pixel - k,
    {
        let du: i64 = Lib::random_double();
        let dv: i64 = Lib::random_double();
        let u: i64 = fx_div(fx_add(i as i64 * ONE, du), (image_width as i64 - 1) * ONE);
        let v: i64 = fx_div(fx_add(j as i64 * ONE, dv), (image_height as i64 - 1) * ONE);
        let r: Ray = cam.get_ray(u, v);
        let sample = radiance(&r, world, max_depth);
        proof {
            let disk = choose|disk: Vec3|
                in_unit_disk(disk) && r == #[trigger] camera_ray(*cam, u as int, v as int, disk);
            assert(pixel_sample(
                *cam,
                *world,
                i as int,
                j as int,
                image_width as int,
                image_height as int,
                max_depth as int,
                sample,
            )) by {
                assert(r == camera_ray(
                    *cam,
                    pixel_coord(i as int, du as int, image_width as int),
                    pixel_coord(j as int, dv as int, image_height as int),
                    disk,
                ));
            }
            assert(samples.push(sample).drop_last() =~= samples);
            samples = samples.push(sample);
        }
        pixel = pixel.plus(sample);
        k = k + 1;
    }
    let c = pixel.div_by(samples_per_pixel as i64 * ONE);
    assert(c == vdiv(sum_colors(samples), samples_per_pixel * ONE));
    c
}

/// `px` is a possible output pixel: the output values of the channels of a
/// possible pixel color.
pub open spec fn pixel_output<H: Hittable>(
    cam: Camera,
    world: HittableList<H>,
    i: int,
    j: int,
    image_width: int,
    image_height: int,
    samples_per_pixel: int,
    max_depth: int,
    max_value: int,
    px: (i64, i64, i64),
) -> bool {
    exists|c: Color|
        #[trigger] pixel_mean(
            cam,
            world,
            i,
            j,
            image_width,
            image_height,
            samples_per_pixel,
            max_depth,
            c,
        ) && px == (channel_value(c.x as int, max_value) as i64, channel_value(
            c.y as int,
            max_value,
        ) as i64, channel_value(c.z as int, max_value) as i64)
}

/// The output value in `0..=max_value` for the channel `c`: after a gamma of
/// two, `(max_value + 0.99) * sqrt(c)` truncated.
pub open spec fn channel_value(c: int, max_value: int) -> int {
    min_spec(max_value, quot(mul_spec(max_value * ONE + SCALE_MARGIN, sqrt_spec(c)), ONE as int))
}

pub fn to_channel(c: i64, max_value: i64) -> (r: i64)
    requires
        0 < max_value <= MAX_OUTPUT_VALUE,
    ensures
        r == channel_value(c as int, max_value as int),
        0 <= r <= max_value,
{
    let scale: i64 = max_value * ONE + SCALE_MARGIN;
    let scaled: i64 = fx_mul(scale, fx_sqrt(c));
    proof {
        assert(scale * sqrt_spec(c as int) >= 0) by (nonlinear_arith)
            requires
                sqrt_spec(c as int) >= 0,
                scale >= 0,
        ;
    }
    fx_min(max_value, scaled / ONE)
}

/// Row `j` of the image as output values in `0..=max_value`, left to right.
pub fn render_row<H: Hittable>(
    cam: &Camera,
    world: &HittableList<H>,
    j: i32,
    image_width: i32,
    image_height: i32,
    samples_per_pixel: i32,
    max_depth: i8,
    max_value: i64,
) -> (row: Vec<(i64, i64, i64)>)
    requires
        0 < max_value <= MAX_OUTPUT_VALUE,
    ensures
        row@.len() == if image_width > 0 {
            image_width as int
        } else {
            0
        },
        forall|k: int|
            0 <= k < row@.len() ==> 0 <= (#[trigger] row@[k]).0 <= max_value && 0 <= row@[k].1 <= max_value
                && 0 <= row@[k].2 <= max_value,
        max_depth <= 0 ==> forall|k: int| 0 <= k < row@.len() ==> #[trigger] row@[k] == (0i64, 0i64, 0i64),
        forall|k: int|
            0 <= k < row@.len() ==> pixel_output(
                *cam,
                *world,
                k,
                j as int,
                image_width as int,
                image_height as int,
                samples_per_pixel as int,
                max_depth as int,
                max_value as int,
                #[trigger] row@[k],
            ),
{
    let mut row: Vec<(i64, i64, i64)> = Vec::new();
    let mut i: i32 = 0;
    while i < image_width
        invariant
            0 <= i,
            image_width > 0 ==> i <= image_width,
            image_width <= 0 ==> i == 0,
            0 < max_value <= MAX_OUTPUT_VALUE,
            row@.len() == i,
            forall|k: int|
                0 <= k < row@.len() ==> 0 <= (#[trigger] row@[k]).0 <= max_value && 0 <= row@[k].1
                    <= max_value && 0 <= row@[k].2 <= max_value,
            max_depth <= 0 ==> forall|k: int| 0 <= k < row@.len() ==> #[trigger] row@[k] == (0i64, 0i64, 0i64),
            forall|k: int|
                0 <= k < row@.len() ==> pixel_output(
                    *cam,
                    *world,
                    k,
                    j as int,
                    image_width as int,
                    image_height as int,
                    samples_per_pixel as int,
                    max_depth as int,
                    max_value as int,
                    #[trigger] row@[k],
                ),
        decreases image_width - i,
    {
        let c = pixel_color(cam, world, i, j, image_width, image_height, samples_per_pixel, max_depth);
        proof {
            if max_depth <= 0 {
                assert(sqrt_spec(0) == 0);
            }
        }
        let px = (to_channel(c.x(), max_value), to_channel(c.y(), max_value), to_channel(c.z(), max_value));
        proof {
            assert(pixel_output(
                *cam,
                *world,
                i as int,
                j as int,
                image_width as int,
                image_height as int,
                samples_per_pixel as int,
                max_depth as int,
                max_value as int,
                px,
            ));
        }
        row.push(px);
        i = i + 1;
    }
    row
}

} // verus!
