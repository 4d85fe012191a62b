//! The thin-lens camera.
use crate::fixed::{div_spec, fx_div, fx_mul, mul_spec, ONE};
use crate::ray::Ray;
use crate::util::Lib;
use crate::vec3::{is_zero, vadd, vcross, vdiv, vlen, vlen_sq, vscale, vsub, vunit, Point3, Vec3};
use vstd::prelude::*;

verus! {

pub struct Camera {
    pub origin: Point3,
    pub lower_left_corner: Point3,
    pub horizontal: Vec3,
    pub vertical: Vec3,
    pub u: Vec3,
    pub v: Vec3,
    pub w: Vec3,
    pub lens_radius: i64,
}

/// The camera placed at `look_from`, facing `look_at`, with `half_height`
/// the tangent of half the vertical field of view.
pub open spec fn camera_spec(
    look_from: Point3,
    look_at: Point3,
    vup: Vec3,
    half_height: int,
    aspect_ratio: int,
    aperture: int,
    focus_dist: int,
) -> Camera {
    let viewport_height = mul_spec(2 * ONE, half_height);
    let viewport_width = mul_spec(aspect_ratio, viewport_height);
    let w = vunit(vsub(look_from, look_at));
    let u = vunit(vcross(vup, w));
    let v = vcross(w, u);
    let horizontal = vscale(u, mul_spec(focus_dist, viewport_width));
    let vertical = vscale(v, mul_spec(focus_dist, viewport_height));
    Camera {
        origin: look_from,
        lower_left_corner: vsub(
            vsub(vsub(look_from, vdiv(horizontal, 2 * ONE)), vdiv(vertical, 2 * ONE)),
            vscale(w, focus_dist),
        ),
        horizontal,
        vertical,
        u,
        v,
        w,
        lens_radius: div_spec(aperture, 2 * ONE) as i64,
    }
}

/// The ray through image-plane point `(s, t)` from lens point `disk`.
pub open spec fn camera_ray(c: Camera, s: int, t: int, disk: Vec3) -> Ray {
    let rd = vscale(disk, c.lens_radius as int);
    let offset = vadd(vscale(c.u, rd.x as int), vscale(c.v, rd.y as int));
    Ray {
        orig: vadd(c.origin, offset),
        dir: vsub(
            vsub(
                vadd(vadd(c.lower_left_corner, vscale(c.horizontal, s)), vscale(c.vertical, t)),
                c.origin,
            ),
            offset,
        ),
    }
}

/// A point of the unit disk in the plane `z = 0`.
pub open spec fn in_unit_disk(p: Vec3) -> bool {
    p.z == 0 && vlen_sq(p) < ONE
}

/// The candidate `(x, y, 0)` of a rejection draw from the unit disk: kept
/// when it lies in the open disk.
pub fn disk_candidate(x: i64, y: i64) -> (r: Option<Vec3>)
    ensures
        r == (if vlen_sq(Vec3 { x, y, z: 0 }) < ONE {
            Some(Vec3 { x, y, z: 0 })
        } else {
            None
        }),
{
    let p: Vec3 = Vec3::new(x, y, 0);
    if p.squared_length() < ONE {
        Some(p)
    } else {
        None
    }
}

/// A point of the open unit disk, by rejection from the square `[-1, 1)^2`.
/// After a bounded number of rejected draws the center is returned.
pub fn random_in_unit_disk() -> (r: Vec3)
    ensures
        in_unit_disk(r),
{
    let mut tries: u32 = 0;
    while tries < 256
        decreases 256 - tries,
    {
        if let Some(p) = disk_candidate(Lib::random_min_max(-ONE, ONE), Lib::random_min_max(-ONE, ONE)) {
            return p;
        }
        tries = tries + 1;
    }
    Vec3::new(0, 0, 0)
}

impl Camera {
    pub fn new(
        look_from: Point3,
        look_at: Point3,
        vup: Vec3,
        half_height: i64,
        aspect_ratio: i64,
        aperture: i64,
        focus_dist: i64,
    ) -> (r: Camera)
        ensures
            r == camera_spec(
                look_from,
                look_at,
                vup,
                half_height as int,
                aspect_ratio as int,
                aperture as int,
                focus_dist as int,
            ),
            !is_zero(vsub(look_from, look_at)) ==> ONE - 8 <= vlen(r.w) <= ONE + 8,
            !is_zero(vcross(vup, r.w)) ==> ONE - 8 <= vlen(r.u) <= ONE + 8,
    {
        let viewport_height = fx_mul(2 * ONE, half_height);
        let viewport_width = fx_mul(aspect_ratio, viewport_height);

        let w = Vec3::unit_vector(&look_from.minus(look_at));
        let u = Vec3::unit_vector(&Vec3::cross(&vup, &w));
        let v = Vec3::cross(&w, &u);

        let origin = look_from;
        let horizontal = u.scale(fx_mul(focus_dist, viewport_width));
        let vertical = v.scale(fx_mul(focus_dist, viewport_height));
        let lower_left_corner = origin.minus(horizontal.div_by(2 * ONE)).minus(
            vertical.div_by(2 * ONE),
        ).minus(w.scale(focus_dist));
        Camera {
            origin,
            horizontal,
            vertical,
            lower_left_corner,
            u,
            v,
            w,
            lens_radius: fx_div(aperture, 2 * ONE),
        }
    }

    /// The ray through `(s, t)` from the given lens point.
    pub fn ray_through(&self, s: i64, t: i64, disk: Vec3) -> (r: Ray)
        ensures
            r == camera_ray(*self, s as int, t as int, disk),
    {
        let rd: Vec3 = disk.scale(self.lens_radius);
        let off_set: Vec3 = self.u.scale(rd.x()).plus(self.v.scale(rd.y()));
        Ray::ray(
            self.origin.plus(off_set),
            self.lower_left_corner.plus(self.horizontal.scale(s)).plus(self.vertical.scale(t)).minus(
                self.origin,
            ).minus(off_set),
        )
    }

    /// The ray through `(s, t)` from a random point of the lens.
    pub fn get_ray(&self, s: i64, t: i64) -> (r: Ray)
        ensures
            exists|disk: Vec3| in_unit_disk(disk) && r == #[trigger] camera_ray(*self, s as int, t as int, disk),
    {
        let disk = random_in_unit_disk();
        self.ray_through(s, t, disk)
    }
}

} // verus!
