//! Hit records and the intersectable abstraction.
use crate::material::Material;
use crate::ray::Ray;
use crate::vec3::{lemma_dot_comm, lemma_dot_neg, vdot, vin_range, vneg, Point3, Vec3};
use vstd::prelude::*;

verus! {

/// What a ray meets: its parameter, the point, the normal facing the ray,
/// the surface's material, and whether the ray came from outside.
#[derive(Clone, Copy, Debug, PartialEq, Eq, Structural)]
pub struct HitRecord {
    pub t: i64,
    pub p: Point3,
    pub normal: Vec3,
    pub material: Material,
    pub front_face: bool,
}

/// The normal stored for an outward normal seen along `dir`: the outward
/// normal itself when the ray comes from outside, else its negation.
pub open spec fn facing_normal(dir: Vec3, outward: Vec3) -> Vec3 {
    if vdot(dir, outward) < 0 {
        outward
    } else {
        vneg(outward)
    }
}

/// The oriented normal never points along the ray.
pub proof fn lemma_facing_normal(dir: Vec3, outward: Vec3)
    requires
        vin_range(outward),
    ensures
        vdot(dir, facing_normal(dir, outward)) <= 0,
{
    lemma_dot_neg(outward, dir);
    lemma_dot_comm(outward, dir);
    lemma_dot_comm(vneg(outward), dir);
}

impl Default for HitRecord {
    fn default() -> (r: HitRecord)
        ensures
            r.t == 0,
            r.p == (Vec3 { x: 0, y: 0, z: 0 }),
            r.normal == (Vec3 { x: 0, y: 0, z: 0 }),
            r.material == (Material::Lambertian { albedo: Vec3 { x: 0, y: 0, z: 0 } }),
            !r.front_face,
    {
        HitRecord {
            t: 0,
            p: Vec3::new(0, 0, 0),
            normal: Vec3::new(0, 0, 0),
            material: Material::default(),
            front_face: false,
        }
    }
}

impl HitRecord {
    /// Orients the normal against `r` and records which face was hit.
    pub fn set_face_normal(&mut self, r: &Ray, outward_normal: &Vec3)
        ensures
            final(self).front_face == (vdot(r.dir, *outward_normal) < 0),
            final(self).normal == facing_normal(r.dir, *outward_normal),
            final(self).t == old(self).t,
            final(self).p == old(self).p,
            final(self).material == old(self).material,
            vin_range(*outward_normal) ==> vdot(r.dir, final(self).normal) <= 0,
    {
        proof {
            if vin_range(*outward_normal) {
                lemma_facing_normal(r.dir, *outward_normal);
            }
        }
        self.front_face = Vec3::dot(&r.direction(), outward_normal) < 0;
        if self.front_face {
            self.normal = *outward_normal;
        } else {
            self.normal = outward_normal.negate();
        }
    }
}

/// An object a ray can be intersected with.
///
/// Besides the exact result, an implementation proves two laws: a hit lies
/// strictly inside the interval and its normal faces the ray; and narrowing
/// the interval's upper end keeps the same hit while it still fits, and
/// otherwise loses it.
pub trait Hittable {
    spec fn hit_spec(&self, r: Ray, t_min: i64, t_max: i64) -> Option<HitRecord>;

    proof fn lemma_hit_laws(&self, r: Ray, t_min: i64, t_max: i64, hi: i64)
        requires
            hi <= t_max,
        ensures
            self.hit_spec(r, t_min, t_max) is Some ==> {
                let h = self.hit_spec(r, t_min, t_max)->0;
                &&& t_min < h.t < t_max
                &&& vdot(r.dir, h.normal) <= 0
                &&& h.t < hi ==> self.hit_spec(r, t_min, hi) == Some(h)
                &&& h.t >= hi ==> self.hit_spec(r, t_min, hi) is None
            },
            self.hit_spec(r, t_min, t_max) is None ==> self.hit_spec(r, t_min, hi) is None,
    ;

    fn hit(&self, r: &Ray, t_min: i64, t_max: i64) -> (res: Option<HitRecord>)
        ensures
            res == self.hit_spec(*r, t_min, t_max),
    ;
}

} // verus!
