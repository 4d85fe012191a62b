//! Spheres, intersected in closed form.
use crate::fixed::{
    add_spec, div_spec, fx_add, fx_div, fx_mul, fx_neg, fx_sqrt, fx_sub, lemma_div_monotone, lemma_sqrt_nonneg,
    mul_spec, neg_spec, sqrt_spec, sub_spec,
};
use crate::hittable::{facing_normal, lemma_facing_normal, HitRecord, Hittable};
use crate::material::{valid_material, Material};
use crate::ray::{ray_at, Ray};
use crate::vec3::{lemma_len_sq_nonneg, vdiv, vdot, vlen_sq, vsub, Point3, Vec3};
use vstd::prelude::*;

verus! {

#[derive(Clone, Copy, Debug, PartialEq, Eq, Structural)]
pub struct Sphere {
    pub center: Point3,
    pub radius: i64,
    pub material: Material,
}

/// `half_b` of the quadratic `a t^2 + 2 half_b t + c` for `r` and `s`.
pub open spec fn half_b(s: Sphere, r: Ray) -> int {
    vdot(vsub(r.orig, s.center), r.dir)
}

/// `a` of the quadratic: the squared length of the direction.
pub open spec fn quad_a(r: Ray) -> int {
    vlen_sq(r.dir)
}

pub open spec fn quad_c(s: Sphere, r: Ray) -> int {
    sub_spec(vlen_sq(vsub(r.orig, s.center)), mul_spec(s.radius as int, s.radius as int))
}

pub open spec fn discriminant(s: Sphere, r: Ray) -> int {
    sub_spec(mul_spec(half_b(s, r), half_b(s, r)), mul_spec(quad_a(r), quad_c(s, r)))
}

/// The nearer root `(-half_b - sqrt(discriminant)) / a`.
pub open spec fn near_root(s: Sphere, r: Ray) -> int {
    div_spec(sub_spec(neg_spec(half_b(s, r)), sqrt_spec(discriminant(s, r))), quad_a(r))
}

/// The farther root `(-half_b + sqrt(discriminant)) / a`.
pub open spec fn far_root(s: Sphere, r: Ray) -> int {
    div_spec(add_spec(neg_spec(half_b(s, r)), sqrt_spec(discriminant(s, r))), quad_a(r))
}

pub open spec fn in_open(t: int, lo: int, hi: int) -> bool {
    lo < t < hi
}

/// The record of `r` meeting `s` at parameter `t`.
pub open spec fn record_at(s: Sphere, r: Ray, t: int) -> HitRecord {
    let p = ray_at(r, t);
    let outward = vdiv(vsub(p, s.center), s.radius as int);
    HitRecord {
        t: t as i64,
        p,
        normal: facing_normal(r.dir, outward),
        material: s.material,
        front_face: vdot(r.dir, outward) < 0,
    }
}

/// The nearest root strictly inside `(t_min, t_max)`, when the
/// discriminant is positive.
pub open spec fn sphere_hit(s: Sphere, r: Ray, t_min: int, t_max: int) -> Option<HitRecord> {
    if discriminant(s, r) > 0 {
        if in_open(near_root(s, r), t_min, t_max) {
            Some(record_at(s, r, near_root(s, r)))
        } else if in_open(far_root(s, r), t_min, t_max) {
            Some(record_at(s, r, far_root(s, r)))
        } else {
            None
        }
    } else {
        None
    }
}

proof fn lemma_roots_ordered(s: Sphere, r: Ray)
    ensures
        near_root(s, r) <= far_root(s, r),
{
    lemma_len_sq_nonneg(r.dir);
    lemma_sqrt_nonneg(discriminant(s, r));
    lemma_div_monotone(
        sub_spec(neg_spec(half_b(s, r)), sqrt_spec(discriminant(s, r))),
        add_spec(neg_spec(half_b(s, r)), sqrt_spec(discriminant(s, r))),
        quad_a(r),
    );
}

impl Sphere {
    /// A sphere of positive radius with a valid material, or `None`.
    pub fn sphere(center: Point3, radius: i64, material: Material) -> (r: Option<Sphere>)
        ensures
            r is Some <==> (radius > 0 && valid_material(material)),
            r is Some ==> r->0 == (Sphere { center, radius, material }),
    {
        if radius > 0 && material.is_valid() {
            Some(Sphere { center, radius, material })
        } else {
            None
        }
    }

    fn record(&self, r: &Ray, t: i64) -> (h: HitRecord)
        ensures
            h == record_at(*self, *r, t as int),
    {
        let p = r.point_at_parameter(t);
        let outward_normal: Vec3 = p.minus(self.center).div_by(self.radius);
        let mut rec = HitRecord { t, p, normal: outward_normal, material: self.material, front_face: false };
        rec.set_face_normal(r, &outward_normal);
        rec
    }
}

impl Hittable for Sphere {
    open spec fn hit_spec(&self, r: Ray, t_min: i64, t_max: i64) -> Option<HitRecord> {
        sphere_hit(*self, r, t_min as int, t_max as int)
    }

    proof fn lemma_hit_laws(&self, r: Ray, t_min: i64, t_max: i64, hi: i64) {
        lemma_roots_ordered(*self, r);
        let p_near = ray_at(r, near_root(*self, r));
        let p_far = ray_at(r, far_root(*self, r));
        lemma_facing_normal(r.dir, vdiv(vsub(p_near, self.center), self.radius as int));
        lemma_facing_normal(r.dir, vdiv(vsub(p_far, self.center), self.radius as int));
    }

    fn hit(&self, r: &Ray, t_min: i64, t_max: i64) -> (res: Option<HitRecord>)
        ensures
            res is None <==> (discriminant(*self, *r) <= 0 || (!in_open(
                near_root(*self, *r),
                t_min as int,
                t_max as int,
            ) && !in_open(far_root(*self, *r), t_min as int, t_max as int))),
            res is Some ==> vdot(r.dir, res->0.normal) <= 0,
    {
        proof {
            self.lemma_hit_laws(*r, t_min, t_max, t_max);
        }
        let oc: Vec3 = r.origin().minus(self.center);
        let a: i64 = r.direction().squared_length();
        let half_b: i64 = Vec3::dot(&oc, &r.direction());
        let c: i64 = fx_sub(oc.squared_length(), fx_mul(self.radius, self.radius));
        let discriminant: i64 = fx_sub(fx_mul(half_b, half_b), fx_mul(a, c));
        if discriminant > 0 {
            let root: i64 = fx_sqrt(discriminant);
            let near: i64 = fx_div(fx_sub(fx_neg(half_b), root), a);
            if near < t_max && near > t_min {
                return Some(self.record(r, near));
            }
            let far: i64 = fx_div(fx_add(fx_neg(half_b), root), a);
            if far < t_max && far > t_min {
                return Some(self.record(r, far));
            }
        }
        None
    }
}

} // verus!
