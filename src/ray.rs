//! Parametric rays `origin + t * direction`.
use crate::vec3::{vadd, vscale, Point3, Vec3};
use vstd::prelude::*;

verus! {

#[derive(Clone, Copy, Debug, PartialEq, Eq, Structural)]
pub struct Ray {
    pub orig: Point3,
    pub dir: Vec3,
}

/// The point at parameter `t` along `r`.
pub open spec fn ray_at(r: Ray, t: int) -> Point3 {
    vadd(r.orig, vscale(r.dir, t))
}

impl Ray {
    pub fn ray(origin: Point3, direction: Vec3) -> (r: Ray)
        ensures
            r.orig == origin,
            r.dir == direction,
    {
        Ray { orig: origin, dir: direction }
    }

    pub fn origin(&self) -> (r: Point3)
        ensures
            r == self.orig,
    {
        self.orig
    }

    pub fn direction(&self) -> (r: Vec3)
        ensures
            r == self.dir,
    {
        self.dir
    }

    pub fn point_at_parameter(&self, t: i64) -> (r: Point3)
        ensures
            r == ray_at(*self, t as int),
    {
        self.orig.plus(self.dir.scale(t))
    }
}

} // verus!
