//! A scene: an ordered collection of intersectable objects.
use crate::hittable::{HitRecord, Hittable};
use crate::ray::Ray;
use crate::vec3::vdot;
use vstd::prelude::*;

verus! {

pub struct HittableList<H> {
    pub list: Vec<H>,
}

/// `h` is the hit of some member of `objs`, and no member's hit is nearer.
pub open spec fn is_nearest_hit<H: Hittable>(
    objs: Seq<H>,
    r: Ray,
    t_min: i64,
    t_max: i64,
    h: HitRecord,
) -> bool {
    &&& exists|k: int| 0 <= k < objs.len() && #[trigger] objs[k].hit_spec(r, t_min, t_max) == Some(h)
    &&& forall|j: int|
        0 <= j < objs.len() && (#[trigger] objs[j].hit_spec(r, t_min, t_max)) is Some ==> h.t
            <= objs[j].hit_spec(r, t_min, t_max)->0.t
}

/// No member of `objs` is hit.
pub open spec fn all_miss<H: Hittable>(objs: Seq<H>, r: Ray, t_min: i64, t_max: i64) -> bool {
    forall|j: int| 0 <= j < objs.len() ==> (#[trigger] objs[j].hit_spec(r, t_min, t_max)) is None
}

/// The result of scanning `objs` in order, each member tried over the
/// interval up to the nearest hit found so far.
pub open spec fn scan<H: Hittable>(objs: Seq<H>, r: Ray, t_min: i64, t_max: i64) -> Option<
    HitRecord,
>
    decreases objs.len(),
{
    if objs.len() == 0 {
        None
    } else {
        let prev = scan(objs.drop_last(), r, t_min, t_max);
        let bound = match prev {
            Some(h) => h.t,
            None => t_max,
        };
        match objs.last().hit_spec(r, t_min, bound) {
            Some(h) => Some(h),
            None => prev,
        }
    }
}

/// The scan obeys the laws of [`Hittable`].
pub proof fn lemma_scan_laws<H: Hittable>(objs: Seq<H>, r: Ray, t_min: i64, t_max: i64, hi: i64)
    requires
        hi <= t_max,
    ensures
        scan(objs, r, t_min, t_max) is Some ==> {
            let h = scan(objs, r, t_min, t_max)->0;
            &&& t_min < h.t < t_max
            &&& vdot(r.dir, h.normal) <= 0
            &&& h.t < hi ==> scan(objs, r, t_min, hi) == Some(h)
            &&& h.t >= hi ==> scan(objs, r, t_min, hi) is None
        },
        scan(objs, r, t_min, t_max) is None ==> scan(objs, r, t_min, hi) is None,
    decreases objs.len(),
{
    if objs.len() > 0 {
        let prefix = objs.drop_last();
        lemma_scan_laws(prefix, r, t_min, t_max, hi);
        let p = scan(prefix, r, t_min, t_max);
        let p2 = scan(prefix, r, t_min, hi);
        let b = match p {
            Some(h) => h.t,
            None => t_max,
        };
        let b2 = match p2 {
            Some(h) => h.t,
            None => hi,
        };
        assert(b2 <= b);
        objs.last().lemma_hit_laws(r, t_min, b, b2);
    }
}

impl<H: Hittable> HittableList<H> {
    pub fn new(list: Vec<H>) -> (r: HittableList<H>)
        ensures
            r.list@ == list@,
    {
        HittableList { list }
    }

}

impl<H: Hittable> Hittable for HittableList<H> {
    open spec fn hit_spec(&self, r: Ray, t_min: i64, t_max: i64) -> Option<HitRecord> {
        scan(self.list@, r, t_min, t_max)
    }

    proof fn lemma_hit_laws(&self, r: Ray, t_min: i64, t_max: i64, hi: i64) {
        lemma_scan_laws(self.list@, r, t_min, t_max, hi);
    }

    /// The nearest hit over all members, scanning with a shrinking bound.
    fn hit(&self, r: &Ray, t_min: i64, t_max: i64) -> (res: Option<HitRecord>)
        ensures
            res is None <==> all_miss(self.list@, *r, t_min, t_max),
            res is Some ==> is_nearest_hit(self.list@, *r, t_min, t_max, res->0),
            res is Some ==> t_min < res->0.t < t_max,
            res is Some ==> vdot(r.dir, res->0.normal) <= 0,
    {
        let mut hit_anything: Option<HitRecord> = None;
        let mut closest_so_far: i64 = t_max;
        let n = self.list.len();
        let mut i: usize = 0;
        while i < n
            invariant
                n == self.list@.len(),
                i <= n,
                closest_so_far == (if hit_anything is Some {
                    hit_anything->0.t
                } else {
                    t_max
                }),
                closest_so_far <= t_max,
                hit_anything == scan(self.list@.take(i as int), *r, t_min, t_max),
                hit_anything is Some ==> {
                    &&& exists|k: int|
                        0 <= k < i && #[trigger] self.list@[k].hit_spec(*r, t_min, t_max)
                            == hit_anything
                    &&& t_min < hit_anything->0.t < t_max
                    &&& vdot(r.dir, hit_anything->0.normal) <= 0
                },
                forall|j: int|
                    0 <= j < i && (#[trigger] self.list@[j].hit_spec(*r, t_min, t_max)) is Some
                        ==> hit_anything is Some && closest_so_far <= self.list@[j].hit_spec(
                        *r,
                        t_min,
                        t_max,
                    )->0.t,
            decreases n - i,
        {
            let object = &self.list[i];
            proof {
                assert(self.list@.take(i + 1).drop_last() =~= self.list@.take(i as int));
                assert(self.list@.take(i + 1).last() == self.list@[i as int]);
                object.lemma_hit_laws(*r, t_min, t_max, closest_so_far);
            }
            let found = object.hit(r, t_min, closest_so_far);
            if let Some(rec) = found {
                closest_so_far = rec.t;
                hit_anything = Some(rec);
                proof {
                    assert(self.list@[i as int].hit_spec(*r, t_min, t_max) == hit_anything);
                }
            }
            i = i + 1;
        }
        proof {
            assert(self.list@.take(n as int) =~= self.list@);
        }
        hit_anything
    }
}

} // verus!
