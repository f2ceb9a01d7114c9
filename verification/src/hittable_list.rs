//! A composite of hittables, scanned for the closest hit.
//!
//! The scan narrows the search range to the closest parameter found so far,
//! with strict comparison, so the first of two exactly-equal hits wins.

use vstd::prelude::*;
use crate::hittable::{HitRecord, Hittable};
use crate::interval::Interval;
use crate::ray::Ray;
use crate::sphere::{hit_ray_wf, hit_rec_wf};
use crate::vec3::dot_raw;

verus! {

/// The scan's outcome from position `i` onward, starting from the narrowed
/// upper bound `cur_max` and the index `cur_idx` of the best hit so far
/// (`-1` when none). Returns the final `(t, index)` pair.
pub open spec fn list_sel(
    objs: Seq<Hittable>,
    o: crate::vec3::V3,
    d: crate::vec3::V3,
    tmin: int,
    i: int,
    cur_max: int,
    cur_idx: int,
) -> (int, int)
    decreases objs.len() - i,
{
    if i < 0 || i >= objs.len() {
        (cur_max, cur_idx)
    } else {
        match objs[i].hit_sel(o, d, tmin, cur_max) {
            Some(t) => list_sel(objs, o, d, tmin, i + 1, t, i),
            None => list_sel(objs, o, d, tmin, i + 1, cur_max, cur_idx),
        }
    }
}

/// An empty scene reports no hit, for every ray and every search range.
pub proof fn lemma_empty_list_misses(
    o: crate::vec3::V3,
    d: crate::vec3::V3,
    tmin: int,
    tmax: int,
)
    ensures
        list_sel(Seq::<Hittable>::empty(), o, d, tmin, 0, tmax, -1) == (tmax, -1int),
{
}

/// An ordered collection of hittables.
#[derive(Clone, Debug)]
pub struct HittableList {
    pub objects: Vec<Hittable>,
}

impl HittableList {
    /// Every member is well-formed.
    pub open spec fn wf(self) -> bool {
        forall|j: int| 0 <= j < self.objects@.len() ==> (#[trigger] self.objects@[j]).wf()
    }

    pub fn new() -> (r: HittableList)
        ensures
            r.objects@.len() == 0,
            r.wf(),
    {
        HittableList { objects: Vec::new() }
    }

    pub fn add(&mut self, object: Hittable)
        ensures
            final(self).objects@ == old(self).objects@.push(object),
    {
        self.objects.push(object);
    }

    pub fn clear(&mut self)
        ensures
            final(self).objects@.len() == 0,
    {
        self.objects.clear();
    }

    /// Scan every member, narrowing the valid range to the closest hit so
    /// far; an empty list reports no hit for any ray and range.
    pub fn hit(&self, ray: Ray, ray_t: Interval) -> (res: Option<HitRecord>)
        requires
            self.wf(),
            hit_ray_wf(ray),
            -0x100_0000 <= ray_t.min <= 0x100_0000,
            -0x100_0000 <= ray_t.max <= 0x100_0000,
        ensures
            ({
                let (ft, fi) = list_sel(
                    self.objects@,
                    ray.o(),
                    ray.d(),
                    ray_t.min as int,
                    0,
                    ray_t.max as int,
                    -1,
                );
                &&& res.is_some() == (fi >= 0)
                &&& res matches Some(rec) ==> {
                    &&& 0 <= fi < self.objects@.len()
                    &&& rec.t as int == ft
                    &&& rec.s() == self.objects@[fi].hit_rec(ray.o(), ray.d(), rec.t as int)
                    &&& crate::vec3::in_r3(
                        crate::vec3::sub3(rec.point.v(), ray.o()),
                        0x10_0000_0100,
                    )
                    &&& rec.material == self.objects@[fi].mat()
                    &&& ray_t.min < rec.t < ray_t.max
                    &&& hit_rec_wf(rec)
                    &&& dot_raw(rec.normal.v(), ray.d()) <= 0
                    &&& crate::vec3::dot_s(ray.d(), ray.d()) >= 1
                }
            }),
            self.objects@.len() == 0 ==> res is None,
    {
        let ghost tmin = ray_t.min as int;
        let ghost tmax = ray_t.max as int;
        let mut closest_so_far: i64 = ray_t.max;
        let mut hit_anything: Option<HitRecord> = None;
        let ghost mut gi: int = -1;
        let n: usize = self.objects.len();
        let mut idx: usize = 0;
        while idx < n
            invariant
                n == self.objects@.len(),
                0 <= idx <= n,
                self.wf(),
                hit_ray_wf(ray),
                -0x100_0000 <= ray_t.min <= 0x100_0000,
                -0x100_0000 <= ray_t.max <= 0x100_0000,
                tmin == ray_t.min as int,
                tmax == ray_t.max as int,
                -0x100_0000 <= closest_so_far <= 0x100_0000,
                closest_so_far <= ray_t.max,
                gi >= 0 ==> ray_t.min < closest_so_far,
                list_sel(self.objects@, ray.o(), ray.d(), tmin, 0, tmax, -1) == list_sel(
                    self.objects@,
                    ray.o(),
                    ray.d(),
                    tmin,
                    idx as int,
                    closest_so_far as int,
                    gi,
                ),
                hit_anything.is_some() == (gi >= 0),
                gi < idx,
                gi == -1 ==> closest_so_far == ray_t.max,
                hit_anything matches Some(rec) ==> 0 <= gi < self.objects@.len(),
                hit_anything matches Some(rec) ==> rec.t == closest_so_far,
                hit_anything matches Some(rec) ==> rec.s() == self.objects@[gi].hit_rec(
                    ray.o(),
                    ray.d(),
                    rec.t as int,
                ),
                hit_anything matches Some(rec) ==> crate::vec3::in_r3(
                    crate::vec3::sub3(rec.point.v(), ray.o()),
                    0x10_0000_0100,
                ),
                hit_anything matches Some(rec) ==> rec.material == self.objects@[gi].mat(),
                hit_anything matches Some(rec) ==> ray_t.min < rec.t < ray_t.max,
                hit_anything matches Some(rec) ==> hit_rec_wf(rec),
                hit_anything matches Some(rec) ==> dot_raw(rec.normal.v(), ray.d()) <= 0,
                hit_anything matches Some(rec) ==> crate::vec3::dot_s(ray.d(), ray.d()) >= 1,
            decreases n - idx,
        {
            let object: &Hittable = &self.objects[idx];
            let sub: Interval = Interval::new(ray_t.min, closest_so_far);
            let attempt: Option<HitRecord> = object.hit(ray, sub);
            if let Some(h) = attempt {
                closest_so_far = h.t;
                hit_anything = Some(h);
                proof {
                    gi = idx as int;
                }
            }
            idx = idx + 1;
        }
        hit_anything
    }
}

} // verus!
