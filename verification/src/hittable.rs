//! Hit records and the closed set of shapes a ray can strike.

use vstd::prelude::*;
use crate::interval::Interval;
use crate::material::Material;
use crate::ray::Ray;
use crate::sphere::Sphere;
use crate::vec3::{Vec3, V3};

verus! {

/// Spec view of a successful intersection: location, oriented normal,
/// parameter, and which face was struck.
pub struct HitS {
    pub p: V3,
    pub n: V3,
    pub t: int,
    pub ff: bool,
}

/// The result of a successful intersection test. Created fresh on every hit
/// and never mutated afterwards by the tracer.
#[derive(Clone, Copy, Debug)]
pub struct HitRecord {
    pub point: Vec3,
    pub normal: Vec3,
    pub material: Material,
    pub t: i64,
    pub front_face: bool,
}

impl HitRecord {
    /// The integer view of the geometric fields.
    pub open spec fn s(self) -> HitS {
        HitS { p: self.point.v(), n: self.normal.v(), t: self.t as int, ff: self.front_face }
    }

    pub fn get_point(&self) -> (r: Vec3)
        ensures
            r == self.point,
    {
        self.point
    }

    pub fn get_normal(&self) -> (r: Vec3)
        ensures
            r == self.normal,
    {
        self.normal
    }

    pub fn get_t(&self) -> (r: i64)
        ensures
            r == self.t,
    {
        self.t
    }

    pub fn set_point(&mut self, p: Vec3)
        ensures
            *final(self) == (HitRecord { point: p, ..*old(self) }),
    {
        self.point = p;
    }

    pub fn set_normal(&mut self, n: Vec3)
        ensures
            *final(self) == (HitRecord { normal: n, ..*old(self) }),
    {
        self.normal = n;
    }

    pub fn set_t(&mut self, t: i64)
        ensures
            *final(self) == (HitRecord { t: t, ..*old(self) }),
    {
        self.t = t;
    }
}

/// Anything a ray can intersect; the shape set is closed, so dispatch is a
/// `match` over the variants.
#[derive(Clone, Copy, Debug)]
pub enum Hittable {
    Sphere(Sphere),
}

impl Hittable {
    /// The shape's well-formedness: bounded, nondegenerate geometry.
    pub open spec fn wf(self) -> bool {
        match self {
            Hittable::Sphere(s) => s.wf(),
        }
    }

    /// Which root, if any, the shape reports for this ray and range.
    pub open spec fn hit_sel(self, o: V3, d: V3, tmin: int, tmax: int) -> Option<int> {
        match self {
            Hittable::Sphere(s) => crate::sphere::sphere_hit_sel(s, o, d, tmin, tmax),
        }
    }

    /// The record the shape builds at parameter `t`.
    pub open spec fn hit_rec(self, o: V3, d: V3, t: int) -> HitS {
        match self {
            Hittable::Sphere(s) => crate::sphere::sphere_hit_rec(s, o, d, t),
        }
    }

    /// The shape's material.
    pub open spec fn mat(self) -> Material {
        match self {
            Hittable::Sphere(s) => s.material,
        }
    }

    /// Report the nearest intersection strictly inside `ray_t`, if any.
    pub fn hit(&self, ray: Ray, ray_t: Interval) -> (res: Option<HitRecord>)
        requires
            self.wf(),
            crate::sphere::hit_ray_wf(ray),
            -0x100_0000 <= ray_t.min <= 0x100_0000,
            -0x100_0000 <= ray_t.max <= 0x100_0000,
        ensures
            res.is_some() == self.hit_sel(
                ray.o(),
                ray.d(),
                ray_t.min as int,
                ray_t.max as int,
            ).is_some(),
            res matches Some(rec) ==> {
                &&& self.hit_sel(ray.o(), ray.d(), ray_t.min as int, ray_t.max as int) == Some(
                    rec.t as int,
                )
                &&& rec.s() == self.hit_rec(ray.o(), ray.d(), rec.t as int)
                &&& rec.material == self.mat()
                &&& ray_t.min < rec.t < ray_t.max
                &&& crate::sphere::hit_rec_wf(rec)
                &&& crate::vec3::in_r3(
                    crate::vec3::sub3(rec.point.v(), ray.o()),
                    0x10_0000_0100,
                )
                &&& crate::vec3::dot_raw(rec.normal.v(), ray.d()) <= 0
                &&& crate::vec3::dot_s(ray.d(), ray.d()) >= 1
            },
    {
        match self {
            Hittable::Sphere(s) => s.hit(ray, ray_t),
        }
    }
}

} // verus!
