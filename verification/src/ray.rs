//! Rays: an origin plus a direction, parametrized by a fixed-point scalar.

use vstd::prelude::*;
use crate::vec3::{add3, in_r3, smul3, Vec3, V3};

verus! {

/// A ray `origin + direction * t`.
#[derive(Clone, Copy, Debug, PartialEq, Eq, Structural)]
pub struct Ray {
    pub origin: Vec3,
    pub direction: Vec3,
}

/// The point a ray reaches at parameter `t`.
pub open spec fn ray_at(o: V3, d: V3, t: int) -> V3 {
    add3(o, smul3(d, t))
}

impl Ray {
    /// The ray's origin, as integers.
    pub open spec fn o(self) -> V3 {
        self.origin.v()
    }

    /// The ray's direction, as integers.
    pub open spec fn d(self) -> V3 {
        self.direction.v()
    }

    pub fn new(ori: Vec3, dir: Vec3) -> (r: Ray)
        ensures
            r.origin == ori,
            r.direction == dir,
    {
        Ray { origin: ori, direction: dir }
    }

    pub fn origin(&self) -> (r: Vec3)
        ensures
            r == self.origin,
    {
        self.origin
    }

    pub fn direction(&self) -> (r: Vec3)
        ensures
            r == self.direction,
    {
        self.direction
    }

    /// The point reached at parameter `t`.
    pub fn at(&self, t: i64) -> (r: Vec3)
        requires
            in_r3(self.d(), 0x2_0000_0000),
            -0x2_0000_0000 <= t <= 0x2_0000_0000,
            in_r3(self.o(), 0x1000_0000_0000_0000),
        ensures
            r.v() == ray_at(self.o(), self.d(), t as int),
    {
        proof {
            crate::fixed::lemma_fxm_abs(self.d().x, t as int, 0x2_0000_0000, 0x2_0000_0000);
            crate::fixed::lemma_fxm_abs(self.d().y, t as int, 0x2_0000_0000, 0x2_0000_0000);
            crate::fixed::lemma_fxm_abs(self.d().z, t as int, 0x2_0000_0000, 0x2_0000_0000);
        }
        let step: Vec3 = crate::vec3::v_scale(self.direction, t);
        crate::vec3::v_add(self.origin, step)
    }
}

} // verus!
