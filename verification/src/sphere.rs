//! Ray-sphere intersection: the half-discriminant quadratic solved exactly
//! in fixed point.

use vstd::prelude::*;
use crate::fixed::{
    fxm, fxd, fx_sqrt_spec, is_isqrt, lemma_div_abs, lemma_isqrt_is, SCALE,
};
use crate::hittable::{HitRecord, HitS};
use crate::interval::Interval;
use crate::material::Material;
use crate::ray::{ray_at, Ray};
use crate::vec3::{
    dot_raw, dot_s, in_r3, neg3, sub3, unit3, zero3, Vec3, V3,
};

verus! {

/// Bound on scene coordinates: sphere centers and radii stay within `2^26`
/// fixed-point units (1024 world units).
pub const COORD_LIM: i64 = 0x400_0000;

/// Rays handed to intersection tests: origins within `2^39` + margin and
/// directions within `2^28` fixed-point units.
pub open spec fn hit_ray_wf(ray: Ray) -> bool {
    in_r3(ray.o(), 0xa0_0000_0000) && in_r3(ray.d(), 0x1000_0000)
}

/// Bounds that every returned hit record satisfies.
pub open spec fn hit_rec_wf(rec: HitRecord) -> bool {
    in_r3(rec.normal.v(), SCALE as int) && in_r3(rec.point.v(), 0xb1_0000_0000)
        && -0x100_0000 <= rec.t && rec.t <= 0x100_0000
}

/// A sphere. A negative radius flips the outward normal inward, modeling a
/// hollow shell; a zero radius is excluded.
#[derive(Clone, Copy, Debug)]
pub struct Sphere {
    pub center: Vec3,
    pub radius: i64,
    pub material: Material,
}

/// The origin-to-center offset `oc`.
pub open spec fn hit_oc(s: Sphere, o: V3) -> V3 {
    sub3(o, s.center.v())
}

/// The quadratic's leading coefficient `a = |d|^2`.
pub open spec fn hit_qa(d: V3) -> int {
    dot_s(d, d)
}

/// The quadratic's half coefficient `b = oc . d`.
pub open spec fn hit_qb(s: Sphere, o: V3, d: V3) -> int {
    dot_s(hit_oc(s, o), d)
}

/// The quadratic's constant `c = |oc|^2 - r^2`.
pub open spec fn hit_qc(s: Sphere, o: V3) -> int {
    dot_s(hit_oc(s, o), hit_oc(s, o)) - fxm(s.radius as int, s.radius as int)
}

/// The half-form discriminant `b^2 - a*c`.
pub open spec fn hit_disc(s: Sphere, o: V3, d: V3) -> int {
    fxm(hit_qb(s, o, d), hit_qb(s, o, d)) - fxm(hit_qa(d), hit_qc(s, o))
}

/// The discriminant's fixed-point square root.
pub open spec fn hit_sqrtd(s: Sphere, o: V3, d: V3) -> int {
    fx_sqrt_spec(hit_disc(s, o, d))
}

/// The smaller quadratic root.
pub open spec fn hit_root1(s: Sphere, o: V3, d: V3) -> int {
    fxd(-hit_qb(s, o, d) - hit_sqrtd(s, o, d), hit_qa(d))
}

/// The larger quadratic root.
pub open spec fn hit_root2(s: Sphere, o: V3, d: V3) -> int {
    fxd(-hit_qb(s, o, d) + hit_sqrtd(s, o, d), hit_qa(d))
}

/// Which root, if any, the sphere reports: none for a degenerate direction
/// or a negative discriminant; else the smaller root if it lies strictly
/// inside the range, else the larger, else none.
pub open spec fn sphere_hit_sel(s: Sphere, o: V3, d: V3, tmin: int, tmax: int) -> Option<int> {
    if hit_qa(d) < 1 {
        None
    } else if hit_disc(s, o, d) < 0 {
        None
    } else if tmin < hit_root1(s, o, d) < tmax {
        Some(hit_root1(s, o, d))
    } else if tmin < hit_root2(s, o, d) < tmax {
        Some(hit_root2(s, o, d))
    } else {
        None
    }
}

/// Division of an offset component by the (possibly negative) radius.
pub open spec fn div_rad(c: int, rad: int) -> int {
    if rad > 0 {
        (c * (SCALE as int)) / rad
    } else {
        -((c * (SCALE as int)) / (-rad))
    }
}

/// The unnormalized outward direction `(p(t) - center) / radius`.
pub open spec fn hit_outward(s: Sphere, o: V3, d: V3, t: int) -> V3 {
    let pc = sub3(ray_at(o, d, t), s.center.v());
    V3 {
        x: div_rad(pc.x, s.radius as int),
        y: div_rad(pc.y, s.radius as int),
        z: div_rad(pc.z, s.radius as int),
    }
}

/// The unit outward normal; zero in the degenerate case where the hit point
/// rounds onto the center.
pub open spec fn hit_normal_u(s: Sphere, o: V3, d: V3, t: int) -> V3 {
    if hit_outward(s, o, d, t) == zero3() {
        zero3()
    } else {
        unit3(hit_outward(s, o, d, t))
    }
}

/// The record built for a hit at parameter `t`: the reached point, the
/// normal oriented against the ray, and which face was struck.
pub open spec fn sphere_hit_rec(s: Sphere, o: V3, d: V3, t: int) -> HitS {
    let nu = hit_normal_u(s, o, d, t);
    let ff = dot_raw(d, nu) < 0;
    HitS {
        p: ray_at(o, d, t),
        n: if ff {
            nu
        } else {
            neg3(nu)
        },
        t: t,
        ff: ff,
    }
}

impl Sphere {
    /// Bounded, nondegenerate geometry.
    pub open spec fn wf(self) -> bool {
        in_r3(self.center.v(), COORD_LIM as int) && self.radius != 0 && -COORD_LIM
            <= self.radius && self.radius <= COORD_LIM && self.material.wf()
    }

    pub fn new(p: Vec3, r: i64, material: Material) -> (s: Sphere)
        requires
            in_r3(p.v(), COORD_LIM as int),
            r != 0,
            -COORD_LIM <= r <= COORD_LIM,
            material.wf(),
        ensures
            s.center == p,
            s.radius == r,
            s.material == material,
            s.wf(),
    {
        Sphere { center: p, radius: r, material }
    }

    /// Report the nearest intersection strictly inside `ray_t`, if any.
    /// `None` comes exactly when the discriminant is negative, the
    /// direction is degenerate, or neither root lies inside the range.
    pub fn hit(&self, ray: Ray, ray_t: Interval) -> (res: Option<HitRecord>)
        requires
            self.wf(),
            hit_ray_wf(ray),
            -0x100_0000 <= ray_t.min <= 0x100_0000,
            -0x100_0000 <= ray_t.max <= 0x100_0000,
        ensures
            res.is_some() == sphere_hit_sel(
                *self,
                ray.o(),
                ray.d(),
                ray_t.min as int,
                ray_t.max as int,
            ).is_some(),
            res matches Some(rec) ==> {
                &&& sphere_hit_sel(*self, ray.o(), ray.d(), ray_t.min as int, ray_t.max as int)
                    == Some(rec.t as int)
                &&& rec.s() == sphere_hit_rec(*self, ray.o(), ray.d(), rec.t as int)
                &&& rec.material == self.material
                &&& ray_t.min < rec.t < ray_t.max
                &&& hit_rec_wf(rec)
                &&& in_r3(sub3(rec.point.v(), ray.o()), 0x10_0000_0100)
                &&& dot_raw(rec.normal.v(), ray.d()) <= 0
            },
    {
        let ghost s = SCALE as int;
        let oc: Vec3 = crate::vec3::v_sub(ray.origin, self.center);
        proof {
            crate::vec3::lemma_dot_s_abs(ray.d(), ray.d(), 0x1000_0000, 0x1000_0000);
            crate::vec3::lemma_dot_s_abs(oc.v(), ray.d(), 0xa1_0000_0000, 0x1000_0000);
            crate::vec3::lemma_dot_s_abs(oc.v(), oc.v(), 0xa1_0000_0000, 0xa1_0000_0000);
            crate::fixed::lemma_fxm_abs(
                self.radius as int,
                self.radius as int,
                COORD_LIM as int,
                COORD_LIM as int,
            );
        }
        let a: i128 = crate::fixed::div_floor(
            crate::vec3::v_dot_wide(&ray.direction, &ray.direction),
            65536,
        );
        if a < 1 {
            return None;
        }
        let b: i128 = crate::fixed::div_floor(crate::vec3::v_dot_wide(&oc, &ray.direction), 65536);
        let cq: i128 = crate::fixed::div_floor(crate::vec3::v_dot_wide(&oc, &oc), 65536) - (
        crate::fixed::fx_mul(self.radius, self.radius) as i128);
        proof {
            crate::fixed::lemma_fxm_abs(
                b as int,
                b as int,
                0x80_0000_0000_0000,
                0x80_0000_0000_0000,
            );
            crate::fixed::lemma_fxm_abs(
                a as int,
                cq as int,
                0x8_0000_0000_0000,
                0x2_0000_0000_0000_0000,
            );
            assert(b as int * (b as int) >= 0) by (nonlinear_arith);
        }
        let t1: i128 = crate::fixed::div_floor(b * b, 65536);
        let t2: i128 = crate::fixed::div_floor(a * cq, 65536);
        proof {
            vstd::arithmetic::div_mod::lemma_div_pos_is_pos(b as int * (b as int), s);
            vstd::arithmetic::div_mod::lemma_div_is_ordered(
                b as int * (b as int),
                0x10_0000_0000_0000_0000_0000_0000_0000,
                s,
            );
            vstd::arithmetic::div_mod::lemma_div_is_ordered(
                a as int * (cq as int),
                0x10_0000_0000_0000_0000_0000_0000_0000,
                s,
            );
            vstd::arithmetic::div_mod::lemma_div_is_ordered(
                -0x10_0000_0000_0000_0000_0000_0000_0000,
                a as int * (cq as int),
                s,
            );
            crate::fixed::lemma_div_neg_bound(0x10_0000_0000_0000_0000_0000_0000_0000, s);
        }
        let disc: i128 = t1 - t2;
        if disc < 0 {
            return None;
        }
        let sq: u128 = crate::fixed::isqrt_u128((disc as u128) * 65536);
        proof {
            lemma_isqrt_is(sq as int, disc as int * s);
            assert(disc as int * s <= 0x400_0000_0000_0000_0000_0000_0000_0000) by {
                vstd::arithmetic::mul::lemma_mul_upper_bound(
                    disc as int,
                    0x40_0000_0000_0000_0000_0000_0000,
                    s,
                    0x1_0000,
                );
            }
            assert(sq as int <= 0x1_0000_0000_0000_0000) by (nonlinear_arith)
                requires
                    is_isqrt(sq as int, disc as int * s),
                    0 <= disc as int * s <= 0x400_0000_0000_0000_0000_0000_0000_0000,
            ;
        }
        let sqi: i128 = sq as i128;
        let root1: i128 = crate::fixed::div_floor((-b - sqi) * 65536, a);
        let mut root: i128 = root1;
        if !((ray_t.min as i128) < root && root < (ray_t.max as i128)) {
            let root2: i128 = crate::fixed::div_floor((-b + sqi) * 65536, a);
            root = root2;
            if !((ray_t.min as i128) < root && root < (ray_t.max as i128)) {
                return None;
            }
        }
        let t_hit: i64 = root as i64;
        let point: Vec3 = ray.at(t_hit);
        proof {
            crate::fixed::lemma_fxm_abs(ray.d().x, t_hit as int, 0x1000_0000, 0x100_0000);
            crate::fixed::lemma_fxm_abs(ray.d().y, t_hit as int, 0x1000_0000, 0x100_0000);
            crate::fixed::lemma_fxm_abs(ray.d().z, t_hit as int, 0x1000_0000, 0x100_0000);
        }
        let pc: Vec3 = crate::vec3::v_sub(point, self.center);
        let outward: Vec3 = Vec3 {
            x: div_by_radius(pc.x, self.radius),
            y: div_by_radius(pc.y, self.radius),
            z: div_by_radius(pc.z, self.radius),
        };
        let nu: Vec3 = if crate::custom_function::near_zero(outward) {
            outward
        } else {
            crate::custom_function::unit_vector3(outward)
        };
        let (normal, front_face): (Vec3, bool) = crate::custom_function::set_face_normal(ray, nu);
        Some(
            HitRecord {
                point,
                normal,
                material: self.material,
                t: t_hit,
                front_face,
            },
        )
    }
}

/// Divide an offset component by the signed radius, routing the sign so the
/// divisor handed to the machine is positive.
fn div_by_radius(c: i64, rad: i64) -> (r: i64)
    requires
        rad != 0,
        -COORD_LIM <= rad <= COORD_LIM,
        -0xc0_0000_0000 <= c <= 0xc0_0000_0000,
    ensures
        r == div_rad(c as int, rad as int),
        -0xc0_0000_0000_0000 <= r <= 0xc0_0000_0000_0000,
{
    proof {
        assert(-0xc0_0000_0000_0000 <= c as int * (SCALE as int) <= 0xc0_0000_0000_0000)
            by (nonlinear_arith)
            requires
                -0xc0_0000_0000 <= c as int <= 0xc0_0000_0000,
        ;
        if rad > 0 {
            lemma_div_abs(c as int * (SCALE as int), rad as int, 0xc0_0000_0000_0000);
        } else {
            lemma_div_abs(c as int * (SCALE as int), -(rad as int), 0xc0_0000_0000_0000);
        }
    }
    if rad > 0 {
        crate::fixed::div_floor((c as i128) * (SCALE as i128), rad as i128) as i64
    } else {
        (-crate::fixed::div_floor((c as i128) * (SCALE as i128), (-rad) as i128)) as i64
    }
}

} // verus!
