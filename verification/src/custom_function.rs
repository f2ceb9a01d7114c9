//! Vector utilities: lengths, normalization, reflection, refraction, and the
//! random sampling helpers that draw from the entropy wrapper.
//!
//! Every random helper states what holds of every possible outcome; the
//! geometric helpers have exact contracts over the integer views.

use vstd::prelude::*;
use vstd::arithmetic::div_mod::lemma_div_pos_is_pos;
use crate::fixed::{
    abs_i, fx_sqrt, fx_sqrt_spec, fxm, is_isqrt, lemma_div_abs, lemma_div_sign,
    lemma_fxm_abs, lemma_fxm_frac_below, lemma_isqrt_is, min_i, HALF_SCALE, SCALE,
};
use crate::ray::Ray;
use crate::vec3::{
    add3, dot_raw, dot_s, in_r3, len3, lemma_dot_raw_abs, lemma_dot_raw_neg_left,
    lemma_dot_raw_sym, lemma_self_dot, lemma_unit3_in_scale, neg3, smul3, sub3, unit3, zero3,
    Vec3, V3,
};

verus! {

/// The circle constant in fixed-point units (`pi * SCALE`, rounded).
pub const PI: i64 = 205887;

/// The fixed-point squared length of a vector.
pub fn length_squared(v: Vec3) -> (r: i64)
    requires
        in_r3(v.v(), 0x40_0000_0000),
    ensures
        r == dot_s(v.v(), v.v()),
        0 <= r,
{
    proof {
        lemma_dot_raw_abs(v.v(), v.v(), 0x40_0000_0000, 0x40_0000_0000);
        lemma_self_dot(v.v());
        lemma_div_abs(dot_raw(v.v(), v.v()), SCALE as int, 3 * (0x40_0000_0000int * 0x40_0000_0000));
        lemma_div_pos_is_pos(dot_raw(v.v(), v.v()), SCALE as int);
    }
    crate::vec3::v_dot(v, v)
}

/// The fixed-point length of a vector: the integer square root of the raw
/// self-dot (`sqrt(|v|^2)` carried out at full precision).
pub fn length(v: Vec3) -> (r: i64)
    requires
        in_r3(v.v(), 0x1000_0000_0000_0000),
    ensures
        r == len3(v.v()),
        is_isqrt(r as int, dot_raw(v.v(), v.v())),
        0 <= r,
{
    proof {
        let bb = 0x1000_0000_0000_0000;
        lemma_dot_raw_abs(v.v(), v.v(), bb, bb);
        lemma_fxm_abs(v.v().x, v.v().x, bb, bb);
        lemma_fxm_abs(v.v().y, v.v().y, bb, bb);
        lemma_fxm_abs(v.v().z, v.v().z, bb, bb);
        lemma_self_dot(v.v());
    }
    let p: i128 = (v.x as i128) * (v.x as i128) + (v.y as i128) * (v.y as i128) + (v.z
        as i128) * (v.z as i128);
    let q: u128 = crate::fixed::isqrt_u128(p as u128);
    proof {
        lemma_isqrt_is(q as int, p as int);
        assert(q as int <= 0x2000_0000_0000_0000) by (nonlinear_arith)
            requires
                is_isqrt(q as int, p as int),
                p as int <= 3 * (0x1000_0000_0000_0000 * 0x1000_0000_0000_0000),
        ;
    }
    q as i64
}

/// The unit vector in the direction of a nonzero vector.
pub fn unit_vector3(v: Vec3) -> (r: Vec3)
    requires
        v.v() != zero3(),
        in_r3(v.v(), 0x1000_0000_0000_0000),
    ensures
        r.v() == unit3(v.v()),
        in_r3(r.v(), SCALE as int),
{
    let len: i64 = length(v);
    proof {
        lemma_unit3_in_scale(v.v());
        crate::fixed::lemma_isqrt_unique(len as int, len3(v.v()), dot_raw(v.v(), v.v()));
    }
    let x: i128 = crate::fixed::div_floor((v.x as i128) * (SCALE as i128), len as i128);
    let y: i128 = crate::fixed::div_floor((v.y as i128) * (SCALE as i128), len as i128);
    let z: i128 = crate::fixed::div_floor((v.z as i128) * (SCALE as i128), len as i128);
    Vec3 { x: x as i64, y: y as i64, z: z as i64 }
}

/// Whether the vector is degenerately small. The customary threshold of
/// `1e-8` lies far below one fixed-point unit, so here it means exactly
/// zero.
pub fn near_zero(v: Vec3) -> (r: bool)
    ensures
        r == (v.v() == zero3()),
{
    v.x == 0 && v.y == 0 && v.z == 0
}

/// The reflection of `v` about the normal `n`.
pub open spec fn reflect3(v: V3, n: V3) -> V3 {
    sub3(v, smul3(n, 2 * dot_s(v, n)))
}

/// Reflect a unit-scale vector about a unit-scale normal.
pub fn reflect(v: Vec3, n: Vec3) -> (r: Vec3)
    requires
        in_r3(v.v(), SCALE as int),
        in_r3(n.v(), SCALE as int),
    ensures
        r.v() == reflect3(v.v(), n.v()),
        in_r3(r.v(), 8 * SCALE as int),
{
    let ghost s = SCALE as int;
    proof {
        lemma_dot_raw_abs(v.v(), n.v(), s, s);
        lemma_div_abs(dot_raw(v.v(), n.v()), s, 3 * (s * s));
        lemma_fxm_abs(n.v().x, 2 * dot_s(v.v(), n.v()), s, 7 * s);
        lemma_fxm_abs(n.v().y, 2 * dot_s(v.v(), n.v()), s, 7 * s);
        lemma_fxm_abs(n.v().z, 2 * dot_s(v.v(), n.v()), s, 7 * s);
    }
    let d: i64 = crate::vec3::v_dot(v, n);
    let sc: Vec3 = crate::vec3::v_scale(n, 2 * d);
    crate::vec3::v_sub(v, sc)
}

/// The refraction of the unit direction `uv` at a surface with unit normal
/// `n` and refraction ratio `ratio`, by the perpendicular/parallel
/// decomposition.
pub open spec fn refract3(uv: V3, n: V3, ratio: int) -> V3 {
    let cos = min_i(dot_s(neg3(uv), n), SCALE as int);
    let perp = smul3(add3(uv, smul3(n, cos)), ratio);
    let par = smul3(n, -fx_sqrt_spec(abs_i(SCALE - dot_s(perp, perp))));
    add3(perp, par)
}

/// Refract a unit-scale direction about a unit-scale normal.
pub fn refract(uv: Vec3, n: Vec3, etai_over_etat: i64) -> (r: Vec3)
    requires
        in_r3(uv.v(), SCALE as int),
        in_r3(n.v(), SCALE as int),
        0 < etai_over_etat <= 16 * SCALE,
    ensures
        r.v() == refract3(uv.v(), n.v(), etai_over_etat as int),
        in_r3(r.v(), 0x200_0000),
{
    let ghost s = SCALE as int;
    let neg_uv: Vec3 = crate::vec3::v_neg(uv);
    proof {
        lemma_dot_raw_abs(neg_uv.v(), n.v(), s, s);
        lemma_div_abs(dot_raw(neg_uv.v(), n.v()), s, 3 * (s * s));
    }
    let cos0: i64 = crate::vec3::v_dot(neg_uv, n);
    let cos: i64 = if cos0 < SCALE {
        cos0
    } else {
        SCALE
    };
    proof {
        lemma_fxm_abs(n.v().x, cos as int, s, 4 * s);
        lemma_fxm_abs(n.v().y, cos as int, s, 4 * s);
        lemma_fxm_abs(n.v().z, cos as int, s, 4 * s);
    }
    let inner: Vec3 = crate::vec3::v_add(uv, crate::vec3::v_scale(n, cos));
    proof {
        lemma_fxm_abs(inner.v().x, etai_over_etat as int, 6 * s, 16 * s);
        lemma_fxm_abs(inner.v().y, etai_over_etat as int, 6 * s, 16 * s);
        lemma_fxm_abs(inner.v().z, etai_over_etat as int, 6 * s, 16 * s);
        assert((6 * s * (16 * s)) / s == 96 * s);
    }
    let perp: Vec3 = crate::vec3::v_scale(inner, etai_over_etat);
    proof {
        assert(in_r3(perp.v(), 97 * s));
        lemma_dot_raw_abs(perp.v(), perp.v(), 97 * s, 97 * s);
        vstd::arithmetic::div_mod::lemma_div_is_ordered(
            dot_raw(perp.v(), perp.v()),
            3 * ((97 * s) * (97 * s)),
            s,
        );
        assert((3 * ((97 * s) * (97 * s))) / s == 28227 * s);
    }
    let ls: i64 = length_squared(perp);
    let diff: i64 = SCALE - ls;
    let ad: i64 = if diff < 0 {
        -diff
    } else {
        diff
    };
    let par_len: i64 = fx_sqrt(ad);
    proof {
        assert(par_len as int <= 0x100_0000) by (nonlinear_arith)
            requires
                is_isqrt(par_len as int, (ad as int) * (SCALE as int)),
                0 <= ad as int <= 0x8000_0000,
        ;
        lemma_fxm_abs(n.v().x, -(par_len as int), s, 0x100_0000);
        lemma_fxm_abs(n.v().y, -(par_len as int), s, 0x100_0000);
        lemma_fxm_abs(n.v().z, -(par_len as int), s, 0x100_0000);
    }
    let par: Vec3 = crate::vec3::v_scale(n, -par_len);
    crate::vec3::v_add(perp, par)
}

/// A uniformly drawn scalar in `[0, 1)`.
pub fn random_double() -> (r: i64)
    ensures
        0 <= r < SCALE,
{
    (crate::rng::random_u32() % 65536u32) as i64
}

/// A uniformly drawn scalar in `[min, max)` (or `min` itself when the range
/// is empty).
pub fn random_double_range(min: i64, max: i64) -> (r: i64)
    requires
        min <= max,
        -0x2000_0000_0000 <= min,
        max <= 0x2000_0000_0000,
    ensures
        min <= r <= max,
        min < max ==> r < max,
{
    let rd: i64 = random_double();
    proof {
        lemma_fxm_frac_below(max - min, rd as int);
    }
    min + crate::fixed::fx_mul(max - min, rd)
}

/// A vector with three uniformly drawn components in `[0, 1)`.
pub fn random_vector3() -> (r: Vec3)
    ensures
        in_r3(r.v(), SCALE as int),
        0 <= r.v().x < SCALE,
        0 <= r.v().y < SCALE,
        0 <= r.v().z < SCALE,
{
    Vec3 { x: random_double(), y: random_double(), z: random_double() }
}

/// A vector with three uniformly drawn components in `[min, max)`.
pub fn random_vector3_range(min: i64, max: i64) -> (r: Vec3)
    requires
        min <= max,
        -0x2000_0000_0000 <= min,
        max <= 0x2000_0000_0000,
    ensures
        min <= r.v().x <= max,
        min <= r.v().y <= max,
        min <= r.v().z <= max,
{
    Vec3 {
        x: random_double_range(min, max),
        y: random_double_range(min, max),
        z: random_double_range(min, max),
    }
}

/// A drawn vector strictly inside the unit ball and at least half a unit
/// long, so that normalizing it is not dominated by rounding. Rejection
/// sampling is given a bounded number of tries; if every draw misses, a
/// fixed interior point stands in.
pub fn random_in_unit_sphere() -> (r: Vec3)
    ensures
        in_r3(r.v(), SCALE as int),
        16384 <= dot_s(r.v(), r.v()) < SCALE as int,
        r.v() != zero3(),
{
    let mut tries: u32 = 0;
    while tries < 64
        decreases 64 - tries,
    {
        let p: Vec3 = random_vector3_range(-SCALE, SCALE);
        let ls: i64 = length_squared(p);
        if 16384 <= ls && ls < SCALE {
            proof {
                lemma_dot_floor_at_least(dot_raw(p.v(), p.v()), 16384);
                crate::vec3::lemma_nonzero_of_dot(p.v());
            }
            return p;
        }
        tries = tries + 1;
    }
    proof {
        assert((49152int * 49152) / (SCALE as int) == 36864);
    }
    Vec3 { x: 49152, y: 0, z: 0 }
}

/// A scaled dot product at least `k` means the raw dot product is at least
/// `k` whole units.
proof fn lemma_dot_floor_at_least(raw: int, k: int)
    requires
        raw / (SCALE as int) >= k,
        0 <= k,
    ensures
        raw >= k * (SCALE as int),
{
    let s = SCALE as int;
    vstd::arithmetic::div_mod::lemma_fundamental_div_mod(raw, s);
    vstd::arithmetic::div_mod::lemma_mod_bound(raw, s);
    vstd::arithmetic::mul::lemma_mul_inequality(k, raw / s, s);
    assert(s * (raw / s) == (raw / s) * s) by (nonlinear_arith);
}

/// A drawn vector on the unit disk in the `z = 0` plane. Bounded rejection
/// sampling, with a fixed interior point as the last resort.
pub fn random_in_unit_disk() -> (r: Vec3)
    ensures
        in_r3(r.v(), SCALE as int),
        dot_s(r.v(), r.v()) < SCALE as int,
        r.v().z == 0,
{
    let mut tries: u32 = 0;
    while tries < 64
        decreases 64 - tries,
    {
        let p = Vec3 {
            x: random_double_range(-SCALE, SCALE),
            y: random_double_range(-SCALE, SCALE),
            z: 0,
        };
        let ls: i64 = length_squared(p);
        if ls < SCALE {
            return p;
        }
        tries = tries + 1;
    }
    proof {
        assert((16384int * 16384) / (SCALE as int) == 4096);
    }
    Vec3 { x: 16384, y: 0, z: 0 }
}

/// A drawn unit vector: its fixed-point length is within six units of one.
pub fn random_unit_vector3() -> (r: Vec3)
    ensures
        in_r3(r.v(), SCALE as int),
        SCALE - 6 <= len3(r.v()) <= SCALE + 6,
{
    let p: Vec3 = random_in_unit_sphere();
    proof {
        lemma_dot_floor_at_least(dot_raw(p.v(), p.v()), 16384);
        crate::vec3::lemma_unit3_len(p.v());
    }
    unit_vector3(p)
}

/// A drawn unit vector on the side of the surface that `normal` points to:
/// the sign is decided on the exact raw dot product, so the result never
/// points into the surface.
pub fn random_on_hemisphere(normal: Vec3) -> (r: Vec3)
    requires
        in_r3(normal.v(), 0x40_0000_0000),
    ensures
        in_r3(r.v(), SCALE as int),
        dot_raw(r.v(), normal.v()) >= 0,
        SCALE - 6 <= len3(r.v()) <= SCALE + 6,
{
    let on_unit_sphere: Vec3 = random_unit_vector3();
    proof {
        lemma_dot_raw_neg_left(on_unit_sphere.v(), normal.v());
        crate::vec3::lemma_self_dot_neg(on_unit_sphere.v());
    }
    let d: i128 = crate::vec3::v_dot_wide(&on_unit_sphere, &normal);
    if d > 0 {
        on_unit_sphere
    } else {
        crate::vec3::v_neg(on_unit_sphere)
    }
}

/// Gamma correction: the square root of a linear channel value.
pub fn linear_to_gamma(linear_component: i64) -> (r: i64)
    requires
        0 <= linear_component,
    ensures
        r == fx_sqrt_spec(linear_component as int),
        0 <= r,
{
    fx_sqrt(linear_component)
}

/// Degrees to radians, in fixed-point units.
pub fn degrees_to_radians(degrees: i64) -> (r: i64)
    requires
        -0x100_0000_0000 <= degrees <= 0x100_0000_0000,
    ensures
        r == fxm(degrees as int, PI as int) / 180,
{
    proof {
        lemma_fxm_abs(degrees as int, PI as int, 0x100_0000_0000, PI as int);
        lemma_div_abs(fxm(degrees as int, PI as int), 180, 0x100_0000_0000 * (PI as int));
    }
    let p: i64 = crate::fixed::fx_mul(degrees, PI);
    crate::fixed::div_floor(p as i128, 180) as i64
}

/// Orient an outward normal against the incoming ray: the stored normal
/// always opposes the ray's direction.
pub fn set_face_normal(r: Ray, outward_normal: Vec3) -> (res: (Vec3, bool))
    requires
        in_r3(r.d(), 0x40_0000_0000),
        in_r3(outward_normal.v(), 0x40_0000_0000),
    ensures
        res.1 == (dot_raw(r.d(), outward_normal.v()) < 0),
        res.1 ==> res.0 == outward_normal,
        !res.1 ==> res.0.v() == neg3(outward_normal.v()),
        dot_raw(res.0.v(), r.d()) <= 0,
{
    proof {
        lemma_dot_raw_abs(r.d(), outward_normal.v(), 0x40_0000_0000, 0x40_0000_0000);
        lemma_div_abs(
            dot_raw(r.d(), outward_normal.v()),
            SCALE as int,
            3 * (0x40_0000_0000int * 0x40_0000_0000),
        );
        lemma_div_sign(dot_raw(r.d(), outward_normal.v()));
        lemma_dot_raw_sym(r.d(), outward_normal.v());
        lemma_dot_raw_neg_left(outward_normal.v(), r.d());
    }
    let d: i64 = crate::vec3::v_dot(r.direction, outward_normal);
    let front_face: bool = d < 0;
    if front_face {
        (outward_normal, front_face)
    } else {
        (crate::vec3::v_neg(outward_normal), front_face)
    }
}

} // verus!
