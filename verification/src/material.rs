//! Materials: how light continues after striking a surface.
//!
//! The material set is closed, so `Material` is a sum type dispatched by
//! `match`. `scatter` takes the drawn randomness as an argument, which makes
//! its outcome an exact function of its inputs.

use vstd::prelude::*;
use crate::custom_function::{reflect3, refract3};
use crate::fixed::{abs_i, fxm, fxd, fx_sqrt_spec, min_i, SCALE};
use crate::hittable::HitRecord;
use crate::ray::Ray;
use crate::vec3::{
    add3, dot_raw, dot_s, in_r3, neg3, smul3, unit3, zero3, Vec3, V3,
};

verus! {

/// A color with every channel in `[0, 1]`.
pub open spec fn albedo_wf(a: V3) -> bool {
    0 <= a.x <= SCALE && 0 <= a.y <= SCALE && 0 <= a.z <= SCALE
}

/// A diffuse surface.
#[derive(Clone, Copy, Debug)]
pub struct Lambertian {
    pub albedo: Vec3,
}

impl Lambertian {
    pub fn new(color: Vec3) -> (r: Lambertian)
        requires
            albedo_wf(color.v()),
        ensures
            r.albedo == color,
    {
        Lambertian { albedo: color }
    }

    pub fn get_albedo(&self) -> (r: Vec3)
        ensures
            r == self.albedo,
    {
        self.albedo
    }
}

/// A specular surface with a fuzz perturbation.
#[derive(Clone, Copy, Debug)]
pub struct Metal {
    pub albedo: Vec3,
    pub fuzz: i64,
}

impl Metal {
    /// The fuzz factor is clamped into `[0, 1]`.
    pub fn new(v: Vec3, f: i64) -> (r: Metal)
        requires
            albedo_wf(v.v()),
        ensures
            r.albedo == v,
            f < 0 ==> r.fuzz == 0,
            0 <= f <= SCALE ==> r.fuzz == f,
            f > SCALE ==> r.fuzz == SCALE,
            0 <= r.fuzz <= SCALE,
    {
        let fc: i64 = if f < 0 {
            0
        } else if f > SCALE {
            SCALE
        } else {
            f
        };
        Metal { albedo: v, fuzz: fc }
    }

    pub fn get_albedo(&self) -> (r: Vec3)
        ensures
            r == self.albedo,
    {
        self.albedo
    }

    pub fn get_fuzz(&self) -> (r: i64)
        ensures
            r == self.fuzz,
    {
        self.fuzz
    }
}

/// A clear refractive surface.
#[derive(Clone, Copy, Debug)]
pub struct Dielectric {
    pub ior: i64,
}

/// Schlick's reflectance approximation, in fixed point.
pub open spec fn reflectance_s(cosine: int, ref_idx: int) -> int {
    let r0 = fxd(SCALE - ref_idx, SCALE + ref_idx);
    let r02 = fxm(r0, r0);
    r02 + fxm(SCALE - r02, pow5_fx(SCALE - cosine))
}

/// The fifth fixed-point power, squaring twice and multiplying once.
pub open spec fn pow5_fx(x: int) -> int {
    fxm(fxm(fxm(x, x), fxm(x, x)), x)
}

impl Dielectric {
    /// The index of refraction is at least one (vacuum) and bounded above
    /// so the refraction arithmetic stays in range.
    pub fn new(ior: i64) -> (r: Dielectric)
        requires
            SCALE <= ior <= 16 * SCALE,
        ensures
            r.ior == ior,
    {
        Dielectric { ior }
    }

    /// Schlick's approximation of reflectance at a dielectric interface.
    pub fn reflectance(cosine: i64, ref_idx: i64) -> (r: i64)
        requires
            -4 * SCALE <= cosine <= SCALE,
            0 < ref_idx <= 16 * SCALE,
        ensures
            r == reflectance_s(cosine as int, ref_idx as int),
    {
        let ghost s = SCALE as int;
        proof {
            crate::fixed::lemma_fxd_le_one(s - ref_idx, s + ref_idx);
        }
        let r0: i64 = crate::fixed::fx_div(SCALE - ref_idx, SCALE + ref_idx);
        proof {
            crate::fixed::lemma_fxm_abs(r0 as int, r0 as int, s, s);
            assert((r0 as int) * (r0 as int) >= 0) by (nonlinear_arith);
            vstd::arithmetic::div_mod::lemma_div_pos_is_pos((r0 as int) * (r0 as int), s);
        }
        let r02: i64 = crate::fixed::fx_mul(r0, r0);
        let x: i64 = SCALE - cosine;
        proof {
            crate::fixed::lemma_fxm_abs(x as int, x as int, 6 * s, 6 * s);
            crate::fixed::lemma_fxm_abs(
                fxm(x as int, x as int),
                fxm(x as int, x as int),
                36 * s,
                36 * s,
            );
            crate::fixed::lemma_fxm_abs(
                fxm(fxm(x as int, x as int), fxm(x as int, x as int)),
                x as int,
                1296 * s,
                6 * s,
            );
            crate::fixed::lemma_fxm_abs(s - r02 as int, pow5_fx(x as int), s + 1, 7776 * s + 1);
        }
        let x2: i64 = crate::fixed::fx_mul(x, x);
        let x4: i64 = crate::fixed::fx_mul(x2, x2);
        let x5: i64 = crate::fixed::fx_mul(x4, x);
        r02 + crate::fixed::fx_mul(SCALE - r02, x5)
    }
}

/// For an index of refraction in range, the reciprocal ratio `1/ior` stays
/// between one fixed-point unit and one.
proof fn lemma_ratio_range(ior: int)
    requires
        SCALE <= ior <= 16 * SCALE,
    ensures
        1 <= fxd(SCALE as int, ior) <= SCALE as int,
{
    let s = SCALE as int;
    assert(ior <= s * s) by (nonlinear_arith)
        requires
            ior <= 16 * s,
            s == 65536,
    ;
    vstd::arithmetic::div_mod::lemma_div_is_ordered(ior, s * s, ior);
    vstd::arithmetic::div_mod::lemma_div_by_self(ior);
    assert(s * s <= ior * s) by (nonlinear_arith)
        requires
            s <= ior,
            0 < s,
    ;
    assert(ior * s == ior * s);
    vstd::arithmetic::div_mod::lemma_div_multiples_vanish(s, ior);
    assert(ior * s == s * ior) by (nonlinear_arith);
    vstd::arithmetic::div_mod::lemma_div_is_ordered(s * s, ior * s, ior);
}

/// When each material absorbs: a diffuse or refractive surface always
/// scatters, a metal absorbs exactly when the fuzzed reflection points into
/// the surface.
pub proof fn lemma_scatter_absorption(
    m: Material,
    d_in: V3,
    p: V3,
    n: V3,
    ff: bool,
    rnd: ScatterRand,
)
    ensures
        m matches Material::Lambertian(l) ==> scatter_spec(m, d_in, p, n, ff, rnd).ok,
        m matches Material::Dielectric(di) ==> scatter_spec(m, d_in, p, n, ff, rnd).ok,
        m matches Material::Metal(mt) ==> (scatter_spec(m, d_in, p, n, ff, rnd).ok <==> dot_raw(
            add3(reflect3(unit3(d_in), n), smul3(rnd.unit.v(), mt.fuzz as int)),
            n,
        ) > 0),
{
}

/// The drawn randomness one scatter decision consumes: a unit direction and
/// a coin in `[0, 1)`.
#[derive(Clone, Copy, Debug)]
pub struct ScatterRand {
    pub unit: Vec3,
    pub coin: i64,
}

impl ScatterRand {
    pub open spec fn wf(self) -> bool {
        in_r3(self.unit.v(), SCALE as int) && 0 <= self.coin < SCALE
    }

    /// Draw one scatter decision's randomness from the entropy source.
    pub fn draw() -> (r: ScatterRand)
        ensures
            r.wf(),
    {
        ScatterRand {
            unit: crate::custom_function::random_unit_vector3(),
            coin: crate::custom_function::random_double(),
        }
    }
}

/// What a scatter call writes: whether the ray continues, the attenuation,
/// and the scattered ray's origin and direction.
pub struct ScatterOut {
    pub ok: bool,
    pub att: V3,
    pub o: V3,
    pub d: V3,
}

/// A surface material; a closed set of variants.
#[derive(Clone, Copy, Debug)]
pub enum Material {
    Lambertian(Lambertian),
    Metal(Metal),
    Dielectric(Dielectric),
}

/// The diffuse scatter direction: normal plus the drawn unit vector, with
/// the normal standing in when the sum degenerates to zero.
pub open spec fn lambertian_dir(n: V3, unit: V3) -> V3 {
    let d = add3(n, unit);
    if d == zero3() {
        n
    } else {
        d
    }
}

/// The exact outcome of a scatter decision, as a function of the incoming
/// direction, the struck point, the oriented normal, and the face flag.
pub open spec fn scatter_spec(
    m: Material,
    d_in: V3,
    p: V3,
    n: V3,
    ff: bool,
    rnd: ScatterRand,
) -> ScatterOut {
    match m {
        Material::Lambertian(l) => ScatterOut {
            ok: true,
            att: l.albedo.v(),
            o: p,
            d: lambertian_dir(n, rnd.unit.v()),
        },
        Material::Metal(mt) => {
            let refl = reflect3(unit3(d_in), n);
            let d = add3(refl, smul3(rnd.unit.v(), mt.fuzz as int));
            ScatterOut { ok: dot_raw(d, n) > 0, att: mt.albedo.v(), o: p, d: d }
        },
        Material::Dielectric(di) => {
            let ratio = if ff {
                fxd(SCALE as int, di.ior as int)
            } else {
                di.ior as int
            };
            let ud = unit3(d_in);
            let cos = min_i(dot_s(neg3(ud), n), SCALE as int);
            let sin = fx_sqrt_spec(abs_i(SCALE - fxm(cos, cos)));
            let must_reflect = fxm(ratio, sin) > SCALE;
            let schlick = reflectance_s(cos, ratio) > rnd.coin;
            let d = if must_reflect || schlick {
                reflect3(ud, n)
            } else {
                refract3(ud, n, ratio)
            };
            ScatterOut {
                ok: true,
                att: V3 { x: SCALE as int, y: SCALE as int, z: SCALE as int },
                o: p,
                d: d,
            }
        },
    }
}

impl Material {
    /// The material's fields are in their documented ranges.
    pub open spec fn wf(self) -> bool {
        match self {
            Material::Lambertian(l) => albedo_wf(l.albedo.v()),
            Material::Metal(m) => albedo_wf(m.albedo.v()) && 0 <= m.fuzz <= SCALE,
            Material::Dielectric(d) => SCALE <= d.ior <= 16 * SCALE,
        }
    }

    /// Decide whether light scatters, and write the attenuation and the
    /// scattered ray; `rnd` holds the randomness the decision consumes.
    pub fn scatter(
        &self,
        r_in: &Ray,
        rec: &HitRecord,
        rnd: &ScatterRand,
        attenuation: &mut Vec3,
        scattered: &mut Ray,
    ) -> (b: bool)
        requires
            self.wf(),
            rnd.wf(),
            crate::sphere::hit_rec_wf(*rec),
            in_r3(r_in.d(), 0x1000_0000),
            dot_s(r_in.d(), r_in.d()) >= 1,
        ensures
            ({
                let out = scatter_spec(
                    *self,
                    r_in.d(),
                    rec.point.v(),
                    rec.normal.v(),
                    rec.front_face,
                    *rnd,
                );
                &&& b == out.ok
                &&& final(attenuation).v() == out.att
                &&& final(scattered).o() == out.o
                &&& final(scattered).d() == out.d
                &&& final(scattered).origin == rec.point
                &&& albedo_wf(final(attenuation).v())
                &&& in_r3(final(scattered).d(), 0x200_0000)
            }),
    {
        let ghost s = SCALE as int;
        match self {
            Material::Lambertian(l) => {
                let sum: Vec3 = crate::vec3::v_add(rec.normal, rnd.unit);
                let scatter_direction: Vec3 = if crate::custom_function::near_zero(sum) {
                    rec.normal
                } else {
                    sum
                };
                *scattered = Ray::new(rec.point, scatter_direction);
                *attenuation = l.albedo;
                true
            },
            Material::Metal(m) => {
                proof {
                    crate::vec3::lemma_self_dot(r_in.d());
                    crate::fixed::lemma_div_sign(dot_raw(r_in.d(), r_in.d()));
                    crate::vec3::lemma_nonzero_of_dot(r_in.direction.v());
                }
                let ud: Vec3 = crate::custom_function::unit_vector3(r_in.direction);
                let reflected: Vec3 = crate::custom_function::reflect(ud, rec.normal);
                proof {
                    crate::fixed::lemma_fxm_abs(rnd.unit.v().x, m.fuzz as int, s, s);
                    crate::fixed::lemma_fxm_abs(rnd.unit.v().y, m.fuzz as int, s, s);
                    crate::fixed::lemma_fxm_abs(rnd.unit.v().z, m.fuzz as int, s, s);
                }
                let fuzzed: Vec3 = crate::vec3::v_add(
                    reflected,
                    crate::vec3::v_scale(rnd.unit, m.fuzz),
                );
                *scattered = Ray::new(rec.point, fuzzed);
                *attenuation = m.albedo;
                let d: i64 = crate::vec3::v_dot_raw(fuzzed, rec.normal);
                d > 0
            },
            Material::Dielectric(di) => {
                *attenuation = Vec3 { x: SCALE, y: SCALE, z: SCALE };
                proof {
                    lemma_ratio_range(di.ior as int);
                    crate::vec3::lemma_self_dot(r_in.d());
                    crate::fixed::lemma_div_sign(dot_raw(r_in.d(), r_in.d()));
                    crate::vec3::lemma_nonzero_of_dot(r_in.direction.v());
                }
                let refraction_ratio: i64 = if rec.front_face {
                    crate::fixed::fx_div(SCALE, di.ior)
                } else {
                    di.ior
                };
                let unit_direction: Vec3 = crate::custom_function::unit_vector3(r_in.direction);
                let neg_ud: Vec3 = crate::vec3::v_neg(unit_direction);
                proof {
                    crate::vec3::lemma_dot_s_abs(neg_ud.v(), rec.normal.v(), s, s);
                }
                let cos0: i64 = crate::vec3::v_dot(neg_ud, rec.normal);
                let cos_theta: i64 = if cos0 < SCALE {
                    cos0
                } else {
                    SCALE
                };
                proof {
                    crate::fixed::lemma_fxm_abs(cos_theta as int, cos_theta as int, 4 * s, 4 * s);
                }
                let c2: i64 = crate::fixed::fx_mul(cos_theta, cos_theta);
                let d1: i64 = SCALE - c2;
                let ad: i64 = if d1 < 0 {
                    -d1
                } else {
                    d1
                };
                let sin_theta: i64 = crate::fixed::fx_sqrt(ad);
                proof {
                    assert(sin_theta as int <= 0x100_0000) by (nonlinear_arith)
                        requires
                            crate::fixed::is_isqrt(sin_theta as int, (ad as int) * (SCALE as int)),
                            0 <= ad as int <= 0x1_0000_0000,
                    ;
                    crate::fixed::lemma_fxm_abs(
                        refraction_ratio as int,
                        sin_theta as int,
                        16 * s,
                        0x100_0000,
                    );
                }
                let cannot_refract: bool = crate::fixed::fx_mul(refraction_ratio, sin_theta)
                    > SCALE;
                let direction: Vec3 = if cannot_refract || Dielectric::reflectance(
                    cos_theta,
                    refraction_ratio,
                ) > rnd.coin {
                    crate::custom_function::reflect(unit_direction, rec.normal)
                } else {
                    crate::custom_function::refract(unit_direction, rec.normal, refraction_ratio)
                };
                *scattered = Ray::new(rec.point, direction);
                true
            },
        }
    }
}

} // verus!
