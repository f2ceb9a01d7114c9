//! The camera: viewport geometry, jittered ray generation with a defocus
//! lens, and the recursive color integrator.
//!
//! Everything that consumes randomness takes the drawn values as arguments
//! (`SampleRand`), so `render_with_samples` and `ray_color` are exact
//! functions of their inputs; `render` draws fresh randomness and feeds it
//! in.

use vstd::prelude::*;
use crate::custom_function::{near_zero, unit_vector3};
use crate::fixed::{
    fxm, fxd, fx_mul, fx_sqrt_spec, lemma_div_abs, lemma_fxm_abs, lemma_fxm_exact_mul,
    lemma_fxm_scale_id, lemma_fxm_unit_range, lemma_scaled_delta, HALF_SCALE, SCALE,
};
use crate::hittable_list::{list_sel, HittableList};
use crate::interval::Interval;
use crate::material::ScatterRand;
use crate::ray::Ray;
use crate::vec3::{
    add3, dot_s, in_r3, neg3, smul3, sub3, unit3, zero3, Color4, Vec3, V3, V4,
};

verus! {

/// Monte-Carlo rays averaged per pixel.
pub const SAMPLES_PER_PIXEL: u32 = 16;

/// Bounce budget of the integrator.
pub const MAX_DEPTH: u32 = 8;

/// Lower bound of the traced range: skips self-intersections at a ray's
/// origin (about `0.001`).
pub const T_EPS: i64 = 66;

/// Upper bound of the traced range: the farthest distance a ray is followed.
pub const T_MAX: i64 = 0x100_0000;

/// The lens aperture angle, ten degrees in fixed units.
pub const DEFOCUS_ANGLE: i64 = 655360;

/// `tan` of half the aperture angle, in fixed units.
pub const TAN_HALF_DEFOCUS: i64 = 5734;

/// Distance of the focus plane (`3.4`).
pub const FOCUS_DIST: i64 = 222822;

/// Sky gradient endpoint, green channel (`0.7`).
pub const SKY_G: i64 = 45875;

/// Black with full alpha.
pub open spec fn black4() -> V4 {
    V4 { x: 0, y: 0, z: 0, w: SCALE as int }
}

/// A color channel triple in `[0, 1]` with alpha exactly one.
pub open spec fn color4_wf(c: V4) -> bool {
    0 <= c.x <= SCALE && 0 <= c.y <= SCALE && 0 <= c.z <= SCALE && c.w == SCALE
}

/// The sky gradient: white blended toward pale blue by the upward
/// component of the unit direction. A zero direction yields black.
pub open spec fn sky4(d: V3) -> V4 {
    if d == zero3() {
        black4()
    } else {
        let ud = unit3(d);
        let aa = fxm(HALF_SCALE as int, ud.y + SCALE);
        V4 {
            x: fxm(SCALE - aa, SCALE as int) + fxm(aa, HALF_SCALE as int),
            y: fxm(SCALE - aa, SCALE as int) + fxm(aa, SKY_G as int),
            z: fxm(SCALE - aa, SCALE as int) + fxm(aa, SCALE as int),
            w: fxm(SCALE - aa, SCALE as int) + fxm(aa, SCALE as int),
        }
    }
}

/// How far a ray origin may drift from the camera after the bounces still
/// owed at `depth`: each bounce moves the origin by at most the traced
/// range times the direction bound.
pub open spec fn org_lim(depth: int) -> int {
    0x1_0000_0000 + (MAX_DEPTH - depth) * 0x10_0000_0100
}

/// The color a ray gathers: black once the bounce budget is spent;
/// otherwise the scattered continuation attenuated by the struck material,
/// or the sky on a miss. `rands[idx]` is the randomness of this bounce.
pub open spec fn ray_color_spec(
    o: V3,
    d: V3,
    depth: int,
    objs: Seq<crate::hittable::Hittable>,
    rands: Seq<ScatterRand>,
    idx: int,
) -> V4
    decreases depth,
{
    if depth <= 0 {
        black4()
    } else {
        let sel = list_sel(objs, o, d, T_EPS as int, 0, T_MAX as int, -1);
        if sel.1 >= 0 {
            let hs = objs[sel.1].hit_rec(o, d, sel.0);
            let out = crate::material::scatter_spec(
                objs[sel.1].mat(),
                d,
                hs.p,
                hs.n,
                hs.ff,
                rands[idx],
            );
            if out.ok {
                let child = ray_color_spec(out.o, out.d, depth - 1, objs, rands, idx + 1);
                V4 {
                    x: fxm(child.x, out.att.x),
                    y: fxm(child.y, out.att.y),
                    z: fxm(child.z, out.att.z),
                    w: child.w,
                }
            } else {
                black4()
            }
        } else {
            sky4(d)
        }
    }
}

/// An exhausted bounce budget yields exactly opaque black, whatever the
/// ray, scene, or randomness.
pub proof fn lemma_ray_color_depth_zero(
    o: V3,
    d: V3,
    objs: Seq<crate::hittable::Hittable>,
    rands: Seq<ScatterRand>,
    idx: int,
)
    ensures
        ray_color_spec(o, d, 0, objs, rands, idx) == black4(),
{
}

/// The randomness one Monte-Carlo sample consumes: the pixel jitter, the
/// lens-disk sample, and one scatter decision per possible bounce.
#[derive(Clone, Debug)]
pub struct SampleRand {
    pub jx: i64,
    pub jy: i64,
    pub disk: Vec3,
    pub bounce: Vec<ScatterRand>,
}

impl SampleRand {
    pub open spec fn wf(self) -> bool {
        &&& -HALF_SCALE <= self.jx < HALF_SCALE
        &&& -HALF_SCALE <= self.jy < HALF_SCALE
        &&& in_r3(self.disk.v(), SCALE as int)
        &&& self.disk.v().z == 0
        &&& self.bounce@.len() == MAX_DEPTH
        &&& forall|j: int| 0 <= j < self.bounce@.len() ==> (#[trigger] self.bounce@[j]).wf()
    }

    /// Draw one sample's randomness from the entropy source.
    pub fn draw() -> (r: SampleRand)
        ensures
            r.wf(),
    {
        let jx: i64 = -HALF_SCALE + crate::custom_function::random_double();
        let jy: i64 = -HALF_SCALE + crate::custom_function::random_double();
        let disk: Vec3 = crate::custom_function::random_in_unit_disk();
        let mut bounce: Vec<ScatterRand> = Vec::new();
        let mut i: u32 = 0;
        while i < MAX_DEPTH
            invariant
                i <= MAX_DEPTH,
                bounce@.len() == i,
                forall|j: int| 0 <= j < bounce@.len() ==> (#[trigger] bounce@[j]).wf(),
            decreases MAX_DEPTH - i,
        {
            bounce.push(ScatterRand::draw());
            i = i + 1;
        }
        SampleRand { jx, jy, disk, bounce }
    }
}

/// The sky gradient's blend factor and channels stay within `[0, 1]`, and
/// its alpha is exactly one.
proof fn lemma_sky_channel_bounds(uy: int)
    requires
        -(SCALE as int) <= uy <= SCALE as int,
    ensures
        ({
            let aa = fxm(HALF_SCALE as int, uy + SCALE);
            &&& 0 <= aa <= SCALE as int
            &&& fxm(SCALE - aa, SCALE as int) == SCALE - aa
            &&& fxm(aa, SCALE as int) == aa
            &&& 0 <= fxm(aa, HALF_SCALE as int) <= aa
            &&& 0 <= fxm(aa, SKY_G as int) <= aa
        }),
{
    let s = SCALE as int;
    let h = HALF_SCALE as int;
    vstd::arithmetic::mul::lemma_mul_nonnegative(h, uy + s);
    vstd::arithmetic::mul::lemma_mul_upper_bound(h, h, uy + s, 2 * s);
    vstd::arithmetic::div_mod::lemma_div_pos_is_pos(h * (uy + s), s);
    vstd::arithmetic::div_mod::lemma_div_is_ordered(h * (uy + s), h * (2 * s), s);
    assert(h * (2 * s) == s * s) by (nonlinear_arith)
        requires
            h == 32768,
            s == 65536,
    ;
    vstd::arithmetic::div_mod::lemma_div_multiples_vanish(s, s);
    let aa = fxm(h, uy + s);
    lemma_fxm_scale_id(s - aa);
    lemma_fxm_scale_id(aa);
    crate::fixed::lemma_fxm_frac_below(aa, h);
    crate::fixed::lemma_fxm_frac_below(aa, SKY_G as int);
}

/// Componentwise halving.
pub open spec fn half3(a: V3) -> V3 {
    V3 { x: a.x / 2, y: a.y / 2, z: a.z / 2 }
}

/// Componentwise color sum.
pub open spec fn add4(a: V4, b: V4) -> V4 {
    V4 { x: a.x + b.x, y: a.y + b.y, z: a.z + b.z, w: a.w + b.w }
}

/// A channel clamped into `[0, 1]`.
pub open spec fn clamp01(x: int) -> int {
    if x < 0 {
        0
    } else if x > SCALE {
        SCALE as int
    } else {
        x
    }
}

/// Rendering the same pixel from the same drawn randomness twice yields
/// the same color: the result is a function of the inputs alone.
pub proof fn lemma_render_deterministic(
    a: Color4,
    b: Color4,
    cam: Camera,
    w: int,
    h: int,
    u: int,
    v: int,
    objs: Seq<crate::hittable::Hittable>,
    samples: Seq<SampleRand>,
)
    requires
        a.v() == render_spec(cam, w, h, u, v, objs, samples),
        b.v() == render_spec(cam, w, h, u, v, objs, samples),
    ensures
        a == b,
{
}

/// A perspective camera with a thin-lens defocus model.
#[derive(Clone, Copy, Debug)]
pub struct Camera {
    pub origin: Vec3,
    pub direction: Vec3,
    pub aspect_ratio: i64,
    pub width: u32,
    pub height: u32,
    pub fov: i64,
    pub defocus_angle: i64,
    pub viewport_height: i64,
    pub focus_dist: i64,
    pub u: Vec3,
    pub v: Vec3,
    pub w: Vec3,
    pub defocus_disk_u: Vec3,
    pub defocus_disk_v: Vec3,
}

/// The world-up direction.
pub open spec fn up3() -> V3 {
    V3 { x: 0, y: SCALE as int, z: 0 }
}

/// The camera's backward basis vector.
pub open spec fn cam_w(ori: Vec3, dir: Vec3) -> V3 {
    unit3(sub3(ori.v(), dir.v()))
}

/// The un-normalized rightward cross product.
pub open spec fn cam_cross_up(ori: Vec3, dir: Vec3) -> V3 {
    crate::vec3::cross3(up3(), cam_w(ori, dir))
}

/// The camera's rightward basis vector.
pub open spec fn cam_u(ori: Vec3, dir: Vec3) -> V3 {
    unit3(cam_cross_up(ori, dir))
}

/// The camera's downward-screen basis vector.
pub open spec fn cam_v(ori: Vec3, dir: Vec3) -> V3 {
    crate::vec3::cross3(cam_w(ori, dir), cam_u(ori, dir))
}

/// The viewport's width: its height scaled by the image's aspect ratio.
pub open spec fn vp_width(cam: Camera, w: int, h: int) -> int {
    fxm(cam.viewport_height as int, fxd(w * SCALE, h * SCALE))
}

/// The viewport's horizontal span.
pub open spec fn vp_u(cam: Camera, w: int, h: int) -> V3 {
    smul3(cam.u.v(), vp_width(cam, w, h))
}

/// The viewport's vertical span (screen-down).
pub open spec fn vp_v(cam: Camera) -> V3 {
    smul3(neg3(cam.v.v()), cam.viewport_height as int)
}

/// The per-pixel horizontal step.
pub open spec fn delta_u(cam: Camera, w: int, h: int) -> V3 {
    let vu = vp_u(cam, w, h);
    V3 { x: vu.x / w, y: vu.y / w, z: vu.z / w }
}

/// The per-pixel vertical step.
pub open spec fn delta_v(cam: Camera, w: int, h: int) -> V3 {
    let vv = vp_v(cam);
    V3 { x: vv.x / h, y: vv.y / h, z: vv.z / h }
}

/// The center of the upper-left pixel.
pub open spec fn pixel00(cam: Camera, w: int, h: int) -> V3 {
    let ul = sub3(
        sub3(
            sub3(cam.origin.v(), smul3(cam.w.v(), cam.focus_dist as int)),
            half3(vp_u(cam, w, h)),
        ),
        half3(vp_v(cam)),
    );
    add3(ul, smul3(add3(delta_u(cam, w, h), delta_v(cam, w, h)), HALF_SCALE as int))
}

/// Where a sample's ray starts: the camera origin, or a point on the lens
/// disk when the aperture is open.
pub open spec fn ray_o_spec(cam: Camera, disk: V3) -> V3 {
    if cam.defocus_angle <= 0 {
        cam.origin.v()
    } else {
        add3(
            cam.origin.v(),
            add3(smul3(cam.defocus_disk_u.v(), disk.x), smul3(cam.defocus_disk_v.v(), disk.y)),
        )
    }
}

/// The sample's ray direction: from the lens point to the jittered pixel
/// position.
pub open spec fn ray_d_spec(
    cam: Camera,
    w: int,
    h: int,
    u: int,
    v: int,
    jx: int,
    jy: int,
    disk: V3,
) -> V3 {
    let du = delta_u(cam, w, h);
    let dv = delta_v(cam, w, h);
    let center = add3(add3(pixel00(cam, w, h), smul3(du, u * SCALE)), smul3(dv, v * SCALE));
    let sample = add3(center, add3(smul3(du, jx), smul3(dv, jy)));
    sub3(sample, ray_o_spec(cam, disk))
}

/// The color one sample gathers.
pub open spec fn sample_color(
    cam: Camera,
    w: int,
    h: int,
    u: int,
    v: int,
    objs: Seq<crate::hittable::Hittable>,
    smp: SampleRand,
) -> V4 {
    ray_color_spec(
        ray_o_spec(cam, smp.disk.v()),
        ray_d_spec(cam, w, h, u, v, smp.jx as int, smp.jy as int, smp.disk.v()),
        MAX_DEPTH as int,
        objs,
        smp.bounce@,
        0,
    )
}

/// The first `i` samples' colors, accumulated onto black with full alpha.
pub open spec fn sum_to(
    cam: Camera,
    w: int,
    h: int,
    u: int,
    v: int,
    objs: Seq<crate::hittable::Hittable>,
    samples: Seq<SampleRand>,
    i: int,
) -> V4
    decreases i,
{
    if i <= 0 {
        V4 { x: 0, y: 0, z: 0, w: SCALE as int }
    } else {
        add4(
            sum_to(cam, w, h, u, v, objs, samples, i - 1),
            sample_color(cam, w, h, u, v, objs, samples[i - 1]),
        )
    }
}

/// The rendered pixel: the samples' mean, gamma-corrected and clamped.
pub open spec fn render_spec(
    cam: Camera,
    w: int,
    h: int,
    u: int,
    v: int,
    objs: Seq<crate::hittable::Hittable>,
    samples: Seq<SampleRand>,
) -> V4 {
    let total = sum_to(cam, w, h, u, v, objs, samples, samples.len() as int);
    let n = SAMPLES_PER_PIXEL as int;
    V4 {
        x: clamp01(fx_sqrt_spec(total.x / n)),
        y: clamp01(fx_sqrt_spec(total.y / n)),
        z: clamp01(fx_sqrt_spec(total.z / n)),
        w: clamp01(total.w / n),
    }
}

impl Camera {
    /// The bounds every constructed camera satisfies.
    pub open spec fn wf(self) -> bool {
        &&& in_r3(self.origin.v(), 0x400_0000)
        &&& in_r3(self.u.v(), 4 * SCALE as int)
        &&& in_r3(self.v.v(), 4 * SCALE as int)
        &&& in_r3(self.w.v(), 4 * SCALE as int)
        &&& in_r3(self.defocus_disk_u.v(), 4 * SCALE as int)
        &&& in_r3(self.defocus_disk_v.v(), 4 * SCALE as int)
        &&& 0 < self.viewport_height <= 4 * SCALE
        &&& 0 < self.focus_dist <= 4 * SCALE
    }

    /// Build a camera. `tan_half_fov` is `tan` of half the vertical field
    /// of view, in fixed units, supplied by the caller since the tangent
    /// itself is not computed here. The view direction must differ from the
    /// position, and must not be parallel to the world-up axis.
    pub fn new(
        ori: Vec3,
        dir: Vec3,
        ar: i64,
        w: u32,
        h: u32,
        fov: i64,
        tan_half_fov: i64,
    ) -> (cam: Camera)
        requires
            in_r3(ori.v(), 0x400_0000),
            in_r3(dir.v(), 0x400_0000),
            ori.v() != dir.v(),
            cam_cross_up(ori, dir) != zero3(),
            0 < tan_half_fov <= HALF_SCALE,
            1 <= w <= 4096,
            1 <= h <= 4096,
            0 < ar <= 16 * SCALE,
        ensures
            cam.origin == ori,
            cam.direction == dir,
            cam.aspect_ratio == ar,
            cam.width == w,
            cam.height == h,
            cam.fov == fov,
            cam.defocus_angle == DEFOCUS_ANGLE,
            cam.focus_dist == FOCUS_DIST,
            cam.viewport_height == fxm(2 * tan_half_fov, FOCUS_DIST as int),
            cam.w.v() == cam_w(ori, dir),
            cam.u.v() == cam_u(ori, dir),
            cam.v.v() == cam_v(ori, dir),
            cam.defocus_disk_u.v() == smul3(cam_u(ori, dir), fxm(FOCUS_DIST as int, TAN_HALF_DEFOCUS as int)),
            cam.defocus_disk_v.v() == smul3(cam_v(ori, dir), fxm(FOCUS_DIST as int, TAN_HALF_DEFOCUS as int)),
            cam.wf(),
    {
        proof {
            lemma_fxm_abs(2 * tan_half_fov, FOCUS_DIST as int, SCALE as int, FOCUS_DIST as int);
            vstd::arithmetic::mul::lemma_mul_inequality(2, 2 * tan_half_fov, FOCUS_DIST as int);
            vstd::arithmetic::div_mod::lemma_div_is_ordered(
                2 * FOCUS_DIST,
                2 * tan_half_fov * FOCUS_DIST,
                SCALE as int,
            );
        }
        let viewport_height: i64 = fx_mul(2 * tan_half_fov, FOCUS_DIST);
        let diff: Vec3 = crate::vec3::v_sub(ori, dir);
        proof {
            if diff.v() == zero3() {
                assert(ori.v() == dir.v());
            }
        }
        let screen_w: Vec3 = unit_vector3(diff);
        let up: Vec3 = Vec3 { x: 0, y: SCALE, z: 0 };
        let cr: Vec3 = crate::vec3::v_cross(up, screen_w);
        let screen_u: Vec3 = unit_vector3(cr);
        let screen_v: Vec3 = crate::vec3::v_cross(screen_w, screen_u);
        proof {
            lemma_fxm_abs(FOCUS_DIST as int, TAN_HALF_DEFOCUS as int, FOCUS_DIST as int, TAN_HALF_DEFOCUS as int);
        }
        let defocus_radius: i64 = fx_mul(FOCUS_DIST, TAN_HALF_DEFOCUS);
        proof {
            let dr = fxm(FOCUS_DIST as int, TAN_HALF_DEFOCUS as int);
            lemma_fxm_abs(screen_u.v().x, dr, SCALE as int, SCALE as int);
            lemma_fxm_abs(screen_u.v().y, dr, SCALE as int, SCALE as int);
            lemma_fxm_abs(screen_u.v().z, dr, SCALE as int, SCALE as int);
            lemma_fxm_abs(screen_v.v().x, dr, 3 * SCALE as int, SCALE as int);
            lemma_fxm_abs(screen_v.v().y, dr, 3 * SCALE as int, SCALE as int);
            lemma_fxm_abs(screen_v.v().z, dr, 3 * SCALE as int, SCALE as int);
        }
        let defocus_disk_u: Vec3 = crate::vec3::v_scale(screen_u, defocus_radius);
        let defocus_disk_v: Vec3 = crate::vec3::v_scale(screen_v, defocus_radius);
        Camera {
            origin: ori,
            direction: dir,
            aspect_ratio: ar,
            width: w,
            height: h,
            fov,
            defocus_angle: DEFOCUS_ANGLE,
            viewport_height,
            focus_dist: FOCUS_DIST,
            u: screen_u,
            v: screen_v,
            w: screen_w,
            defocus_disk_u,
            defocus_disk_v,
        }
    }

    /// The color gathered along `r` with `depth` bounces left, consuming
    /// the scatter randomness `rands[idx..idx+depth]`.
    pub fn ray_color(
        r: Ray,
        depth: u32,
        world: &HittableList,
        rands: &Vec<ScatterRand>,
        idx: usize,
    ) -> (res: Color4)
        requires
            world.wf(),
            in_r3(r.d(), 0x1000_0000),
            in_r3(r.o(), org_lim(depth as int)),
            depth <= MAX_DEPTH,
            idx + depth <= rands@.len(),
            forall|j: int| 0 <= j < rands@.len() ==> (#[trigger] rands@[j]).wf(),
        ensures
            res.v() == ray_color_spec(
                r.o(),
                r.d(),
                depth as int,
                world.objects@,
                rands@,
                idx as int,
            ),
            color4_wf(res.v()),
        decreases depth,
    {
        if depth == 0 {
            return Color4 { x: 0, y: 0, z: 0, w: SCALE };
        }
        proof {
            vstd::arithmetic::mul::lemma_mul_inequality(
                MAX_DEPTH - depth as int,
                8,
                0x10_0000_0100,
            );
        }
        let ray_t: Interval = Interval::new(T_EPS, T_MAX);
        let attempt = world.hit(r, ray_t);
        if let Some(hit) = attempt {
            let rlen: usize = rands.len();
            proof {
                assert(idx + 1 <= rlen);
            }
            let rnd: ScatterRand = rands[idx];
            let mut attenuation: Vec3 = Vec3 { x: 0, y: 0, z: 0 };
            let mut scattered: Ray = Ray {
                origin: Vec3 { x: 0, y: 0, z: 0 },
                direction: Vec3 { x: 0, y: 0, z: 0 },
            };
            if hit.material.scatter(&r, &hit, &rnd, &mut attenuation, &mut scattered) {
                proof {
                    assert(org_lim(depth - 1) == org_lim(depth as int) + 0x10_0000_0100) by {
                        assert((MAX_DEPTH - (depth - 1)) * 0x10_0000_0100 == (MAX_DEPTH
                            - depth as int) * 0x10_0000_0100 + 0x10_0000_0100) by (nonlinear_arith);
                    }
                }
                let child: Color4 = Self::ray_color(scattered, depth - 1, world, rands, idx + 1);
                proof {
                    lemma_fxm_unit_range(child.v().x, attenuation.v().x);
                    lemma_fxm_unit_range(child.v().y, attenuation.v().y);
                    lemma_fxm_unit_range(child.v().z, attenuation.v().z);
                }
                return Color4 {
                    x: fx_mul(child.x, attenuation.x),
                    y: fx_mul(child.y, attenuation.y),
                    z: fx_mul(child.z, attenuation.z),
                    w: child.w,
                };
            } else {
                return Color4 { x: 0, y: 0, z: 0, w: SCALE };
            }
        }
        if near_zero(r.direction) {
            return Color4 { x: 0, y: 0, z: 0, w: SCALE };
        }
        let unit_dir: Vec3 = unit_vector3(r.direction);
        proof {
            lemma_fxm_abs(HALF_SCALE as int, unit_dir.v().y + SCALE, HALF_SCALE as int, 2 * SCALE as int);
            lemma_sky_channel_bounds(unit_dir.v().y);
        }
        let aa: i64 = fx_mul(HALF_SCALE, unit_dir.y + SCALE);
        let base: i64 = fx_mul(SCALE - aa, SCALE);
        Color4 {
            x: base + fx_mul(aa, HALF_SCALE),
            y: base + fx_mul(aa, SKY_G),
            z: base + fx_mul(aa, SCALE),
            w: base + fx_mul(aa, SCALE),
        }
    }

    /// One jittered ray for pixel `(u, v)`, using the sample's drawn
    /// jitter and lens-disk point.
    fn get_ray(
        &self,
        pixel00_loc: Vec3,
        u: u32,
        du: Vec3,
        v: u32,
        dv: Vec3,
        smp: &SampleRand,
    ) -> (r: Ray)
        requires
            self.wf(),
            smp.wf(),
            in_r3(pixel00_loc.v(), 0x800_0000),
            in_r3(du.v(), 0x80_0000),
            in_r3(dv.v(), 0x80_0000),
            in_r3(smul3(du.v(), (u as int) * SCALE), 0x100_0000),
            in_r3(smul3(dv.v(), (v as int) * SCALE), 0x100_0000),
        ensures
            r.origin.v() == ray_o_spec(*self, smp.disk.v()),
            r.direction.v() == sub3(
                add3(
                    add3(
                        add3(pixel00_loc.v(), smul3(du.v(), (u as int) * SCALE)),
                        smul3(dv.v(), (v as int) * SCALE),
                    ),
                    add3(smul3(du.v(), smp.jx as int), smul3(dv.v(), smp.jy as int)),
                ),
                ray_o_spec(*self, smp.disk.v()),
            ),
            in_r3(r.o(), 0x1_0000_0000),
            in_r3(r.d(), 0x1000_0000),
    {
        proof {
            let s = SCALE as int;
            lemma_fxm_abs(du.v().x, smp.jx as int, 0x80_0000, HALF_SCALE as int);
            lemma_fxm_abs(du.v().y, smp.jx as int, 0x80_0000, HALF_SCALE as int);
            lemma_fxm_abs(du.v().z, smp.jx as int, 0x80_0000, HALF_SCALE as int);
            lemma_fxm_abs(dv.v().x, smp.jy as int, 0x80_0000, HALF_SCALE as int);
            lemma_fxm_abs(dv.v().y, smp.jy as int, 0x80_0000, HALF_SCALE as int);
            lemma_fxm_abs(dv.v().z, smp.jy as int, 0x80_0000, HALF_SCALE as int);
            lemma_fxm_abs(self.defocus_disk_u.v().x, smp.disk.v().x, 4 * s, s);
            lemma_fxm_abs(self.defocus_disk_u.v().y, smp.disk.v().x, 4 * s, s);
            lemma_fxm_abs(self.defocus_disk_u.v().z, smp.disk.v().x, 4 * s, s);
            lemma_fxm_abs(self.defocus_disk_v.v().x, smp.disk.v().y, 4 * s, s);
            lemma_fxm_abs(self.defocus_disk_v.v().y, smp.disk.v().y, 4 * s, s);
            lemma_fxm_abs(self.defocus_disk_v.v().z, smp.disk.v().y, 4 * s, s);
        }
        let su: Vec3 = crate::vec3::v_scale(du, (u as i64) * SCALE);
        let sv: Vec3 = crate::vec3::v_scale(dv, (v as i64) * SCALE);
        let pixel_center: Vec3 = crate::vec3::v_add(crate::vec3::v_add(pixel00_loc, su), sv);
        let jitter: Vec3 = crate::vec3::v_add(
            crate::vec3::v_scale(du, smp.jx),
            crate::vec3::v_scale(dv, smp.jy),
        );
        let pixel_sample: Vec3 = crate::vec3::v_add(pixel_center, jitter);
        let ray_origin: Vec3 = if self.defocus_angle <= 0 {
            self.origin
        } else {
            crate::vec3::v_add(
                self.origin,
                crate::vec3::v_add(
                    crate::vec3::v_scale(self.defocus_disk_u, smp.disk.x),
                    crate::vec3::v_scale(self.defocus_disk_v, smp.disk.y),
                ),
            )
        };
        let ray_dir: Vec3 = crate::vec3::v_sub(pixel_sample, ray_origin);
        Ray::new(ray_origin, ray_dir)
    }

    /// Render one pixel from pre-drawn randomness: the samples' mean color,
    /// gamma-corrected and clamped, exactly as `render_spec` states.
    #[verifier::loop_isolation(false)]
    pub fn render_with_samples(
        &self,
        w: u32,
        h: u32,
        u: u32,
        v: u32,
        world: &HittableList,
        samples: &Vec<SampleRand>,
    ) -> (res: Color4)
        requires
            self.wf(),
            world.wf(),
            1 <= w <= 4096,
            1 <= h <= 4096,
            w <= 4 * h,
            u < w,
            v < h,
            samples@.len() == SAMPLES_PER_PIXEL,
            forall|j: int| 0 <= j < samples@.len() ==> (#[trigger] samples@[j]).wf(),
        ensures
            res.v() == render_spec(
                *self,
                w as int,
                h as int,
                u as int,
                v as int,
                world.objects@,
                samples@,
            ),
            color4_wf(res.v()),
    {
        let ghost s = SCALE as int;
        let w_fx: i64 = (w as i64) * SCALE;
        let h_fx: i64 = (h as i64) * SCALE;
        proof {
            assert((w as int) * s * s <= (h as int) * s * (4 * s)) by (nonlinear_arith)
                requires
                    w <= 4 * h,
                    1 <= h,
                    s == 65536,
            ;
            vstd::arithmetic::mul::lemma_mul_nonnegative((w as int) * s, s);
            vstd::arithmetic::div_mod::lemma_div_pos_is_pos((w as int) * s * s, (h as int) * s);
            vstd::arithmetic::div_mod::lemma_div_is_ordered(
                (w as int) * s * s,
                (h as int) * s * (4 * s),
                (h as int) * s,
            );
            vstd::arithmetic::div_mod::lemma_div_multiples_vanish(4 * s, (h as int) * s);
            assert((h as int) * s * (4 * s) == ((h as int) * s) * (4 * s)) by (nonlinear_arith);
        }
        let ratio: i64 = crate::fixed::fx_div(w_fx, h_fx);
        proof {
            lemma_fxm_abs(self.viewport_height as int, ratio as int, 4 * s, 4 * s);
            let vwb = (4 * s * (4 * s)) / s;
            lemma_fxm_abs(self.u.v().x, vp_width(*self, w as int, h as int), 4 * s, vwb + 1);
            lemma_fxm_abs(self.u.v().y, vp_width(*self, w as int, h as int), 4 * s, vwb + 1);
            lemma_fxm_abs(self.u.v().z, vp_width(*self, w as int, h as int), 4 * s, vwb + 1);
            lemma_fxm_abs(-self.v.v().x, self.viewport_height as int, 4 * s, 4 * s);
            lemma_fxm_abs(-self.v.v().y, self.viewport_height as int, 4 * s, 4 * s);
            lemma_fxm_abs(-self.v.v().z, self.viewport_height as int, 4 * s, 4 * s);
        }
        let vw: i64 = fx_mul(self.viewport_height, ratio);
        let viewport_u: Vec3 = crate::vec3::v_scale(self.u, vw);
        let viewport_v: Vec3 = crate::vec3::v_scale(crate::vec3::v_neg(self.v), self.viewport_height);
        let du: Vec3 = crate::vec3::v_divi(viewport_u, w as i64);
        let dv: Vec3 = crate::vec3::v_divi(viewport_v, h as i64);
        proof {
            lemma_div_abs(viewport_u.v().x, w as int, 0x45_0000);
            lemma_div_abs(viewport_u.v().y, w as int, 0x45_0000);
            lemma_div_abs(viewport_u.v().z, w as int, 0x45_0000);
            lemma_div_abs(viewport_v.v().x, h as int, 0x45_0000);
            lemma_div_abs(viewport_v.v().y, h as int, 0x45_0000);
            lemma_div_abs(viewport_v.v().z, h as int, 0x45_0000);
            lemma_fxm_abs(self.w.v().x, self.focus_dist as int, 4 * s, 4 * s);
            lemma_fxm_abs(self.w.v().y, self.focus_dist as int, 4 * s, 4 * s);
            lemma_fxm_abs(self.w.v().z, self.focus_dist as int, 4 * s, 4 * s);
            lemma_div_abs(viewport_u.v().x, 2, 0x45_0000);
            lemma_div_abs(viewport_u.v().y, 2, 0x45_0000);
            lemma_div_abs(viewport_u.v().z, 2, 0x45_0000);
            lemma_div_abs(viewport_v.v().x, 2, 0x45_0000);
            lemma_div_abs(viewport_v.v().y, 2, 0x45_0000);
            lemma_div_abs(viewport_v.v().z, 2, 0x45_0000);
        }
        let focus_step: Vec3 = crate::vec3::v_scale(self.w, self.focus_dist);
        let ul: Vec3 = crate::vec3::v_sub(
            crate::vec3::v_sub(
                crate::vec3::v_sub(self.origin, focus_step),
                crate::vec3::v_divi(viewport_u, 2),
            ),
            crate::vec3::v_divi(viewport_v, 2),
        );
        proof {
            let dsum = add3(du.v(), dv.v());
            lemma_fxm_abs(dsum.x, HALF_SCALE as int, 0x8a_0000, HALF_SCALE as int);
            lemma_fxm_abs(dsum.y, HALF_SCALE as int, 0x8a_0000, HALF_SCALE as int);
            lemma_fxm_abs(dsum.z, HALF_SCALE as int, 0x8a_0000, HALF_SCALE as int);
        }
        let pixel00_loc: Vec3 = crate::vec3::v_add(
            ul,
            crate::vec3::v_scale(crate::vec3::v_add(du, dv), HALF_SCALE),
        );
        proof {
            lemma_fxm_exact_mul(du.v().x, u as int);
            lemma_fxm_exact_mul(du.v().y, u as int);
            lemma_fxm_exact_mul(du.v().z, u as int);
            lemma_fxm_exact_mul(dv.v().x, v as int);
            lemma_fxm_exact_mul(dv.v().y, v as int);
            lemma_fxm_exact_mul(dv.v().z, v as int);
            lemma_scaled_delta(viewport_u.v().x, w as int, u as int, du.v().x, 0x45_0000);
            lemma_scaled_delta(viewport_u.v().y, w as int, u as int, du.v().y, 0x45_0000);
            lemma_scaled_delta(viewport_u.v().z, w as int, u as int, du.v().z, 0x45_0000);
            lemma_scaled_delta(viewport_v.v().x, h as int, v as int, dv.v().x, 0x45_0000);
            lemma_scaled_delta(viewport_v.v().y, h as int, v as int, dv.v().y, 0x45_0000);
            lemma_scaled_delta(viewport_v.v().z, h as int, v as int, dv.v().z, 0x45_0000);
        }
        let n: usize = samples.len();
        let mut color: Color4 = Color4 { x: 0, y: 0, z: 0, w: SCALE };
        let mut i: usize = 0;
        while i < n
            invariant
                0 <= i <= n,
                color.v() == sum_to(
                    *self,
                    w as int,
                    h as int,
                    u as int,
                    v as int,
                    world.objects@,
                    samples@,
                    i as int,
                ),
                0 <= color.x <= SCALE * i,
                0 <= color.y <= SCALE * i,
                0 <= color.z <= SCALE * i,
                color.w == SCALE * (i + 1),
            decreases n - i,
        {
            let smp: &SampleRand = &samples[i];
            let r: Ray = self.get_ray(pixel00_loc, u, du, v, dv, smp);
            let c: Color4 = Camera::ray_color(r, MAX_DEPTH, world, &smp.bounce, 0);
            proof {
                assert(r.o() == ray_o_spec(*self, smp.disk.v()));
                assert(r.d() == ray_d_spec(
                    *self,
                    w as int,
                    h as int,
                    u as int,
                    v as int,
                    smp.jx as int,
                    smp.jy as int,
                    smp.disk.v(),
                ));
            }
            color = Color4 {
                x: color.x + c.x,
                y: color.y + c.y,
                z: color.z + c.z,
                w: color.w + c.w,
            };
            i = i + 1;
        }
        let ax: i64 = crate::fixed::div_floor(color.x as i128, 16) as i64;
        let ay: i64 = crate::fixed::div_floor(color.y as i128, 16) as i64;
        let az: i64 = crate::fixed::div_floor(color.z as i128, 16) as i64;
        let aw: i64 = crate::fixed::div_floor(color.w as i128, 16) as i64;
        proof {
            lemma_div_abs(color.x as int, 16, 0x10_0000);
            lemma_div_abs(color.y as int, 16, 0x10_0000);
            lemma_div_abs(color.z as int, 16, 0x10_0000);
            lemma_div_abs(color.w as int, 16, 0x20_0000);
            vstd::arithmetic::div_mod::lemma_div_pos_is_pos(color.x as int, 16);
            vstd::arithmetic::div_mod::lemma_div_pos_is_pos(color.y as int, 16);
            vstd::arithmetic::div_mod::lemma_div_pos_is_pos(color.z as int, 16);
        }
        let limit: Interval = Interval::new(0, SCALE);
        let gx: i64 = crate::custom_function::linear_to_gamma(ax);
        let gy: i64 = crate::custom_function::linear_to_gamma(ay);
        let gz: i64 = crate::custom_function::linear_to_gamma(az);
        Color4 {
            x: limit.clamp(gx),
            y: limit.clamp(gy),
            z: limit.clamp(gz),
            w: limit.clamp(aw),
        }
    }

    /// Render one pixel, drawing fresh Monte-Carlo randomness for every
    /// sample. Which color comes back depends on the drawn randomness, but
    /// it is always the `render_spec` mean of some full set of well-formed
    /// samples — never anything a sampling-free body could produce.
    pub fn render(&self, w: u32, h: u32, u: u32, v: u32, world: &HittableList) -> (res: Color4)
        requires
            self.wf(),
            world.wf(),
            1 <= w <= 4096,
            1 <= h <= 4096,
            w <= 4 * h,
            u < w,
            v < h,
        ensures
            color4_wf(res.v()),
            exists|smp: Seq<SampleRand>|
                #[trigger] smp.len() == SAMPLES_PER_PIXEL && (forall|j: int|
                    0 <= j < smp.len() ==> (#[trigger] smp[j]).wf()) && res.v() == render_spec(
                    *self,
                    w as int,
                    h as int,
                    u as int,
                    v as int,
                    world.objects@,
                    smp,
                ),
    {
        let mut samples: Vec<SampleRand> = Vec::new();
        let mut i: u32 = 0;
        while i < SAMPLES_PER_PIXEL
            invariant
                i <= SAMPLES_PER_PIXEL,
                samples@.len() == i,
                forall|j: int| 0 <= j < samples@.len() ==> (#[trigger] samples@[j]).wf(),
            decreases SAMPLES_PER_PIXEL - i,
        {
            samples.push(SampleRand::draw());
            i = i + 1;
        }
        let res = self.render_with_samples(w, h, u, v, world, &samples);
        proof {
            assert(samples@.len() == SAMPLES_PER_PIXEL && (forall|j: int|
                0 <= j < samples@.len() ==> (#[trigger] samples@[j]).wf()) && res.v()
                == render_spec(
                *self,
                w as int,
                h as int,
                u as int,
                v as int,
                world.objects@,
                samples@,
            ));
        }
        res
    }

    pub fn origin(&self) -> (r: Vec3)
        ensures
            r == self.origin,
    {
        self.origin
    }

    pub fn direction(&self) -> (r: Vec3)
        ensures
            r == self.direction,
    {
        self.direction
    }

    pub fn aspect_ratio(&self) -> (r: i64)
        ensures
            r == self.aspect_ratio,
    {
        self.aspect_ratio
    }

    pub fn width(&self) -> (r: u32)
        ensures
            r == self.width,
    {
        self.width
    }

    pub fn height(&self) -> (r: u32)
        ensures
            r == self.height,
    {
        self.height
    }

    pub fn fov(&self) -> (r: i64)
        ensures
            r == self.fov,
    {
        self.fov
    }
}

} // verus!
