//! The fixed demonstration scene and its per-pixel entry point.

use vstd::prelude::*;
use vstd::arithmetic::div_mod::{lemma_div_by_self, lemma_div_is_ordered};
use crate::camera::{
    cam_cross_up, cam_u, cam_v, cam_w, color4_wf, render_spec, Camera, SampleRand,
    DEFOCUS_ANGLE, FOCUS_DIST, SAMPLES_PER_PIXEL, TAN_HALF_DEFOCUS,
};
use crate::fixed::{fxm, lemma_isqrt_exists, SCALE};
use crate::hittable::Hittable;
use crate::hittable_list::HittableList;
use crate::material::{Dielectric, Lambertian, Material, Metal};
use crate::sphere::Sphere;
use crate::vec3::{dot_raw, smul3, sub3, zero3, Color4, Vec3};

verus! {

/// The 16:9 aspect ratio in fixed units.
pub const ASPECT_16_9: i64 = 116508;

/// `tan` of half a twenty-degree field of view, in fixed units.
pub const TAN_HALF_FOV_20: i64 = 11556;

/// Twenty degrees in fixed units.
pub const FOV_20: i64 = 1310720;

/// The fixed scene's camera position.
pub open spec fn scene_origin() -> Vec3 {
    Vec3 { x: -131072i64, y: 131072, z: 65536 }
}

/// The fixed scene's view direction.
pub open spec fn scene_direction() -> Vec3 {
    Vec3 { x: 0i64, y: 0, z: -65536i64 }
}

/// Exactly the camera the fixed scene is viewed through: every field is
/// the one `Camera::new` derives from the scene's constants.
pub open spec fn is_scene_camera(cam: Camera, w: u32, h: u32) -> bool {
    &&& cam.origin == scene_origin()
    &&& cam.direction == scene_direction()
    &&& cam.aspect_ratio == ASPECT_16_9
    &&& cam.width == w
    &&& cam.height == h
    &&& cam.fov == FOV_20
    &&& cam.defocus_angle == DEFOCUS_ANGLE
    &&& cam.focus_dist == FOCUS_DIST
    &&& cam.viewport_height == fxm(2 * TAN_HALF_FOV_20, FOCUS_DIST as int)
    &&& cam.w.v() == cam_w(scene_origin(), scene_direction())
    &&& cam.u.v() == cam_u(scene_origin(), scene_direction())
    &&& cam.v.v() == cam_v(scene_origin(), scene_direction())
    &&& cam.defocus_disk_u.v() == smul3(
        cam_u(scene_origin(), scene_direction()),
        fxm(FOCUS_DIST as int, TAN_HALF_DEFOCUS as int),
    )
    &&& cam.defocus_disk_v.v() == smul3(
        cam_v(scene_origin(), scene_direction()),
        fxm(FOCUS_DIST as int, TAN_HALF_DEFOCUS as int),
    )
    &&& cam.wf()
}

/// Compute the color of pixel `(u, v)` of a `w` by `h` image of the fixed
/// scene: three solid spheres, a hollow glass shell, and a ground sphere.
/// The result is always the `render_spec` mean of some full set of
/// well-formed samples, through the scene's camera, over the scene's
/// objects.
pub fn render(w: u32, h: u32, u: u32, v: u32) -> (res: Color4)
    requires
        1 <= w <= 4096,
        1 <= h <= 4096,
        w <= 4 * h,
        u < w,
        v < h,
    ensures
        color4_wf(res.v()),
        exists|cam: Camera, smp: Seq<SampleRand>|
            is_scene_camera(cam, w, h) && smp.len() == SAMPLES_PER_PIXEL && (forall|j: int|
                0 <= j < smp.len() ==> (#[trigger] smp[j]).wf()) && res.v() == (#[trigger] render_spec(
                cam,
                w as int,
                h as int,
                u as int,
                v as int,
                scene_objects(),
                smp,
            )),
{
    let ori: Vec3 = Vec3 { x: -131072, y: 131072, z: 65536 };
    let dir: Vec3 = Vec3 { x: 0, y: 0, z: -65536 };
    proof {
        lemma_camera_frame_nondegenerate(ori, dir);
    }
    let cam: Camera = Camera::new(ori, dir, ASPECT_16_9, w, h, FOV_20, TAN_HALF_FOV_20);
    let world: HittableList = scene_world();
    let res: Color4 = cam.render(w, h, u, v, &world);
    proof {
        let smp = choose|smp: Seq<SampleRand>|
            #[trigger] smp.len() == SAMPLES_PER_PIXEL && (forall|j: int|
                0 <= j < smp.len() ==> (#[trigger] smp[j]).wf()) && res.v() == render_spec(
                cam,
                w as int,
                h as int,
                u as int,
                v as int,
                world.objects@,
                smp,
            );
        assert(world.objects@ == scene_objects());
        assert(is_scene_camera(cam, w, h));
        assert(smp.len() == SAMPLES_PER_PIXEL && (forall|j: int|
            0 <= j < smp.len() ==> (#[trigger] smp[j]).wf()) && res.v() == render_spec(
            cam,
            w as int,
            h as int,
            u as int,
            v as int,
            scene_objects(),
            smp,
        ));
    }
    res
}

/// The fixed scene's objects, in insertion order.
pub open spec fn scene_objects() -> Seq<Hittable> {
    seq![
        center_sphere(),
        ground_sphere(),
        left_sphere(),
        left_inner_sphere(),
        right_sphere(),
    ]
}

/// The center sphere's diffuse blue material.
pub open spec fn center_sphere() -> Hittable {
    Hittable::Sphere(
        Sphere {
            center: Vec3 { x: 0, y: 0, z: -65536i64 },
            radius: 32768,
            material: Material::Lambertian(
                Lambertian { albedo: Vec3 { x: 6554, y: 13107, z: 32768 } },
            ),
        },
    )
}

/// The large yellow ground sphere.
pub open spec fn ground_sphere() -> Hittable {
    Hittable::Sphere(
        Sphere {
            center: Vec3 { x: 0, y: -6586368i64, z: -65536i64 },
            radius: 6553600,
            material: Material::Lambertian(
                Lambertian { albedo: Vec3 { x: 52429, y: 52429, z: 0 } },
            ),
        },
    )
}

/// The left glass sphere.
pub open spec fn left_sphere() -> Hittable {
    Hittable::Sphere(
        Sphere {
            center: Vec3 { x: -65536i64, y: 0, z: -65536i64 },
            radius: 32768,
            material: Material::Dielectric(Dielectric { ior: 98304 }),
        },
    )
}

/// The inner shell of the left sphere: a negative radius turns the glass
/// sphere into a hollow bubble.
pub open spec fn left_inner_sphere() -> Hittable {
    Hittable::Sphere(
        Sphere {
            center: Vec3 { x: -65536i64, y: 0, z: -65536i64 },
            radius: -26214i64,
            material: Material::Dielectric(Dielectric { ior: 98304 }),
        },
    )
}

/// The right polished-metal sphere.
pub open spec fn right_sphere() -> Hittable {
    Hittable::Sphere(
        Sphere {
            center: Vec3 { x: 65536, y: 0, z: -65536i64 },
            radius: 32768,
            material: Material::Metal(
                Metal { albedo: Vec3 { x: 52429, y: 39322, z: 13107 }, fuzz: 0 },
            ),
        },
    )
}

/// Assemble the fixed scene: exactly these five spheres, in this order.
pub fn scene_world() -> (world: HittableList)
    ensures
        world.wf(),
        world.objects@ =~= scene_objects(),
{
    let material_ground: Material = Material::Lambertian(
        Lambertian::new(Vec3 { x: 52429, y: 52429, z: 0 }),
    );
    let material_center: Material = Material::Lambertian(
        Lambertian::new(Vec3 { x: 6554, y: 13107, z: 32768 }),
    );
    let material_left: Material = Material::Dielectric(Dielectric::new(98304));
    let material_left2: Material = Material::Dielectric(Dielectric::new(98304));
    let material_right: Material = Material::Metal(
        Metal::new(Vec3 { x: 52429, y: 39322, z: 13107 }, 0),
    );

    let mut world: HittableList = HittableList::new();
    world.add(
        Hittable::Sphere(Sphere::new(Vec3 { x: 0, y: 0, z: -65536 }, 32768, material_center)),
    );
    world.add(
        Hittable::Sphere(
            Sphere::new(Vec3 { x: 0, y: -6586368, z: -65536 }, 6553600, material_ground),
        ),
    );
    world.add(
        Hittable::Sphere(Sphere::new(Vec3 { x: -65536, y: 0, z: -65536 }, 32768, material_left)),
    );
    world.add(
        Hittable::Sphere(
            Sphere::new(Vec3 { x: -65536, y: 0, z: -65536 }, -26214, material_left2),
        ),
    );
    world.add(
        Hittable::Sphere(Sphere::new(Vec3 { x: 65536, y: 0, z: -65536 }, 32768, material_right)),
    );
    world
}

/// The fixed scene's view frame is usable: the camera does not look along
/// the world-up axis, so the rightward cross product is nonzero.
proof fn lemma_camera_frame_nondegenerate(ori: Vec3, dir: Vec3)
    requires
        ori.v() == (crate::vec3::V3 { x: -131072, y: 131072, z: 65536 }),
        dir.v() == (crate::vec3::V3 { x: 0, y: 0, z: -65536 }),
    ensures
        ori.v() != dir.v(),
        cam_cross_up(ori, dir) != zero3(),
{
    let diffv = sub3(ori.v(), dir.v());
    assert((-131072int) * (-131072int) == 17179869184) by (nonlinear_arith);
    assert(131072int * 131072 == 17179869184) by (nonlinear_arith);
    assert(dot_raw(diffv, diffv) == 51539607552);
    lemma_isqrt_exists(51539607552);
    let len = crate::vec3::len3(diffv);
    assert(1 <= len <= 227023) by (nonlinear_arith)
        requires
            crate::fixed::is_isqrt(len, 51539607552),
    ;
    let num = 131072 * (SCALE as int);
    assert(131072int * 65536 == 8589934592) by (nonlinear_arith);
    assert(num >= len);
    lemma_div_is_ordered(len, num, len);
    lemma_div_by_self(len);
    let wz = crate::fixed::fxd(131072, len);
    assert(wz >= 1);
    vstd::arithmetic::div_mod::lemma_div_multiples_vanish(wz, SCALE as int);
    assert((SCALE as int) * wz == wz * (SCALE as int)) by (nonlinear_arith);
    assert(cam_cross_up(ori, dir).x == wz);
}

} // verus!
