use ray_tracing::camera::{Camera, SampleRand, MAX_DEPTH, SAMPLES_PER_PIXEL};
use ray_tracing::fixed::SCALE;
use ray_tracing::hittable::Hittable;
use ray_tracing::hittable_list::HittableList;
use ray_tracing::interval::Interval;
use ray_tracing::material::{Lambertian, Material, ScatterRand};
use ray_tracing::ray::Ray;
use ray_tracing::sphere::Sphere;
use ray_tracing::vec3::{Color4, Vec3};

fn single_sphere_world() -> HittableList {
    let mat = Material::Lambertian(Lambertian::new(Vec3::new(32768, 32768, 32768)));
    let mut world = HittableList::new();
    world.add(Hittable::Sphere(Sphere::new(Vec3::new(0, 0, -SCALE), 32768, mat)));
    world
}

fn origin_camera(w: u32, h: u32) -> Camera {
    // at the origin, looking down -z; fov 20 degrees
    Camera::new(
        Vec3::new(0, 0, 0),
        Vec3::new(0, 0, -SCALE),
        (16 * SCALE) / 9,
        w,
        h,
        20 * SCALE,
        11556,
    )
}

fn fixed_sample() -> SampleRand {
    let mut bounce: Vec<ScatterRand> = Vec::new();
    for _ in 0..MAX_DEPTH {
        bounce.push(ScatterRand { unit: Vec3::new(0, SCALE, 0), coin: 12345 });
    }
    SampleRand { jx: 0, jy: 0, disk: Vec3::new(0, 0, 0), bounce }
}

#[test]
fn test() {
    let cam = Camera::new(
        Vec3::new(0, 0, 0),
        Vec3::new(SCALE, SCALE, SCALE),
        (16 * SCALE) / 9,
        1600,
        900,
        SCALE,
        572,
    );

    println!(
        "{:?}, {:?}, {}, {}, {}, {}",
        cam.origin(),
        cam.direction(),
        cam.aspect_ratio(),
        cam.width(),
        cam.height(),
        cam.fov()
    );
}

#[test]
fn ray_color_depth_zero_is_black() {
    let world = single_sphere_world();
    let rands: Vec<ScatterRand> = Vec::new();
    // any ray, even one aimed straight at the sphere
    let r = Ray::new(Vec3::new(0, 0, 0), Vec3::new(0, 0, -SCALE));
    let c = Camera::ray_color(r, 0, &world, &rands, 0);
    assert_eq!(c, Color4 { x: 0, y: 0, z: 0, w: SCALE });
    let r2 = Ray::new(Vec3::new(SCALE, 0, 0), Vec3::new(0, SCALE, 0));
    let c2 = Camera::ray_color(r2, 0, &world, &rands, 0);
    assert_eq!(c2, Color4 { x: 0, y: 0, z: 0, w: SCALE });
}

#[test]
fn miss_returns_exact_sky_gradient() {
    let world = single_sphere_world();
    let mut rands: Vec<ScatterRand> = Vec::new();
    rands.push(ScatterRand { unit: Vec3::new(0, SCALE, 0), coin: 0 });
    // straight up: the unit direction's y is one, so the color is the pure
    // sky endpoint (0.5, 0.7, 1.0, 1.0)
    let up = Ray::new(Vec3::new(0, 0, 0), Vec3::new(0, SCALE, 0));
    let c = Camera::ray_color(up, 1, &world, &rands, 0);
    assert_eq!(c, Color4 { x: 32768, y: 45875, z: SCALE, w: SCALE });
    // horizontal: halfway up the gradient
    let level = Ray::new(Vec3::new(0, 0, 0), Vec3::new(SCALE, 0, 0));
    let c2 = Camera::ray_color(level, 1, &world, &rands, 0);
    assert_eq!(c2, Color4 { x: 49152, y: 55705, z: SCALE, w: SCALE });
}

#[test]
fn empty_list_never_hits() {
    let world = HittableList::new();
    let r = Ray::new(Vec3::new(0, 0, 0), Vec3::new(0, 0, -SCALE));
    assert!(world.hit(r, Interval::new(66, 0x100_0000)).is_none());
    let r2 = Ray::new(Vec3::new(SCALE, SCALE, SCALE), Vec3::new(0, -SCALE, 0));
    assert!(world.hit(r2, Interval::new(-SCALE, SCALE)).is_none());
}

#[test]
fn closest_hit_is_order_independent() {
    let mat = Material::Lambertian(Lambertian::new(Vec3::new(32768, 32768, 32768)));
    let near = Hittable::Sphere(Sphere::new(Vec3::new(0, 0, -SCALE), 32768, mat));
    let far = Hittable::Sphere(Sphere::new(Vec3::new(0, 0, -3 * SCALE), 32768, mat));
    let r = Ray::new(Vec3::new(0, 0, 0), Vec3::new(0, 0, -SCALE));
    let iv = Interval::new(66, 0x100_0000);

    let mut a = HittableList::new();
    a.add(near);
    a.add(far);
    let mut b = HittableList::new();
    b.add(far);
    b.add(near);

    let ta = a.hit(r, iv).expect("hits the near sphere").get_t();
    let tb = b.hit(r, iv).expect("hits the near sphere").get_t();
    assert_eq!(ta, 32768);
    assert_eq!(tb, 32768);
}

#[test]
fn rendering_fixed_randomness_twice_gives_the_same_color() {
    let world = single_sphere_world();
    let cam = origin_camera(16, 9);
    let mut samples: Vec<SampleRand> = Vec::new();
    for _ in 0..SAMPLES_PER_PIXEL {
        samples.push(fixed_sample());
    }
    let first = cam.render_with_samples(16, 9, 8, 4, &world, &samples);
    let second = cam.render_with_samples(16, 9, 8, 4, &world, &samples);
    assert_eq!(first, second);
    assert_eq!(first.w, SCALE);
}

#[test]
fn render_stays_in_range() {
    let world = single_sphere_world();
    let cam = origin_camera(16, 9);
    let c = cam.render(16, 9, 3, 2, &world);
    assert!(0 <= c.x && c.x <= SCALE);
    assert!(0 <= c.y && c.y <= SCALE);
    assert!(0 <= c.z && c.z <= SCALE);
    assert_eq!(c.w, SCALE);
}

#[test]
fn scene_render_stays_in_range() {
    let c = ray_tracing::render_backend::render(16, 9, 0, 0);
    assert!(0 <= c.x && c.x <= SCALE);
    assert!(0 <= c.y && c.y <= SCALE);
    assert!(0 <= c.z && c.z <= SCALE);
    assert_eq!(c.w, SCALE);
}

#[test]
fn fixed_scene_contents() {
    let w = ray_tracing::render_backend::scene_world();
    assert_eq!(w.objects.len(), 5);
    let Hittable::Sphere(center) = &w.objects[0];
    assert_eq!(center.center, Vec3::new(0, 0, -65536));
    assert_eq!(center.radius, 32768);
    let Hittable::Sphere(ground) = &w.objects[1];
    assert_eq!(ground.center, Vec3::new(0, -6586368, -65536));
    assert_eq!(ground.radius, 6553600);
    let Hittable::Sphere(bubble) = &w.objects[3];
    assert_eq!(bubble.radius, -26214);
    let Hittable::Sphere(right) = &w.objects[4];
    assert_eq!(right.center, Vec3::new(65536, 0, -65536));
}

#[test]
fn sampled_randomness_is_well_formed() {
    let s = SampleRand::draw();
    assert!(-32768 <= s.jx && s.jx < 32768);
    assert!(-32768 <= s.jy && s.jy < 32768);
    assert_eq!(s.disk.z, 0);
    assert_eq!(s.bounce.len() as u32, MAX_DEPTH);
}
