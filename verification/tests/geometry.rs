use ray_tracing::custom_function::{
    degrees_to_radians, length, length_squared, linear_to_gamma, near_zero, reflect, refract,
    set_face_normal, unit_vector3, PI,
};
use ray_tracing::fixed::{fx_div, fx_mul, fx_sqrt, SCALE};
use ray_tracing::hittable::Hittable;
use ray_tracing::interval::{Interval, INFINITY};
use ray_tracing::material::{Lambertian, Material};
use ray_tracing::ray::Ray;
use ray_tracing::sphere::Sphere;
use ray_tracing::vec3::{v_sub, Vec3};

fn lambertian_gray() -> Material {
    Material::Lambertian(Lambertian::new(Vec3::new(32768, 32768, 32768)))
}

#[test]
fn fixed_point_arithmetic() {
    // 3.0 * 2.0 == 6.0, 1.0 / 2.0 == 0.5, sqrt(4.0) == 2.0
    assert_eq!(fx_mul(3 * SCALE, 2 * SCALE), 6 * SCALE);
    assert_eq!(fx_div(SCALE, 2 * SCALE), 32768);
    assert_eq!(fx_sqrt(4 * SCALE), 2 * SCALE);
    // floor rounding toward negative infinity
    assert_eq!(fx_mul(-1, 1), -1);
}

#[test]
fn vector_lengths() {
    // |(3,4,0)| == 5
    let v = Vec3::new(3 * SCALE, 4 * SCALE, 0);
    assert_eq!(length(v), 5 * SCALE);
    assert_eq!(length_squared(v), 25 * SCALE);
    let u = unit_vector3(v);
    // (0.6, 0.8, 0)
    assert_eq!(u, Vec3::new(39321, 52428, 0));
    assert_eq!(unit_vector3(Vec3::new(SCALE, 0, 0)), Vec3::new(SCALE, 0, 0));
}

#[test]
fn near_zero_is_exact_zero_at_this_resolution() {
    assert!(near_zero(Vec3::new(0, 0, 0)));
    assert!(!near_zero(Vec3::new(1, 0, 0)));
    assert!(!near_zero(Vec3::new(0, 0, -1)));
}

#[test]
fn reflect_about_normal() {
    // a ray straight into the surface bounces straight back
    let r = reflect(Vec3::new(0, 0, -SCALE), Vec3::new(0, 0, SCALE));
    assert_eq!(r, Vec3::new(0, 0, SCALE));
    // a grazing ray keeps its tangential part
    let g = reflect(Vec3::new(SCALE, -SCALE, 0), Vec3::new(0, SCALE, 0));
    assert_eq!(g, Vec3::new(SCALE, SCALE, 0));
}

#[test]
fn refract_straight_through_at_unit_ratio() {
    let d = refract(Vec3::new(0, 0, -SCALE), Vec3::new(0, 0, SCALE), SCALE);
    assert_eq!(d, Vec3::new(0, 0, -SCALE));
}

#[test]
fn gamma_and_angles() {
    // sqrt(0.25) == 0.5
    assert_eq!(linear_to_gamma(16384), 32768);
    assert_eq!(linear_to_gamma(0), 0);
    // 180 degrees is pi radians
    assert_eq!(degrees_to_radians(180 * SCALE), PI);
}

#[test]
fn interval_queries() {
    let iv = Interval::new(-SCALE, SCALE);
    assert!(iv.contains(SCALE));
    assert!(iv.contains(-SCALE));
    assert!(!iv.surrounds(SCALE));
    assert!(iv.surrounds(0));
    assert_eq!(iv.min(), -SCALE);
    assert_eq!(iv.max(), SCALE);
    assert_eq!(iv.clamp(2 * SCALE), SCALE);
    assert_eq!(iv.clamp(-2 * SCALE), -SCALE);
    assert_eq!(iv.clamp(123), 123);
    let e = Interval::empty();
    assert!(!e.contains(0));
    let u = Interval::universe();
    assert!(u.contains(INFINITY));
    assert!(u.contains(-INFINITY));
}

#[test]
fn sphere_hit_head_on_reports_half_unit() {
    // unit sphere of radius 0.5 at (0,0,-1), ray from the origin at it
    let s = Sphere::new(Vec3::new(0, 0, -SCALE), 32768, lambertian_gray());
    let ray = Ray::new(Vec3::new(0, 0, 0), Vec3::new(0, 0, -SCALE));
    let hit = s.hit(ray, Interval::new(66, 0x100_0000)).expect("head-on ray must hit");
    assert_eq!(hit.get_t(), 32768);
    // the struck point is within the stated tolerance of the surface:
    // |p - center|^2 == radius^2 exactly here
    let off = v_sub(hit.get_point(), Vec3::new(0, 0, -SCALE));
    let r2 = fx_mul(32768, 32768);
    assert!((length_squared(off) - r2).abs() <= 7);
    assert!(hit.front_face);
}

#[test]
fn sphere_miss_iff_negative_discriminant() {
    let s = Sphere::new(Vec3::new(0, 0, -SCALE), 32768, lambertian_gray());
    // aimed away: no intersection at all
    let up = Ray::new(Vec3::new(0, 0, 0), Vec3::new(0, SCALE, 0));
    assert!(s.hit(up, Interval::new(66, 0x100_0000)).is_none());
    // aimed at it, but the window excludes both roots
    let at = Ray::new(Vec3::new(0, 0, 0), Vec3::new(0, 0, -SCALE));
    assert!(s.hit(at, Interval::new(2 * SCALE, 3 * SCALE)).is_none());
}

#[test]
fn normal_always_opposes_the_ray() {
    let s = Sphere::new(Vec3::new(0, 0, -SCALE), 32768, lambertian_gray());
    // from outside: front face
    let outside = Ray::new(Vec3::new(0, 0, 0), Vec3::new(0, 0, -SCALE));
    let h1 = s.hit(outside, Interval::new(66, 0x100_0000)).unwrap();
    assert!(h1.front_face);
    let n1 = h1.get_normal();
    let d1 = outside.direction();
    assert!(n1.x as i128 * d1.x as i128 + n1.y as i128 * d1.y as i128
        + n1.z as i128 * d1.z as i128 <= 0);
    // from inside the sphere: back face, normal still opposes the ray
    let inside = Ray::new(Vec3::new(0, 0, -SCALE), Vec3::new(0, 0, -SCALE));
    let h2 = s.hit(inside, Interval::new(66, 0x100_0000)).unwrap();
    assert!(!h2.front_face);
    let n2 = h2.get_normal();
    assert!(n2.x as i128 * inside.direction().x as i128
        + n2.y as i128 * inside.direction().y as i128
        + n2.z as i128 * inside.direction().z as i128 <= 0);
}

#[test]
fn hollow_sphere_negative_radius() {
    // a negative radius flips the outward normal inward
    let s = Sphere::new(Vec3::new(0, 0, -SCALE), -32768, lambertian_gray());
    let ray = Ray::new(Vec3::new(0, 0, 0), Vec3::new(0, 0, -SCALE));
    let hit = s.hit(ray, Interval::new(66, 0x100_0000)).expect("still intersects");
    assert_eq!(hit.get_t(), 32768);
    assert!(!hit.front_face);
}

#[test]
fn set_face_normal_orients_against_ray() {
    let ray = Ray::new(Vec3::new(0, 0, 0), Vec3::new(0, 0, -SCALE));
    let (n, ff) = set_face_normal(ray, Vec3::new(0, 0, SCALE));
    assert!(ff);
    assert_eq!(n, Vec3::new(0, 0, SCALE));
    let (n2, ff2) = set_face_normal(ray, Vec3::new(0, 0, -SCALE));
    assert!(!ff2);
    assert_eq!(n2, Vec3::new(0, 0, SCALE));
}

#[test]
fn hittable_wrapper_forwards() {
    let s = Sphere::new(Vec3::new(0, 0, -SCALE), 32768, lambertian_gray());
    let h = Hittable::Sphere(s);
    let ray = Ray::new(Vec3::new(0, 0, 0), Vec3::new(0, 0, -SCALE));
    let rec = h.hit(ray, Interval::new(66, 0x100_0000)).unwrap();
    assert_eq!(rec.get_t(), 32768);
}
