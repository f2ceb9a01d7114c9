use ray_tracing::fixed::SCALE;
use ray_tracing::hittable::HitRecord;
use ray_tracing::material::{Dielectric, Lambertian, Material, Metal, ScatterRand};
use ray_tracing::ray::Ray;
use ray_tracing::vec3::{Vec3, Color4};

fn head_on_record(material: Material) -> (Ray, HitRecord) {
    let r_in = Ray::new(Vec3::new(0, 0, 0), Vec3::new(0, 0, -SCALE));
    let rec = HitRecord {
        point: Vec3::new(0, 0, -32768),
        normal: Vec3::new(0, 0, SCALE),
        material,
        t: 32768,
        front_face: true,
    };
    (r_in, rec)
}

fn fixed_rand(unit: Vec3, coin: i64) -> ScatterRand {
    ScatterRand { unit, coin }
}

#[test]
fn lambertian_always_scatters() {
    let m = Material::Lambertian(Lambertian::new(Vec3::new(6554, 13107, 32768)));
    let (r_in, rec) = head_on_record(m);
    let mut att = Vec3::new(0, 0, 0);
    let mut sc = Ray::new(Vec3::new(0, 0, 0), Vec3::new(0, 0, 0));
    // even a drawn direction that cancels the normal falls back to the normal
    let rnd = fixed_rand(Vec3::new(0, 0, -SCALE), 0);
    assert!(m.scatter(&r_in, &rec, &rnd, &mut att, &mut sc));
    assert_eq!(sc.direction(), Vec3::new(0, 0, SCALE));
    assert_eq!(att, Vec3::new(6554, 13107, 32768));
    assert_eq!(sc.origin(), rec.point);
    // an ordinary draw scatters along normal + unit
    let rnd2 = fixed_rand(Vec3::new(SCALE, 0, 0), 0);
    assert!(m.scatter(&r_in, &rec, &rnd2, &mut att, &mut sc));
    assert_eq!(sc.direction(), Vec3::new(SCALE, 0, SCALE));
}

#[test]
fn metal_absorbs_iff_fuzzed_reflection_points_inward() {
    let m = Material::Metal(Metal::new(Vec3::new(52429, 39322, 13107), SCALE));
    let (r_in, rec) = head_on_record(m);
    let mut att = Vec3::new(0, 0, 0);
    let mut sc = Ray::new(Vec3::new(0, 0, 0), Vec3::new(0, 0, 0));
    // reflection is (0,0,1); a fuzz draw cancelling it leaves no outward part
    let cancel = fixed_rand(Vec3::new(0, 0, -SCALE), 0);
    assert!(!m.scatter(&r_in, &rec, &cancel, &mut att, &mut sc));
    // a sideways fuzz draw keeps the outward part
    let keep = fixed_rand(Vec3::new(SCALE, 0, 0), 0);
    assert!(m.scatter(&r_in, &rec, &keep, &mut att, &mut sc));
    assert_eq!(att, Vec3::new(52429, 39322, 13107));
}

#[test]
fn metal_fuzz_is_clamped() {
    assert_eq!(Metal::new(Vec3::new(0, 0, 0), -5).get_fuzz(), 0);
    assert_eq!(Metal::new(Vec3::new(0, 0, 0), 123).get_fuzz(), 123);
    assert_eq!(Metal::new(Vec3::new(0, 0, 0), 10 * SCALE).get_fuzz(), SCALE);
    let m = Metal::new(Vec3::new(SCALE, 0, 0), 0);
    assert_eq!(m.get_albedo(), Vec3::new(SCALE, 0, 0));
}

#[test]
fn dielectric_never_absorbs_and_does_not_tint() {
    let m = Material::Dielectric(Dielectric::new(98304));
    let (r_in, rec) = head_on_record(m);
    let mut att = Vec3::new(0, 0, 0);
    let mut sc = Ray::new(Vec3::new(0, 0, 0), Vec3::new(0, 0, 0));
    // a coin of zero forces the Schlick branch to reflect only if the
    // reflectance is positive; either way the ray continues
    let rnd = fixed_rand(Vec3::new(0, SCALE, 0), 0);
    assert!(m.scatter(&r_in, &rec, &rnd, &mut att, &mut sc));
    assert_eq!(att, Vec3::new(SCALE, SCALE, SCALE));
    // and from the back face too
    let rec_back = HitRecord { front_face: false, ..rec };
    assert!(m.scatter(&r_in, &rec_back, &rnd, &mut att, &mut sc));
    assert_eq!(att, Vec3::new(SCALE, SCALE, SCALE));
}

#[test]
fn schlick_reflectance_exact_values() {
    // matched indices reflect nothing at normal incidence
    assert_eq!(Dielectric::reflectance(SCALE, SCALE), 0);
    // at grazing incidence (cosine zero) matched indices reflect fully
    assert_eq!(Dielectric::reflectance(0, SCALE), SCALE);
}

#[test]
fn lambertian_albedo_accessor() {
    let l = Lambertian::new(Vec3::new(52429, 52429, 0));
    assert_eq!(l.get_albedo(), Vec3::new(52429, 52429, 0));
}

#[test]
fn color_construction() {
    let c = Color4::new(1, 2, 3, SCALE);
    assert_eq!(c, Color4 { x: 1, y: 2, z: 3, w: SCALE });
}
