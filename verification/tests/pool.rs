use ray_tracing::custom_function::{
    length, random_double, random_double_range, random_in_unit_disk, random_in_unit_sphere,
    random_on_hemisphere, random_unit_vector3, random_vector3, random_vector3_range,
};
use ray_tracing::fixed::SCALE;
use ray_tracing::thread_pool::{PixelBuffer, Task, ThreadPool};
use ray_tracing::vec3::{Color4, Vec3};

#[test]
fn test_thread_pool() {
    let mut data = PixelBuffer::new(480);

    let mut thread_pool = ThreadPool::new(6);
    for i in 0..480usize {
        thread_pool.exec(Task { index: i, color: Color4::new(i as i64, 0, 0, SCALE) });
    }

    println!("first: {:?}", data.get(0));

    thread_pool.shutdown(&mut data);

    println!("second: {:?}", data.get(0));
    // every slot holds its task's value: no task lost, none misdelivered
    for i in 0..480usize {
        assert_eq!(data.get(i), Color4::new(i as i64, 0, 0, SCALE));
    }
}

#[test]
fn buffer_starts_white_and_takes_writes() {
    let mut buf = PixelBuffer::new(4);
    assert_eq!(buf.len(), 4);
    for i in 0..4usize {
        assert_eq!(buf.get(i), Color4::new(SCALE, SCALE, SCALE, SCALE));
    }
    buf.write(2, Color4::new(1, 2, 3, SCALE));
    assert_eq!(buf.get(2), Color4::new(1, 2, 3, SCALE));
    assert_eq!(buf.get(1), Color4::new(SCALE, SCALE, SCALE, SCALE));
}

#[test]
fn later_write_to_same_cell_wins() {
    let mut buf = PixelBuffer::new(2);
    let mut pool = ThreadPool::new(2);
    pool.exec(Task { index: 0, color: Color4::new(1, 0, 0, SCALE) });
    pool.exec(Task { index: 0, color: Color4::new(2, 0, 0, SCALE) });
    pool.exec(Task { index: 5, color: Color4::new(3, 0, 0, SCALE) });
    pool.shutdown(&mut buf);
    // queue order decides; the out-of-range task is dropped
    assert_eq!(buf.get(0), Color4::new(2, 0, 0, SCALE));
    assert_eq!(buf.get(1), Color4::new(SCALE, SCALE, SCALE, SCALE));
}

#[test]
fn random_draws_stay_in_their_ranges() {
    for _ in 0..50 {
        let d = random_double();
        assert!(0 <= d && d < SCALE);
        let r = random_double_range(-SCALE, SCALE);
        assert!(-SCALE <= r && r <= SCALE);
        let v = random_vector3();
        assert!(0 <= v.x && v.x < SCALE);
        assert!(0 <= v.y && v.y < SCALE);
        assert!(0 <= v.z && v.z < SCALE);
        let vr = random_vector3_range(0, 2 * SCALE);
        assert!(0 <= vr.x && vr.x <= 2 * SCALE);
    }
}

#[test]
fn random_sphere_and_disk_draws() {
    for _ in 0..50 {
        let p = random_in_unit_sphere();
        let ls = (p.x as i128 * p.x as i128 + p.y as i128 * p.y as i128
            + p.z as i128 * p.z as i128) / (SCALE as i128);
        // inside the ball, but at least half a unit long
        assert!(16384 <= ls && ls < SCALE as i128);
        assert!(p != Vec3::new(0, 0, 0));

        let q = random_in_unit_disk();
        assert_eq!(q.z, 0);

        let u = random_unit_vector3();
        assert!(-SCALE <= u.x && u.x <= SCALE);
        assert!(-SCALE <= u.y && u.y <= SCALE);
        assert!(-SCALE <= u.z && u.z <= SCALE);
        // genuinely unit length, up to a few units of rounding
        assert!((length(u) - SCALE).abs() <= 6);

        let n = Vec3::new(0, SCALE, 0);
        let h = random_on_hemisphere(n);
        let dot = h.x as i128 * n.x as i128 + h.y as i128 * n.y as i128
            + h.z as i128 * n.z as i128;
        // never points into the surface
        assert!(dot >= 0);
        assert!((length(h) - SCALE).abs() <= 6);
    }
}
