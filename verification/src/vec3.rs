//! Fixed-point vectors and colors, with their integer-valued views.
//!
//! `Vec3` and `Color4` hold fixed-point components (see `fixed`). The spec
//! types `V3` and `V4` view the components as unbounded integers, and the
//! spec functions here give each vector operation its exact meaning, so the
//! geometric contracts never mention machine-integer casts.

use vstd::prelude::*;
use vstd::arithmetic::div_mod::{lemma_div_is_ordered, lemma_div_multiples_vanish};
use vstd::arithmetic::mul::lemma_mul_inequality;
use crate::fixed::{fxm, fxd, sqrt_i, is_isqrt, SCALE};

verus! {

/// A fixed-point 3-vector; components are `SCALE`-ths of a unit.
#[derive(Clone, Copy, Debug, PartialEq, Eq, Structural)]
pub struct Vec3 {
    pub x: i64,
    pub y: i64,
    pub z: i64,
}

/// An RGBA color; components are `SCALE`-ths of full intensity.
#[derive(Clone, Copy, Debug, PartialEq, Eq, Structural)]
pub struct Color4 {
    pub x: i64,
    pub y: i64,
    pub z: i64,
    pub w: i64,
}

/// Mathematical view of a 3-vector.
pub struct V3 {
    pub x: int,
    pub y: int,
    pub z: int,
}

/// Mathematical view of a color.
pub struct V4 {
    pub x: int,
    pub y: int,
    pub z: int,
    pub w: int,
}

impl Vec3 {
    /// The integer view of this vector.
    pub open spec fn v(self) -> V3 {
        V3 { x: self.x as int, y: self.y as int, z: self.z as int }
    }

    pub fn new(x: i64, y: i64, z: i64) -> (r: Vec3)
        ensures
            r.v() == (V3 { x: x as int, y: y as int, z: z as int }),
    {
        Vec3 { x, y, z }
    }
}

impl Color4 {
    /// The integer view of this color.
    pub open spec fn v(self) -> V4 {
        V4 { x: self.x as int, y: self.y as int, z: self.z as int, w: self.w as int }
    }

    pub fn new(x: i64, y: i64, z: i64, w: i64) -> (r: Color4)
        ensures
            r.v() == (V4 { x: x as int, y: y as int, z: z as int, w: w as int }),
    {
        Color4 { x, y, z, w }
    }
}

pub open spec fn zero3() -> V3 {
    V3 { x: 0, y: 0, z: 0 }
}

pub open spec fn add3(a: V3, b: V3) -> V3 {
    V3 { x: a.x + b.x, y: a.y + b.y, z: a.z + b.z }
}

pub open spec fn sub3(a: V3, b: V3) -> V3 {
    V3 { x: a.x - b.x, y: a.y - b.y, z: a.z - b.z }
}

pub open spec fn neg3(a: V3) -> V3 {
    V3 { x: -a.x, y: -a.y, z: -a.z }
}

/// Componentwise fixed-point scaling.
pub open spec fn smul3(a: V3, s: int) -> V3 {
    V3 { x: fxm(a.x, s), y: fxm(a.y, s), z: fxm(a.z, s) }
}

/// The raw (unscaled) dot product: `SCALE` times the fixed-point dot product.
pub open spec fn dot_raw(a: V3, b: V3) -> int {
    a.x * b.x + a.y * b.y + a.z * b.z
}

/// The fixed-point dot product.
pub open spec fn dot_s(a: V3, b: V3) -> int {
    dot_raw(a, b) / (SCALE as int)
}

/// The fixed-point length: the integer square root of the raw self-dot.
pub open spec fn len3(a: V3) -> int {
    sqrt_i(dot_raw(a, a))
}

/// The unit vector in the direction of `a` (for nonzero `a`).
pub open spec fn unit3(a: V3) -> V3 {
    V3 { x: fxd(a.x, len3(a)), y: fxd(a.y, len3(a)), z: fxd(a.z, len3(a)) }
}

/// Every component of `a` is within `b` of zero.
pub open spec fn in_r3(a: V3, b: int) -> bool {
    -b <= a.x <= b && -b <= a.y <= b && -b <= a.z <= b
}

/// Every component of `c` is within `b` of zero.
pub open spec fn in_r4(c: V4, b: int) -> bool {
    -b <= c.x <= b && -b <= c.y <= b && -b <= c.z <= b && -b <= c.w <= b
}

/// A raw dot product is bounded by three times the product of the
/// component bounds.
pub proof fn lemma_dot_raw_abs(a: V3, b: V3, aa: int, bb: int)
    requires
        in_r3(a, aa),
        in_r3(b, bb),
        0 <= aa,
        0 <= bb,
    ensures
        -3 * (aa * bb) <= dot_raw(a, b) <= 3 * (aa * bb),
{
    assert(-(aa * bb) <= a.x * b.x <= aa * bb) by (nonlinear_arith)
        requires
            -aa <= a.x <= aa,
            -bb <= b.x <= bb,
            0 <= aa,
            0 <= bb,
    ;
    assert(-(aa * bb) <= a.y * b.y <= aa * bb) by (nonlinear_arith)
        requires
            -aa <= a.y <= aa,
            -bb <= b.y <= bb,
            0 <= aa,
            0 <= bb,
    ;
    assert(-(aa * bb) <= a.z * b.z <= aa * bb) by (nonlinear_arith)
        requires
            -aa <= a.z <= aa,
            -bb <= b.z <= bb,
            0 <= aa,
            0 <= bb,
    ;
}

/// The raw dot product is symmetric.
pub proof fn lemma_dot_raw_sym(a: V3, b: V3)
    ensures
        dot_raw(a, b) == dot_raw(b, a),
{
    assert(a.x * b.x == b.x * a.x) by (nonlinear_arith);
    assert(a.y * b.y == b.y * a.y) by (nonlinear_arith);
    assert(a.z * b.z == b.z * a.z) by (nonlinear_arith);
}

/// Negating one side negates the raw dot product.
pub proof fn lemma_dot_raw_neg_left(a: V3, b: V3)
    ensures
        dot_raw(neg3(a), b) == -dot_raw(a, b),
{
    assert((-a.x) * b.x == -(a.x * b.x)) by (nonlinear_arith);
    assert((-a.y) * b.y == -(a.y * b.y)) by (nonlinear_arith);
    assert((-a.z) * b.z == -(a.z * b.z)) by (nonlinear_arith);
}

/// Magnitude bound for the fixed-point dot product, scaled down.
pub proof fn lemma_dot_s_abs(a: V3, b: V3, aa: int, bb: int)
    requires
        in_r3(a, aa),
        in_r3(b, bb),
        0 <= aa,
        0 <= bb,
    ensures
        -((3 * (aa * bb)) / (SCALE as int)) - 1 <= dot_s(a, b) <= (3 * (aa * bb)) / (
        SCALE as int),
{
    lemma_dot_raw_abs(a, b, aa, bb);
    lemma_div_is_ordered(dot_raw(a, b), 3 * (aa * bb), SCALE as int);
    lemma_div_is_ordered(-(3 * (aa * bb)), dot_raw(a, b), SCALE as int);
    crate::fixed::lemma_div_neg_bound(3 * (aa * bb), SCALE as int);
}

/// The raw dot product at full width.
pub fn v_dot_wide(a: &Vec3, b: &Vec3) -> (r: i128)
    requires
        in_r3(a.v(), 0x4000_0000_0000_0000),
        in_r3(b.v(), 0x4000_0000_0000_0000),
    ensures
        r == dot_raw(a.v(), b.v()),
{
    proof {
        let bb = 0x4000_0000_0000_0000;
        crate::fixed::lemma_fxm_abs(a.v().x, b.v().x, bb, bb);
        crate::fixed::lemma_fxm_abs(a.v().y, b.v().y, bb, bb);
        crate::fixed::lemma_fxm_abs(a.v().z, b.v().z, bb, bb);
    }
    (a.x as i128) * (b.x as i128) + (a.y as i128) * (b.y as i128) + (a.z as i128) * (b.z as i128)
}

/// The raw (unscaled) dot product.
pub fn v_dot_raw(a: Vec3, b: Vec3) -> (r: i64)
    requires
        in_r3(a.v(), 0x4000_0000),
        in_r3(b.v(), 0x4000_0000),
    ensures
        r == dot_raw(a.v(), b.v()),
{
    proof {
        lemma_dot_raw_abs(a.v(), b.v(), 0x4000_0000, 0x4000_0000);
        crate::fixed::lemma_fxm_abs(a.v().x, b.v().x, 0x4000_0000, 0x4000_0000);
        crate::fixed::lemma_fxm_abs(a.v().y, b.v().y, 0x4000_0000, 0x4000_0000);
        crate::fixed::lemma_fxm_abs(a.v().z, b.v().z, 0x4000_0000, 0x4000_0000);
    }
    let p: i128 = (a.x as i128) * (b.x as i128) + (a.y as i128) * (b.y as i128) + (a.z
        as i128) * (b.z as i128);
    p as i64
}

/// A vector's raw self-dot is nonnegative, and at least any one component's
/// square.
pub proof fn lemma_self_dot(a: V3)
    ensures
        dot_raw(a, a) >= 0,
        dot_raw(a, a) >= a.x * a.x,
        dot_raw(a, a) >= a.y * a.y,
        dot_raw(a, a) >= a.z * a.z,
        a != zero3() ==> dot_raw(a, a) >= 1,
{
    assert(a.x * a.x >= 0) by (nonlinear_arith);
    assert(a.y * a.y >= 0) by (nonlinear_arith);
    assert(a.z * a.z >= 0) by (nonlinear_arith);
    if a != zero3() {
        if a.x != 0 {
            assert(a.x * a.x >= 1) by (nonlinear_arith)
                requires
                    a.x != 0,
            ;
        } else if a.y != 0 {
            assert(a.y * a.y >= 1) by (nonlinear_arith)
                requires
                    a.y != 0,
            ;
        } else {
            assert(a.z * a.z >= 1) by (nonlinear_arith)
                requires
                    a.z != 0,
            ;
        }
    }
}

/// Negating a vector leaves its self-dot and length unchanged.
pub proof fn lemma_self_dot_neg(a: V3)
    ensures
        dot_raw(neg3(a), neg3(a)) == dot_raw(a, a),
        len3(neg3(a)) == len3(a),
{
    assert((-a.x) * (-a.x) == a.x * a.x) by (nonlinear_arith);
    assert((-a.y) * (-a.y) == a.y * a.y) by (nonlinear_arith);
    assert((-a.z) * (-a.z) == a.z * a.z) by (nonlinear_arith);
}

/// Normalizing a unit-scale vector at least half a unit long yields a
/// vector whose fixed-point length is within six units of one: the floor
/// rounding of the three component divisions moves the squared length by
/// at most a few units each.
pub proof fn lemma_unit3_len(a: V3)
    requires
        in_r3(a, SCALE as int),
        dot_raw(a, a) >= 0x4000_0000,
    ensures
        SCALE - 6 <= len3(unit3(a)) <= SCALE + 6,
{
    let s = SCALE as int;
    let n = dot_raw(a, a);
    lemma_self_dot(a);
    lemma_nonzero_of_dot(a);
    lemma_unit3_in_scale(a);
    let len = len3(a);
    lemma_dot_raw_abs(a, a, s, s);
    assert(32768 <= len <= 131072) by (nonlinear_arith)
        requires
            is_isqrt(len, n),
            0x4000_0000 <= n <= 3 * (s * s),
            s == 65536,
    ;
    let u = unit3(a);
    let x = dot_raw(u, u);
    lemma_self_dot(u);

    vstd::arithmetic::div_mod::lemma_fundamental_div_mod(a.x * s, len);
    vstd::arithmetic::div_mod::lemma_mod_bound(a.x * s, len);
    vstd::arithmetic::div_mod::lemma_fundamental_div_mod(a.y * s, len);
    vstd::arithmetic::div_mod::lemma_mod_bound(a.y * s, len);
    vstd::arithmetic::div_mod::lemma_fundamental_div_mod(a.z * s, len);
    vstd::arithmetic::div_mod::lemma_mod_bound(a.z * s, len);
    let ex = (a.x * s) % len;
    let ey = (a.y * s) % len;
    let ez = (a.z * s) % len;
    assert((a.x * s) * (a.x * s) == len * len * (u.x * u.x) + 2 * len * u.x * ex + ex * ex)
        by (nonlinear_arith)
        requires
            a.x * s == len * u.x + ex,
    ;
    assert((a.y * s) * (a.y * s) == len * len * (u.y * u.y) + 2 * len * u.y * ey + ey * ey)
        by (nonlinear_arith)
        requires
            a.y * s == len * u.y + ey,
    ;
    assert((a.z * s) * (a.z * s) == len * len * (u.z * u.z) + 2 * len * u.z * ez + ez * ez)
        by (nonlinear_arith)
        requires
            a.z * s == len * u.z + ez,
    ;
    assert(-(2 * s * (len * len)) <= 2 * len * u.x * ex <= 2 * s * (len * len))
        by (nonlinear_arith)
        requires
            -s <= u.x <= s,
            0 <= ex < len,
            0 < len,
    ;
    assert(-(2 * s * (len * len)) <= 2 * len * u.y * ey <= 2 * s * (len * len))
        by (nonlinear_arith)
        requires
            -s <= u.y <= s,
            0 <= ey < len,
            0 < len,
    ;
    assert(-(2 * s * (len * len)) <= 2 * len * u.z * ez <= 2 * s * (len * len))
        by (nonlinear_arith)
        requires
            -s <= u.z <= s,
            0 <= ez < len,
            0 < len,
    ;
    assert(0 <= ex * ex <= len * len && 0 <= ey * ey <= len * len && 0 <= ez * ez <= len
        * len) by (nonlinear_arith)
        requires
            0 <= ex < len,
            0 <= ey < len,
            0 <= ez < len,
    ;
    assert((a.x * s) * (a.x * s) == s * s * (a.x * a.x)) by (nonlinear_arith);
    assert((a.y * s) * (a.y * s) == s * s * (a.y * a.y)) by (nonlinear_arith);
    assert((a.z * s) * (a.z * s) == s * s * (a.z * a.z)) by (nonlinear_arith);
    assert(s * s * (a.x * a.x) + s * s * (a.y * a.y) + s * s * (a.z * a.z) == s * s * n)
        by (nonlinear_arith)
        requires
            n == a.x * a.x + a.y * a.y + a.z * a.z,
    ;
    assert(len * len * (u.x * u.x) + len * len * (u.y * u.y) + len * len * (u.z * u.z)
        == len * len * x) by (nonlinear_arith)
        requires
            x == u.x * u.x + u.y * u.y + u.z * u.z,
    ;
    let cross = 2 * len * u.x * ex + 2 * len * u.y * ey + 2 * len * u.z * ez + (ex * ex
        + ey * ey + ez * ez);
    assert(s * s * n == len * len * x + cross);
    assert(2 * s * (len * len) + 2 * s * (len * len) + 2 * s * (len * len) == 6 * s * (len
        * len)) by (nonlinear_arith);
    assert(len * len + len * len + len * len == 3 * (len * len)) by (nonlinear_arith);
    assert(-(6 * s * (len * len)) <= cross <= 6 * s * (len * len) + 3 * (len * len));

    assert((len + 1) * (len + 1) == len * len + 2 * len + 1) by (nonlinear_arith);
    assert(len * len <= n <= len * len + 2 * len);

    // lower bound: len^2 * x >= (s^2 - 6s - 3) * len^2
    assert(s * s * (len * len) <= s * s * n) by (nonlinear_arith)
        requires
            len * len <= n,
            0 <= s,
    ;
    assert(len * len * x >= len * len * (s * s - 6 * s - 3)) by (nonlinear_arith)
        requires
            len * len * x == s * s * n - cross,
            s * s * (len * len) <= s * s * n,
            cross <= 6 * s * (len * len) + 3 * (len * len),
    ;
    assert(x >= s * s - 6 * s - 3) by (nonlinear_arith)
        requires
            len * len * x >= len * len * (s * s - 6 * s - 3),
            len >= 1,
    ;

    // upper bound: len^2 * x <= (s^2 + 10s) * len^2, using len >= s/2
    assert(s * s * n <= s * s * (len * len) + 2 * (s * s) * len) by (nonlinear_arith)
        requires
            n <= len * len + 2 * len,
            0 <= s,
    ;
    assert(2 * (s * s) * len <= 4 * s * (len * len)) by (nonlinear_arith)
        requires
            2 * len >= s,
            0 < s,
            0 < len,
    ;
    assert(len * len * x <= len * len * (s * s + 10 * s)) by (nonlinear_arith)
        requires
            len * len * x == s * s * n - cross,
            s * s * n <= s * s * (len * len) + 4 * s * (len * len),
            cross >= -(6 * s * (len * len)),
    ;
    assert(x <= s * s + 10 * s) by (nonlinear_arith)
        requires
            len * len * x <= len * len * (s * s + 10 * s),
            len >= 1,
    ;

    crate::fixed::lemma_isqrt_exists(x);
    assert(s - 6 <= len3(u) <= s + 6) by (nonlinear_arith)
        requires
            is_isqrt(len3(u), x),
            s * s - 6 * s - 3 <= x <= s * s + 10 * s,
            s == 65536,
    ;
}

/// A vector with a positive raw self-dot is not the zero vector.
pub proof fn lemma_nonzero_of_dot(a: V3)
    requires
        dot_raw(a, a) >= 1,
    ensures
        a != zero3(),
{
    if a == zero3() {
        assert(dot_raw(a, a) == 0) by (nonlinear_arith)
            requires
                a.x == 0,
                a.y == 0,
                a.z == 0,
        ;
    }
}

/// The unit vector of a nonzero vector has components within `SCALE`
/// (magnitude at most one), and its length witness is positive.
pub proof fn lemma_unit3_in_scale(a: V3)
    requires
        a != zero3(),
    ensures
        1 <= len3(a),
        is_isqrt(len3(a), dot_raw(a, a)),
        in_r3(unit3(a), SCALE as int),
{
    let n = dot_raw(a, a);
    let len = len3(a);
    lemma_self_dot(a);
    crate::fixed::lemma_isqrt_exists(n);
    assert(1 <= len) by (nonlinear_arith)
        requires
            is_isqrt(len, n),
            n >= 1,
    ;
    lemma_comp_le_len(a.x, len, n);
    lemma_comp_le_len(a.y, len, n);
    lemma_comp_le_len(a.z, len, n);
    lemma_unit_div_bound(a.x, len);
    lemma_unit_div_bound(a.y, len);
    lemma_unit_div_bound(a.z, len);
}

/// A component of `a` is at most the integer square root of the self-dot.
proof fn lemma_comp_le_len(c: int, len: int, n: int)
    requires
        is_isqrt(len, n),
        n >= c * c,
    ensures
        -len <= c <= len,
{
    assert(-len <= c <= len) by (nonlinear_arith)
        requires
            0 <= len,
            len * len <= n,
            n < (len + 1) * (len + 1),
            c * c <= n,
    ;
}

/// Dividing a component by a length bound keeps it within one unit.
proof fn lemma_unit_div_bound(c: int, len: int)
    requires
        1 <= len,
        -len <= c <= len,
    ensures
        -(SCALE as int) <= fxd(c, len) <= SCALE as int,
{
    let s = SCALE as int;
    lemma_mul_inequality(c, len, s);
    assert(-(len * s) <= c * s) by (nonlinear_arith)
        requires
            -len <= c,
            0 < s,
    ;
    lemma_div_is_ordered(c * s, len * s, len);
    lemma_div_is_ordered(-(len * s), c * s, len);
    lemma_div_multiples_vanish(s, len);
    assert(len * s == s * len) by (nonlinear_arith);
    assert(-(len * s) == (-s) * len) by (nonlinear_arith);
    lemma_div_multiples_vanish(-s, len);
}

/// Componentwise vector sum.
pub fn v_add(a: Vec3, b: Vec3) -> (r: Vec3)
    requires
        i64::MIN <= a.x + b.x <= i64::MAX,
        i64::MIN <= a.y + b.y <= i64::MAX,
        i64::MIN <= a.z + b.z <= i64::MAX,
    ensures
        r.v() == add3(a.v(), b.v()),
{
    Vec3 { x: a.x + b.x, y: a.y + b.y, z: a.z + b.z }
}

/// Componentwise vector difference.
pub fn v_sub(a: Vec3, b: Vec3) -> (r: Vec3)
    requires
        i64::MIN <= a.x - b.x <= i64::MAX,
        i64::MIN <= a.y - b.y <= i64::MAX,
        i64::MIN <= a.z - b.z <= i64::MAX,
    ensures
        r.v() == sub3(a.v(), b.v()),
{
    Vec3 { x: a.x - b.x, y: a.y - b.y, z: a.z - b.z }
}

/// Componentwise negation.
pub fn v_neg(a: Vec3) -> (r: Vec3)
    requires
        a.x > i64::MIN,
        a.y > i64::MIN,
        a.z > i64::MIN,
    ensures
        r.v() == neg3(a.v()),
{
    Vec3 { x: -a.x, y: -a.y, z: -a.z }
}

/// Componentwise fixed-point scaling.
pub fn v_scale(a: Vec3, s: i64) -> (r: Vec3)
    requires
        i64::MIN <= fxm(a.x as int, s as int) <= i64::MAX,
        i64::MIN <= fxm(a.y as int, s as int) <= i64::MAX,
        i64::MIN <= fxm(a.z as int, s as int) <= i64::MAX,
    ensures
        r.v() == smul3(a.v(), s as int),
{
    Vec3 {
        x: crate::fixed::fx_mul(a.x, s),
        y: crate::fixed::fx_mul(a.y, s),
        z: crate::fixed::fx_mul(a.z, s),
    }
}

/// The fixed-point cross product.
pub open spec fn cross3(a: V3, b: V3) -> V3 {
    V3 {
        x: fxm(a.y, b.z) - fxm(a.z, b.y),
        y: fxm(a.z, b.x) - fxm(a.x, b.z),
        z: fxm(a.x, b.y) - fxm(a.y, b.x),
    }
}

/// The fixed-point cross product; for unit-scale inputs the result stays
/// within two units.
pub fn v_cross(a: Vec3, b: Vec3) -> (r: Vec3)
    requires
        in_r3(a.v(), 0x4000_0000),
        in_r3(b.v(), 0x4000_0000),
    ensures
        r.v() == cross3(a.v(), b.v()),
        in_r3(a.v(), SCALE as int) && in_r3(b.v(), SCALE as int) ==> in_r3(
            r.v(),
            2 * (SCALE as int) + 2,
        ),
{
    proof {
        let bb = 0x4000_0000;
        crate::fixed::lemma_fxm_abs(a.v().y, b.v().z, bb, bb);
        crate::fixed::lemma_fxm_abs(a.v().z, b.v().y, bb, bb);
        crate::fixed::lemma_fxm_abs(a.v().z, b.v().x, bb, bb);
        crate::fixed::lemma_fxm_abs(a.v().x, b.v().z, bb, bb);
        crate::fixed::lemma_fxm_abs(a.v().x, b.v().y, bb, bb);
        crate::fixed::lemma_fxm_abs(a.v().y, b.v().x, bb, bb);
        if in_r3(a.v(), SCALE as int) && in_r3(b.v(), SCALE as int) {
            let s = SCALE as int;
            crate::fixed::lemma_fxm_abs(a.v().y, b.v().z, s, s);
            crate::fixed::lemma_fxm_abs(a.v().z, b.v().y, s, s);
            crate::fixed::lemma_fxm_abs(a.v().z, b.v().x, s, s);
            crate::fixed::lemma_fxm_abs(a.v().x, b.v().z, s, s);
            crate::fixed::lemma_fxm_abs(a.v().x, b.v().y, s, s);
            crate::fixed::lemma_fxm_abs(a.v().y, b.v().x, s, s);
        }
    }
    Vec3 {
        x: crate::fixed::fx_mul(a.y, b.z) - crate::fixed::fx_mul(a.z, b.y),
        y: crate::fixed::fx_mul(a.z, b.x) - crate::fixed::fx_mul(a.x, b.z),
        z: crate::fixed::fx_mul(a.x, b.y) - crate::fixed::fx_mul(a.y, b.x),
    }
}

/// Componentwise floor division by a positive whole number.
pub fn v_divi(a: Vec3, k: i64) -> (r: Vec3)
    requires
        1 <= k,
        in_r3(a.v(), 0x4000_0000_0000_0000),
    ensures
        r.v() == (V3 {
            x: a.v().x / k as int,
            y: a.v().y / k as int,
            z: a.v().z / k as int,
        }),
{
    proof {
        crate::fixed::lemma_div_abs(a.v().x, k as int, 0x4000_0000_0000_0000);
        crate::fixed::lemma_div_abs(a.v().y, k as int, 0x4000_0000_0000_0000);
        crate::fixed::lemma_div_abs(a.v().z, k as int, 0x4000_0000_0000_0000);
    }
    Vec3 {
        x: crate::fixed::div_floor(a.x as i128, k as i128) as i64,
        y: crate::fixed::div_floor(a.y as i128, k as i128) as i64,
        z: crate::fixed::div_floor(a.z as i128, k as i128) as i64,
    }
}

/// The fixed-point dot product.
pub fn v_dot(a: Vec3, b: Vec3) -> (r: i64)
    requires
        in_r3(a.v(), 0x2000_0000_0000_0000),
        in_r3(b.v(), 0x2000_0000_0000_0000),
        i64::MIN <= dot_s(a.v(), b.v()) <= i64::MAX,
    ensures
        r == dot_s(a.v(), b.v()),
{
    proof {
        let bb = 0x2000_0000_0000_0000;
        lemma_dot_raw_abs(a.v(), b.v(), bb, bb);
        crate::fixed::lemma_fxm_abs(a.v().x, b.v().x, bb, bb);
        crate::fixed::lemma_fxm_abs(a.v().y, b.v().y, bb, bb);
        crate::fixed::lemma_fxm_abs(a.v().z, b.v().z, bb, bb);
    }
    let p: i128 = (a.x as i128) * (b.x as i128) + (a.y as i128) * (b.y as i128) + (a.z
        as i128) * (b.z as i128);
    let q: i128 = crate::fixed::div_floor(p, SCALE as i128);
    q as i64
}

} // verus!
