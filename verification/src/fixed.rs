//! Fixed-point scalar arithmetic.
//!
//! A scalar is an `i64` holding `SCALE`-ths of a unit: the value `x`
//! represents the real number `x / SCALE`. Products and quotients are
//! floor-rounded, and the spec functions below give each operation its exact
//! integer meaning, so every contract in the crate is stated over plain
//! integer arithmetic.

use vstd::prelude::*;
use vstd::arithmetic::div_mod::{
    lemma_basic_div, lemma_div_by_self, lemma_div_is_ordered, lemma_div_multiples_vanish,
    lemma_div_nonincreasing, lemma_div_pos_is_pos, lemma_fundamental_div_mod,
    lemma_fundamental_div_mod_converse, lemma_mod_bound,
};
use vstd::arithmetic::mul::{lemma_mul_inequality, lemma_mul_nonnegative, lemma_mul_upper_bound};

verus! {

/// Number of fixed-point units in one: a scalar `x` stands for `x / SCALE`.
pub const SCALE: i64 = 65536;

/// Half a unit, used for pixel-jitter offsets.
pub const HALF_SCALE: i64 = 32768;

/// The smaller of two integers.
pub open spec fn min_i(a: int, b: int) -> int {
    if a < b {
        a
    } else {
        b
    }
}

/// The absolute value of an integer.
pub open spec fn abs_i(a: int) -> int {
    if a < 0 {
        -a
    } else {
        a
    }
}

/// `q` is the floor of the square root of `n`.
pub open spec fn is_isqrt(q: int, n: int) -> bool {
    0 <= q && q * q <= n && n < (q + 1) * (q + 1)
}

/// Floor square root of a nonnegative integer.
pub open spec fn sqrt_i(n: int) -> int {
    choose|q: int| is_isqrt(q, n)
}

/// Product of two fixed-point scalars.
pub open spec fn fxm(a: int, b: int) -> int {
    (a * b) / (SCALE as int)
}

/// Quotient of two fixed-point scalars; only used with a positive divisor.
pub open spec fn fxd(a: int, b: int) -> int {
    (a * (SCALE as int)) / b
}

/// Square root of a fixed-point scalar: `sqrt(a/S)` in units of `1/S`
/// is the integer square root of `a*S`.
pub open spec fn fx_sqrt_spec(a: int) -> int {
    sqrt_i(a * (SCALE as int))
}

pub proof fn lemma_isqrt_unique(q1: int, q2: int, n: int)
    requires
        is_isqrt(q1, n),
        is_isqrt(q2, n),
    ensures
        q1 == q2,
{
    if q1 < q2 {
        assert((q1 + 1) * (q1 + 1) <= q2 * q2) by (nonlinear_arith)
            requires
                0 <= q1 < q2,
        ;
    }
    if q2 < q1 {
        assert((q2 + 1) * (q2 + 1) <= q1 * q1) by (nonlinear_arith)
            requires
                0 <= q2 < q1,
        ;
    }
}

/// Every nonnegative integer has a floor square root, so `sqrt_i` denotes it.
pub proof fn lemma_isqrt_exists(n: int)
    requires
        0 <= n,
    ensures
        is_isqrt(sqrt_i(n), n),
    decreases n,
{
    if n == 0 {
        assert(is_isqrt(0, 0)) by (nonlinear_arith);
    } else {
        lemma_isqrt_exists(n - 1);
        let q = sqrt_i(n - 1);
        if n < (q + 1) * (q + 1) {
            assert(is_isqrt(q, n));
        } else {
            assert(is_isqrt(q + 1, n)) by (nonlinear_arith)
                requires
                    0 <= q,
                    q * q <= n - 1,
                    n - 1 < (q + 1) * (q + 1),
                    (q + 1) * (q + 1) <= n,
            ;
        }
    }
    assert(exists|r: int| is_isqrt(r, n));
    assert(is_isqrt(sqrt_i(n), n));
}

/// A witness for the integer square root determines `sqrt_i`.
pub proof fn lemma_isqrt_is(q: int, n: int)
    requires
        is_isqrt(q, n),
    ensures
        sqrt_i(n) == q,
{
    assert(is_isqrt(sqrt_i(n), n)) by {
        assert(exists|r: int| is_isqrt(r, n));
    }
    lemma_isqrt_unique(sqrt_i(n), q, n);
}

/// Floor division shrinks magnitudes: a bound on the dividend bounds the
/// quotient for any positive divisor.
pub proof fn lemma_div_abs(p: int, d: int, b: int)
    requires
        0 < d,
        0 <= b,
        -b <= p <= b,
    ensures
        -b <= p / d <= b,
{
    if p >= 0 {
        lemma_div_pos_is_pos(p, d);
        lemma_div_nonincreasing(p, d);
    } else {
        lemma_div_is_ordered(p, 0, d);
        assert(p / d >= p) by (nonlinear_arith)
            requires
                p < 0,
                0 < d,
        ;
    }
}

/// Magnitude bound for the fixed-point product.
pub proof fn lemma_fxm_abs(a: int, b: int, aa: int, bb: int)
    requires
        -aa <= a <= aa,
        -bb <= b <= bb,
        0 <= aa,
        0 <= bb,
    ensures
        -(aa * bb) <= a * b <= aa * bb,
        -(aa * bb) <= fxm(a, b) <= aa * bb,
        -((aa * bb) / (SCALE as int)) - 1 <= fxm(a, b) <= (aa * bb) / (SCALE as int),
{
    assert(-(aa * bb) <= a * b <= aa * bb) by (nonlinear_arith)
        requires
            -aa <= a <= aa,
            -bb <= b <= bb,
            0 <= aa,
            0 <= bb,
    ;
    lemma_div_abs(a * b, SCALE as int, aa * bb);
    lemma_div_is_ordered(a * b, aa * bb, SCALE as int);
    lemma_div_is_ordered(-(aa * bb), a * b, SCALE as int);
    lemma_div_neg_bound(aa * bb, SCALE as int);
}

/// The floor of `-x/d` is at least one below the negated floor of `x/d`.
pub proof fn lemma_div_neg_bound(x: int, d: int)
    requires
        0 <= x,
        0 < d,
    ensures
        (-x) / d >= -(x / d) - 1,
{
    lemma_fundamental_div_mod(x, d);
    lemma_mod_bound(x, d);
    let k = x / d;
    let m = x % d;
    if m == 0 {
        assert((-k) * d == -(d * k)) by (nonlinear_arith);
        lemma_fundamental_div_mod_converse(-x, d, -k, 0);
    } else {
        assert((-k - 1) * d == -(d * k) - d) by (nonlinear_arith);
        lemma_fundamental_div_mod_converse(-x, d, -k - 1, d - m);
    }
}

/// The product of two channel values in `[0, 1]` stays in `[0, 1]`.
pub proof fn lemma_fxm_unit_range(a: int, b: int)
    requires
        0 <= a <= SCALE,
        0 <= b <= SCALE,
    ensures
        0 <= fxm(a, b) <= SCALE as int,
{
    let s = SCALE as int;
    lemma_mul_nonnegative(a, b);
    lemma_mul_upper_bound(a, s, b, s);
    lemma_div_pos_is_pos(a * b, s);
    lemma_div_is_ordered(a * b, s * s, s);
    lemma_div_multiples_vanish(s, s);
}

/// Scaling by exactly one is the identity.
pub proof fn lemma_fxm_scale_id(a: int)
    ensures
        fxm(a, SCALE as int) == a,
{
    let s = SCALE as int;
    assert(a * s == s * a) by (nonlinear_arith);
    lemma_div_multiples_vanish(a, s);
}

/// A fixed-point product with a whole-number scalar is the plain product.
pub proof fn lemma_fxm_exact_mul(d: int, u: int)
    ensures
        fxm(d, u * (SCALE as int)) == d * u,
{
    let s = SCALE as int;
    assert(d * (u * s) == s * (d * u)) by (nonlinear_arith);
    lemma_div_multiples_vanish(d * u, s);
}

/// A pixel index times a per-pixel delta stays within the viewport span the
/// delta was cut from.
pub proof fn lemma_scaled_delta(vcomp: int, k: int, u: int, d: int, vb: int)
    requires
        d == vcomp / k,
        1 <= k,
        0 <= u <= k,
        -vb <= vcomp <= vb,
        0 <= vb,
    ensures
        -(vb + k) <= u * d <= vb + k,
{
    lemma_fundamental_div_mod(vcomp, k);
    lemma_mod_bound(vcomp, k);
    if d >= 0 {
        lemma_mul_nonnegative(u, d);
        lemma_mul_inequality(u, k, d);
        assert(k * d == d * k) by (nonlinear_arith);
    } else {
        assert(u * d <= 0) by (nonlinear_arith)
            requires
                0 <= u,
                d < 0,
        ;
        assert(k * d <= u * d) by (nonlinear_arith)
            requires
                0 <= u <= k,
                d < 0,
        ;
        assert(k * d == d * k) by (nonlinear_arith);
    }
}

/// A fixed-point quotient with the numerator smaller than the divisor stays
/// within one unit.
pub proof fn lemma_fxd_le_one(a: int, b: int)
    requires
        0 < b,
        -b < a < b,
    ensures
        -(SCALE as int) <= fxd(a, b) <= SCALE as int,
{
    let s = SCALE as int;
    lemma_mul_inequality(a, b - 1, s);
    assert((b - 1) * s <= b * s) by (nonlinear_arith)
        requires
            0 < s,
    ;
    lemma_div_multiples_vanish(s, b);
    lemma_div_is_ordered(a * s, b * s, b);
    lemma_mul_inequality(-b, a, s);
    assert((-b) * s == b * (-s)) by (nonlinear_arith);
    lemma_div_multiples_vanish(-s, b);
    lemma_div_is_ordered((-b) * s, a * s, b);
}

/// Scaling a scalar by a fraction below one keeps it below the scalar.
pub proof fn lemma_fxm_frac_below(d: int, rd: int)
    requires
        0 <= rd < SCALE,
        0 <= d,
    ensures
        0 <= fxm(d, rd) <= d,
        1 <= d ==> fxm(d, rd) < d,
{
    let s = SCALE as int;
    assert(0 <= d * rd && d * rd <= d * s - d) by (nonlinear_arith)
        requires
            0 <= rd <= s - 1,
            0 <= d,
    ;
    lemma_div_pos_is_pos(d * rd, s);
    assert(d * s == s * d) by (nonlinear_arith);
    lemma_div_multiples_vanish(d, s);
    lemma_div_is_ordered(d * rd, s * d, s);
    if d >= 1 {
        assert((d - 1) * s == d * s - s) by (nonlinear_arith);
        lemma_fundamental_div_mod_converse(d * s - 1, s, d - 1, s - 1);
        lemma_div_is_ordered(d * rd, d * s - 1, s);
    }
}

/// How the sign of a floor-scaled quotient relates to its dividend.
pub proof fn lemma_div_sign(x: int)
    ensures
        (x / (SCALE as int) < 0) <==> (x < 0),
        x / (SCALE as int) > 0 ==> x >= SCALE,
        x / (SCALE as int) <= 0 ==> x < SCALE,
{
    let s = SCALE as int;
    if x >= 0 {
        lemma_div_pos_is_pos(x, s);
        if x < s {
            lemma_basic_div(x, s);
        } else {
            lemma_div_by_self(s);
            lemma_div_is_ordered(s, x, s);
        }
    } else {
        lemma_div_is_ordered(x, -1, s);
        assert((-1) * s == -s) by (nonlinear_arith);
        lemma_fundamental_div_mod_converse(-1, s, -1, s - 1);
    }
}

/// Floor division of a scalar by a positive divisor, exact in the
/// Euclidean sense that the specification's `/` uses.
pub fn div_floor(p: i128, d: i128) -> (r: i128)
    requires
        0 < d,
        -0x4000_0000_0000_0000_0000_0000_0000_0000 <= p,
        p <= 0x4000_0000_0000_0000_0000_0000_0000_0000,
    ensures
        r == p as int / d as int,
{
    if p >= 0 {
        let q: u128 = (p as u128) / (d as u128);
        proof {
            lemma_div_nonincreasing(p as int, d as int);
            lemma_div_pos_is_pos(p as int, d as int);
        }
        q as i128
    } else {
        let n: u128 = (-p) as u128;
        let du: u128 = d as u128;
        let q: u128 = (n + du - 1) / du;
        proof {
            let ni = -(p as int);
            let di = d as int;
            let k = ni / di;
            let m = ni % di;
            lemma_fundamental_div_mod(ni, di);
            lemma_mod_bound(ni, di);
            lemma_div_pos_is_pos(ni, di);
            lemma_div_nonincreasing(ni + di - 1, di);
            if m == 0 {
                assert(k * di == di * k) by (nonlinear_arith);
                lemma_fundamental_div_mod_converse(ni + di - 1, di, k, di - 1);
                assert((-k) * di == -(di * k)) by (nonlinear_arith);
                lemma_fundamental_div_mod_converse(p as int, di, -k, 0);
            } else {
                assert((k + 1) * di == di * k + di) by (nonlinear_arith);
                lemma_fundamental_div_mod_converse(ni + di - 1, di, k + 1, m - 1);
                assert((-k - 1) * di == -(di * k) - di) by (nonlinear_arith);
                lemma_fundamental_div_mod_converse(p as int, di, -k - 1, di - m);
            }
        }
        -(q as i128)
    }
}

/// The fixed-point product `floor((a*b)/SCALE)`.
pub fn fx_mul(a: i64, b: i64) -> (r: i64)
    requires
        i64::MIN <= fxm(a as int, b as int) <= i64::MAX,
    ensures
        r == fxm(a as int, b as int),
{
    proof {
        lemma_mul_i64_fits(a as int, b as int);
    }
    let p: i128 = (a as i128) * (b as i128);
    let q: i128 = div_floor(p, SCALE as i128);
    q as i64
}

/// The fixed-point quotient `floor((a*SCALE)/b)`, for a positive divisor.
pub fn fx_div(a: i64, b: i64) -> (r: i64)
    requires
        0 < b,
        i64::MIN <= fxd(a as int, b as int) <= i64::MAX,
    ensures
        r == fxd(a as int, b as int),
{
    let p: i128 = (a as i128) * (SCALE as i128);
    let q: i128 = div_floor(p, b as i128);
    q as i64
}

/// The product of two 64-bit values stays within `div_floor`'s range.
pub proof fn lemma_mul_i64_fits(a: int, b: int)
    requires
        -0x8000_0000_0000_0000 <= a <= 0x7fff_ffff_ffff_ffff,
        -0x8000_0000_0000_0000 <= b <= 0x7fff_ffff_ffff_ffff,
    ensures
        -0x4000_0000_0000_0000_0000_0000_0000_0000 <= a * b,
        a * b <= 0x4000_0000_0000_0000_0000_0000_0000_0000,
{
    assert(-0x4000_0000_0000_0000_0000_0000_0000_0000 <= a * b
        <= 0x4000_0000_0000_0000_0000_0000_0000_0000) by (nonlinear_arith)
        requires
            -0x8000_0000_0000_0000 <= a <= 0x7fff_ffff_ffff_ffff,
            -0x8000_0000_0000_0000 <= b <= 0x7fff_ffff_ffff_ffff,
    ;
}

/// Integer square root by bisection.
pub fn isqrt_u128(n: u128) -> (r: u128)
    ensures
        is_isqrt(r as int, n as int),
{
    let mut lo: u128 = 0;
    let mut hi: u128 = 0x1_0000_0000_0000_0000;
    while lo + 1 < hi
        invariant
            lo < hi <= 0x1_0000_0000_0000_0000,
            lo * lo <= n,
            n < hi * hi,
        decreases hi - lo,
    {
        let mid: u128 = lo + (hi - lo) / 2;
        proof {
            assert(lo < mid < hi) by (nonlinear_arith)
                requires
                    mid == lo + (hi - lo) / 2,
                    lo + 1 < hi,
            ;
            assert(mid * mid <= u128::MAX) by (nonlinear_arith)
                requires
                    mid < 0x1_0000_0000_0000_0000,
            ;
        }
        if mid * mid <= n {
            lo = mid;
        } else {
            hi = mid;
        }
    }
    lo
}

/// Fixed-point square root of a nonnegative scalar.
pub fn fx_sqrt(a: i64) -> (r: i64)
    requires
        0 <= a,
    ensures
        r == fx_sqrt_spec(a as int),
        is_isqrt(r as int, a * SCALE),
        0 <= r,
{
    let n: u128 = (a as u128) * (SCALE as u128);
    let q: u128 = isqrt_u128(n);
    proof {
        lemma_mul_inequality(a as int, 0x8000_0000_0000_0000, SCALE as int);
        lemma_mul_upper_bound(a as int, 0x8000_0000_0000_0000, SCALE as int, SCALE as int);
        assert(q as int <= 0x1_0000_0000_0000) by (nonlinear_arith)
            requires
                is_isqrt(q as int, n as int),
                n as int <= 0x8000_0000_0000_0000 * 0x10000,
        ;
        lemma_isqrt_is(q as int, n as int);
    }
    q as i64
}

} // verus!
