//! How far rounding can put a result from what exact arithmetic would give:
//! the length of a unit vector from 1, and the component along the normal
//! after two reflections from what it was before.

use crate::scalar::{isqrt, lemma_isqrt_bounds, lemma_mul_two, Fixed, SCALE};
use crate::util::spec_reflect;
use crate::vec3::Vec3;
use vstd::prelude::*;

verus! {

/// The largest magnitude of a component for which the bound on two
/// reflections is proved: thirty thousand.
pub const MODERATE: i64 = 30_000_000_000_000;

/// No component is above thirty thousand in magnitude.
pub open spec fn spec_moderate(v: Vec3) -> bool {
    &&& -MODERATE <= v.x.raw <= MODERATE
    &&& -MODERATE <= v.y.raw <= MODERATE
    &&& -MODERATE <= v.z.raw <= MODERATE
}

/// The magnitude of an integer.
pub open spec fn spec_magnitude(x: int) -> int {
    if x < 0 {
        -x
    } else {
        x
    }
}

/// A root is below its successor's root: squares order as their roots do.
proof fn lemma_square_order(x: int, y: int)
    requires
        0 <= x,
        0 <= y,
        x * x < y * y,
    ensures
        x < y,
{
    if x >= y {
        assert(x * x >= y * y) by (nonlinear_arith)
            requires
                x >= y,
                y >= 0,
        ;
    }
}

/// One component of a vector over the vector's zoomed length: the quotient
/// is at most 1, and its square times the squared length is the square of the
/// component, less at most twice the component times the length.
proof fn lemma_unit_part(a: int, k: int, len: int, exact: int)
    requires
        0 <= a,
        1 <= k,
        0 < len,
        a * a <= exact,
        len * len <= exact * (k * k) < (len + 1) * (len + 1),
    ensures
        ({
            let b = a * k;
            let u = (a * 1_000_000_000 * k) / len;
            &&& 0 <= b <= len
            &&& 0 <= u <= 1_000_000_000
            &&& (u * u) * (len * len) <= 1_000_000_000_000_000_000 * (b * b)
            &&& (u * u) * (len * len) >= 1_000_000_000_000_000_000 * (b * b) - 2_000_000_000 * (b
                * len)
            &&& b * b == (a * a) * (k * k)
        }),
{
    let b = a * k;
    assert(b >= 0) by (nonlinear_arith)
        requires
            b == a * k,
            a >= 0,
            k >= 1,
    ;
    assert(b * b == (a * a) * (k * k)) by (nonlinear_arith)
        requires
            b == a * k,
    ;
    assert((a * a) * (k * k) <= exact * (k * k)) by (nonlinear_arith)
        requires
            a * a <= exact,
            k >= 1,
    ;
    lemma_square_order(b, len + 1);
    let t = b * 1_000_000_000;
    assert(a * 1_000_000_000 * k == t) by (nonlinear_arith)
        requires
            b == a * k,
            t == b * 1_000_000_000,
    ;
    let u = t / len;
    vstd::arithmetic::div_mod::lemma_fundamental_div_mod(t, len);
    vstd::arithmetic::div_mod::lemma_div_pos_is_pos(t, len);
    let w = u * len;
    assert(len * u == w) by (nonlinear_arith)
        requires
            w == u * len,
    ;
    assert(0 <= w <= t < w + len);
    if u > 1_000_000_000 {
        assert(w >= 1_000_000_001 * len) by (nonlinear_arith)
            requires
                w == u * len,
                u >= 1_000_000_001,
                len > 0,
        ;
        assert(t <= 1_000_000_000 * len);
    }
    assert(w * w <= t * t) by (nonlinear_arith)
        requires
            0 <= w <= t,
    ;
    assert(w * w >= t * t - 2 * (t * len)) by (nonlinear_arith)
        requires
            0 <= w,
            0 <= t,
            0 < len,
            t < w + len,
    ;
    assert(w * w == (u * u) * (len * len)) by (nonlinear_arith)
        requires
            w == u * len,
    ;
    assert(t * t == 1_000_000_000_000_000_000 * (b * b)) by (nonlinear_arith)
        requires
            t == b * 1_000_000_000,
    ;
    assert(2 * (t * len) == 2_000_000_000 * (b * len)) by (nonlinear_arith)
        requires
            t == b * 1_000_000_000,
    ;
}

/// The pure inequality behind the length of a unit vector.
proof fn lemma_unit_sum(len: int, scaled: int, bx: int, by: int, bz: int, unit_exact: int)
    requires
        len >= 1_000_000_000,
        len * len <= scaled < (len + 1) * (len + 1),
        0 <= bx <= len,
        0 <= by <= len,
        0 <= bz <= len,
        scaled == bx * bx + by * by + bz * bz,
        unit_exact * (len * len) <= 1_000_000_000_000_000_000 * scaled,
        unit_exact * (len * len) >= 1_000_000_000_000_000_000 * scaled - 2_000_000_000 * ((bx + by
            + bz) * len),
    ensures
        999_999_996 * 999_999_996 <= unit_exact < 1_000_000_001 * 1_000_000_001,
{
    let l2 = len * len;
    assert(l2 >= 1_000_000_000 * len && l2 > 0) by (nonlinear_arith)
        requires
            l2 == len * len,
            len >= 1_000_000_000,
    ;
    assert((len + 1) * (len + 1) == l2 + 2 * len + 1) by (nonlinear_arith)
        requires
            l2 == len * len,
    ;
    assert(1_000_000_001int * 1_000_000_001 == 1_000_000_002_000_000_001) by (nonlinear_arith);
    assert(999_999_996int * 999_999_996 == 999_999_992_000_000_016) by (nonlinear_arith);
    if unit_exact >= 1_000_000_002_000_000_001 {
        assert(unit_exact * l2 >= 1_000_000_002_000_000_001 * l2) by (nonlinear_arith)
            requires
                unit_exact >= 1_000_000_002_000_000_001,
                l2 >= 0,
        ;
        assert(1_000_000_000_000_000_000 * scaled <= 1_000_000_000_000_000_000 * (l2 + 2 * len))
            by (nonlinear_arith)
            requires
                scaled <= l2 + 2 * len,
        ;
        assert(false);
    }
    assert((bx + by + bz) * len <= 3 * l2) by (nonlinear_arith)
        requires
            0 <= bx + by + bz <= 3 * len,
            l2 == len * len,
            len > 0,
    ;
    assert(1_000_000_000_000_000_000 * scaled >= 1_000_000_000_000_000_000 * l2)
        by (nonlinear_arith)
        requires
            scaled >= l2,
    ;
    let floor = 1_000_000_000_000_000_000 - 6_000_000_000;
    assert(unit_exact * l2 >= floor * l2) by (nonlinear_arith)
        requires
            unit_exact * l2 >= 1_000_000_000_000_000_000 * l2 - 2_000_000_000 * (3 * l2),
            floor == 1_000_000_000_000_000_000 - 6_000_000_000,
    ;
    assert(unit_exact >= floor) by (nonlinear_arith)
        requires
            unit_exact * l2 >= floor * l2,
            l2 > 0,
    ;
}

/// The zoomed length of a vector that is not the zero vector is at least 1
/// in raw units of the unit vector: at least `SCALE`.
proof fn lemma_zoomed_length(v: Vec3)
    requires
        v.spec_exact_squared() > 0,
    ensures
        v.spec_zoomed_length() >= 0x8000_0000,
        v.spec_zoomed_length() * v.spec_zoomed_length() <= v.spec_exact_squared() * (v.spec_zoom()
            * v.spec_zoom()),
        v.spec_exact_squared() * (v.spec_zoom() * v.spec_zoom()) < (v.spec_zoomed_length() + 1) * (
        v.spec_zoomed_length() + 1),
{
    let exact = v.spec_exact_squared();
    let k = v.spec_zoom();
    let n = exact * (k * k);
    let x = v.x.raw as int;
    let y = v.y.raw as int;
    let z = v.z.raw as int;
    assert(0 <= x * x && 0 <= y * y && 0 <= z * z) by (nonlinear_arith);
    if v.spec_is_small() {
        assert(k * k == 0x1_0000_0000_0000_0000) by (nonlinear_arith)
            requires
                k == 0x1_0000_0000,
        ;
        assert(n >= 0x1_0000_0000_0000_0000) by (nonlinear_arith)
            requires
                n == exact * 0x1_0000_0000_0000_0000,
                exact >= 1,
        ;
    } else {
        assert(k * k == 1) by (nonlinear_arith)
            requires
                k == 1,
        ;
        assert(n == exact) by (nonlinear_arith)
            requires
                n == exact * 1,
        ;
        assert(x * x >= 0x4000_0000_0000_0000 || y * y >= 0x4000_0000_0000_0000 || z * z
            >= 0x4000_0000_0000_0000) by (nonlinear_arith)
            requires
                x <= -0x8000_0000 || x >= 0x8000_0000 || y <= -0x8000_0000 || y >= 0x8000_0000 || z
                    <= -0x8000_0000 || z >= 0x8000_0000,
        ;
    }
    assert(n >= 0x4000_0000_0000_0000);
    lemma_isqrt_bounds(n);
    let len = isqrt(n);
    if len < 0x8000_0000 {
        assert((len + 1) * (len + 1) <= 0x4000_0000_0000_0000) by (nonlinear_arith)
            requires
                0 <= len < 0x8000_0000,
        ;
    }
}

/// The unit vector of any vector but the zero vector: no component is above
/// 1 in magnitude, none is clamped, and the exact length is 1 or at most four
/// raw units less.
pub proof fn lemma_unit_vector(v: Vec3)
    requires
        v.spec_length().raw != 0,
    ensures
        ({
            let u = v.spec_unit_vector();
            &&& -SCALE <= u.x.raw <= SCALE
            &&& -SCALE <= u.y.raw <= SCALE
            &&& -SCALE <= u.z.raw <= SCALE
            &&& SCALE - 4 <= u.spec_length().raw <= SCALE
            &&& 999_999_996 * 999_999_996 <= u.spec_exact_squared() < 1_000_000_001
                * 1_000_000_001
            &&& v.spec_zoomed_length() > 0
            &&& spec_near_unit(u)
            &&& spec_unit(u)
        }),
{
    let exact = v.spec_exact_squared();
    let x = v.x.raw as int;
    let y = v.y.raw as int;
    let z = v.z.raw as int;
    assert(0 <= x * x && 0 <= y * y && 0 <= z * z) by (nonlinear_arith);
    assert(exact > 0) by {
        if exact == 0 {
            assert(isqrt(0) == 0);
        }
    }
    lemma_zoomed_length(v);
    let k = v.spec_zoom();
    let len = v.spec_zoomed_length();
    let ax = spec_magnitude(x);
    let ay = spec_magnitude(y);
    let az = spec_magnitude(z);
    assert(ax * ax == x * x && ay * ay == y * y && az * az == z * z) by (nonlinear_arith)
        requires
            ax == x || ax == -x,
            ay == y || ay == -y,
            az == z || az == -z,
    ;
    lemma_unit_part(ax, k, len, exact);
    lemma_unit_part(ay, k, len, exact);
    lemma_unit_part(az, k, len, exact);
    let u = v.spec_unit_vector();
    let qx = (ax * 1_000_000_000 * k) / len;
    let qy = (ay * 1_000_000_000 * k) / len;
    let qz = (az * 1_000_000_000 * k) / len;
    assert(x * 1_000_000_000 * k == ax * 1_000_000_000 * k || x * 1_000_000_000 * k == -(ax
        * 1_000_000_000 * k)) by (nonlinear_arith)
        requires
            ax == x || ax == -x,
    ;
    assert(y * 1_000_000_000 * k == ay * 1_000_000_000 * k || y * 1_000_000_000 * k == -(ay
        * 1_000_000_000 * k)) by (nonlinear_arith)
        requires
            ay == y || ay == -y,
    ;
    assert(z * 1_000_000_000 * k == az * 1_000_000_000 * k || z * 1_000_000_000 * k == -(az
        * 1_000_000_000 * k)) by (nonlinear_arith)
        requires
            az == z || az == -z,
    ;
    assert(0 <= ax * 1_000_000_000 * k && 0 <= ay * 1_000_000_000 * k && 0 <= az * 1_000_000_000
        * k) by (nonlinear_arith)
        requires
            ax >= 0,
            ay >= 0,
            az >= 0,
            k >= 1,
    ;
    assert(u.x.raw == qx || u.x.raw == -qx);
    assert(u.y.raw == qy || u.y.raw == -qy);
    assert(u.z.raw == qz || u.z.raw == -qz);
    assert(u.x.raw * u.x.raw == qx * qx && u.y.raw * u.y.raw == qy * qy && u.z.raw * u.z.raw == qz
        * qz) by (nonlinear_arith)
        requires
            u.x.raw == qx || u.x.raw == -qx,
            u.y.raw == qy || u.y.raw == -qy,
            u.z.raw == qz || u.z.raw == -qz,
    ;
    let unit_exact = u.spec_exact_squared();
    let bx = ax * k;
    let by = ay * k;
    let bz = az * k;
    let scaled = exact * (k * k);
    assert(scaled == bx * bx + by * by + bz * bz) by (nonlinear_arith)
        requires
            scaled == exact * (k * k),
            exact == ax * ax + ay * ay + az * az,
            bx * bx == (ax * ax) * (k * k),
            by * by == (ay * ay) * (k * k),
            bz * bz == (az * az) * (k * k),
    ;
    let l2 = len * len;
    assert(unit_exact * l2 == (qx * qx) * l2 + (qy * qy) * l2 + (qz * qz) * l2)
        by (nonlinear_arith)
        requires
            unit_exact == qx * qx + qy * qy + qz * qz,
    ;
    assert(1_000_000_000_000_000_000 * scaled == 1_000_000_000_000_000_000 * (bx * bx)
        + 1_000_000_000_000_000_000 * (by * by) + 1_000_000_000_000_000_000 * (bz * bz))
        by (nonlinear_arith)
        requires
            scaled == bx * bx + by * by + bz * bz,
    ;
    assert(2_000_000_000 * ((bx + by + bz) * len) == 2_000_000_000 * (bx * len) + 2_000_000_000
        * (by * len) + 2_000_000_000 * (bz * len)) by (nonlinear_arith);
    lemma_unit_sum(len, scaled, bx, by, bz, unit_exact);
    lemma_isqrt_bounds(unit_exact);
    let root = isqrt(unit_exact);
    lemma_square_order(root, 1_000_000_001);
    lemma_square_order(999_999_996, root + 1);
}

/// The squared length of `n` is 1 to within one part in ten thousand, and no
/// component is above 2 in magnitude.
pub open spec fn spec_near_unit(n: Vec3) -> bool {
    let exact = n.x.raw * n.x.raw + n.y.raw * n.y.raw + n.z.raw * n.z.raw;
    &&& -2_000_000_000 <= n.x.raw <= 2_000_000_000
    &&& -2_000_000_000 <= n.y.raw <= 2_000_000_000
    &&& -2_000_000_000 <= n.z.raw <= 2_000_000_000
    &&& 1_000_000_000_000_000_000 - 100_000_000_000_000 <= exact
    &&& exact <= 1_000_000_000_000_000_000 + 100_000_000_000_000
}

/// No component is above a million in magnitude.
pub open spec fn spec_within_a_million(v: Vec3) -> bool {
    &&& -1_000_000_000_000_000 <= v.x.raw <= 1_000_000_000_000_000
    &&& -1_000_000_000_000_000 <= v.y.raw <= 1_000_000_000_000_000
    &&& -1_000_000_000_000_000 <= v.z.raw <= 1_000_000_000_000_000
}

/// A product with a factor of magnitude at most 2 is the exact product over
/// `SCALE`, less than one raw unit off.
proof fn lemma_product(a: Fixed, b: Fixed)
    requires
        -1_000_000_000_000_000_000 <= a.raw <= 1_000_000_000_000_000_000,
        -2_000_000_000 <= b.raw <= 2_000_000_000,
    ensures
        a.spec_mul(b) == b.spec_mul(a),
        -1_000_000_000 < a.spec_mul(b).raw * 1_000_000_000 - a.raw * b.raw < 1_000_000_000,
        -2_000_000_000 * spec_magnitude(a.raw as int) <= a.spec_mul(b).raw * 1_000_000_000
            <= 2_000_000_000 * spec_magnitude(a.raw as int),
{
    let p = a.raw * b.raw;
    assert(p == b.raw * a.raw) by (nonlinear_arith)
        requires
            p == a.raw * b.raw,
    ;
    let m = spec_magnitude(a.raw as int);
    assert(-2_000_000_000 * m <= p <= 2_000_000_000 * m) by (nonlinear_arith)
        requires
            p == a.raw * b.raw,
            m == a.raw || m == -a.raw,
            m >= 0,
            -2_000_000_000 <= b.raw <= 2_000_000_000,
    ;
    let q = if p >= 0 {
        p
    } else {
        -p
    };
    assert(q == 1_000_000_000 * (q / 1_000_000_000) + q % 1_000_000_000);
}

/// What one component adds to the dot product after a reflection.
proof fn lemma_step_component(v: int, n: int, t: int, dot: int, m: int, w: int, u: int)
    requires
        -2_000_000_000 <= n <= 2_000_000_000,
        -1_000_000_000 < t * 1_000_000_000 - v * n < 1_000_000_000,
        -1_000_000_000 < m * 1_000_000_000 - n * (2 * dot) < 1_000_000_000,
        w == v - m,
        -1_000_000_000 < u * 1_000_000_000 - w * n < 1_000_000_000,
    ensures
        -4_000_000_000_000_000_000 < 1_000_000_000_000_000_000 * u - 1_000_000_000_000_000_000 * t
            + 2 * (dot * (n * n)) < 4_000_000_000_000_000_000,
{
    let g = t * 1_000_000_000 - v * n;
    let h = m * 1_000_000_000 - n * (2 * dot);
    let gp = u * 1_000_000_000 - w * n;
    assert(1_000_000_000_000_000_000 * u - 1_000_000_000_000_000_000 * t + 2 * (dot * (n * n))
        == 1_000_000_000 * gp - 1_000_000_000 * g - n * h) by (nonlinear_arith)
        requires
            g == t * 1_000_000_000 - v * n,
            h == m * 1_000_000_000 - n * (2 * dot),
            gp == u * 1_000_000_000 - w * n,
            w == v - m,
    ;
    assert(-2_000_000_000_000_000_000 <= n * h <= 2_000_000_000_000_000_000) by (nonlinear_arith)
        requires
            -2_000_000_000 <= n <= 2_000_000_000,
            -1_000_000_000 < h < 1_000_000_000,
    ;
}

/// The dot product with a nearly unit normal is the sum of three products,
/// none of them clamped.
proof fn lemma_dot_parts(v: Vec3, n: Vec3)
    requires
        spec_near_unit(n),
        spec_within_a_million(v),
    ensures
        v.spec_dot(n).raw == v.x.spec_mul(n.x).raw + v.y.spec_mul(n.y).raw + v.z.spec_mul(n.z).raw,
        -6_000_000_000_000_000 <= v.spec_dot(n).raw <= 6_000_000_000_000_000,
        -1_000_000_000 < v.x.spec_mul(n.x).raw * 1_000_000_000 - v.x.raw * n.x.raw < 1_000_000_000,
        -1_000_000_000 < v.y.spec_mul(n.y).raw * 1_000_000_000 - v.y.raw * n.y.raw < 1_000_000_000,
        -1_000_000_000 < v.z.spec_mul(n.z).raw * 1_000_000_000 - v.z.raw * n.z.raw < 1_000_000_000,
{
    lemma_product(v.x, n.x);
    lemma_product(v.y, n.y);
    lemma_product(v.z, n.z);
}

/// A reflection in a nearly unit normal takes from every component the
/// normal's component times twice the dot product, none of it clamped.
proof fn lemma_reflect_parts(v: Vec3, n: Vec3)
    requires
        spec_near_unit(n),
        spec_within_a_million(v),
    ensures
        ({
            let d = v.spec_dot(n).raw;
            let w = spec_reflect(v, n);
            &&& -1_000_000_000 < (v.x.raw - w.x.raw) * 1_000_000_000 - n.x.raw * (2 * d)
                < 1_000_000_000
            &&& -1_000_000_000 < (v.y.raw - w.y.raw) * 1_000_000_000 - n.y.raw * (2 * d)
                < 1_000_000_000
            &&& -1_000_000_000 < (v.z.raw - w.z.raw) * 1_000_000_000 - n.z.raw * (2 * d)
                < 1_000_000_000
            &&& -4 * spec_magnitude(d as int) <= v.x.raw - w.x.raw <= 4 * spec_magnitude(
                d as int,
            )
            &&& -4 * spec_magnitude(d as int) <= v.y.raw - w.y.raw <= 4 * spec_magnitude(
                d as int,
            )
            &&& -4 * spec_magnitude(d as int) <= v.z.raw - w.z.raw <= 4 * spec_magnitude(
                d as int,
            )
        }),
{
    lemma_dot_parts(v, n);
    let d = v.spec_dot(n);
    lemma_mul_two(d);
    let k = Fixed::spec_from_int(2).spec_mul(d);
    assert(k.raw == 2 * d.raw);
    lemma_product(k, n.x);
    lemma_product(k, n.y);
    lemma_product(k, n.z);
    assert(k.raw * n.x.raw == n.x.raw * (2 * d.raw) && k.raw * n.y.raw == n.y.raw * (2 * d.raw)
        && k.raw * n.z.raw == n.z.raw * (2 * d.raw)) by (nonlinear_arith)
        requires
            k.raw == 2 * d.raw,
    ;
    let a = spec_magnitude(d.raw as int);
    assert(spec_magnitude(k.raw as int) == 2 * a);
}

/// The sum of what the three components add.
proof fn lemma_step_sum(
    vx: int,
    vy: int,
    vz: int,
    nx: int,
    ny: int,
    nz: int,
    tx: int,
    ty: int,
    tz: int,
    wx: int,
    wy: int,
    wz: int,
    ux: int,
    uy: int,
    uz: int,
)
    requires
        -2_000_000_000 <= nx <= 2_000_000_000,
        -2_000_000_000 <= ny <= 2_000_000_000,
        -2_000_000_000 <= nz <= 2_000_000_000,
        -1_000_000_000 < tx * 1_000_000_000 - vx * nx < 1_000_000_000,
        -1_000_000_000 < ty * 1_000_000_000 - vy * ny < 1_000_000_000,
        -1_000_000_000 < tz * 1_000_000_000 - vz * nz < 1_000_000_000,
        -1_000_000_000 < (vx - wx) * 1_000_000_000 - nx * (2 * (tx + ty + tz)) < 1_000_000_000,
        -1_000_000_000 < (vy - wy) * 1_000_000_000 - ny * (2 * (tx + ty + tz)) < 1_000_000_000,
        -1_000_000_000 < (vz - wz) * 1_000_000_000 - nz * (2 * (tx + ty + tz)) < 1_000_000_000,
        -1_000_000_000 < ux * 1_000_000_000 - wx * nx < 1_000_000_000,
        -1_000_000_000 < uy * 1_000_000_000 - wy * ny < 1_000_000_000,
        -1_000_000_000 < uz * 1_000_000_000 - wz * nz < 1_000_000_000,
    ensures
        -12_000_000_000_000_000_000 < 1_000_000_000_000_000_000 * (ux + uy + uz)
            - 1_000_000_000_000_000_000 * (tx + ty + tz) + 2 * ((tx + ty + tz) * (nx * nx + ny * ny
            + nz * nz)) < 12_000_000_000_000_000_000,
{
    let d = tx + ty + tz;
    lemma_step_component(vx, nx, tx, d, vx - wx, wx, ux);
    lemma_step_component(vy, ny, ty, d, vy - wy, wy, uy);
    lemma_step_component(vz, nz, tz, d, vz - wz, wz, uz);
    assert(d * (nx * nx + ny * ny + nz * nz) == d * (nx * nx) + d * (ny * ny) + d * (nz * nz))
        by (nonlinear_arith);
}

/// One reflection in a nearly unit normal nearly negates the component along
/// the normal.
proof fn lemma_reflect_step(v: Vec3, n: Vec3)
    requires
        spec_near_unit(n),
        spec_within_a_million(v),
    ensures
        ({
            let exact = n.x.raw * n.x.raw + n.y.raw * n.y.raw + n.z.raw * n.z.raw;
            let before = v.spec_dot(n).raw;
            let after = spec_reflect(v, n).spec_dot(n).raw;
            &&& -12_000_000_000_000_000_000 < 1_000_000_000_000_000_000 * after
                - 1_000_000_000_000_000_000 * before + 2 * (before * exact)
            &&& 1_000_000_000_000_000_000 * after - 1_000_000_000_000_000_000 * before + 2 * (before
                * exact) < 12_000_000_000_000_000_000
        }),
        spec_moderate(v) ==> spec_within_a_million(spec_reflect(v, n)),
{
    lemma_dot_parts(v, n);
    lemma_reflect_parts(v, n);
    let w = spec_reflect(v, n);
    let d = v.spec_dot(n).raw as int;
    let a = spec_magnitude(d);
    if spec_moderate(v) {
        lemma_moderate_dot(v, n);
        assert(spec_within_a_million(w));
    }
    assert(-1_000_000_000_000_000_000 <= w.x.raw <= 1_000_000_000_000_000_000);
    assert(-1_000_000_000_000_000_000 <= w.y.raw <= 1_000_000_000_000_000_000);
    assert(-1_000_000_000_000_000_000 <= w.z.raw <= 1_000_000_000_000_000_000);
    lemma_product(w.x, n.x);
    lemma_product(w.y, n.y);
    lemma_product(w.z, n.z);
    let ux = w.x.spec_mul(n.x).raw as int;
    let uy = w.y.spec_mul(n.y).raw as int;
    let uz = w.z.spec_mul(n.z).raw as int;
    assert(-2_000_000_000_000_000_000 <= ux <= 2_000_000_000_000_000_000);
    assert(-2_000_000_000_000_000_000 <= uy <= 2_000_000_000_000_000_000);
    assert(-2_000_000_000_000_000_000 <= uz <= 2_000_000_000_000_000_000);
    assert(w.spec_dot(n).raw == ux + uy + uz);
    lemma_step_sum(
        v.x.raw as int,
        v.y.raw as int,
        v.z.raw as int,
        n.x.raw as int,
        n.y.raw as int,
        n.z.raw as int,
        v.x.spec_mul(n.x).raw as int,
        v.y.spec_mul(n.y).raw as int,
        v.z.spec_mul(n.z).raw as int,
        w.x.raw as int,
        w.y.raw as int,
        w.z.raw as int,
        ux,
        uy,
        uz,
    );
}

/// The dot product of a moderate vector with a nearly unit normal is at most
/// 180 thousand in magnitude.
proof fn lemma_moderate_dot(v: Vec3, n: Vec3)
    requires
        spec_near_unit(n),
        spec_moderate(v),
    ensures
        -180_000_000_000_001 <= v.spec_dot(n).raw <= 180_000_000_000_001,
{
    lemma_product(v.x, n.x);
    lemma_product(v.y, n.y);
    lemma_product(v.z, n.z);
}

/// The pure inequality behind the bound on two reflections.
proof fn lemma_twice(d: int, d1: int, d2: int, mu: int, r1: int, r2: int)
    requires
        -100_000_000_000_000 <= mu <= 100_000_000_000_000,
        -12_000_000_000_000_000_000 < r1 < 12_000_000_000_000_000_000,
        -12_000_000_000_000_000_000 < r2 < 12_000_000_000_000_000_000,
        1_000_000_000_000_000_000 * d1 == -1_000_000_000_000_000_000 * d - 2 * (d * mu) + r1,
        1_000_000_000_000_000_000 * d2 == -1_000_000_000_000_000_000 * d1 - 2 * (d1 * mu) + r2,
    ensures
        2000 * (d2 - d) <= spec_magnitude(d) + 50_000,
        2000 * (d - d2) <= spec_magnitude(d) + 50_000,
{
    let a = spec_magnitude(d);
    let x = d - d1;
    assert(-100_000_000_000_000 * a <= d * mu <= 100_000_000_000_000 * a) by (nonlinear_arith)
        requires
            -100_000_000_000_000 <= mu <= 100_000_000_000_000,
            a >= 0,
            d == a || d == -a,
    ;
    // 10^18 x = 2 * 10^18 d + 2 d mu - r1
    assert(1_000_000_000_000_000_000 * x == 2_000_000_000_000_000_000 * d + 2 * (d * mu) - r1);
    assert(10_000 * x <= 20_002 * a + 120_000 && 10_000 * x >= -20_002 * a - 120_000);
    let b = spec_magnitude(x);
    assert(-100_000_000_000_000 * b <= x * mu <= 100_000_000_000_000 * b) by (nonlinear_arith)
        requires
            -100_000_000_000_000 <= mu <= 100_000_000_000_000,
            b >= 0,
            x == b || x == -b,
    ;
    assert(d1 * mu == d * mu - x * mu) by (nonlinear_arith)
        requires
            x == d - d1,
    ;
    // 10^18 (d2 - d) = 2 mu x + r2 - r1
    assert(1_000_000_000_000_000_000 * (d2 - d) == 2 * (x * mu) + r2 - r1);
}

/// Reflecting twice in the same nearly unit normal keeps the component along
/// the normal, to within one part in two thousand and twenty-five raw units.
pub proof fn lemma_reflect_twice_near_unit(v: Vec3, n: Vec3)
    requires
        spec_near_unit(n),
        spec_moderate(v),
    ensures
        ({
            let before = v.spec_dot(n).raw;
            let after = spec_reflect(spec_reflect(v, n), n).spec_dot(
                n,
            ).raw;
            &&& 2000 * (after - before) <= spec_magnitude(before as int) + 50_000
            &&& 2000 * (before - after) <= spec_magnitude(before as int) + 50_000
        }),
{
    let w = spec_reflect(v, n);
    lemma_reflect_step(v, n);
    lemma_reflect_step(w, n);
    let exact = n.x.raw * n.x.raw + n.y.raw * n.y.raw + n.z.raw * n.z.raw;
    let mu = exact - 1_000_000_000_000_000_000;
    let d = v.spec_dot(n).raw as int;
    let d1 = w.spec_dot(n).raw as int;
    let d2 = spec_reflect(w, n).spec_dot(n).raw as int;
    assert(d * exact == d * mu + 1_000_000_000_000_000_000 * d) by (nonlinear_arith)
        requires
            mu == exact - 1_000_000_000_000_000_000,
    ;
    assert(d1 * exact == d1 * mu + 1_000_000_000_000_000_000 * d1) by (nonlinear_arith)
        requires
            mu == exact - 1_000_000_000_000_000_000,
    ;
    let r1 = 1_000_000_000_000_000_000 * d1 + 1_000_000_000_000_000_000 * d + 2 * (d * mu);
    let r2 = 1_000_000_000_000_000_000 * d2 + 1_000_000_000_000_000_000 * d1 + 2 * (d1 * mu);
    lemma_twice(d, d1, d2, mu, r1, r2);
}

/// A vector of unit length, as `unit_vector` returns it: no component is
/// above 1 in magnitude, and the exact length is 1 or at most four raw units
/// less.
pub open spec fn spec_unit(n: Vec3) -> bool {
    &&& -SCALE <= n.x.raw <= SCALE
    &&& -SCALE <= n.y.raw <= SCALE
    &&& -SCALE <= n.z.raw <= SCALE
    &&& 999_999_992_000_000_016 <= n.spec_exact_squared() < 1_000_000_002_000_000_001
}

/// The pure inequality behind the bound on two reflections in a unit normal.
proof fn lemma_twice_unit(d: int, d1: int, d2: int, mu: int, r1: int, r2: int)
    requires
        -8_000_000_000 <= mu <= 8_000_000_000,
        -12_000_000_000_000_000_000 < r1 < 12_000_000_000_000_000_000,
        -12_000_000_000_000_000_000 < r2 < 12_000_000_000_000_000_000,
        1_000_000_000_000_000_000 * d1 == -1_000_000_000_000_000_000 * d - 2 * (d * mu) + r1,
        1_000_000_000_000_000_000 * d2 == -1_000_000_000_000_000_000 * d1 - 2 * (d1 * mu) + r2,
    ensures
        30_000_000 * (d2 - d) <= spec_magnitude(d) + 750_000_000,
        30_000_000 * (d - d2) <= spec_magnitude(d) + 750_000_000,
{
    let a = spec_magnitude(d);
    let x = d - d1;
    assert(-8_000_000_000 * a <= d * mu <= 8_000_000_000 * a) by (nonlinear_arith)
        requires
            -8_000_000_000 <= mu <= 8_000_000_000,
            a >= 0,
            d == a || d == -a,
    ;
    assert(1_000_000_000_000_000_000 * x == 2_000_000_000_000_000_000 * d + 2 * (d * mu) - r1);
    assert(100_000_000 * x <= 200_000_002 * a + 1_200_000_000 && 100_000_000 * x >= -200_000_002
        * a - 1_200_000_000);
    let b = spec_magnitude(x);
    assert(-8_000_000_000 * b <= x * mu <= 8_000_000_000 * b) by (nonlinear_arith)
        requires
            -8_000_000_000 <= mu <= 8_000_000_000,
            b >= 0,
            x == b || x == -b,
    ;
    assert(d1 * mu == d * mu - x * mu) by (nonlinear_arith)
        requires
            x == d - d1,
    ;
    assert(1_000_000_000_000_000_000 * (d2 - d) == 2 * (x * mu) + r2 - r1);
}

/// Reflecting twice in the same unit normal keeps the component along the
/// normal, to within one part in thirty million and twenty-five raw units.
pub proof fn lemma_reflect_twice_unit(v: Vec3, n: Vec3)
    requires
        spec_unit(n),
        spec_moderate(v),
    ensures
        ({
            let before = v.spec_dot(n).raw;
            let after = spec_reflect(spec_reflect(v, n), n).spec_dot(n).raw;
            &&& 30_000_000 * (after - before) <= spec_magnitude(before as int) + 750_000_000
            &&& 30_000_000 * (before - after) <= spec_magnitude(before as int) + 750_000_000
        }),
{
    let w = spec_reflect(v, n);
    lemma_reflect_step(v, n);
    lemma_reflect_step(w, n);
    let exact = n.x.raw * n.x.raw + n.y.raw * n.y.raw + n.z.raw * n.z.raw;
    let mu = exact - 1_000_000_000_000_000_000;
    let d = v.spec_dot(n).raw as int;
    let d1 = w.spec_dot(n).raw as int;
    let d2 = spec_reflect(w, n).spec_dot(n).raw as int;
    assert(d * exact == d * mu + 1_000_000_000_000_000_000 * d) by (nonlinear_arith)
        requires
            mu == exact - 1_000_000_000_000_000_000,
    ;
    assert(d1 * exact == d1 * mu + 1_000_000_000_000_000_000 * d1) by (nonlinear_arith)
        requires
            mu == exact - 1_000_000_000_000_000_000,
    ;
    let r1 = 1_000_000_000_000_000_000 * d1 + 1_000_000_000_000_000_000 * d + 2 * (d * mu);
    let r2 = 1_000_000_000_000_000_000 * d2 + 1_000_000_000_000_000_000 * d1 + 2 * (d1 * mu);
    lemma_twice_unit(d, d1, d2, mu, r1, r2);
}

} // verus!
