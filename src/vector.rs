//! Fixed-point vectors: one metre is `UNIT` steps on each axis.
use vstd::prelude::*;

verus! {

/// Steps per metre.
pub const UNIT: i64 = 65536;

/// Largest magnitude of a coordinate that positions, rays and planes may have.
pub const COORD_LIMIT: i64 = 0x100_0000_0000;

/// Largest magnitude of a coordinate that `normalize_or_zero` accepts.
pub const NORM_LIMIT: i64 = 0x400_0000_0000;

#[derive(Clone, Copy, Debug, PartialEq, Eq, Structural)]
pub struct Vec3i {
    pub x: i64,
    pub y: i64,
    pub z: i64,
}

/// Division that rounds toward zero, as integer division does in Rust.
pub open spec fn trunc_div(a: int, d: int) -> int {
    if a >= 0 {
        a / d
    } else {
        -((-a) / d)
    }
}

pub open spec fn abs(a: int) -> int {
    if a >= 0 {
        a
    } else {
        -a
    }
}

pub open spec fn norm2(v: Vec3i) -> int {
    v.x * v.x + v.y * v.y + v.z * v.z
}

pub open spec fn dot(a: Vec3i, b: Vec3i) -> int {
    a.x * b.x + a.y * b.y + a.z * b.z
}

pub open spec fn is_floor_sqrt(r: int, n: int) -> bool {
    0 <= r && r * r <= n && n < (r + 1) * (r + 1)
}

/// The largest integer whose square does not exceed `n`.
pub open spec fn floor_sqrt(n: int) -> int {
    choose|r: int| #[trigger] is_floor_sqrt(r, n)
}

/// The length of `v` in steps of one `UNIT`-th of a step, rounded down.
pub open spec fn fine_length(v: Vec3i) -> int {
    floor_sqrt(norm2(v) * (UNIT * UNIT))
}

/// One coordinate `c` of `v`, rescaled so that `v` gets length `UNIT`, rounded toward zero;
/// zero where `v` is the zero vector.
pub open spec fn unit_coord(c: int, v: Vec3i) -> int {
    if norm2(v) == 0 {
        0
    } else {
        trunc_div(c * (UNIT * UNIT), fine_length(v))
    }
}

impl Vec3i {
    pub open spec fn within(self, limit: int) -> bool {
        -limit <= self.x <= limit && -limit <= self.y <= limit && -limit <= self.z <= limit
    }

    pub fn new(x: i64, y: i64, z: i64) -> (r: Vec3i)
        ensures
            r.x == x && r.y == y && r.z == z,
    {
        Vec3i { x, y, z }
    }

    pub open spec fn zero_spec() -> Vec3i {
        Vec3i { x: 0, y: 0, z: 0 }
    }

    pub fn zero() -> (r: Vec3i)
        ensures
            r == Vec3i::zero_spec(),
    {
        Vec3i { x: 0, y: 0, z: 0 }
    }

    /// Whether every coordinate lies within `COORD_LIMIT` of the origin.
    pub fn within_limits(&self) -> (r: bool)
        ensures
            r == self.within(COORD_LIMIT as int),
    {
        -COORD_LIMIT <= self.x && self.x <= COORD_LIMIT && -COORD_LIMIT <= self.y && self.y
            <= COORD_LIMIT && -COORD_LIMIT <= self.z && self.z <= COORD_LIMIT
    }
}

pub fn div_toward_zero(a: i128, d: i128) -> (r: i128)
    requires
        d > 0,
        a > i128::MIN,
    ensures
        r == trunc_div(a as int, d as int),
        abs(r as int) <= abs(a as int),
{
    if a >= 0 {
        let q = (a as u128) / (d as u128);
        assert(q <= a) by (nonlinear_arith)
            requires
                q == (a as u128) / (d as u128),
                a >= 0,
                d > 0,
        ;
        q as i128
    } else {
        let q = ((-a) as u128) / (d as u128);
        assert(q <= -a) by (nonlinear_arith)
            requires
                q == ((-a) as u128) / (d as u128),
                a < 0,
                d > 0,
        ;
        -(q as i128)
    }
}

proof fn lemma_floor_sqrt_unique(a: int, b: int, n: int)
    requires
        is_floor_sqrt(a, n),
        is_floor_sqrt(b, n),
    ensures
        a == b,
{
    if a < b {
        assert((a + 1) * (a + 1) <= b * b) by (nonlinear_arith)
            requires
                a + 1 <= b,
                0 <= a,
        ;
    }
    if b < a {
        assert((b + 1) * (b + 1) <= a * a) by (nonlinear_arith)
            requires
                b + 1 <= a,
                0 <= b,
        ;
    }
}

/// Where `r` is the integer square root of `n`, `floor_sqrt` names it.
pub proof fn lemma_floor_sqrt_is(r: int, n: int)
    requires
        is_floor_sqrt(r, n),
    ensures
        floor_sqrt(n) == r,
{
    let s = choose|s: int| #[trigger] is_floor_sqrt(s, n);
    assert(is_floor_sqrt(s, n));
    lemma_floor_sqrt_unique(r, s, n);
}

/// Integer square root by bisection.
pub fn integer_sqrt(n: u128) -> (r: u64)
    requires
        n < 0x4000_0000_0000_0000_0000_0000_0000_0000,
    ensures
        is_floor_sqrt(r as int, n as int),
        r == floor_sqrt(n as int),
{
    let mut lo: u128 = 0;
    let mut hi: u128 = 0x8000_0000_0000_0000;
    assert(hi * hi == 0x4000_0000_0000_0000_0000_0000_0000_0000u128) by (nonlinear_arith)
        requires
            hi == 0x8000_0000_0000_0000u128,
    ;
    while hi - lo > 1
        invariant
            lo < hi <= 0x8000_0000_0000_0000u128,
            lo * lo <= n,
            n < hi * hi,
        decreases hi - lo,
    {
        let mid = lo + (hi - lo) / 2;
        assert(mid * mid <= 0x4000_0000_0000_0000_0000_0000_0000_0000u128) by (nonlinear_arith)
            requires
                mid < 0x8000_0000_0000_0000u128,
        ;
        if mid * mid <= n {
            lo = mid;
        } else {
            hi = mid;
        }
    }
    proof {
        lemma_floor_sqrt_is(lo as int, n as int);
    }
    lo as u64
}

proof fn lemma_unit_quotient_fits(a: int, len: int)
    requires
        0 <= a <= NORM_LIMIT,
        len >= UNIT,
    ensures
        a * (UNIT * UNIT) / len <= a * UNIT,
        a * (UNIT * UNIT) <= 0x4000_0000_0000_0000_0000,
{
    let s = UNIT as int;
    assert(a * (s * s) == (a * s) * s) by (nonlinear_arith);
    assert(0 <= a * (s * s) <= 0x4000_0000_0000_0000_0000) by (nonlinear_arith)
        requires
            0 <= a <= NORM_LIMIT,
            s == UNIT,
    ;
    vstd::arithmetic::div_mod::lemma_div_is_ordered_by_denominator(a * (s * s), s, len);
    vstd::arithmetic::div_mod::lemma_div_by_multiple(a * s, s);
}

proof fn lemma_unit_coord_at_most_unit(a: int, n: int, len: int)
    requires
        0 <= a,
        a * a <= n,
        is_floor_sqrt(len, n * (UNIT * UNIT)),
        len >= UNIT,
    ensures
        a * (UNIT * UNIT) / len <= UNIT,
{
    let s = UNIT as int;
    assert(a * s < len + 1) by (nonlinear_arith)
        requires
            0 <= a,
            a * a <= n,
            n * (s * s) < (len + 1) * (len + 1),
            len >= 0,
            s > 0,
    ;
    assert(a * (s * s) <= len * s) by (nonlinear_arith)
        requires
            a * s <= len,
            s > 0,
    ;
    vstd::arithmetic::div_mod::lemma_div_is_ordered(a * (s * s), len * s, len);
    vstd::arithmetic::div_mod::lemma_div_by_multiple(s, len);
    assert(len * s == s * len) by (nonlinear_arith);
}

fn unit_coord_of(c: i64, scale: i128, len: u64, Ghost(v): Ghost<Vec3i>) -> (r: i64)
    requires
        -NORM_LIMIT <= c <= NORM_LIMIT,
        c * c <= norm2(v),
        scale == UNIT * UNIT,
        len >= UNIT,
        norm2(v) != 0,
        len == fine_length(v),
        is_floor_sqrt(len as int, norm2(v) * (UNIT * UNIT)),
    ensures
        r == unit_coord(c as int, v),
        -UNIT <= r <= UNIT,
        c == 0 ==> r == 0,
{
    proof {
        lemma_unit_quotient_fits(abs(c as int), len as int);
        assert(abs(c as int) * abs(c as int) == c * c) by (nonlinear_arith);
        lemma_unit_coord_at_most_unit(abs(c as int), norm2(v), len as int);
        assert(abs(c * scale) == abs(c as int) * (UNIT * UNIT)) by (nonlinear_arith)
            requires
                scale == UNIT * UNIT,
        ;
    }
    let q = div_toward_zero((c as i128) * scale, len as i128);
    assert(abs(q as int) <= abs(c as int) * UNIT);
    assert(abs(c as int) * UNIT <= NORM_LIMIT * UNIT) by (nonlinear_arith)
        requires
            abs(c as int) <= NORM_LIMIT,
    ;
    q as i64
}

/// `v` rescaled to length `UNIT` (each coordinate rounded toward zero), or the zero
/// vector where `v` is zero.
pub fn normalize_or_zero(v: Vec3i) -> (r: Vec3i)
    requires
        v.within(NORM_LIMIT as int),
    ensures
        r.x == unit_coord(v.x as int, v),
        r.y == unit_coord(v.y as int, v),
        r.z == unit_coord(v.z as int, v),
        r.within(UNIT as int),
        v.x == 0 ==> r.x == 0,
        v.y == 0 ==> r.y == 0,
        v.z == 0 ==> r.z == 0,
{
    let x = v.x as i128;
    let y = v.y as i128;
    let z = v.z as i128;
    assert(x * x <= 0x10_0000_0000_0000_0000_0000) by (nonlinear_arith)
        requires
            -NORM_LIMIT <= x <= NORM_LIMIT,
    ;
    assert(y * y <= 0x10_0000_0000_0000_0000_0000) by (nonlinear_arith)
        requires
            -NORM_LIMIT <= y <= NORM_LIMIT,
    ;
    assert(z * z <= 0x10_0000_0000_0000_0000_0000) by (nonlinear_arith)
        requires
            -NORM_LIMIT <= z <= NORM_LIMIT,
    ;
    assert(0 <= x * x && 0 <= y * y && 0 <= z * z) by (nonlinear_arith);
    let n = x * x + y * y + z * z;
    if n == 0 {
        return Vec3i::zero();
    }
    let scale: i128 = (UNIT as i128) * (UNIT as i128);
    let m = n * scale;
    let len = integer_sqrt(m as u128);
    assert(len >= UNIT) by (nonlinear_arith)
        requires
            (len + 1) * (len + 1) > m,
            m == n * scale,
            n >= 1,
            scale == UNIT * UNIT,
            len >= 0,
    ;
    let rx = unit_coord_of(v.x, scale, len, Ghost(v));
    let ry = unit_coord_of(v.y, scale, len, Ghost(v));
    let rz = unit_coord_of(v.z, scale, len, Ghost(v));
    Vec3i { x: rx, y: ry, z: rz }
}

proof fn lemma_floor_sqrt_exists(n: nat)
    ensures
        exists|r: int| is_floor_sqrt(r, n as int),
    decreases n,
{
    if n == 0 {
        assert(is_floor_sqrt(0, 0));
    } else {
        lemma_floor_sqrt_exists((n - 1) as nat);
        let r = choose|r: int| #[trigger] is_floor_sqrt(r, (n - 1) as int);
        if (r + 1) * (r + 1) <= n {
            assert((r + 1) * (r + 1) == n);
            assert(n < (r + 2) * (r + 2)) by (nonlinear_arith)
                requires
                    (r + 1) * (r + 1) == n,
                    r >= 0,
            ;
            assert(is_floor_sqrt(r + 1, n as int));
        } else {
            assert(is_floor_sqrt(r, n as int));
        }
    }
}

proof fn lemma_coord_quotient(c: int, k: int, len: int)
    requires
        len > 0,
        k > 0,
    ensures
        abs(trunc_div(c * k, len)) * len <= abs(c) * k,
        abs(c) * k < (abs(trunc_div(c * k, len)) + 1) * len,
        c >= 0 ==> trunc_div(c * k, len) >= 0,
        c <= 0 ==> trunc_div(c * k, len) <= 0,
{
    let a = abs(c);
    if c >= 0 {
        assert(c * k >= 0 && (c == 0 ==> c * k == 0)) by (nonlinear_arith)
            requires
                c >= 0,
                k > 0,
        ;
        if c == 0 {
            vstd::arithmetic::div_mod::lemma_div_basics(len);
        }
    } else {
        assert(c * k < 0 && -(c * k) == a * k) by (nonlinear_arith)
            requires
                c < 0,
                a == -c,
                k > 0,
        ;
    }
    assert(a * k >= 0) by (nonlinear_arith)
        requires
            a >= 0,
            k > 0,
    ;
    let q = (a * k) / len;
    vstd::arithmetic::div_mod::lemma_fundamental_div_mod(a * k, len);
    vstd::arithmetic::div_mod::lemma_mod_pos_bound(a * k, len);
    vstd::arithmetic::div_mod::lemma_div_pos_is_pos(a * k, len);
    assert(len * q == q * len) by (nonlinear_arith);
    assert((q + 1) * len == q * len + len) by (nonlinear_arith);
    assert(abs(trunc_div(c * k, len)) == q);
}

proof fn lemma_square_le(x: int, y: int)
    requires
        0 <= x <= y,
    ensures
        x * x <= y * y,
{
    assert(x * x <= y * y) by (nonlinear_arith)
        requires
            0 <= x <= y,
    ;
}

proof fn lemma_square_lt(x: int, y: int)
    requires
        0 <= x < y,
    ensures
        x * x < y * y,
{
    assert(x * x < y * y) by (nonlinear_arith)
        requires
            0 <= x < y,
    ;
}

/// Normalizing a non-zero vector gives it length `UNIT` up to the rounding of each
/// coordinate: its squared length stays below `(UNIT + 1)^2`, and one more step on the
/// size of every coordinate would bring the squared length above `UNIT^2`. No coordinate
/// changes its sign.
pub proof fn lemma_normalized_near_unit(v: Vec3i)
    requires
        v.within(NORM_LIMIT as int),
        norm2(v) > 0,
    ensures
        ({
            let rx = unit_coord(v.x as int, v);
            let ry = unit_coord(v.y as int, v);
            let rz = unit_coord(v.z as int, v);
            &&& rx * rx + ry * ry + rz * rz < (UNIT + 1) * (UNIT + 1)
            &&& UNIT * UNIT < (abs(rx) + 1) * (abs(rx) + 1) + (abs(ry) + 1) * (abs(ry) + 1) + (
            abs(rz) + 1) * (abs(rz) + 1)
            &&& (v.x >= 0 ==> rx >= 0) && (v.x <= 0 ==> rx <= 0)
            &&& (v.y >= 0 ==> ry >= 0) && (v.y <= 0 ==> ry <= 0)
            &&& (v.z >= 0 ==> rz >= 0) && (v.z <= 0 ==> rz <= 0)
        }),
{
    let s = UNIT as int;
    let k = s * s;
    let n = norm2(v);
    let m = n * k;
    assert(m >= 0) by (nonlinear_arith)
        requires
            n > 0,
            k == s * s,
            s > 0,
            m == n * k,
    ;
    lemma_floor_sqrt_exists(m as nat);
    let len = fine_length(v);
    assert(is_floor_sqrt(len, m));
    assert(len >= s) by (nonlinear_arith)
        requires
            (len + 1) * (len + 1) > m,
            m == n * k,
            n >= 1,
            k == s * s,
            s > 0,
            len >= 0,
    ;
    let (ax, ay, az) = (abs(v.x as int), abs(v.y as int), abs(v.z as int));
    let (rx, ry, rz) = (
        unit_coord(v.x as int, v),
        unit_coord(v.y as int, v),
        unit_coord(v.z as int, v),
    );
    let (qx, qy, qz) = (abs(rx), abs(ry), abs(rz));
    lemma_coord_quotient(v.x as int, k, len);
    lemma_coord_quotient(v.y as int, k, len);
    lemma_coord_quotient(v.z as int, k, len);
    assert(ax * ax + ay * ay + az * az == n) by (nonlinear_arith)
        requires
            ax == abs(v.x as int),
            ay == abs(v.y as int),
            az == abs(v.z as int),
            n == norm2(v),
    ;
    assert(qx * qx == rx * rx && qy * qy == ry * ry && qz * qz == rz * rz) by (nonlinear_arith)
        requires
            qx == abs(rx),
            qy == abs(ry),
            qz == abs(rz),
    ;
    let l2 = len * len;
    let k2 = k * k;
    lemma_squares_scaled(qx, ax, len, k);
    lemma_squares_scaled(qy, ay, len, k);
    lemma_squares_scaled(qz, az, len, k);
    // upper bound
    let big_q = qx * qx + qy * qy + qz * qz;
    assert(big_q * l2 == (qx * qx) * l2 + (qy * qy) * l2 + (qz * qz) * l2) by (nonlinear_arith)
        requires
            big_q == qx * qx + qy * qy + qz * qz,
    ;
    assert((ax * ax) * k2 + (ay * ay) * k2 + (az * az) * k2 == n * k2) by (nonlinear_arith)
        requires
            ax * ax + ay * ay + az * az == n,
    ;
    assert(n * k2 < (len + 1) * (len + 1) * k) by (nonlinear_arith)
        requires
            n * k < (len + 1) * (len + 1),
            k2 == k * k,
            k > 0,
    ;
    assert(big_q * l2 < (len + 1) * (len + 1) * k);
    assert((s + 1) * len >= (len + 1) * s) by (nonlinear_arith)
        requires
            len >= s,
    ;
    lemma_square_le((len + 1) * s, (s + 1) * len);
    assert(((s + 1) * len) * ((s + 1) * len) == (s + 1) * (s + 1) * l2) by (nonlinear_arith)
        requires
            l2 == len * len,
    ;
    assert(((len + 1) * s) * ((len + 1) * s) == (len + 1) * (len + 1) * k) by (nonlinear_arith)
        requires
            k == s * s,
    ;
    if big_q >= (s + 1) * (s + 1) {
        assert(big_q * l2 >= (s + 1) * (s + 1) * l2) by (nonlinear_arith)
            requires
                big_q >= (s + 1) * (s + 1),
                l2 >= 0,
        ;
    }
    // lower bound
    let big_p = (qx + 1) * (qx + 1) + (qy + 1) * (qy + 1) + (qz + 1) * (qz + 1);
    assert(big_p * l2 == ((qx + 1) * (qx + 1)) * l2 + ((qy + 1) * (qy + 1)) * l2 + ((qz + 1) * (
    qz + 1)) * l2) by (nonlinear_arith)
        requires
            big_p == (qx + 1) * (qx + 1) + (qy + 1) * (qy + 1) + (qz + 1) * (qz + 1),
    ;
    assert(n * k2 < big_p * l2);
    assert(l2 * k <= n * k2) by (nonlinear_arith)
        requires
            l2 <= n * k,
            k2 == k * k,
            k > 0,
    ;
    if k >= big_p {
        assert(k * l2 >= big_p * l2) by (nonlinear_arith)
            requires
                k >= big_p,
                l2 >= 0,
        ;
        assert(l2 * k == k * l2) by (nonlinear_arith);
    }
}

/// From `q * len <= a * k < (q + 1) * len` for non-negative values, the same between
/// squares, scaled to `len^2` and `k^2`.
proof fn lemma_squares_scaled(q: int, a: int, len: int, k: int)
    requires
        0 <= q,
        0 <= a,
        len > 0,
        k > 0,
        q * len <= a * k,
        a * k < (q + 1) * len,
    ensures
        (q * q) * (len * len) <= (a * a) * (k * k),
        (a * a) * (k * k) < ((q + 1) * (q + 1)) * (len * len),
{
    assert(0 <= q * len) by (nonlinear_arith)
        requires
            0 <= q,
            len > 0,
    ;
    lemma_square_le(q * len, a * k);
    assert(0 <= a * k) by (nonlinear_arith)
        requires
            0 <= a,
            k > 0,
    ;
    lemma_square_lt(a * k, (q + 1) * len);
    assert((q * len) * (q * len) == (q * q) * (len * len)) by (nonlinear_arith);
    assert((a * k) * (a * k) == (a * a) * (k * k)) by (nonlinear_arith);
    assert(((q + 1) * len) * ((q + 1) * len) == ((q + 1) * (q + 1)) * (len * len))
        by (nonlinear_arith);
}


proof fn lemma_unit_coord_of_unit(c: int, k: int)
    requires
        k > 0,
    ensures
        trunc_div(c * k, k) == c,
{
    if c >= 0 {
        vstd::arithmetic::div_mod::lemma_div_by_multiple(c, k);
    } else {
        assert(-(c * k) == (-c) * k) by (nonlinear_arith);
        vstd::arithmetic::div_mod::lemma_div_by_multiple(-c, k);
        assert(c * k < 0) by (nonlinear_arith)
            requires
                c < 0,
                k > 0,
        ;
    }
}

/// Normalizing a vector that already has length `UNIT` leaves it as it is, so normalizing
/// twice gives what normalizing once gives wherever the first result has exact length.
pub proof fn lemma_normalize_keeps_unit(v: Vec3i)
    requires
        norm2(v) == UNIT * UNIT,
    ensures
        unit_coord(v.x as int, v) == v.x,
        unit_coord(v.y as int, v) == v.y,
        unit_coord(v.z as int, v) == v.z,
{
    let k = UNIT * UNIT;
    assert(is_floor_sqrt(k, k * k)) by (nonlinear_arith)
        requires
            k == UNIT * UNIT,
    ;
    lemma_floor_sqrt_is(k, k * k);
    assert(fine_length(v) == k);
    lemma_unit_coord_of_unit(v.x as int, k);
    lemma_unit_coord_of_unit(v.y as int, k);
    lemma_unit_coord_of_unit(v.z as int, k);
}

} // verus!
