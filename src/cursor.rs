//! Projection of the pointer's ray onto the ground plane, and the marker drawn there.
use vstd::prelude::*;
use crate::vector::{abs, div_toward_zero, dot, trunc_div, Vec3i, COORD_LIMIT};

verus! {

/// Radius of the cursor marker: a fifth of a metre (`UNIT / 5`, rounded down).
pub const MARKER_RADIUS: i64 = 13107;

/// The marker is lifted off the plane by its normal divided by this (a hundredth of a
/// metre for a normal of length `UNIT`), so that it is not drawn inside the plane.
pub const MARKER_LIFT_DIVISOR: i64 = 100;

/// A ray from `origin` along `direction`.
#[derive(Clone, Copy, Debug, PartialEq, Eq, Structural)]
pub struct Ray {
    pub origin: Vec3i,
    pub direction: Vec3i,
}

/// The infinite plane through `point` with the up vector `normal`.
#[derive(Clone, Copy, Debug, PartialEq, Eq, Structural)]
pub struct Plane {
    pub point: Vec3i,
    pub normal: Vec3i,
}

/// A circle of `radius` around `center`, lying flat on the plane with the up vector `normal`.
#[derive(Clone, Copy, Debug, PartialEq, Eq, Structural)]
pub struct CursorMarker {
    pub center: Vec3i,
    pub normal: Vec3i,
    pub radius: i64,
}

pub open spec fn ray_in_range(ray: Ray) -> bool {
    ray.origin.within(COORD_LIMIT as int) && ray.direction.within(COORD_LIMIT as int)
}

pub open spec fn plane_in_range(plane: Plane) -> bool {
    plane.point.within(COORD_LIMIT as int) && plane.normal.within(COORD_LIMIT as int)
}

/// `(p - o) . n`
pub open spec fn offset_dot(p: Vec3i, o: Vec3i, n: Vec3i) -> int {
    (p.x - o.x) * n.x + (p.y - o.y) * n.y + (p.z - o.z) * n.z
}

/// One coordinate of `o + d * num / den`, the quotient rounded toward zero.
pub open spec fn hit_coord(o: int, d: int, num: int, den: int) -> int {
    o + trunc_div(d * num, den)
}

/// Where the ray meets the plane. None where the ray runs parallel to the plane, where
/// the plane lies behind the ray's origin, or where the point lies beyond `COORD_LIMIT`.
pub open spec fn ray_plane_hit(ray: Ray, plane: Plane) -> Option<Vec3i> {
    let den0 = dot(ray.direction, plane.normal);
    let num0 = offset_dot(plane.point, ray.origin, plane.normal);
    let den = abs(den0);
    let num = if den0 > 0 {
        num0
    } else {
        -num0
    };
    let x = hit_coord(ray.origin.x as int, ray.direction.x as int, num, den);
    let y = hit_coord(ray.origin.y as int, ray.direction.y as int, num, den);
    let z = hit_coord(ray.origin.z as int, ray.direction.z as int, num, den);
    let lim = COORD_LIMIT as int;
    if den0 == 0 || num < 0 {
        None
    } else if -lim <= x <= lim && -lim <= y <= lim && -lim <= z <= lim {
        Some(Vec3i { x: x as i64, y: y as i64, z: z as i64 })
    } else {
        None
    }
}

/// The marker for a pointer that hits the ground at `hit`.
pub open spec fn marker_at(hit: Vec3i, ground: Plane) -> CursorMarker {
    let k = MARKER_LIFT_DIVISOR as int;
    CursorMarker {
        center: Vec3i {
            x: (hit.x + trunc_div(ground.normal.x as int, k)) as i64,
            y: (hit.y + trunc_div(ground.normal.y as int, k)) as i64,
            z: (hit.z + trunc_div(ground.normal.z as int, k)) as i64,
        },
        normal: ground.normal,
        radius: MARKER_RADIUS,
    }
}

fn dot_wide(ax: i128, ay: i128, az: i128, b: Vec3i) -> (r: i128)
    requires
        -2 * COORD_LIMIT <= ax <= 2 * COORD_LIMIT,
        -2 * COORD_LIMIT <= ay <= 2 * COORD_LIMIT,
        -2 * COORD_LIMIT <= az <= 2 * COORD_LIMIT,
        b.within(COORD_LIMIT as int),
    ensures
        r == ax * b.x + ay * b.y + az * b.z,
        -0x8_0000_0000_0000_0000_0000 <= r <= 0x8_0000_0000_0000_0000_0000,
{
    let bx = b.x as i128;
    let by = b.y as i128;
    let bz = b.z as i128;
    assert(-0x2_0000_0000_0000_0000_0000 <= ax * bx <= 0x2_0000_0000_0000_0000_0000)
        by (nonlinear_arith)
        requires
            -0x200_0000_0000 <= ax <= 0x200_0000_0000,
            -0x100_0000_0000 <= bx <= 0x100_0000_0000,
    ;
    assert(-0x2_0000_0000_0000_0000_0000 <= ay * by <= 0x2_0000_0000_0000_0000_0000)
        by (nonlinear_arith)
        requires
            -0x200_0000_0000 <= ay <= 0x200_0000_0000,
            -0x100_0000_0000 <= by <= 0x100_0000_0000,
    ;
    assert(-0x2_0000_0000_0000_0000_0000 <= az * bz <= 0x2_0000_0000_0000_0000_0000)
        by (nonlinear_arith)
        requires
            -0x200_0000_0000 <= az <= 0x200_0000_0000,
            -0x100_0000_0000 <= bz <= 0x100_0000_0000,
    ;
    ax * bx + ay * by + az * bz
}

fn hit_coord_of(o: i64, d: i64, num: i128, den: i128) -> (r: i128)
    requires
        -COORD_LIMIT <= o <= COORD_LIMIT,
        -COORD_LIMIT <= d <= COORD_LIMIT,
        0 <= num <= 0x8_0000_0000_0000_0000_0000,
        den > 0,
    ensures
        r == hit_coord(o as int, d as int, num as int, den as int),
{
    assert(-0x100_0000_0000 * num <= d * num <= 0x100_0000_0000 * num) by (nonlinear_arith)
        requires
            -0x100_0000_0000 <= d <= 0x100_0000_0000,
            0 <= num,
    ;
    let dn = (d as i128) * num;
    (o as i128) + div_toward_zero(dn, den)
}

/// Where `ray` meets `plane`, if it does in front of the ray's origin and within
/// `COORD_LIMIT`.
pub fn intersect_plane(ray: &Ray, plane: &Plane) -> (r: Option<Vec3i>)
    requires
        ray_in_range(*ray),
        plane_in_range(*plane),
    ensures
        r == ray_plane_hit(*ray, *plane),
        dot(ray.direction, plane.normal) == 0 ==> r is None,
{
    let d = ray.direction;
    let o = ray.origin;
    let p = plane.point;
    let den0 = dot_wide(d.x as i128, d.y as i128, d.z as i128, plane.normal);
    let num0 = dot_wide(
        (p.x as i128) - (o.x as i128),
        (p.y as i128) - (o.y as i128),
        (p.z as i128) - (o.z as i128),
        plane.normal,
    );
    if den0 == 0 {
        return None;
    }
    let den = if den0 > 0 {
        den0
    } else {
        -den0
    };
    let num = if den0 > 0 {
        num0
    } else {
        -num0
    };
    if num < 0 {
        return None;
    }
    let x = hit_coord_of(o.x, d.x, num, den);
    let y = hit_coord_of(o.y, d.y, num, den);
    let z = hit_coord_of(o.z, d.z, num, den);
    let lim = COORD_LIMIT as i128;
    if -lim <= x && x <= lim && -lim <= y && y <= lim && -lim <= z && z <= lim {
        Some(Vec3i { x: x as i64, y: y as i64, z: z as i64 })
    } else {
        None
    }
}

fn lift(c: i64, n: i64) -> (r: i64)
    requires
        -COORD_LIMIT <= c <= COORD_LIMIT,
        -COORD_LIMIT <= n <= COORD_LIMIT,
    ensures
        r == c + trunc_div(n as int, MARKER_LIFT_DIVISOR as int),
{
    let q = div_toward_zero(n as i128, MARKER_LIFT_DIVISOR as i128);
    c + (q as i64)
}

/// The marker to draw this frame: none where there is no pointer ray or the ray misses
/// the ground; else a flat circle on the ground where the ray meets it, lifted a little
/// along the ground's normal.
pub fn cursor_marker(pointer_ray: Option<Ray>, ground: &Plane) -> (r: Option<CursorMarker>)
    requires
        plane_in_range(*ground),
        pointer_ray matches Some(ray) ==> ray_in_range(ray),
    ensures
        pointer_ray is None ==> r is None,
        pointer_ray matches Some(ray) ==> r == (match ray_plane_hit(ray, *ground) {
            Some(hit) => Some(marker_at(hit, *ground)),
            None => None,
        }),
{
    match pointer_ray {
        None => None,
        Some(ray) => match intersect_plane(&ray, ground) {
            None => None,
            Some(hit) => {
                let n = ground.normal;
                let center = Vec3i {
                    x: lift(hit.x, n.x),
                    y: lift(hit.y, n.y),
                    z: lift(hit.z, n.z),
                };
                Some(CursorMarker { center, normal: n, radius: MARKER_RADIUS })
            },
        },
    }
}

} // verus!
