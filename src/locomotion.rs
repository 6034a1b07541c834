//! Camera-relative movement of the actor on the horizontal plane.
use vstd::prelude::*;
use crate::lookup::{single, LookupError};
use crate::vector::{
    div_toward_zero, norm2, normalize_or_zero, trunc_div, unit_coord, Vec3i, COORD_LIMIT, UNIT,
};

verus! {

/// Speed of the actor, in metres per second.
pub const MOVE_SPEED: i64 = 2;

/// Frame times are given in milliseconds.
pub const MS_PER_SECOND: i64 = 1000;

/// The movement keys held during a frame.
#[derive(Clone, Copy, Debug, PartialEq, Eq, Structural)]
pub struct MoveKeys {
    pub forward: bool,
    pub back: bool,
    pub left: bool,
    pub right: bool,
}

/// Orientation of a camera: its forward and right unit vectors, of length `UNIT`.
/// Its back and left vectors are their opposites.
#[derive(Clone, Copy, Debug, PartialEq, Eq, Structural)]
pub struct CameraBasis {
    pub forward: Vec3i,
    pub right: Vec3i,
}

/// Why a locomotion step left the actor where it was.
#[derive(Clone, Copy, Debug, PartialEq, Eq, Structural)]
pub enum MoveError {
    /// There is not exactly one active camera.
    Camera(LookupError),
    /// The camera's vectors lie beyond `COORD_LIMIT`.
    CameraOutOfRange,
    /// The new position would lie beyond `COORD_LIMIT`.
    PositionOutOfRange,
}

/// `c` where only the positive key is held, `-c` where only the negative one is, else 0.
pub open spec fn signed(pos: bool, neg: bool, c: int) -> int {
    if pos && !neg {
        c
    } else if neg && !pos {
        -c
    } else {
        0
    }
}

/// One coordinate of the sum of the camera vectors of the held keys.
pub open spec fn held_coord(keys: MoveKeys, forward: int, right: int) -> int {
    signed(keys.forward, keys.back, forward) + signed(keys.right, keys.left, right)
}

/// The sum of the camera vectors of the held keys, with its vertical part removed.
pub open spec fn flat_direction(keys: MoveKeys, cam: CameraBasis) -> Vec3i {
    Vec3i {
        x: held_coord(keys, cam.forward.x as int, cam.right.x as int) as i64,
        y: 0,
        z: held_coord(keys, cam.forward.z as int, cam.right.z as int) as i64,
    }
}

/// Distance covered in `dt_ms` milliseconds along a unit coordinate `c`, rounded toward zero.
pub open spec fn travel(c: int, dt_ms: int) -> int {
    trunc_div(c * MOVE_SPEED * dt_ms, MS_PER_SECOND as int)
}

/// The displacement of one frame: the flattened direction of the held keys, normalized
/// to `UNIT`, times `MOVE_SPEED` and the frame time.
pub open spec fn movement_of(keys: MoveKeys, cam: CameraBasis, dt_ms: int) -> Vec3i {
    let d = flat_direction(keys, cam);
    Vec3i {
        x: travel(unit_coord(d.x as int, d), dt_ms) as i64,
        y: travel(unit_coord(d.y as int, d), dt_ms) as i64,
        z: travel(unit_coord(d.z as int, d), dt_ms) as i64,
    }
}

pub open spec fn camera_in_range(cam: CameraBasis) -> bool {
    cam.forward.within(COORD_LIMIT as int) && cam.right.within(COORD_LIMIT as int)
}

pub open spec fn sum_within(a: Vec3i, b: Vec3i) -> bool {
    let lim = COORD_LIMIT as int;
    -lim <= a.x + b.x <= lim && -lim <= a.y + b.y <= lim && -lim <= a.z + b.z <= lim
}

fn axis_part(pos: bool, neg: bool, c: i64) -> (r: i64)
    requires
        -COORD_LIMIT <= c <= COORD_LIMIT,
    ensures
        r == signed(pos, neg, c as int),
        -COORD_LIMIT <= r <= COORD_LIMIT,
{
    if pos && !neg {
        c
    } else if neg && !pos {
        -c
    } else {
        0
    }
}

/// The sum of the camera vectors of the held keys, flattened onto the horizontal plane.
pub fn held_direction(keys: MoveKeys, cam: &CameraBasis) -> (r: Vec3i)
    requires
        camera_in_range(*cam),
    ensures
        r == flat_direction(keys, *cam),
        r.within(2 * COORD_LIMIT),
{
    let x = axis_part(keys.forward, keys.back, cam.forward.x) + axis_part(
        keys.right,
        keys.left,
        cam.right.x,
    );
    let z = axis_part(keys.forward, keys.back, cam.forward.z) + axis_part(
        keys.right,
        keys.left,
        cam.right.z,
    );
    Vec3i { x, y: 0, z }
}

fn travel_coord(c: i64, dt_ms: u32) -> (r: i64)
    requires
        -UNIT <= c <= UNIT,
    ensures
        r == travel(c as int, dt_ms as int),
        -0x2_0000_0000_0000 <= r <= 0x2_0000_0000_0000,
        c == 0 ==> r == 0,
{
    assert(-2 * UNIT <= c * MOVE_SPEED <= 2 * UNIT) by (nonlinear_arith)
        requires
            -UNIT <= c <= UNIT,
            MOVE_SPEED == 2,
    ;
    let c2 = (c as i128) * (MOVE_SPEED as i128);
    assert(c2 == 2 * c) by (nonlinear_arith)
        requires
            c2 == c * MOVE_SPEED,
            MOVE_SPEED == 2,
    ;
    assert(-0x2_0000_0000_0000 <= c2 * dt_ms <= 0x2_0000_0000_0000) by (nonlinear_arith)
        requires
            -2 * UNIT <= c2 <= 2 * UNIT,
            0 <= dt_ms <= 0xffff_ffff,
    ;
    let t = c2 * (dt_ms as i128);
    assert(c == 0 ==> t == 0) by (nonlinear_arith)
        requires
            t == c2 * dt_ms,
            c2 == 2 * c,
    ;
    div_toward_zero(t, MS_PER_SECOND as i128) as i64
}

/// How far the actor moves in `dt_ms` milliseconds: along the held keys' camera-relative
/// direction, kept horizontal, at `MOVE_SPEED`; nothing where no key is held or the held
/// keys cancel.
pub fn movement(keys: MoveKeys, cam: &CameraBasis, dt_ms: u32) -> (r: Vec3i)
    requires
        camera_in_range(*cam),
    ensures
        r == movement_of(keys, *cam, dt_ms as int),
        r.y == 0,
        r.within(0x2_0000_0000_0000),
{
    let d = held_direction(keys, cam);
    let u = normalize_or_zero(d);
    let r = Vec3i {
        x: travel_coord(u.x, dt_ms),
        y: travel_coord(u.y, dt_ms),
        z: travel_coord(u.z, dt_ms),
    };
    assert(r.y == 0);
    r
}

/// The outcome of one frame of locomotion from `actor` with the active cameras `cameras`.
pub open spec fn step_outcome(actor: Vec3i, keys: MoveKeys, cameras: Seq<CameraBasis>, dt_ms: int) -> Result<
    Vec3i,
    MoveError,
> {
    if cameras.len() == 0 {
        Err(MoveError::Camera(LookupError::Missing))
    } else if cameras.len() > 1 {
        Err(MoveError::Camera(LookupError::Ambiguous { count: cameras.len() as usize }))
    } else if !camera_in_range(cameras[0]) {
        Err(MoveError::CameraOutOfRange)
    } else {
        let m = movement_of(keys, cameras[0], dt_ms);
        if sum_within(actor, m) {
            Ok(
                Vec3i {
                    x: (actor.x + m.x) as i64,
                    y: (actor.y + m.y) as i64,
                    z: (actor.z + m.z) as i64,
                },
            )
        } else {
            Err(MoveError::PositionOutOfRange)
        }
    }
}

/// The actor's position after one frame: there must be exactly one active camera, its
/// vectors within `COORD_LIMIT`, and the new position within `COORD_LIMIT`; else the actor
/// stays and the reason is returned.
pub fn locomotion_step(actor: Vec3i, keys: MoveKeys, cameras: Vec<CameraBasis>, dt_ms: u32) -> (r:
    Result<Vec3i, MoveError>)
    ensures
        r == step_outcome(actor, keys, cameras@, dt_ms as int),
{
    let cam = match single(cameras) {
        Ok(cam) => cam,
        Err(e) => {
            return Err(MoveError::Camera(e));
        },
    };
    if !(cam.forward.within_limits() && cam.right.within_limits()) {
        return Err(MoveError::CameraOutOfRange);
    }
    let m = movement(keys, &cam, dt_ms);
    let x = (actor.x as i128) + (m.x as i128);
    let y = (actor.y as i128) + (m.y as i128);
    let z = (actor.z as i128) + (m.z as i128);
    let lim = COORD_LIMIT as i128;
    if -lim <= x && x <= lim && -lim <= y && y <= lim && -lim <= z && z <= lim {
        Ok(Vec3i { x: x as i64, y: y as i64, z: z as i64 })
    } else {
        Err(MoveError::PositionOutOfRange)
    }
}

/// Opposing keys cancel: where forward and back are both held or both released, and so
/// are left and right, the actor does not move, whatever the camera.
pub proof fn lemma_opposing_keys_cancel(keys: MoveKeys, cam: CameraBasis, dt_ms: nat)
    requires
        keys.forward == keys.back,
        keys.left == keys.right,
        camera_in_range(cam),
    ensures
        movement_of(keys, cam, dt_ms as int) == Vec3i::zero_spec(),
{
    let d = flat_direction(keys, cam);
    assert(d.x == 0 && d.y == 0 && d.z == 0);
    assert(norm2(d) == 0);
}

} // verus!
