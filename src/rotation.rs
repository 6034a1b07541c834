//! Discrete rotation controls of the actor: spins about its local axes and a reset.
use vstd::prelude::*;
use crate::vector::{Vec3i, UNIT};

verus! {

/// Milliseconds per radian of spin about the local X axis.
pub const SPIN_X_MS_PER_RAD: u64 = 700;

/// Milliseconds per radian of spin about the local Y and Z axes.
pub const SPIN_YZ_MS_PER_RAD: u64 = 1200;

pub const MICRORAD_PER_RAD: u64 = 1000000;

/// The rotation keys held during a frame.
#[derive(Clone, Copy, Debug, PartialEq, Eq, Structural)]
pub struct RotateKeys {
    pub spin_x: bool,
    pub spin_y: bool,
    pub spin_z: bool,
    pub reset: bool,
}

/// What a frame does to the actor's orientation.
#[derive(Clone, Copy, Debug, PartialEq, Eq, Structural)]
pub enum OrientationUpdate {
    /// Look along `reset_forward()` with +Y up, whatever the orientation was.
    Reset,
    /// Turn about the X, then the Y, then the Z axis by these angles, in microradians.
    Spin { x_urad: u64, y_urad: u64, z_urad: u64 },
}

/// The angle turned in `dt_ms` milliseconds at one radian per `ms_per_rad`, in
/// microradians, rounded down.
pub open spec fn spin_angle(dt_ms: int, ms_per_rad: int) -> int {
    dt_ms * (MICRORAD_PER_RAD as int) / ms_per_rad
}

pub open spec fn orientation_update_of(keys: RotateKeys, dt_ms: int) -> OrientationUpdate {
    if keys.reset {
        OrientationUpdate::Reset
    } else {
        OrientationUpdate::Spin {
            x_urad: if keys.spin_x {
                spin_angle(dt_ms, SPIN_X_MS_PER_RAD as int) as u64
            } else {
                0
            },
            y_urad: if keys.spin_y {
                spin_angle(dt_ms, SPIN_YZ_MS_PER_RAD as int) as u64
            } else {
                0
            },
            z_urad: if keys.spin_z {
                spin_angle(dt_ms, SPIN_YZ_MS_PER_RAD as int) as u64
            } else {
                0
            },
        }
    }
}

fn spin(held: bool, dt_ms: u32, ms_per_rad: u64) -> (r: u64)
    requires
        ms_per_rad > 0,
    ensures
        r == if held {
            spin_angle(dt_ms as int, ms_per_rad as int)
        } else {
            0
        },
{
    if held {
        let t = (dt_ms as u64) * MICRORAD_PER_RAD;
        assert(t <= 0xffff_ffff * 1000000) by (nonlinear_arith)
            requires
                t == dt_ms * 1000000,
                dt_ms <= 0xffff_ffff,
        ;
        t / ms_per_rad
    } else {
        0
    }
}

/// The orientation change of one frame of `dt_ms` milliseconds. A held reset key wins
/// over every spin key held in the same frame.
pub fn orientation_update(keys: RotateKeys, dt_ms: u32) -> (r: OrientationUpdate)
    ensures
        r == orientation_update_of(keys, dt_ms as int),
        keys.reset ==> r == OrientationUpdate::Reset,
{
    if keys.reset {
        OrientationUpdate::Reset
    } else {
        OrientationUpdate::Spin {
            x_urad: spin(keys.spin_x, dt_ms, SPIN_X_MS_PER_RAD),
            y_urad: spin(keys.spin_y, dt_ms, SPIN_YZ_MS_PER_RAD),
            z_urad: spin(keys.spin_z, dt_ms, SPIN_YZ_MS_PER_RAD),
        }
    }
}

/// The forward vector the actor has after a reset: along -Z, of length `UNIT`.
pub fn reset_forward() -> (r: Vec3i)
    ensures
        r.x == 0 && r.y == 0 && r.z == -UNIT,
{
    Vec3i { x: 0, y: 0, z: -UNIT }
}

} // verus!
