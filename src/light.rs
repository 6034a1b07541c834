//! The revolving sun: its orientation is a function of the elapsed time alone.
use vstd::prelude::*;

verus! {

/// Milliseconds for one full turn of the sun about the vertical axis.
pub const SUN_PERIOD_MS: u64 = 10000;

/// Millidegrees of yaw gained per elapsed millisecond (a full turn per period).
pub const SUN_MDEG_PER_MS: i64 = 36;

/// Fixed tilt of the sun about its local X axis, in millidegrees (an eighth of a turn down).
pub const SUN_TILT_MDEG: i64 = -45000;

/// Orientation of the directional light, applied as yaw about Y, then tilt about X.
#[derive(Clone, Copy, Debug, PartialEq, Eq, Structural)]
pub struct SunAngles {
    pub yaw_mdeg: i64,
    pub tilt_mdeg: i64,
}

pub open spec fn sun_angles_at(elapsed_ms: int) -> SunAngles {
    SunAngles {
        yaw_mdeg: ((elapsed_ms % (SUN_PERIOD_MS as int)) * SUN_MDEG_PER_MS) as i64,
        tilt_mdeg: SUN_TILT_MDEG,
    }
}

/// The sun's orientation `elapsed_ms` milliseconds after start: the yaw grows in
/// proportion to the time and wraps after each full turn.
pub fn sun_angles(elapsed_ms: u64) -> (r: SunAngles)
    ensures
        r == sun_angles_at(elapsed_ms as int),
        0 <= r.yaw_mdeg < 360000,
{
    let phase = elapsed_ms % SUN_PERIOD_MS;
    SunAngles { yaw_mdeg: (phase as i64) * SUN_MDEG_PER_MS, tilt_mdeg: SUN_TILT_MDEG }
}

/// The sun stands the same at `t` and at `t` plus one period.
pub proof fn lemma_sun_periodic(t: nat)
    ensures
        sun_angles_at(t as int) == sun_angles_at(t + SUN_PERIOD_MS),
{
    vstd::arithmetic::div_mod::lemma_mod_add_multiples_vanish(t as int, SUN_PERIOD_MS as int);
}

} // verus!
