use sun_actor::cursor::{cursor_marker, intersect_plane, Plane, Ray, MARKER_RADIUS};
use sun_actor::light::{sun_angles, SUN_PERIOD_MS, SUN_TILT_MDEG};
use sun_actor::locomotion::{held_direction, locomotion_step, movement, CameraBasis, MoveError, MoveKeys, MOVE_SPEED};
use sun_actor::lookup::{single, LookupError};
use sun_actor::rotation::{orientation_update, reset_forward, OrientationUpdate, RotateKeys};
use sun_actor::vector::{integer_sqrt, normalize_or_zero, Vec3i, COORD_LIMIT, UNIT};

fn v(x: i64, y: i64, z: i64) -> Vec3i {
    Vec3i::new(x, y, z)
}

fn level_camera() -> CameraBasis {
    CameraBasis { forward: v(0, 0, -UNIT), right: v(UNIT, 0, 0) }
}

fn pitched_camera() -> CameraBasis {
    // looking down and ahead along -Z, 0.6 down and 0.8 ahead
    CameraBasis { forward: v(0, -39322, -52429), right: v(UNIT, 0, 0) }
}

fn keys(forward: bool, back: bool, left: bool, right: bool) -> MoveKeys {
    MoveKeys { forward, back, left, right }
}

fn length_sq(a: Vec3i) -> i128 {
    let (x, y, z) = (a.x as i128, a.y as i128, a.z as i128);
    x * x + y * y + z * z
}

#[test]
fn forward_for_one_second_moves_speed_along_minus_z() {
    let r = locomotion_step(v(0, 0, 0), keys(true, false, false, false), vec![level_camera()], 1000);
    assert_eq!(r, Ok(v(0, 0, -MOVE_SPEED * UNIT)));
}

#[test]
fn forward_over_ten_frames_adds_up_to_one_second() {
    let mut pos = v(0, 0, 0);
    for _ in 0..10 {
        pos = locomotion_step(pos, keys(true, false, false, false), vec![level_camera()], 100).unwrap();
    }
    // each frame rounds toward zero by less than one step
    assert_eq!((pos.x, pos.y), (0, 0));
    assert!(pos.z <= -MOVE_SPEED * UNIT + 10 && pos.z >= -MOVE_SPEED * UNIT);
}

#[test]
fn opposing_keys_cancel() {
    for cam in [level_camera(), pitched_camera()] {
        for k in [
            keys(true, true, false, false),
            keys(false, false, true, true),
            keys(true, true, true, true),
            keys(false, false, false, false),
        ] {
            assert_eq!(movement(k, &cam, 1000), v(0, 0, 0));
        }
    }
}

#[test]
fn single_keys_move_horizontally_under_a_pitched_camera() {
    let cam = pitched_camera();
    for k in [
        keys(true, false, false, false),
        keys(false, true, false, false),
        keys(false, false, true, false),
        keys(false, false, false, true),
    ] {
        let m = movement(k, &cam, 1000);
        assert_eq!(m.y, 0);
        assert_ne!(m, v(0, 0, 0));
    }
    assert_eq!(movement(keys(true, false, false, false), &cam, 1000), v(0, 0, -MOVE_SPEED * UNIT));
    assert_eq!(movement(keys(false, false, true, false), &cam, 1000), v(-MOVE_SPEED * UNIT, 0, 0));
}

#[test]
fn diagonal_movement_has_the_same_speed() {
    let m = movement(keys(true, false, false, true), &level_camera(), 1000);
    assert_eq!(m, v(92680, 0, -92680));
}

#[test]
fn held_direction_drops_the_vertical_part() {
    let d = held_direction(keys(true, false, false, true), &pitched_camera());
    assert_eq!(d, v(UNIT, 0, -52429));
}

#[test]
fn normalize_gives_unit_length() {
    assert_eq!(normalize_or_zero(v(3, 0, 4)), v(39321, 0, 52428));
    assert_eq!(normalize_or_zero(v(3 * UNIT, 0, -4 * UNIT)), v(39321, 0, -52428));
    assert_eq!(normalize_or_zero(v(0, 0, -52429)), v(0, 0, -UNIT));
    let n = normalize_or_zero(v(1, 1, 0));
    assert_eq!(n, v(46341, 46341, 0));
    let u = UNIT as i128;
    assert!(length_sq(n) < (u + 1) * (u + 1));
    assert!(length_sq(v(n.x + 1, n.y + 1, 0)) > u * u);
}

#[test]
fn normalize_again_stays_near_unit() {
    let once = normalize_or_zero(v(5, -7, 11));
    let twice = normalize_or_zero(once);
    assert!((once.x - twice.x).abs() <= 1);
    assert!((once.y - twice.y).abs() <= 1);
    assert!((once.z - twice.z).abs() <= 1);
}

#[test]
fn normalize_zero_is_zero() {
    assert_eq!(normalize_or_zero(v(0, 0, 0)), v(0, 0, 0));
}

#[test]
fn integer_sqrt_rounds_down() {
    assert_eq!(integer_sqrt(0), 0);
    assert_eq!(integer_sqrt(15), 3);
    assert_eq!(integer_sqrt(16), 4);
    assert_eq!(integer_sqrt(2 * 65536 * 65536), 92681);
}

#[test]
fn sun_repeats_after_one_period() {
    for t in [0u64, 1, 2500, 9999, 123456] {
        assert_eq!(sun_angles(t), sun_angles(t + SUN_PERIOD_MS));
    }
}

#[test]
fn sun_yaw_grows_with_time() {
    let a = sun_angles(2500);
    assert_eq!(a.yaw_mdeg, 90000);
    assert_eq!(a.tilt_mdeg, SUN_TILT_MDEG);
    assert_eq!(sun_angles(0).yaw_mdeg, 0);
    assert_eq!(sun_angles(9999).yaw_mdeg, 359964);
    assert_eq!(sun_angles(10000).yaw_mdeg, 0);
}

fn ground() -> Plane {
    Plane { point: v(0, 0, 0), normal: v(0, UNIT, 0) }
}

#[test]
fn ray_straight_down_hits_the_origin() {
    let ray = Ray { origin: v(0, 5 * UNIT, 0), direction: v(0, -UNIT, 0) };
    assert_eq!(intersect_plane(&ray, &ground()), Some(v(0, 0, 0)));
    let m = cursor_marker(Some(ray), &ground()).unwrap();
    assert_eq!(m.center, v(0, UNIT / 100, 0));
    assert_eq!(m.normal, v(0, UNIT, 0));
    assert_eq!(m.radius, MARKER_RADIUS);
}

#[test]
fn slanted_ray_hits_ahead() {
    let ray = Ray { origin: v(0, 2 * UNIT, 0), direction: v(0, -UNIT, -UNIT) };
    assert_eq!(intersect_plane(&ray, &ground()), Some(v(0, 0, -2 * UNIT)));
}

#[test]
fn ray_along_the_horizon_misses() {
    let ray = Ray { origin: v(0, 5 * UNIT, 0), direction: v(0, 0, -UNIT) };
    assert_eq!(intersect_plane(&ray, &ground()), None);
    assert_eq!(cursor_marker(Some(ray), &ground()), None);
}

#[test]
fn plane_behind_the_ray_misses() {
    let ray = Ray { origin: v(0, 5 * UNIT, 0), direction: v(0, UNIT, 0) };
    assert_eq!(intersect_plane(&ray, &ground()), None);
}

#[test]
fn far_hit_is_dropped() {
    let ray = Ray { origin: v(0, UNIT, 0), direction: v(COORD_LIMIT, -1, 0) };
    assert_eq!(intersect_plane(&ray, &ground()), None);
}

#[test]
fn no_pointer_no_marker() {
    assert_eq!(cursor_marker(None, &ground()), None);
}

#[test]
fn reset_wins_over_spins() {
    let k = RotateKeys { spin_x: true, spin_y: true, spin_z: true, reset: true };
    assert_eq!(orientation_update(k, 16), OrientationUpdate::Reset);
    assert_eq!(reset_forward(), v(0, 0, -UNIT));
}

#[test]
fn spins_follow_their_rates() {
    let k = RotateKeys { spin_x: true, spin_y: true, spin_z: false, reset: false };
    assert_eq!(
        orientation_update(k, 700),
        OrientationUpdate::Spin { x_urad: 1000000, y_urad: 583333, z_urad: 0 }
    );
    let k = RotateKeys { spin_x: false, spin_y: false, spin_z: true, reset: false };
    assert_eq!(
        orientation_update(k, 1200),
        OrientationUpdate::Spin { x_urad: 0, y_urad: 0, z_urad: 1000000 }
    );
}

#[test]
fn camera_lookup_needs_exactly_one() {
    assert_eq!(single::<u8>(vec![]), Err(LookupError::Missing));
    assert_eq!(single(vec![1u8, 2]), Err(LookupError::Ambiguous { count: 2 }));
    assert_eq!(single(vec![7u8]), Ok(7));
}

#[test]
fn locomotion_reports_camera_errors() {
    let k = keys(true, false, false, false);
    assert_eq!(locomotion_step(v(0, 0, 0), k, vec![], 16), Err(MoveError::Camera(LookupError::Missing)));
    assert_eq!(
        locomotion_step(v(0, 0, 0), k, vec![level_camera(), level_camera()], 16),
        Err(MoveError::Camera(LookupError::Ambiguous { count: 2 }))
    );
    let wild = CameraBasis { forward: v(0, 0, i64::MIN), right: v(UNIT, 0, 0) };
    assert_eq!(locomotion_step(v(0, 0, 0), k, vec![wild], 16), Err(MoveError::CameraOutOfRange));
}

#[test]
fn locomotion_stops_at_the_coordinate_limit() {
    let k = keys(true, false, false, false);
    assert_eq!(
        locomotion_step(v(0, 0, -COORD_LIMIT), k, vec![level_camera()], 16),
        Err(MoveError::PositionOutOfRange)
    );
    assert_eq!(
        locomotion_step(v(0, 0, -COORD_LIMIT), keys(false, false, false, false), vec![level_camera()], 16),
        Ok(v(0, 0, -COORD_LIMIT))
    );
}

#[test]
fn normalize_keeps_a_unit_vector() {
    for u in [v(UNIT, 0, 0), v(0, -UNIT, 0), v(0, 0, -UNIT)] {
        assert_eq!(normalize_or_zero(u), u);
        assert_eq!(normalize_or_zero(normalize_or_zero(u)), normalize_or_zero(u));
    }
}
