//! Camera and orientation behavior: orthonormality of the basis, the pitch
//! clamp, exact movement round trips, the per-frame update, the view
//! matrix, and the lens queries.

use fpscam::camera::Axis;
use fpscam::camera::FPSCamera;
use fpscam::camera::PinholeCamera;
use fpscam::camera::PITCH_MAX;
use fpscam::camera::PITCH_MIN;
use fpscam::frame::update_camera;
use fpscam::matrix::Mat4x4;
use fpscam::trig::HALF_PI_FX;
use fpscam::vector3::Vector3;
use fpscam::SCALE;

/// The norm of each basis vector is within `10_000` units of one, and each
/// pairwise dot product within `10_000` units of zero.
fn assert_orthonormal(axis: &Axis) {
    for v in [&axis.right, &axis.up, &axis.forward] {
        let n = v.norm();
        assert!((n - SCALE).abs() <= 10_000, "norm off: {}", n);
    }
    for (u, v) in [
        (&axis.right, &axis.up),
        (&axis.up, &axis.forward),
        (&axis.forward, &axis.right),
    ] {
        let d = u.dot(v);
        assert!(d.abs() <= 10_000, "dot off: {}", d);
    }
}

#[test]
fn basis_starts_orthonormal() {
    let axis = Axis::new();
    assert_orthonormal(&axis);
    assert_eq!(axis.yaw, 0);
    assert_eq!(axis.pitch, HALF_PI_FX);
}

#[test]
fn basis_stays_orthonormal_through_rotations() {
    let mut axis = Axis::new();
    let steps: [(i64, i64); 6] = [
        (500_000_000, 200_000_000),
        (-1_200_000_000, -900_000_000),
        (3_000_000_000, 2_500_000_000),
        (-7_000_000_000, -4_000_000_000),
        (123_456_789, 987_654_321),
        (-1, 1),
    ];
    for (dy, dp) in steps {
        axis.rotate(dy, dp, 0);
        assert_orthonormal(&axis);
    }
}

#[test]
fn pitch_is_clamped_under_huge_input() {
    let mut axis = Axis::new();
    axis.rotate(0, 1000 * SCALE, 0);
    assert_eq!(axis.pitch, PITCH_MAX);
    assert_orthonormal(&axis);
    axis.rotate(0, -1000 * SCALE, 0);
    assert_eq!(axis.pitch, PITCH_MIN);
    assert_orthonormal(&axis);
}

#[test]
fn quarter_turn_left_gives_exact_axes() {
    let mut axis = Axis::new();
    axis.rotate(-HALF_PI_FX, 0, 0);
    assert_eq!(axis.forward, Vector3::new(-SCALE, 0, 0));
    assert_eq!(axis.right, Vector3::new(0, 0, -SCALE));
    assert_eq!(axis.up, Vector3::new(0, SCALE, 0));
}

#[test]
fn move_forward_round_trip_returns_exactly() {
    let mut camera = FPSCamera::new();
    camera.rotate(777_000_000, -333_000_000, 0);
    let start = camera.position;
    let d: i64 = 123_456_789_123;
    camera.move_forward(d);
    assert_ne!(camera.position, start);
    camera.move_forward(-d);
    assert_eq!(camera.position, start);
}

#[test]
fn move_right_and_up_round_trips_return_exactly() {
    let mut camera = FPSCamera::new();
    camera.rotate(-250_000_000, 150_000_000, 0);
    let start = camera.position;
    camera.move_right(987_654_321);
    camera.move_up(-13_579);
    camera.move_up(13_579);
    camera.move_right(-987_654_321);
    assert_eq!(camera.position, start);
}

#[test]
fn forward_key_moves_along_forward_only() {
    let mut camera = FPSCamera::new();
    camera.position = Vector3::new(0, 0, 3 * SCALE);
    let mut state = fpscam::app::AppState::new();
    state.mouse_locked = false;
    state.key_pressed[fpscam::app::KEY_FORWARD_INDEX] = true;
    let dt: i64 = 16 * SCALE;
    let model = update_camera(&mut camera, &state, dt);
    // dt / 1000 scaled along the forward vector (0, 0, 1).
    assert_eq!(camera.position, Vector3::new(0, 0, 3 * SCALE + 16_000_000));
    assert_eq!(camera.direction.yaw, 0);
    assert_eq!(camera.direction.pitch, HALF_PI_FX);
    assert_eq!(camera.direction.forward, Vector3::new(0, 0, SCALE));
    assert!(!model.reposition);
    assert_eq!(model.rotate_x, 0);
    assert_eq!(model.rotate_y, 0);
}

#[test]
fn update_with_zero_dt_moves_nothing() {
    let mut camera = FPSCamera::new();
    let start = camera.position;
    let mut state = fpscam::app::AppState::new();
    state.mouse_locked = false;
    state.key_pressed[fpscam::app::KEY_FORWARD_INDEX] = true;
    state.key_pressed[fpscam::app::KEY_RIGHT_INDEX] = true;
    update_camera(&mut camera, &state, 0);
    assert_eq!(camera.position, start);
    assert_eq!(camera.direction.yaw, 0);
    assert_eq!(camera.direction.pitch, HALF_PI_FX);
}

#[test]
fn opposed_keys_cancel() {
    let mut camera = FPSCamera::new();
    let start = camera.position;
    let mut state = fpscam::app::AppState::new();
    state.mouse_locked = false;
    state.key_pressed[fpscam::app::KEY_FORWARD_INDEX] = true;
    state.key_pressed[fpscam::app::KEY_BACKWARDS_INDEX] = true;
    state.key_pressed[fpscam::app::KEY_LEFT_INDEX] = true;
    state.key_pressed[fpscam::app::KEY_RIGHT_INDEX] = true;
    update_camera(&mut camera, &state, 16 * SCALE);
    assert_eq!(camera.position, start);
}

#[test]
fn steering_outside_dead_zone_turns_yaw() {
    let mut camera = FPSCamera::new();
    let mut state = fpscam::app::AppState::new();
    state.mouse_locked = true;
    state.canvas_width = 800 * SCALE;
    state.canvas_height = 600 * SCALE;
    // Mouse at three quarters across: offset 0.25, past the 0.1 dead zone.
    state.mouse_x = 600 * SCALE;
    // Mouse vertically centered: offset 0, inside the dead zone.
    state.mouse_y = 300 * SCALE;
    update_camera(&mut camera, &state, 1000 * SCALE);
    // yaw -= 0.25 * (dt / 1000) = 0.25.
    assert_eq!(camera.direction.yaw, -250_000_000);
    assert_eq!(camera.direction.pitch, HALF_PI_FX);
}

#[test]
fn drag_rotates_model_not_camera() {
    let mut camera = FPSCamera::new();
    let mut state = fpscam::app::AppState::new();
    state.mouse_down = true;
    state.canvas_width = 800 * SCALE;
    state.canvas_height = 600 * SCALE;
    state.mouse_x = 600 * SCALE;
    state.mouse_y = 150 * SCALE;
    state.delta_mouse_x = 80 * SCALE;
    state.delta_mouse_y = -60 * SCALE;
    let model = update_camera(&mut camera, &state, 100 * SCALE);
    assert!(model.reposition);
    assert_eq!(camera.direction.yaw, 0);
    assert_eq!(camera.direction.pitch, HALF_PI_FX);
    // position: (2 * mouse - extent) / extent.
    assert_eq!(model.position_x, 500_000_000);
    assert_eq!(model.position_y, -500_000_000);
    // rotation: -(delta / extent) * pi * (dt / 100).
    // delta_x / w = 0.1; pi * (dt / 100) = pi; rotate_y = -0.1 * pi.
    assert_eq!(model.rotate_y, -314_159_265);
    // delta_y / h = -0.1; rotate_x = 0.1 * pi.
    assert_eq!(model.rotate_x, 314_159_265);
}

#[test]
fn view_matrix_of_default_camera() {
    let camera = FPSCamera::new();
    let m: Mat4x4 = camera.view_matrix();
    let expected: Mat4x4 = [
        -SCALE, 0, 0, 0,
        0, SCALE, 0, 0,
        0, 0, -SCALE, 0,
        0, 0, -3 * SCALE, SCALE,
    ];
    assert_eq!(m, expected);
}

#[test]
fn view_matrix_with_target_on_eye_is_identity() {
    let mut camera = FPSCamera::new();
    camera.target = Some(camera.position);
    let m: Mat4x4 = camera.view_matrix();
    assert_eq!(m, fpscam::matrix::identity());
}

#[test]
fn aspect_ratio_of_square_sensor_is_one() {
    let lens = PinholeCamera::new();
    assert_eq!(lens.aspect_ratio(), SCALE);
}

#[test]
fn aspect_ratio_guards_zero_height() {
    let mut lens = PinholeCamera::new();
    lens.sensor_height = 0;
    assert_eq!(lens.aspect_ratio(), SCALE);
}

#[test]
fn fov_matches_pinhole_formula() {
    let lens = PinholeCamera::new();
    // 2 * atan(20 / 16), under the rational arctangent approximation.
    assert_eq!(lens.fov_y(), 1_784_740_552);
    assert_eq!(lens.fov_x(), 1_784_740_552);
    // About 1.7847 radians; the closed form is about 1.7921.
    assert!((lens.fov_y() - 1_792_110_000).abs() < 10_000_000);
}

#[test]
fn trig_hits_exact_points() {
    assert_eq!(fpscam::trig::sin_fx(0), 0);
    assert_eq!(fpscam::trig::cos_fx(HALF_PI_FX), 0);
    assert_eq!(fpscam::trig::sin_fx(HALF_PI_FX), 999_843_102);
    // One turn minus a quarter turn folds onto a point one unit short of
    // the quarter turn, so the magnitude differs by one unit.
    assert_eq!(fpscam::trig::sin_fx(-HALF_PI_FX), -999_843_101);
}
