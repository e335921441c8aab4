//! Per-frame update policy: turn one consumed input snapshot into camera
//! motion and model-transform updates for a frame of length `dt`.
//!
//! While the mouse button is held, the drag rotates the model and pins it
//! under the cursor. Otherwise, with the mouse lock engaged, the offset of
//! the cursor from the canvas center steers yaw and pitch once it leaves a
//! dead zone. Independently, the eight action flags translate the camera
//! along its basis vectors and spin its yaw, each scaled by `dt / 1000` so
//! the rates are frame-rate independent. A canvas thinner than one pixel,
//! or a drag or steering ratio past ten canvas extents, is absorbed rather
//! than amplified: the branch is skipped or the ratio saturates.

use vstd::prelude::*;
use crate::app::AppState;
use crate::app::KEY_BACKWARDS_INDEX;
use crate::app::KEY_DOWN_INDEX;
use crate::app::KEY_FORWARD_INDEX;
use crate::app::KEY_LEFT_INDEX;
use crate::app::KEY_RIGHT_INDEX;
use crate::app::KEY_ROTATE_LEFT_INDEX;
use crate::app::KEY_ROTATE_RIGHT_INDEX;
use crate::app::KEY_UP_INDEX;
use crate::camera::basis_after_rotate_s;
use crate::camera::lemma_step_bounded;
use crate::camera::wf_axis;
use crate::camera::Camera;
use crate::camera::PITCH_MAX;
use crate::camera::PITCH_MIN;
use crate::fixed::clamp_i64;
use crate::fixed::clamp_s;
use crate::fixed::div_fx;
use crate::fixed::div_fx_s;
use crate::fixed::div_t;
use crate::fixed::lemma_div_t_bound;
use crate::fixed::lemma_mul_bounds;
use crate::fixed::mul_fx;
use crate::fixed::mul_fx_s;
use crate::fixed::COORD_LIMIT;
use crate::fixed::FACTOR_LIMIT;
use crate::fixed::SCALE;
use crate::trig::PI_FX;
use crate::vector3::bounded;

verus! {

/// Largest magnitude the snapshot's numeric fields may have on entry to the
/// frame update (one hundred thousand fixed-point pixels).
pub const STATE_LIMIT: i64 = 100_000_000_000_000;

/// Largest frame duration the update accepts (one thousand fixed-point
/// seconds).
pub const DT_LIMIT: i64 = 1_000_000_000_000;

/// Largest accumulated yaw magnitude the update accepts, with headroom for
/// one frame's rotation inside the trigonometric range.
pub const FRAME_ANGLE_LIMIT: i64 = 900_000_000_000_000;

/// Largest position magnitude the update accepts, with headroom for one
/// frame's movement inside the movement range.
pub const FRAME_POS_LIMIT: i64 = 996_000_000_000_000;

/// The normalized steering dead zone: a tenth of the canvas extent.
pub const DEAD_ZONE: i64 = 100_000_000;

/// What a frame asks the host to do to the dragged model: rotation deltas
/// to accumulate and, while the drag lasts, a normalized position to pin it
/// under the cursor.
#[derive(Debug, PartialEq, Eq, Structural, Copy, Clone)]
pub struct ModelUpdate {
    pub rotate_x: i64,
    pub rotate_y: i64,
    pub position_x: i64,
    pub position_y: i64,
    pub reposition: bool,
}

/// One when the flag is up, zero otherwise.
pub open spec fn key_i(b: bool) -> int {
    if b {
        1
    } else {
        0
    }
}

/// The drag branch runs: the button is held on a canvas at least one pixel
/// wide and tall.
pub open spec fn drag_active_s(state: AppState) -> bool {
    state.mouse_down && state.canvas_width >= SCALE && state.canvas_height >= SCALE
}

/// The steering branch runs: no drag, the mouse lock engaged, on a canvas
/// at least one pixel wide and tall.
pub open spec fn steer_active_s(state: AppState) -> bool {
    !state.mouse_down && state.mouse_locked && state.canvas_width >= SCALE && state.canvas_height
        >= SCALE
}

/// A normalized ratio: the saturated quotient of `num` by the canvas extent
/// `den`.
pub open spec fn ratio_s(num: int, den: int) -> int {
    clamp_s(div_fx_s(num, den), -FACTOR_LIMIT as int, FACTOR_LIMIT as int)
}

/// The cursor's offset from the canvas center, normalized by the extent.
pub open spec fn center_offset_s(pos: int, extent: int) -> int {
    ratio_s(pos - div_t(extent, 2), extent)
}

/// The steering applied to one angle: the normalized center offset, past
/// the dead zone, scaled by `dt / 1000` and subtracted.
pub open spec fn steer_delta_s(pos: int, extent: int, dt: int) -> int {
    if center_offset_s(pos, extent) >= DEAD_ZONE || center_offset_s(pos, extent) <= -DEAD_ZONE {
        mul_fx_s(center_offset_s(pos, extent), div_t(dt, 1000))
    } else {
        0
    }
}

/// The yaw after the steering phase of a frame.
pub open spec fn steered_yaw_s(yaw: int, state: AppState, dt: int) -> int {
    if steer_active_s(state) {
        yaw - steer_delta_s(state.mouse_x as int, state.canvas_width as int, dt)
    } else {
        yaw
    }
}

/// The yaw after one frame: steering while the lock is engaged, and the
/// rotation keys, each scaled by `dt / 1000`.
pub open spec fn frame_yaw_s(yaw: int, state: AppState, dt: int) -> int {
    steered_yaw_s(yaw, state, dt) + (key_i(state.key_pressed@[KEY_ROTATE_LEFT_INDEX as int])
        - key_i(state.key_pressed@[KEY_ROTATE_RIGHT_INDEX as int])) * div_t(dt, 1000)
}

/// The pitch after one frame, before the clamp inside the rotation.
pub open spec fn frame_pitch_raw_s(pitch: int, state: AppState, dt: int) -> int {
    if steer_active_s(state) {
        pitch - steer_delta_s(state.mouse_y as int, state.canvas_height as int, dt)
    } else {
        pitch
    }
}

/// The signed movement along one axis: the opposing flags cancel, scaled by
/// `dt / 1000`.
pub open spec fn axis_delta_s(pos_key: bool, neg_key: bool, dt: int) -> int {
    (key_i(pos_key) - key_i(neg_key)) * div_t(dt, 1000)
}

/// The model update of a frame: while dragging, rotation proportional to
/// the normalized mouse deltas times `pi * dt / 100`, and the normalized
/// cursor position; otherwise nothing.
pub open spec fn model_update_s(state: AppState, dt: int) -> ModelUpdate {
    if drag_active_s(state) {
        let w = state.canvas_width as int;
        let h = state.canvas_height as int;
        ModelUpdate {
            rotate_y: (-mul_fx_s(
                ratio_s(state.delta_mouse_x as int, w),
                mul_fx_s(PI_FX as int, div_t(dt, 100)),
            )) as i64,
            rotate_x: (-mul_fx_s(
                ratio_s(state.delta_mouse_y as int, h),
                mul_fx_s(PI_FX as int, div_t(dt, 100)),
            )) as i64,
            position_x: div_fx_s(2 * (state.mouse_x as int) - w, w) as i64,
            position_y: div_fx_s(2 * (state.mouse_y as int) - h, h) as i64,
            reposition: true,
        }
    } else {
        ModelUpdate { rotate_x: 0i64, rotate_y: 0i64, position_x: 0i64, position_y: 0i64, reposition: false }
    }
}

/// All numeric snapshot fields the update reads are within `STATE_LIMIT`.
pub open spec fn state_bounded_s(state: AppState) -> bool {
    &&& -STATE_LIMIT <= state.canvas_width <= STATE_LIMIT
    &&& -STATE_LIMIT <= state.canvas_height <= STATE_LIMIT
    &&& -STATE_LIMIT <= state.mouse_x <= STATE_LIMIT
    &&& -STATE_LIMIT <= state.mouse_y <= STATE_LIMIT
    &&& -STATE_LIMIT <= state.delta_mouse_x <= STATE_LIMIT
    &&& -STATE_LIMIT <= state.delta_mouse_y <= STATE_LIMIT
}

/// A saturated ratio of a bounded numerator over a canvas extent of at
/// least one pixel.
fn ratio(num: i64, den: i64) -> (r: i64)
    requires
        -STATE_LIMIT - STATE_LIMIT <= num <= STATE_LIMIT + STATE_LIMIT,
        SCALE <= den <= STATE_LIMIT,
    ensures
        r == ratio_s(num as int, den as int),
        -FACTOR_LIMIT <= r <= FACTOR_LIMIT,
{
    proof {
        lemma_mul_bounds(num as int, SCALE as int, COORD_LIMIT as int, SCALE as int);
        assert((COORD_LIMIT as int) * (SCALE as int) <= (COORD_LIMIT as int) * (den as int))
            by (nonlinear_arith)
            requires
                SCALE <= den,
                COORD_LIMIT == 1_000_000_000_000_000i64;
    }
    let q = div_fx(num, den);
    clamp_i64(q, -FACTOR_LIMIT, FACTOR_LIMIT)
}

/// The model update of one frame, from the drag branch.
fn compute_model_update(state: &AppState, dt: i64) -> (m: ModelUpdate)
    requires
        state_bounded_s(*state),
        0 <= dt <= DT_LIMIT,
    ensures
        m == model_update_s(*state, dt as int),
{
    if state.mouse_down && state.canvas_width >= SCALE && state.canvas_height >= SCALE {
        let w = state.canvas_width;
        let h = state.canvas_height;
        let dt100: i64 = dt / 100;
        proof {
            lemma_div_t_bound(dt as int, 100, DT_LIMIT as int);
            lemma_mul_bounds(PI_FX as int, div_t(dt as int, 100), PI_FX as int, DT_LIMIT as int);
            lemma_div_t_bound(
                (PI_FX as int) * div_t(dt as int, 100),
                SCALE as int,
                4_000_000_000_000_000int,
            );
        }
        let factor = mul_fx(PI_FX, dt100);
        let rot_y = -mul_fx(ratio(state.delta_mouse_x, w), factor);
        let rot_x = -mul_fx(ratio(state.delta_mouse_y, h), factor);
        proof {
            lemma_mul_bounds(
                2 * state.mouse_x as int - w as int,
                SCALE as int,
                COORD_LIMIT as int,
                SCALE as int,
            );
            lemma_mul_bounds(
                2 * state.mouse_y as int - h as int,
                SCALE as int,
                COORD_LIMIT as int,
                SCALE as int,
            );
            assert((COORD_LIMIT as int) * (SCALE as int) <= (COORD_LIMIT as int) * (w as int)
                && (COORD_LIMIT as int) * (SCALE as int) <= (COORD_LIMIT as int) * (h as int))
                by (nonlinear_arith)
                requires
                    SCALE <= w,
                    SCALE <= h,
                    COORD_LIMIT == 1_000_000_000_000_000i64;
        }
        let pos_x = div_fx(2 * state.mouse_x - w, w);
        let pos_y = div_fx(2 * state.mouse_y - h, h);
        ModelUpdate {
            rotate_x: rot_x,
            rotate_y: rot_y,
            position_x: pos_x,
            position_y: pos_y,
            reposition: true,
        }
    } else {
        ModelUpdate { rotate_x: 0, rotate_y: 0, position_x: 0, position_y: 0, reposition: false }
    }
}

/// The steering phase: while the mouse lock is engaged and no drag is in
/// progress, the cursor's offset from the canvas center, past the dead
/// zone, turns yaw and pitch.
fn steer_camera(camera: &mut Camera, state: &AppState, dt: i64)
    requires
        state_bounded_s(*state),
        0 <= dt <= DT_LIMIT,
        -FRAME_ANGLE_LIMIT <= old(camera).direction.yaw <= FRAME_ANGLE_LIMIT,
        PITCH_MIN <= old(camera).direction.pitch <= PITCH_MAX,
    ensures
        final(camera).direction.yaw == steered_yaw_s(
            old(camera).direction.yaw as int,
            *state,
            dt as int,
        ),
        final(camera).direction.pitch == frame_pitch_raw_s(
            old(camera).direction.pitch as int,
            *state,
            dt as int,
        ),
        -FRAME_ANGLE_LIMIT - 10_000_000_000 <= final(camera).direction.yaw <= FRAME_ANGLE_LIMIT
            + 10_000_000_000,
        PITCH_MIN - 10_000_000_000 <= final(camera).direction.pitch <= PITCH_MAX
            + 10_000_000_000,
        final(camera).direction.right == old(camera).direction.right,
        final(camera).direction.up == old(camera).direction.up,
        final(camera).direction.forward == old(camera).direction.forward,
        final(camera).position == old(camera).position,
        final(camera).is_orthographic == old(camera).is_orthographic,
        final(camera).pinhole_camera == old(camera).pinhole_camera,
        final(camera).target == old(camera).target,
{
    let dt1000: i64 = dt / 1000;
    proof {
        lemma_div_t_bound(dt as int, 1000, 1_000_000_000int);
    }
    if !state.mouse_down && state.mouse_locked && state.canvas_width >= SCALE
        && state.canvas_height >= SCALE {
        let offset_x = ratio(state.mouse_x - state.canvas_width / 2, state.canvas_width);
        let offset_y = ratio(state.mouse_y - state.canvas_height / 2, state.canvas_height);
        proof {
            lemma_mul_bounds(offset_x as int, dt1000 as int, FACTOR_LIMIT as int, 1_000_000_000int);
            lemma_mul_bounds(offset_y as int, dt1000 as int, FACTOR_LIMIT as int, 1_000_000_000int);
            lemma_div_t_bound(
                offset_x as int * dt1000 as int,
                SCALE as int,
                10_000_000_000int,
            );
            lemma_div_t_bound(
                offset_y as int * dt1000 as int,
                SCALE as int,
                10_000_000_000int,
            );
        }
        if offset_x >= DEAD_ZONE || offset_x <= -DEAD_ZONE {
            camera.direction.yaw = camera.direction.yaw - mul_fx(offset_x, dt1000);
        }
        if offset_y >= DEAD_ZONE || offset_y <= -DEAD_ZONE {
            camera.direction.pitch = camera.direction.pitch - mul_fx(offset_y, dt1000);
        }
    }
}

/// Update the camera for one frame from a consumed snapshot, handing back
/// what the host should do to the dragged model.
#[verifier::rlimit(100)]
#[verifier::spinoff_prover]
pub fn update_camera(camera: &mut Camera, state: &AppState, dt: i64) -> (m: ModelUpdate)
    requires
        wf_axis(old(camera).direction),
        bounded(old(camera).position, FRAME_POS_LIMIT as int),
        -FRAME_ANGLE_LIMIT <= old(camera).direction.yaw <= FRAME_ANGLE_LIMIT,
        0 <= dt <= DT_LIMIT,
        state_bounded_s(*state),
    ensures
        m == model_update_s(*state, dt as int),
        final(camera).direction.yaw == frame_yaw_s(
            old(camera).direction.yaw as int,
            *state,
            dt as int,
        ),
        final(camera).direction.pitch == clamp_s(
            frame_pitch_raw_s(old(camera).direction.pitch as int, *state, dt as int),
            PITCH_MIN as int,
            PITCH_MAX as int,
        ),
        basis_after_rotate_s(
            final(camera).direction.yaw as int,
            final(camera).direction.pitch as int,
            old(camera).direction.right,
            old(camera).direction.up,
            old(camera).direction.forward,
            final(camera).direction.right,
            final(camera).direction.up,
            final(camera).direction.forward,
        ),
        wf_axis(final(camera).direction),
        final(camera).position.x == old(camera).position.x + mul_fx_s(
            old(camera).direction.right.x as int,
            axis_delta_s(
                state.key_pressed@[KEY_RIGHT_INDEX as int],
                state.key_pressed@[KEY_LEFT_INDEX as int],
                dt as int,
            ),
        ) + mul_fx_s(
            old(camera).direction.up.x as int,
            axis_delta_s(
                state.key_pressed@[KEY_UP_INDEX as int],
                state.key_pressed@[KEY_DOWN_INDEX as int],
                dt as int,
            ),
        ) + mul_fx_s(
            old(camera).direction.forward.x as int,
            axis_delta_s(
                state.key_pressed@[KEY_FORWARD_INDEX as int],
                state.key_pressed@[KEY_BACKWARDS_INDEX as int],
                dt as int,
            ),
        ),
        final(camera).position.y == old(camera).position.y + mul_fx_s(
            old(camera).direction.right.y as int,
            axis_delta_s(
                state.key_pressed@[KEY_RIGHT_INDEX as int],
                state.key_pressed@[KEY_LEFT_INDEX as int],
                dt as int,
            ),
        ) + mul_fx_s(
            old(camera).direction.up.y as int,
            axis_delta_s(
                state.key_pressed@[KEY_UP_INDEX as int],
                state.key_pressed@[KEY_DOWN_INDEX as int],
                dt as int,
            ),
        ) + mul_fx_s(
            old(camera).direction.forward.y as int,
            axis_delta_s(
                state.key_pressed@[KEY_FORWARD_INDEX as int],
                state.key_pressed@[KEY_BACKWARDS_INDEX as int],
                dt as int,
            ),
        ),
        final(camera).position.z == old(camera).position.z + mul_fx_s(
            old(camera).direction.right.z as int,
            axis_delta_s(
                state.key_pressed@[KEY_RIGHT_INDEX as int],
                state.key_pressed@[KEY_LEFT_INDEX as int],
                dt as int,
            ),
        ) + mul_fx_s(
            old(camera).direction.up.z as int,
            axis_delta_s(
                state.key_pressed@[KEY_UP_INDEX as int],
                state.key_pressed@[KEY_DOWN_INDEX as int],
                dt as int,
            ),
        ) + mul_fx_s(
            old(camera).direction.forward.z as int,
            axis_delta_s(
                state.key_pressed@[KEY_FORWARD_INDEX as int],
                state.key_pressed@[KEY_BACKWARDS_INDEX as int],
                dt as int,
            ),
        ),
        final(camera).is_orthographic == old(camera).is_orthographic,
        final(camera).pinhole_camera == old(camera).pinhole_camera,
        final(camera).target == old(camera).target,
{
    let dt1000: i64 = dt / 1000;
    proof {
        lemma_div_t_bound(dt as int, 1000, 1_000_000_000int);
    }
    let model_update = compute_model_update(state, dt);
    steer_camera(camera, state, dt);
    let forward_key: i64 = if state.key_pressed[KEY_FORWARD_INDEX] {
        1
    } else {
        0
    };
    let backward_key: i64 = if state.key_pressed[KEY_BACKWARDS_INDEX] {
        1
    } else {
        0
    };
    let left_key: i64 = if state.key_pressed[KEY_LEFT_INDEX] {
        1
    } else {
        0
    };
    let right_key: i64 = if state.key_pressed[KEY_RIGHT_INDEX] {
        1
    } else {
        0
    };
    let up_key: i64 = if state.key_pressed[KEY_UP_INDEX] {
        1
    } else {
        0
    };
    let down_key: i64 = if state.key_pressed[KEY_DOWN_INDEX] {
        1
    } else {
        0
    };
    let rot_left_key: i64 = if state.key_pressed[KEY_ROTATE_LEFT_INDEX] {
        1
    } else {
        0
    };
    let rot_right_key: i64 = if state.key_pressed[KEY_ROTATE_RIGHT_INDEX] {
        1
    } else {
        0
    };
    let delta_x = (right_key - left_key) * dt1000;
    let delta_y = (up_key - down_key) * dt1000;
    let delta_z = (forward_key - backward_key) * dt1000;
    proof {
        lemma_small_factor(right_key as int - left_key as int, dt1000 as int);
        lemma_small_factor(up_key as int - down_key as int, dt1000 as int);
        lemma_small_factor(forward_key as int - backward_key as int, dt1000 as int);
        lemma_small_factor(rot_left_key as int - rot_right_key as int, dt1000 as int);
        lemma_step_bounded(camera.direction.right, delta_x);
        lemma_step_bounded(camera.direction.up, delta_y);
        lemma_step_bounded(camera.direction.forward, delta_z);
    }
    camera.move_right(delta_x);
    camera.move_up(delta_y);
    camera.move_forward(delta_z);
    let rotation = (rot_left_key - rot_right_key) * dt1000;
    camera.rotate(rotation, 0, 0);
    model_update
}

/// A sign in `[-1, 1]` times a bounded step stays within the step.
proof fn lemma_small_factor(sign: int, step: int)
    requires
        -1 <= sign <= 1,
        0 <= step <= DT_LIMIT,
    ensures
        -step <= sign * step <= step,
        -DT_LIMIT <= sign * step <= DT_LIMIT,
{
    assert(-step <= sign * step <= step) by (nonlinear_arith)
        requires
            -1 <= sign <= 1,
            0 <= step;
}

} // verus!
