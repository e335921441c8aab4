//! Input snapshot behavior: the vertical flip, deltas, the key table, the
//! mouse-lock toggle, and the frame-start tick.

use fpscam::app::AppState;
use fpscam::app::PointerLockAction;
use fpscam::app::KEY_BACKWARDS_INDEX;
use fpscam::app::KEY_FORWARD_INDEX;
use fpscam::SCALE;

#[test]
fn mouse_down_flips_vertical_axis() {
    let mut state = AppState::new();
    state.canvas_height = 600 * SCALE;
    state.update_mouse_down(100 * SCALE, 100 * SCALE);
    assert!(state.mouse_down);
    assert_eq!(state.mouse_x, 100 * SCALE);
    assert_eq!(state.mouse_y, 500 * SCALE);
    state.update_mouse_up(100 * SCALE, 100 * SCALE);
    assert!(!state.mouse_down);
}

#[test]
fn mouse_move_tracks_deltas() {
    let mut state = AppState::new();
    state.canvas_height = 600 * SCALE;
    state.update_mouse_move(10 * SCALE, 40 * SCALE);
    assert_eq!(state.mouse_x, 10 * SCALE);
    assert_eq!(state.mouse_y, 560 * SCALE);
    // The change since the previous position (which starts at minus one).
    assert_eq!(state.delta_mouse_x, 11 * SCALE);
    assert_eq!(state.delta_mouse_y, 561 * SCALE);
    state.update_mouse_move(15 * SCALE, 50 * SCALE);
    assert_eq!(state.delta_mouse_x, 5 * SCALE);
    assert_eq!(state.delta_mouse_y, -10 * SCALE);
}

#[test]
fn key_w_raises_then_lowers_forward_flag() {
    let mut state = AppState::new();
    state.update_key_down("KeyW");
    assert!(state.key_pressed[KEY_FORWARD_INDEX]);
    let action = state.update_key_up("KeyW");
    assert!(!state.key_pressed[KEY_FORWARD_INDEX]);
    assert_eq!(action, PointerLockAction::Keep);
}

#[test]
fn unrecognized_key_leaves_action_flags_alone() {
    let mut state = AppState::new();
    state.update_key_down("KeyS");
    let before: [bool; 8] = [
        state.key_pressed[1],
        state.key_pressed[2],
        state.key_pressed[3],
        state.key_pressed[4],
        state.key_pressed[5],
        state.key_pressed[6],
        state.key_pressed[7],
        state.key_pressed[8],
    ];
    state.update_key_down("KeyZ");
    let after: [bool; 8] = [
        state.key_pressed[1],
        state.key_pressed[2],
        state.key_pressed[3],
        state.key_pressed[4],
        state.key_pressed[5],
        state.key_pressed[6],
        state.key_pressed[7],
        state.key_pressed[8],
    ];
    assert_eq!(before, after);
    assert!(state.key_pressed[KEY_BACKWARDS_INDEX]);
}

#[test]
fn every_table_entry_maps_to_its_index() {
    let mut state = AppState::new();
    let table: [(&str, usize); 8] = [
        ("KeyW", 1),
        ("KeyA", 2),
        ("KeyS", 3),
        ("KeyD", 4),
        ("Space", 5),
        ("ControlLeft", 6),
        ("KeyQ", 7),
        ("KeyE", 8),
    ];
    for (code, index) in table {
        assert_eq!(fpscam::app::get_key_index(code), index);
        state.update_key_down(code);
        assert!(state.key_pressed[index]);
    }
    assert_eq!(fpscam::app::get_key_index("Escape"), 0);
    assert_eq!(fpscam::app::get_key_index(""), 0);
}

#[test]
fn escape_release_toggles_mouse_lock() {
    let mut state = AppState::new();
    assert!(state.mouse_locked);
    let first = state.update_key_up("Escape");
    assert!(!state.mouse_locked);
    assert_eq!(first, PointerLockAction::Release);
    let second = state.update_key_up("Escape");
    assert!(state.mouse_locked);
    assert_eq!(second, PointerLockAction::Acquire);
}

#[test]
fn frame_start_advances_time_and_canvas() {
    let mut state = AppState::new();
    let first = state.get_state_of_frame_start(16 * SCALE, 800 * SCALE, 600 * SCALE);
    assert_eq!(first.time, 16 * SCALE);
    assert_eq!(first.canvas_width, 800 * SCALE);
    assert_eq!(first.canvas_height, 600 * SCALE);
    let second = state.get_state_of_frame_start(16 * SCALE, 800 * SCALE, 600 * SCALE);
    assert_eq!(second.time, 32 * SCALE);
    // A zero-length frame still ticks, advancing time by zero.
    let third = state.get_state_of_frame_start(0, 800 * SCALE, 600 * SCALE);
    assert_eq!(third.time, 32 * SCALE);
}

#[test]
fn read_and_replace_round_trip() {
    let mut state = AppState::new();
    state.update_key_down("KeyD");
    let copy = state.get_current_state();
    assert_eq!(copy.key_pressed[4], state.key_pressed[4]);
    let mut other = AppState::new();
    other.set_current_state(copy);
    assert!(other.key_pressed[4]);
    assert_eq!(other.time, state.time);
}
