//! The input snapshot: one record of the latest mouse, keyboard, canvas and
//! timing state, replaced wholesale by each event and read once per frame.
//!
//! Mouse positions are stored canvas-space with the vertical axis flipped
//! (origin bottom-left), and deltas are the change since the previous
//! position. Key codes are mapped to logical action indices by an exact
//! string table; unrecognized codes land on the reserved index zero. One key
//! toggles the mouse lock: the caller receives which pointer-capture action
//! to perform, the only effect that reaches outside the record.

use vstd::prelude::*;
use crate::fixed::COORD_LIMIT;
use crate::fixed::SCALE;

verus! {

/// Index of the forward action flag.
pub const KEY_FORWARD_INDEX: usize = 1;

/// Index of the left action flag.
pub const KEY_LEFT_INDEX: usize = 2;

/// Index of the backward action flag.
pub const KEY_BACKWARDS_INDEX: usize = 3;

/// Index of the right action flag.
pub const KEY_RIGHT_INDEX: usize = 4;

/// Index of the upward action flag.
pub const KEY_UP_INDEX: usize = 5;

/// Index of the downward action flag.
pub const KEY_DOWN_INDEX: usize = 6;

/// Index of the rotate-left action flag.
pub const KEY_ROTATE_LEFT_INDEX: usize = 7;

/// Index of the rotate-right action flag.
pub const KEY_ROTATE_RIGHT_INDEX: usize = 8;

/// The pointer-capture side effect a key release asks the host to perform.
#[derive(Debug, PartialEq, Eq, Structural, Copy, Clone)]
pub enum PointerLockAction {
    Acquire,
    Release,
    Keep,
}

/// The input snapshot. Lengths and positions are fixed-point pixels; time is
/// fixed-point seconds.
#[derive(Debug, Copy, Clone)]
pub struct AppState {
    pub canvas_height: i64,
    pub canvas_width: i64,
    pub mouse_locked: bool,
    pub mouse_down: bool,
    pub mouse_x: i64,
    pub mouse_y: i64,
    pub delta_mouse_x: i64,
    pub delta_mouse_y: i64,
    pub time: i64,
    pub key_pressed: [bool; 9],
}

/// The logical action index of a platform key code: the fixed lookup table,
/// with zero for every code outside it.
pub open spec fn key_index_s(code: Seq<char>) -> usize {
    if code == "KeyW"@ {
        KEY_FORWARD_INDEX
    } else if code == "KeyA"@ {
        KEY_LEFT_INDEX
    } else if code == "KeyS"@ {
        KEY_BACKWARDS_INDEX
    } else if code == "KeyD"@ {
        KEY_RIGHT_INDEX
    } else if code == "Space"@ {
        KEY_UP_INDEX
    } else if code == "ControlLeft"@ {
        KEY_DOWN_INDEX
    } else if code == "KeyQ"@ {
        KEY_ROTATE_LEFT_INDEX
    } else if code == "KeyE"@ {
        KEY_ROTATE_RIGHT_INDEX
    } else {
        0
    }
}

/// Whether a key code is the mouse-lock toggle.
pub open spec fn is_toggle_code_s(code: Seq<char>) -> bool {
    code == "Escape"@
}

/// Exact string equality.
fn str_eq(a: &str, b: &str) -> (r: bool)
    ensures
        r == (a@ == b@),
{
    let owned_a: String = a.to_owned();
    let owned_b: String = b.to_owned();
    owned_a == owned_b
}

/// Map a platform key code to its logical action index.
pub fn get_key_index(code: &str) -> (r: usize)
    ensures
        r == key_index_s(code@),
        r < 9,
{
    if str_eq(code, "KeyW") {
        KEY_FORWARD_INDEX
    } else if str_eq(code, "KeyA") {
        KEY_LEFT_INDEX
    } else if str_eq(code, "KeyS") {
        KEY_BACKWARDS_INDEX
    } else if str_eq(code, "KeyD") {
        KEY_RIGHT_INDEX
    } else if str_eq(code, "Space") {
        KEY_UP_INDEX
    } else if str_eq(code, "ControlLeft") {
        KEY_DOWN_INDEX
    } else if str_eq(code, "KeyQ") {
        KEY_ROTATE_LEFT_INDEX
    } else if str_eq(code, "KeyE") {
        KEY_ROTATE_RIGHT_INDEX
    } else {
        0
    }
}

impl AppState {
    /// The startup snapshot: no canvas yet, mouse off-canvas and locked, no
    /// keys pressed, time zero.
    pub fn new() -> (r: Self)
        ensures
            r.canvas_height == 0,
            r.canvas_width == 0,
            r.mouse_locked,
            !r.mouse_down,
            r.mouse_x == -SCALE,
            r.mouse_y == -SCALE,
            r.delta_mouse_x == 0,
            r.delta_mouse_y == 0,
            r.time == 0,
            forall|i: int| 0 <= i < 9 ==> !r.key_pressed@[i],
    {
        let r = Self {
            canvas_height: 0,
            canvas_width: 0,
            mouse_locked: true,
            mouse_down: false,
            mouse_x: -SCALE,
            mouse_y: -SCALE,
            delta_mouse_x: 0,
            delta_mouse_y: 0,
            time: 0,
            key_pressed: [false, false, false, false, false, false, false, false, false],
        };
        r
    }

    /// Record a mouse-button press at `(x, y)`, flipping the vertical axis
    /// against the canvas height.
    pub fn update_mouse_down(&mut self, x: i64, y: i64)
        requires
            -COORD_LIMIT <= x <= COORD_LIMIT,
            -COORD_LIMIT <= y <= COORD_LIMIT,
            -COORD_LIMIT <= old(self).canvas_height <= COORD_LIMIT,
        ensures
            final(self).mouse_down,
            final(self).mouse_x == x,
            final(self).mouse_y == old(self).canvas_height - y,
            final(self).canvas_height == old(self).canvas_height,
            final(self).canvas_width == old(self).canvas_width,
            final(self).mouse_locked == old(self).mouse_locked,
            final(self).delta_mouse_x == old(self).delta_mouse_x,
            final(self).delta_mouse_y == old(self).delta_mouse_y,
            final(self).time == old(self).time,
            final(self).key_pressed == old(self).key_pressed,
    {
        self.mouse_down = true;
        self.mouse_x = x;
        self.mouse_y = self.canvas_height - y;
    }

    /// Record a mouse-button release at `(x, y)`, flipping the vertical axis
    /// against the canvas height.
    pub fn update_mouse_up(&mut self, x: i64, y: i64)
        requires
            -COORD_LIMIT <= x <= COORD_LIMIT,
            -COORD_LIMIT <= y <= COORD_LIMIT,
            -COORD_LIMIT <= old(self).canvas_height <= COORD_LIMIT,
        ensures
            !final(self).mouse_down,
            final(self).mouse_x == x,
            final(self).mouse_y == old(self).canvas_height - y,
            final(self).canvas_height == old(self).canvas_height,
            final(self).canvas_width == old(self).canvas_width,
            final(self).mouse_locked == old(self).mouse_locked,
            final(self).delta_mouse_x == old(self).delta_mouse_x,
            final(self).delta_mouse_y == old(self).delta_mouse_y,
            final(self).time == old(self).time,
            final(self).key_pressed == old(self).key_pressed,
    {
        self.mouse_down = false;
        self.mouse_x = x;
        self.mouse_y = self.canvas_height - y;
    }

    /// Record a mouse move to `(x, y)`: the new position with the vertical
    /// axis flipped, and the change since the previous position.
    pub fn update_mouse_move(&mut self, x: i64, y: i64)
        requires
            -COORD_LIMIT <= x <= COORD_LIMIT,
            -COORD_LIMIT <= y <= COORD_LIMIT,
            -COORD_LIMIT <= old(self).canvas_height <= COORD_LIMIT,
            -COORD_LIMIT <= old(self).mouse_x <= COORD_LIMIT,
            -COORD_LIMIT <= old(self).mouse_y <= COORD_LIMIT,
        ensures
            final(self).mouse_x == x,
            final(self).mouse_y == old(self).canvas_height - y,
            final(self).delta_mouse_x == x - old(self).mouse_x,
            final(self).delta_mouse_y == old(self).canvas_height - y - old(self).mouse_y,
            final(self).canvas_height == old(self).canvas_height,
            final(self).canvas_width == old(self).canvas_width,
            final(self).mouse_locked == old(self).mouse_locked,
            final(self).mouse_down == old(self).mouse_down,
            final(self).time == old(self).time,
            final(self).key_pressed == old(self).key_pressed,
    {
        let inverted_y = self.canvas_height - y;
        self.delta_mouse_x = x - self.mouse_x;
        self.delta_mouse_y = inverted_y - self.mouse_y;
        self.mouse_x = x;
        self.mouse_y = inverted_y;
    }

    /// Record a key press: the mapped action flag goes up (unrecognized
    /// codes land on the reserved index zero, leaving all action flags as
    /// they were).
    pub fn update_key_down(&mut self, code: &str)
        ensures
            final(self).key_pressed@ == old(self).key_pressed@.update(
                key_index_s(code@) as int,
                true,
            ),
            final(self).canvas_height == old(self).canvas_height,
            final(self).canvas_width == old(self).canvas_width,
            final(self).mouse_locked == old(self).mouse_locked,
            final(self).mouse_down == old(self).mouse_down,
            final(self).mouse_x == old(self).mouse_x,
            final(self).mouse_y == old(self).mouse_y,
            final(self).delta_mouse_x == old(self).delta_mouse_x,
            final(self).delta_mouse_y == old(self).delta_mouse_y,
            final(self).time == old(self).time,
    {
        let index = get_key_index(code);
        self.key_pressed[index] = true;
    }

    /// Record a key release. The toggle key flips the mouse lock on release
    /// and asks the host to acquire or release pointer capture; every other
    /// code lowers its mapped action flag.
    pub fn update_key_up(&mut self, code: &str) -> (action: PointerLockAction)
        ensures
            is_toggle_code_s(code@) ==> {
                &&& final(self).mouse_locked == !old(self).mouse_locked
                &&& final(self).key_pressed == old(self).key_pressed
                &&& action == (if final(self).mouse_locked {
                    PointerLockAction::Acquire
                } else {
                    PointerLockAction::Release
                })
            },
            !is_toggle_code_s(code@) ==> {
                &&& final(self).mouse_locked == old(self).mouse_locked
                &&& final(self).key_pressed@ == old(self).key_pressed@.update(
                    key_index_s(code@) as int,
                    false,
                )
                &&& action == PointerLockAction::Keep
            },
            final(self).canvas_height == old(self).canvas_height,
            final(self).canvas_width == old(self).canvas_width,
            final(self).mouse_down == old(self).mouse_down,
            final(self).mouse_x == old(self).mouse_x,
            final(self).mouse_y == old(self).mouse_y,
            final(self).delta_mouse_x == old(self).delta_mouse_x,
            final(self).delta_mouse_y == old(self).delta_mouse_y,
            final(self).time == old(self).time,
    {
        if str_eq(code, "Escape") {
            self.mouse_locked = !self.mouse_locked;
            if self.mouse_locked {
                PointerLockAction::Acquire
            } else {
                PointerLockAction::Release
            }
        } else {
            let index = get_key_index(code);
            self.key_pressed[index] = false;
            PointerLockAction::Keep
        }
    }

    /// Advance time by `dt`, record the canvas size, and hand back a copy of
    /// the snapshot for the frame to consume.
    pub fn get_state_of_frame_start(&mut self, dt: i64, width: i64, height: i64) -> (r: AppState)
        requires
            -COORD_LIMIT <= old(self).time + dt <= COORD_LIMIT,
        ensures
            final(self).time == old(self).time + dt,
            final(self).canvas_width == width,
            final(self).canvas_height == height,
            final(self).mouse_locked == old(self).mouse_locked,
            final(self).mouse_down == old(self).mouse_down,
            final(self).mouse_x == old(self).mouse_x,
            final(self).mouse_y == old(self).mouse_y,
            final(self).delta_mouse_x == old(self).delta_mouse_x,
            final(self).delta_mouse_y == old(self).delta_mouse_y,
            final(self).key_pressed == old(self).key_pressed,
            r == *final(self),
    {
        self.time = self.time + dt;
        self.canvas_width = width;
        self.canvas_height = height;
        *self
    }

    /// A copy of the current snapshot, without advancing time.
    pub fn get_current_state(&self) -> (r: AppState)
        ensures
            r == *self,
    {
        *self
    }

    /// Replace the snapshot wholesale.
    pub fn set_current_state(&mut self, state: AppState)
        ensures
            *final(self) == state,
    {
        *self = state;
    }
}

} // verus!
