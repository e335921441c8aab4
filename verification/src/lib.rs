//! Verified core of a small first-person camera demo: fixed-point scalar and
//! vector arithmetic, an orientation basis driven by yaw and pitch, a pinhole
//! camera with a look-at view matrix, an input snapshot store, and the
//! per-frame update policy that ties them together.

pub mod app;
pub mod camera;
pub mod fixed;
pub mod frame;
pub mod matrix;
pub mod trig;
pub mod utils;
pub mod vector3;

pub use fixed::COORD_LIMIT;
pub use fixed::SCALE;
pub use vector3::Vector3;
