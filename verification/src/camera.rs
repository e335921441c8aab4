//! The camera: pinhole lens parameters, the yaw/pitch orientation basis, and
//! the first-person camera built from them.
//!
//! The basis invariant `wf_axis` — three near-unit, pairwise near-orthogonal
//! vectors and a clamped pitch — is established by `Axis::new` and preserved
//! by every `rotate`. A rotation whose recomputed vectors would be too short
//! to normalize (the pitch clamp makes this unreachable in ordinary use)
//! keeps the previous basis rather than divide by a near-zero norm.

use vstd::prelude::*;
use crate::fixed::clamp_i64;
use crate::fixed::clamp_s;
use crate::fixed::div_t;
use crate::fixed::lemma_div_t_bound;
use crate::fixed::lemma_div_t_exact;
use crate::fixed::lemma_div_t_nonneg;
use crate::fixed::lemma_mul_bounds;
use crate::fixed::lemma_mul_nonneg;
use crate::fixed::mul_fx;
use crate::fixed::mul_fx_s;
use crate::fixed::sqrt_s;
use crate::fixed::COORD_LIMIT;
use crate::fixed::SCALE;
use crate::trig::atan_s;
use crate::trig::atan_fx;
use crate::trig::cos_s;
use crate::trig::cos_fx;
use crate::trig::sin_s;
use crate::trig::sin_fx;
use crate::trig::ANGLE_LIMIT;
use crate::trig::HALF_PI_FX;
use crate::vector3::bounded;
use crate::vector3::cross2_x_s;
use crate::vector3::cross2_y_s;
use crate::vector3::cross2_z_s;
use crate::vector3::dot2_s;
use crate::vector3::lemma_cross_ortho;
use crate::vector3::lemma_dot2_range;
use crate::vector3::lemma_normalize_dot;
use crate::vector3::lemma_normalize_norm2;
use crate::vector3::lemma_normalized_bounded;
use crate::vector3::norm2_s;
use crate::vector3::norm_s;
use crate::vector3::ortho2;
use crate::vector3::unitish;
use crate::vector3::Vector3;
use crate::vector3::GUARD_NORM2;
use crate::vector3::NORM_LIMIT;

verus! {

/// Lower pitch clamp bound: one milliradian above the downward pole.
pub const PITCH_MIN: i64 = 1_000_000;

/// Upper pitch clamp bound: one milliradian below the upward pole.
pub const PITCH_MAX: i64 = 3_140_592_654;

/// A pinhole lens: focal length and sensor size in fixed-point millimeters.
pub struct PinholeCamera {
    pub focal_length: i64,
    pub sensor_width: i64,
    pub sensor_height: i64,
    pub aperture: i64,
}

/// The aspect ratio `width / height`, clamped into the coordinate range; a
/// sensor without height defaults to a square ratio of one.
pub open spec fn aspect_ratio_s(width: int, height: int) -> int {
    if height <= 0 {
        SCALE as int
    } else {
        clamp_s(div_t(width * (SCALE as int), height), -COORD_LIMIT as int, COORD_LIMIT as int)
    }
}

/// The field of view of a sensor extent behind a focal length:
/// `2 * atan(sensor / (2 * focal))`, zero when the lens is degenerate.
pub open spec fn fov_s(sensor: int, focal: int) -> int {
    if focal <= 0 || sensor < 0 {
        0
    } else {
        2 * atan_s(clamp_s(div_t(sensor * (SCALE as int), 2 * focal), 0, COORD_LIMIT as int))
    }
}

impl PinholeCamera {
    /// An eight-millimeter lens over a twenty-millimeter square sensor.
    pub fn new() -> (r: Self)
        ensures
            r.focal_length == 8 * SCALE,
            r.sensor_width == 20 * SCALE,
            r.sensor_height == 20 * SCALE,
            r.aperture == 20 * SCALE,
    {
        Self {
            focal_length: 8 * SCALE,
            sensor_width: 20 * SCALE,
            sensor_height: 20 * SCALE,
            aperture: 20 * SCALE,
        }
    }

    /// Sensor width over sensor height.
    pub fn aspect_ratio(&self) -> (r: i64)
        ensures
            r == aspect_ratio_s(self.sensor_width as int, self.sensor_height as int),
    {
        if self.sensor_height <= 0 {
            SCALE
        } else {
            proof {
                lemma_mul_bounds(
                    self.sensor_width as int,
                    SCALE as int,
                    0x8000_0000_0000_0000int,
                    SCALE as int,
                );
            }
            let q: i128 = (self.sensor_width as i128) * (SCALE as i128) / (
            self.sensor_height as i128);
            if q > COORD_LIMIT as i128 {
                COORD_LIMIT
            } else if q < -COORD_LIMIT as i128 {
                -COORD_LIMIT
            } else {
                q as i64
            }
        }
    }

    /// Vertical field of view in fixed-point radians.
    pub fn fov_y(&self) -> (r: i64)
        ensures
            r == fov_s(self.sensor_height as int, self.focal_length as int),
    {
        fov_from(self.sensor_height, self.focal_length)
    }

    /// Horizontal field of view in fixed-point radians.
    pub fn fov_x(&self) -> (r: i64)
        ensures
            r == fov_s(self.sensor_width as int, self.focal_length as int),
    {
        fov_from(self.sensor_width, self.focal_length)
    }
}

/// Field of view of one sensor extent behind a focal length.
fn fov_from(sensor: i64, focal: i64) -> (r: i64)
    ensures
        r == fov_s(sensor as int, focal as int),
        0 <= r <= 2 * HALF_PI_FX,
{
    if focal <= 0 || sensor < 0 {
        0
    } else {
        proof {
            lemma_mul_bounds(sensor as int, SCALE as int, 0x8000_0000_0000_0000int, SCALE as int);
        }
        let q: i128 = (sensor as i128) * (SCALE as i128) / (2 * (focal as i128));
        proof {
            lemma_mul_nonneg(sensor as int, SCALE as int);
            lemma_div_t_nonneg(sensor as int * (SCALE as int), 2 * focal as int);
        }
        let ratio: i64 = if q > COORD_LIMIT as i128 {
            COORD_LIMIT
        } else {
            q as i64
        };
        2 * atan_fx(ratio)
    }
}

/// The exact squared norm of a small vector, in 128-bit arithmetic.
fn norm2_i128(v: &Vector3) -> (r: i128)
    requires
        bounded(*v, NORM_LIMIT as int),
    ensures
        r == norm2_s(*v),
{
    proof {
        lemma_mul_bounds(v.x as int, v.x as int, NORM_LIMIT as int, NORM_LIMIT as int);
        lemma_mul_bounds(v.y as int, v.y as int, NORM_LIMIT as int, NORM_LIMIT as int);
        lemma_mul_bounds(v.z as int, v.z as int, NORM_LIMIT as int, NORM_LIMIT as int);
    }
    (v.x as i128) * (v.x as i128) + (v.y as i128) * (v.y as i128) + (v.z as i128) * (v.z as i128)
}

/// The exact dot product is symmetric.
proof fn lemma_dot2_sym(u: Vector3, v: Vector3)
    ensures
        dot2_s(u, v) == dot2_s(v, u),
{
    assert(dot2_s(u, v) == dot2_s(v, u)) by (nonlinear_arith)
        requires
            dot2_s(u, v) == (u.x as int) * (v.x as int) + (u.y as int) * (v.y as int) + (
            u.z as int) * (v.z as int),
            dot2_s(v, u) == (v.x as int) * (u.x as int) + (v.y as int) * (u.y as int) + (
            v.z as int) * (u.z as int);
}

/// The orientation basis: three basis vectors derived from accumulated yaw
/// and pitch angles.
pub struct Axis {
    pub right: Vector3,
    pub up: Vector3,
    pub forward: Vector3,
    pub yaw: i64,
    pub pitch: i64,
}

/// The vector part of the basis invariant: near-unit, pairwise
/// near-orthogonal vectors.
pub open spec fn wf_basis(a: Axis) -> bool {
    &&& unitish(a.right)
    &&& unitish(a.up)
    &&& unitish(a.forward)
    &&& ortho2(a.right, a.up)
    &&& ortho2(a.up, a.forward)
    &&& ortho2(a.forward, a.right)
}

/// The basis invariant: near-unit, pairwise near-orthogonal vectors, and a
/// pitch inside the clamp bounds.
pub open spec fn wf_axis(a: Axis) -> bool {
    &&& wf_basis(a)
    &&& PITCH_MIN <= a.pitch <= PITCH_MAX
}

/// How one `rotate` call recomputes the basis from the new yaw and pitch:
/// the forward vector from spherical coordinates, normalized; the right
/// vector from the cross product of the world up axis and the negated
/// forward, normalized; the up vector from the cross product of the negated
/// forward and the new right, normalized. If any of the three vectors falls
/// under the normalization guard, the previous basis is kept whole.
#[verifier::opaque]
pub open spec fn basis_after_rotate_s(
    yaw: int,
    pitch: int,
    old_right: Vector3,
    old_up: Vector3,
    old_forward: Vector3,
    right: Vector3,
    up: Vector3,
    forward: Vector3,
) -> bool {
    let sc = SCALE as int;
    let fwx = mul_fx_s(sin_s(yaw), sin_s(pitch));
    let fwy = cos_s(pitch);
    let fwz = mul_fx_s(cos_s(yaw), sin_s(pitch));
    let n2f = fwx * fwx + fwy * fwy + fwz * fwz;
    if n2f < GUARD_NORM2 {
        right == old_right && up == old_up && forward == old_forward
    } else {
        let nf = sqrt_s(n2f);
        let fx = div_t(fwx * sc, nf);
        let fy = div_t(fwy * sc, nf);
        let fz = div_t(fwz * sc, nf);
        // cross(world up, -forward) is exactly (-fz, 0, fx).
        let n2r = (-fz) * (-fz) + fx * fx;
        if n2r < GUARD_NORM2 {
            right == old_right && up == old_up && forward == old_forward
        } else {
            let nr = sqrt_s(n2r);
            let rx = div_t((-fz) * sc, nr);
            let ry = div_t(0 * sc, nr);
            let rz = div_t(fx * sc, nr);
            let urx = div_t((-fy) * rz - (-fz) * ry, sc);
            let ury = div_t((-fz) * rx - (-fx) * rz, sc);
            let urz = div_t((-fx) * ry - (-fy) * rx, sc);
            let n2u = urx * urx + ury * ury + urz * urz;
            if n2u < GUARD_NORM2 {
                right == old_right && up == old_up && forward == old_forward
            } else {
                let nu = sqrt_s(n2u);
                forward.x == fx && forward.y == fy && forward.z == fz && right.x == rx && right.y
                    == ry && right.z == rz && up.x == div_t(urx * sc, nu) && up.y == div_t(
                    ury * sc,
                    nu,
                ) && up.z == div_t(urz * sc, nu)
            }
        }
    }
}

impl Axis {
    /// The world axes: yaw zero, pitch a quarter turn, basis the identity.
    pub fn new() -> (r: Self)
        ensures
            r.right == (Vector3 { x: SCALE, y: 0i64, z: 0i64 }),
            r.up == (Vector3 { x: 0i64, y: SCALE, z: 0i64 }),
            r.forward == (Vector3 { x: 0i64, y: 0i64, z: SCALE }),
            r.yaw == 0,
            r.pitch == HALF_PI_FX,
            wf_axis(r),
    {
        let r = Self {
            right: Vector3::new(SCALE, 0, 0),
            up: Vector3::new(0, SCALE, 0),
            forward: Vector3::new(0, 0, SCALE),
            yaw: 0,
            pitch: HALF_PI_FX,
        };
        proof {
            lemma_mul_bounds(SCALE as int, SCALE as int, SCALE as int, SCALE as int);
            lemma_mul_nonneg(SCALE as int, SCALE as int);
            assert((SCALE as int) * (SCALE as int) == 1_000_000_000_000_000_000int)
                by (nonlinear_arith)
                requires
                    SCALE == 1_000_000_000i64;
        }
        r
    }

    /// Accumulate yaw, clamp pitch, and rebuild the basis. The roll argument
    /// is accepted and unused, as in the convention this follows.
    pub fn rotate(&mut self, yaw: i64, pitch: i64, roll: i64)
        requires
            wf_basis(*old(self)),
            -ANGLE_LIMIT <= old(self).yaw + yaw <= ANGLE_LIMIT,
            -ANGLE_LIMIT <= old(self).yaw <= ANGLE_LIMIT,
            -ANGLE_LIMIT <= old(self).pitch <= ANGLE_LIMIT,
            -ANGLE_LIMIT <= pitch <= ANGLE_LIMIT,
        ensures
            final(self).yaw == old(self).yaw + yaw,
            final(self).pitch == clamp_s(
                old(self).pitch + pitch,
                PITCH_MIN as int,
                PITCH_MAX as int,
            ),
            basis_after_rotate_s(
                final(self).yaw as int,
                final(self).pitch as int,
                old(self).right,
                old(self).up,
                old(self).forward,
                final(self).right,
                final(self).up,
                final(self).forward,
            ),
            wf_axis(*final(self)),
    {
        proof {
            reveal(basis_after_rotate_s);
        }
        let ghost old_axis = *self;
        self.yaw = self.yaw + yaw;
        self.pitch = clamp_i64(self.pitch + pitch, PITCH_MIN, PITCH_MAX);
        let sy = sin_fx(self.yaw);
        let cy = cos_fx(self.yaw);
        let sp = sin_fx(self.pitch);
        let cp = cos_fx(self.pitch);
        let fw_raw = Vector3::new(mul_fx(sy, sp), cp, mul_fx(cy, sp));
        proof {
            lemma_mul_bounds(sy as int, sp as int, SCALE as int, SCALE as int);
            lemma_mul_bounds(cy as int, sp as int, SCALE as int, SCALE as int);
            lemma_div_t_bound(sy as int * sp as int, SCALE as int, SCALE as int);
            lemma_div_t_bound(cy as int * sp as int, SCALE as int, SCALE as int);
        }
        let n2f: i128 = norm2_i128(&fw_raw);
        if n2f < GUARD_NORM2 as i128 {
            return ;
        }
        let fhat = fw_raw.normalize();
        proof {
            lemma_normalize_norm2(fw_raw, fhat);
        }
        let world_up = Vector3::new(0, SCALE, 0);
        let fneg = fhat.neg();
        let right_raw = world_up.cross(&fneg);
        proof {
            // The cross with the exact world up axis is (-fz, 0, fx).
            lemma_div_t_exact(-(fneg.z as int), SCALE as int);
            lemma_div_t_exact(fneg.x as int, SCALE as int);
            lemma_div_t_exact(0, SCALE as int);
            assert(cross2_x_s(world_up, fneg) == (SCALE as int) * (fneg.z as int)
                && cross2_y_s(world_up, fneg) == 0 * (SCALE as int) && cross2_z_s(world_up, fneg)
                == -((SCALE as int) * (fneg.x as int))) by (nonlinear_arith)
                requires
                    world_up.x == 0i64,
                    world_up.y == SCALE,
                    world_up.z == 0i64,
                    cross2_x_s(world_up, fneg) == (world_up.y as int) * (fneg.z as int) - (
                    world_up.z as int) * (fneg.y as int),
                    cross2_y_s(world_up, fneg) == (world_up.z as int) * (fneg.x as int) - (
                    world_up.x as int) * (fneg.z as int),
                    cross2_z_s(world_up, fneg) == (world_up.x as int) * (fneg.y as int) - (
                    world_up.y as int) * (fneg.x as int);
            assert((SCALE as int) * (fneg.z as int) == (-(fhat.z as int)) * (SCALE as int)
                && -((SCALE as int) * (fneg.x as int)) == (fhat.x as int) * (SCALE as int))
                by (nonlinear_arith)
                requires
                    fneg.z == -fhat.z,
                    fneg.x == -fhat.x;
            assert(right_raw.x == -fhat.z && right_raw.y == 0 && right_raw.z == fhat.x);
            lemma_norm2_small(right_raw, SCALE as int);
        }
        let n2r: i128 = norm2_i128(&right_raw);
        if n2r < GUARD_NORM2 as i128 {
            return ;
        }
        let rhat = right_raw.normalize();
        proof {
            lemma_normalize_norm2(right_raw, rhat);
            // right_raw is exactly orthogonal to fhat.
            assert(dot2_s(right_raw, fhat) == 0) by (nonlinear_arith)
                requires
                    dot2_s(right_raw, fhat) == (right_raw.x as int) * (fhat.x as int) + (
                    right_raw.y as int) * (fhat.y as int) + (right_raw.z as int) * (fhat.z as int),
                    right_raw.x == -fhat.z,
                    right_raw.y == 0i64,
                    right_raw.z == fhat.x;
            lemma_normalize_dot(right_raw, fhat, rhat);
        }
        let up_raw = fneg.cross(&rhat);
        proof {
            lemma_cross_ortho(fneg, rhat, up_raw);
            lemma_dot_neg(up_raw, fneg, fhat);
            lemma_norm2_small(up_raw, 2 * SCALE as int);
        }
        let n2u: i128 = norm2_i128(&up_raw);
        if n2u < GUARD_NORM2 as i128 {
            return ;
        }
        let uhat = up_raw.normalize();
        proof {
            lemma_normalize_norm2(up_raw, uhat);
            lemma_normalize_dot(up_raw, fhat, uhat);
            lemma_normalize_dot(up_raw, rhat, uhat);
        }
        proof {
            lemma_dot2_sym(uhat, rhat);
            lemma_dot2_sym(rhat, fhat);
        }
        self.forward = fhat;
        self.right = rhat;
        self.up = uhat;
    }
}

/// The exact squared norm of a vector with components within `b` stays within
/// `3 b^2`, and in particular within the 128-bit range.
proof fn lemma_norm2_small(v: Vector3, b: int)
    requires
        bounded(v, b),
        0 <= b <= 2_000_000_000,
    ensures
        0 <= norm2_s(v) <= 12_000_000_000_000_000_000,
{
    assert(0 <= norm2_s(v) <= 12_000_000_000_000_000_000int) by (nonlinear_arith)
        requires
            bounded(v, b),
            0 <= b <= 2_000_000_000,
            norm2_s(v) == (v.x as int) * (v.x as int) + (v.y as int) * (v.y as int) + (
            v.z as int) * (v.z as int);
}

/// A dot product against a negated vector flips sign, so a bound against the
/// negation is a bound against the original.
proof fn lemma_dot_neg(c: Vector3, vneg: Vector3, v: Vector3)
    requires
        vneg.x == -v.x,
        vneg.y == -v.y,
        vneg.z == -v.z,
        -3 * SCALE <= dot2_s(c, vneg) <= 3 * SCALE,
    ensures
        -3 * SCALE <= dot2_s(c, v) <= 3 * SCALE,
{
    assert(dot2_s(c, v) == -dot2_s(c, vneg)) by (nonlinear_arith)
        requires
            dot2_s(c, v) == (c.x as int) * (v.x as int) + (c.y as int) * (v.y as int) + (
            c.z as int) * (v.z as int),
            dot2_s(c, vneg) == (c.x as int) * (vneg.x as int) + (c.y as int) * (vneg.y as int) + (
            c.z as int) * (vneg.z as int),
            vneg.x == -v.x,
            vneg.y == -v.y,
            vneg.z == -v.z;
}

} // verus!

// The first-person camera: a position moved along the basis vectors, the
// orientation above, lens parameters, and an optional look-at target.

verus! {

/// Largest position magnitude the movement operations accept.
pub const POS_LIMIT: i64 = 999_000_000_000_000;

/// Largest single movement step the movement operations accept.
pub const DELTA_LIMIT: i64 = 1_000_000_000_000;

/// Largest position or target magnitude the view matrix accepts.
pub const VIEW_LIMIT: i64 = 499_000_000_000;

/// A first-person camera.
pub struct FPSCamera {
    pub direction: Axis,
    pub position: Vector3,
    pub is_orthographic: bool,
    pub pinhole_camera: PinholeCamera,
    pub target: Option<Vector3>,
}

pub type Camera = FPSCamera;

/// How the view matrix is built from the camera: a look-at frame toward the
/// pinned target, or one unit along the forward vector when no target is
/// pinned; the identity when the frame degenerates (a target on the eye, or
/// a view direction parallel to the up vector).
pub open spec fn view_matrix_rel(cam: FPSCamera, m: Seq<i64>) -> bool {
    let sc = SCALE as int;
    let ex = cam.position.x as int;
    let ey = cam.position.y as int;
    let ez = cam.position.z as int;
    let cx = match cam.target {
        Option::Some(t) => t.x as int,
        Option::None => ex + cam.direction.forward.x,
    };
    let cy = match cam.target {
        Option::Some(t) => t.y as int,
        Option::None => ey + cam.direction.forward.y,
    };
    let cz = match cam.target {
        Option::Some(t) => t.z as int,
        Option::None => ez + cam.direction.forward.z,
    };
    let fwx = cx - ex;
    let fwy = cy - ey;
    let fwz = cz - ez;
    let n2f = fwx * fwx + fwy * fwy + fwz * fwz;
    if n2f < 1 {
        m == crate::matrix::identity_s()
    } else {
        let nf = sqrt_s(n2f);
        let fx = div_t(fwx * sc, nf);
        let fy = div_t(fwy * sc, nf);
        let fz = div_t(fwz * sc, nf);
        let ux = cam.direction.up.x as int;
        let uy = cam.direction.up.y as int;
        let uz = cam.direction.up.z as int;
        let srx = div_t(fy * uz - fz * uy, sc);
        let sry = div_t(fz * ux - fx * uz, sc);
        let srz = div_t(fx * uy - fy * ux, sc);
        let n2s = srx * srx + sry * sry + srz * srz;
        if n2s < 1 {
            m == crate::matrix::identity_s()
        } else {
            let ns = sqrt_s(n2s);
            let sx = div_t(srx * sc, ns);
            let sy = div_t(sry * sc, ns);
            let sz = div_t(srz * sc, ns);
            let nux = div_t(sy * fz - sz * fy, sc);
            let nuy = div_t(sz * fx - sx * fz, sc);
            let nuz = div_t(sx * fy - sy * fx, sc);
            let tx = -div_t(sx * ex + sy * ey + sz * ez, sc);
            let ty = -div_t(nux * ex + nuy * ey + nuz * ez, sc);
            let tz = div_t(fx * ex + fy * ey + fz * ez, sc);
            &&& m.len() == 16
            &&& m[0] == sx
            &&& m[1] == nux
            &&& m[2] == -fx
            &&& m[3] == 0i64
            &&& m[4] == sy
            &&& m[5] == nuy
            &&& m[6] == -fy
            &&& m[7] == 0i64
            &&& m[8] == sz
            &&& m[9] == nuz
            &&& m[10] == -fz
            &&& m[11] == 0i64
            &&& m[12] == tx
            &&& m[13] == ty
            &&& m[14] == tz
            &&& m[15] == SCALE
        }
    }
}

impl FPSCamera {
    /// A camera three units behind the origin, looking along the world axes.
    pub fn new() -> (r: Self)
        ensures
            r.position == (Vector3 { x: 0i64, y: 0i64, z: -3_000_000_000i64 }),
            r.direction.yaw == 0,
            r.direction.pitch == HALF_PI_FX,
            r.direction.forward == (Vector3 { x: 0i64, y: 0i64, z: SCALE }),
            r.direction.right == (Vector3 { x: SCALE, y: 0i64, z: 0i64 }),
            r.direction.up == (Vector3 { x: 0i64, y: SCALE, z: 0i64 }),
            !r.is_orthographic,
            r.target is None,
            wf_axis(r.direction),
    {
        Self {
            position: Vector3::new(0, 0, -3 * SCALE),
            direction: Axis::new(),
            is_orthographic: false,
            pinhole_camera: PinholeCamera::new(),
            target: Option::None,
        }
    }

    /// Translate along the right vector by `delta`.
    pub fn move_right(&mut self, delta: i64)
        requires
            wf_basis(old(self).direction),
            bounded(old(self).position, POS_LIMIT as int),
            -DELTA_LIMIT <= delta <= DELTA_LIMIT,
        ensures
            final(self).position.x == old(self).position.x + mul_fx_s(
                old(self).direction.right.x as int,
                delta as int,
            ),
            final(self).position.y == old(self).position.y + mul_fx_s(
                old(self).direction.right.y as int,
                delta as int,
            ),
            final(self).position.z == old(self).position.z + mul_fx_s(
                old(self).direction.right.z as int,
                delta as int,
            ),
            final(self).direction == old(self).direction,
            final(self).is_orthographic == old(self).is_orthographic,
            final(self).pinhole_camera == old(self).pinhole_camera,
            final(self).target == old(self).target,
    {
        let step = self.direction.right.mul_scalar(delta);
        proof {
            lemma_step_bounded(self.direction.right, delta);
        }
        self.position = self.position.add_vector(&step);
    }

    /// Translate along the up vector by `delta`.
    pub fn move_up(&mut self, delta: i64)
        requires
            wf_basis(old(self).direction),
            bounded(old(self).position, POS_LIMIT as int),
            -DELTA_LIMIT <= delta <= DELTA_LIMIT,
        ensures
            final(self).position.x == old(self).position.x + mul_fx_s(
                old(self).direction.up.x as int,
                delta as int,
            ),
            final(self).position.y == old(self).position.y + mul_fx_s(
                old(self).direction.up.y as int,
                delta as int,
            ),
            final(self).position.z == old(self).position.z + mul_fx_s(
                old(self).direction.up.z as int,
                delta as int,
            ),
            final(self).direction == old(self).direction,
            final(self).is_orthographic == old(self).is_orthographic,
            final(self).pinhole_camera == old(self).pinhole_camera,
            final(self).target == old(self).target,
    {
        let step = self.direction.up.mul_scalar(delta);
        proof {
            lemma_step_bounded(self.direction.up, delta);
        }
        self.position = self.position.add_vector(&step);
    }

    /// Translate along the forward vector by `delta`.
    pub fn move_forward(&mut self, delta: i64)
        requires
            wf_basis(old(self).direction),
            bounded(old(self).position, POS_LIMIT as int),
            -DELTA_LIMIT <= delta <= DELTA_LIMIT,
        ensures
            final(self).position.x == old(self).position.x + mul_fx_s(
                old(self).direction.forward.x as int,
                delta as int,
            ),
            final(self).position.y == old(self).position.y + mul_fx_s(
                old(self).direction.forward.y as int,
                delta as int,
            ),
            final(self).position.z == old(self).position.z + mul_fx_s(
                old(self).direction.forward.z as int,
                delta as int,
            ),
            final(self).direction == old(self).direction,
            final(self).is_orthographic == old(self).is_orthographic,
            final(self).pinhole_camera == old(self).pinhole_camera,
            final(self).target == old(self).target,
    {
        let step = self.direction.forward.mul_scalar(delta);
        proof {
            lemma_step_bounded(self.direction.forward, delta);
        }
        self.position = self.position.add_vector(&step);
    }

    /// Rotate the orientation basis.
    pub fn rotate(&mut self, yaw: i64, pitch: i64, roll: i64)
        requires
            wf_basis(old(self).direction),
            -ANGLE_LIMIT <= old(self).direction.yaw + yaw <= ANGLE_LIMIT,
            -ANGLE_LIMIT <= old(self).direction.yaw <= ANGLE_LIMIT,
            -ANGLE_LIMIT <= old(self).direction.pitch <= ANGLE_LIMIT,
            -ANGLE_LIMIT <= pitch <= ANGLE_LIMIT,
        ensures
            final(self).direction.yaw == old(self).direction.yaw + yaw,
            final(self).direction.pitch == clamp_s(
                old(self).direction.pitch + pitch,
                PITCH_MIN as int,
                PITCH_MAX as int,
            ),
            basis_after_rotate_s(
                final(self).direction.yaw as int,
                final(self).direction.pitch as int,
                old(self).direction.right,
                old(self).direction.up,
                old(self).direction.forward,
                final(self).direction.right,
                final(self).direction.up,
                final(self).direction.forward,
            ),
            wf_axis(final(self).direction),
            final(self).position == old(self).position,
            final(self).is_orthographic == old(self).is_orthographic,
            final(self).pinhole_camera == old(self).pinhole_camera,
            final(self).target == old(self).target,
    {
        self.direction.rotate(yaw, pitch, roll);
    }

    /// The look-at view matrix.
    pub fn view_matrix(&self) -> (r: crate::matrix::Mat4x4)
        requires
            wf_axis(self.direction),
            bounded(self.position, VIEW_LIMIT as int),
            (self.target matches Option::Some(t) ==> bounded(t, VIEW_LIMIT as int)),
        ensures
            view_matrix_rel(*self, r@),
    {
        let eye = self.position;
        let center = match self.target {
            Option::Some(t) => t,
            Option::None => self.position.add_vector(&self.direction.forward),
        };
        let fraw = center.sub_vector(&eye);
        let n2f = norm2_i128(&fraw);
        if n2f < 1 {
            return crate::matrix::identity();
        }
        let fhat = fraw.normalize();
        proof {
            lemma_normalized_bounded(fraw, fhat);
        }
        let sraw = fhat.cross(&self.direction.up);
        proof {
            lemma_cross_ortho(fhat, self.direction.up, sraw);
        }
        let n2s = norm2_i128(&sraw);
        if n2s < 1 {
            return crate::matrix::identity();
        }
        let shat = sraw.normalize();
        proof {
            lemma_normalized_bounded(sraw, shat);
        }
        let upn = shat.cross(&fhat);
        proof {
            lemma_cross_ortho(shat, fhat, upn);
        }
        let ds = shat.dot(&eye);
        let du = upn.dot(&eye);
        let df = fhat.dot(&eye);
        proof {
            lemma_dot2_range(shat, eye, NORM_LIMIT as int);
            lemma_dot2_range(upn, eye, NORM_LIMIT as int);
            lemma_dot2_range(fhat, eye, NORM_LIMIT as int);
            lemma_div_t_bound(dot2_s(shat, eye), SCALE as int, 3_000_000_000_000_000int);
            lemma_div_t_bound(dot2_s(upn, eye), SCALE as int, 3_000_000_000_000_000int);
            lemma_div_t_bound(dot2_s(fhat, eye), SCALE as int, 3_000_000_000_000_000int);
        }
        let r: crate::matrix::Mat4x4 = [
            shat.x, upn.x, -fhat.x, 0,
            shat.y, upn.y, -fhat.y, 0,
            shat.z, upn.z, -fhat.z, 0,
            -ds, -du, df, SCALE,
        ];
        r
    }
}

/// A basis vector scaled by a bounded step stays within the step bound.
pub proof fn lemma_step_bounded(v: Vector3, delta: i64)
    requires
        bounded(v, SCALE as int),
        -DELTA_LIMIT <= delta <= DELTA_LIMIT,
    ensures
        -DELTA_LIMIT <= mul_fx_s(v.x as int, delta as int) <= DELTA_LIMIT,
        -DELTA_LIMIT <= mul_fx_s(v.y as int, delta as int) <= DELTA_LIMIT,
        -DELTA_LIMIT <= mul_fx_s(v.z as int, delta as int) <= DELTA_LIMIT,
{
    lemma_mul_bounds(v.x as int, delta as int, SCALE as int, DELTA_LIMIT as int);
    lemma_mul_bounds(v.y as int, delta as int, SCALE as int, DELTA_LIMIT as int);
    lemma_mul_bounds(v.z as int, delta as int, SCALE as int, DELTA_LIMIT as int);
    assert((SCALE as int) * (DELTA_LIMIT as int) == (DELTA_LIMIT as int) * (SCALE as int))
        by (nonlinear_arith);
    lemma_div_t_bound((v.x as int) * (delta as int), SCALE as int, DELTA_LIMIT as int);
    lemma_div_t_bound((v.y as int) * (delta as int), SCALE as int, DELTA_LIMIT as int);
    lemma_div_t_bound((v.z as int) * (delta as int), SCALE as int, DELTA_LIMIT as int);
}

} // verus!

// The two laws the orientation code is written for: every reachable basis is
// orthonormal within one part in a hundred thousand, and movement along a
// basis vector is exactly reversible.

verus! {

/// A well-formed basis is orthonormal within tolerance: each basis vector's
/// norm is within `10_000` fixed-point units of one, and each pairwise dot
/// product, brought back to scale, is within `10_000` units of zero (both a
/// real tolerance of one part in a hundred thousand). Together with
/// `Axis::new` establishing `wf_axis` and `Axis::rotate` preserving it, this
/// holds after every sequence of rotations.
pub proof fn lemma_basis_orthonormal(a: Axis)
    requires
        wf_basis(a),
    ensures
        SCALE - 10_000 <= norm_s(a.right) <= SCALE + 10_000,
        SCALE - 10_000 <= norm_s(a.up) <= SCALE + 10_000,
        SCALE - 10_000 <= norm_s(a.forward) <= SCALE + 10_000,
        -10_000 <= div_t(dot2_s(a.right, a.up), SCALE as int) <= 10_000,
        -10_000 <= div_t(dot2_s(a.up, a.forward), SCALE as int) <= 10_000,
        -10_000 <= div_t(dot2_s(a.forward, a.right), SCALE as int) <= 10_000,
{
    lemma_unit_norm_close(a.right);
    lemma_unit_norm_close(a.up);
    lemma_unit_norm_close(a.forward);
    lemma_div_t_bound(dot2_s(a.right, a.up), SCALE as int, 10_000);
    lemma_div_t_bound(dot2_s(a.up, a.forward), SCALE as int, 10_000);
    lemma_div_t_bound(dot2_s(a.forward, a.right), SCALE as int, 10_000);
}

/// A near-unit squared norm gives a norm within `10_000` units of one.
proof fn lemma_unit_norm_close(v: Vector3)
    requires
        unitish(v),
    ensures
        SCALE - 10_000 <= norm_s(v) <= SCALE + 10_000,
{
    crate::fixed::lemma_sqrt_s_bounds(norm2_s(v));
    let n = norm_s(v);
    assert(SCALE - 10_000 <= n <= SCALE + 10_000) by (nonlinear_arith)
        requires
            n >= 0,
            n * n <= norm2_s(v),
            norm2_s(v) < (n + 1) * (n + 1),
            (SCALE as int) * (SCALE as int) - 4_100_000_000_000 <= norm2_s(v) <= (SCALE as int) * (
            SCALE as int) + 4_100_000_000_000,
            SCALE == 1_000_000_000i64;
}

/// Moving forward by `d` and then by `-d` returns the position to exactly
/// its original value, for any step and any orientation: the two steps are
/// exact negations because the fixed-point product rounds toward zero.
pub proof fn lemma_move_forward_roundtrip(cam: FPSCamera, d: i64)
    ensures
        cam.position.x + mul_fx_s(cam.direction.forward.x as int, d as int) + mul_fx_s(
            cam.direction.forward.x as int,
            -d as int,
        ) == cam.position.x,
        cam.position.y + mul_fx_s(cam.direction.forward.y as int, d as int) + mul_fx_s(
            cam.direction.forward.y as int,
            -d as int,
        ) == cam.position.y,
        cam.position.z + mul_fx_s(cam.direction.forward.z as int, d as int) + mul_fx_s(
            cam.direction.forward.z as int,
            -d as int,
        ) == cam.position.z,
{
    lemma_mul_fx_s_neg(cam.direction.forward.x as int, d as int);
    lemma_mul_fx_s_neg(cam.direction.forward.y as int, d as int);
    lemma_mul_fx_s_neg(cam.direction.forward.z as int, d as int);
}

/// Negating one factor negates a fixed-point product exactly.
pub proof fn lemma_mul_fx_s_neg(a: int, b: int)
    ensures
        mul_fx_s(a, -b) == -mul_fx_s(a, b),
{
    assert(a * (-b) == -(a * b)) by (nonlinear_arith);
    crate::fixed::lemma_div_t_neg(a * b, SCALE as int);
}

} // verus!
