//! Vector arithmetic, on fixed-point values: one unit is `SCALE`.

use fpscam::vector3::Vector3;
use fpscam::SCALE;

#[test]
pub fn static_test() {
    let statics: [Vector3; 3] = [
        Vector3::new(SCALE, 0, 0),
        Vector3::new(0, SCALE, 0),
        Vector3::new(0, 0, SCALE),
    ];
    assert_eq!(statics[0], Vector3::new(SCALE, 0, 0),);
    assert_eq!(statics[1], Vector3::new(0, SCALE, 0),);
    assert_eq!(statics[2], Vector3::new(0, 0, SCALE),);
}

#[test]
pub fn default() {
    let v = Vector3::default();
    assert_eq!(v, Vector3::new(0, 0, 0));
}

#[test]
pub fn normalize() {
    let u = Vector3::new(SCALE, 0, 0);
    let v = Vector3::new(5 * SCALE, 0, 0);

    assert_ne!(u, v);
    assert_eq!(u, v.normalize());
}

#[test]
pub fn norm() {
    let v = Vector3::new(5 * SCALE, 0, 0);
    assert_eq!(v.norm(), 5 * SCALE);
}

#[test]
pub fn add_number() {
    let v = Vector3::new(SCALE, 2 * SCALE, 3 * SCALE);
    assert_eq!(
        v.add_scalar(SCALE),
        Vector3::new(2 * SCALE, 3 * SCALE, 4 * SCALE)
    );
}

#[test]
pub fn sub_number() {
    let v = Vector3::new(SCALE, 2 * SCALE, 3 * SCALE);
    assert_eq!(v.sub_scalar(SCALE), Vector3::new(0, SCALE, 2 * SCALE));
}

#[test]
pub fn mul_number() {
    let v = Vector3::new(SCALE, 2 * SCALE, 3 * SCALE);
    assert_eq!(
        v.mul_scalar(2 * SCALE),
        Vector3::new(2 * SCALE, 4 * SCALE, 6 * SCALE)
    );
}

#[test]
pub fn add_vector() {
    let u = Vector3::new(SCALE, 2 * SCALE, 3 * SCALE);
    let v = Vector3::new(SCALE, 2 * SCALE, 3 * SCALE);
    assert_eq!(
        u.add_vector(&v),
        Vector3::new(2 * SCALE, 4 * SCALE, 6 * SCALE)
    );
}

#[test]
pub fn sub_vector() {
    let u = Vector3::new(SCALE, 2 * SCALE, 3 * SCALE);
    let v = Vector3::new(SCALE, 2 * SCALE, 3 * SCALE);
    assert_eq!(u.sub_vector(&v), Vector3::new(0, 0, 0));
}

#[test]
pub fn dot() {
    let u = Vector3::new(SCALE, 0, 0);
    let v = Vector3::new(0, SCALE, 0);
    assert_eq!(u.dot(&v), 0);
}

#[test]
pub fn cross() {
    let u = Vector3::new(SCALE, 0, 0);
    let v = Vector3::new(0, SCALE, 0);
    assert_eq!(u.cross(&v), Vector3::new(0, 0, SCALE));
}

#[test]
pub fn norm_squared_of_unit() {
    let v = Vector3::new(SCALE, 0, 0);
    assert_eq!(v.norm_squared(), SCALE);
}

#[test]
pub fn normalize_diagonal_is_near_unit() {
    let v = Vector3::new(3 * SCALE, 4 * SCALE, 0);
    assert_eq!(v.norm(), 5 * SCALE);
    let n = v.normalize();
    assert_eq!(n, Vector3::new(600_000_000, 800_000_000, 0));
    assert_eq!(n.norm(), SCALE);
}
