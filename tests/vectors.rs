use spatial_math::mat3::Mat3;
use spatial_math::mat4::Mat4;
use spatial_math::util::{is_equal, is_non_zero, is_not_equal, is_one, is_zero, MATH_TOLERANCE};
use spatial_math::vector2::Vector2;
use spatial_math::vector3::Vector3;
use spatial_math::vector4::Vector4;

#[test]
fn squared_magnitude_of_one_two_three() {
    assert_eq!(Vector3::new(1, 2, 3).get_mag_sqr(), 14);
    assert_eq!(Vector4::new(1, 2, 3, 4).get_mag_sqr(), 30);
    assert_eq!(Vector2::new(3, 4).get_mag_sqr(), 25);
}

#[test]
fn cross_of_x_and_y_is_z() {
    let z = Vector3::new(1, 0, 0).cross(&Vector3::new(0, 1, 0));
    assert_eq!(z, Vector3::new(0, 0, 1));
    let back = Vector3::new(0, 1, 0).cross(&Vector3::new(1, 0, 0));
    assert_eq!(back, Vector3::new(0, 0, -1));
    let w = Vector4::new(1, 0, 0, 7).cross(&Vector4::new(0, 1, 0, 9));
    assert_eq!(w, Vector4::new(0, 0, 1, 1));
}

#[test]
fn dot_products() {
    assert_eq!(Vector3::new(1, 2, 3).dot(&Vector3::new(4, -5, 6)), 12);
    assert_eq!(Vector4::new(1, 2, 3, 4).dot(&Vector4::new(1, 1, 1, -1)), 2);
    assert_eq!(Vector2::new(1, 2).dot(&Vector2::new(3, -4)), -5);
}

#[test]
fn arithmetic_on_vector3() {
    let a = Vector3::new(1, 2, 3);
    let b = Vector3::new(10, 20, 30);
    assert_eq!(a.add(&b), Vector3::new(11, 22, 33));
    assert_eq!(b.sub(&a), Vector3::new(9, 18, 27));
    assert_eq!(a.neg(), Vector3::new(-1, -2, -3));
    assert_eq!(a.scale(4), Vector3::new(4, 8, 12));
    let mut c = a;
    c.add_assign(&b);
    assert_eq!(c, Vector3::new(11, 22, 33));
    c.sub_assign(&b);
    assert_eq!(c, a);
    c.scale_assign(-2);
    assert_eq!(c, Vector3::new(-2, -4, -6));
    c.set(7, 8, 9);
    assert_eq!(c, Vector3::new(7, 8, 9));
    assert_eq!(Vector3::zero(), Vector3::new(0, 0, 0));
}

#[test]
fn arithmetic_on_vector4() {
    let a = Vector4::new(1, 2, 3, 4);
    let b = Vector4::new(10, 20, 30, 40);
    assert_eq!(a.add(&b), Vector4::new(11, 22, 33, 44));
    assert_eq!(b.sub(&a), Vector4::new(9, 18, 27, 36));
    assert_eq!(a.neg(), Vector4::new(-1, -2, -3, -4));
    assert_eq!(a.scale(3), Vector4::new(3, 6, 9, 12));
    let mut c = a;
    c.add_assign(&b);
    c.sub_assign(&a);
    assert_eq!(c, b);
    c.scale_assign(0);
    assert_eq!(c, Vector4::new(0, 0, 0, 0));
}

#[test]
fn conversions_between_sizes() {
    let v4 = Vector4::new(1, 2, 3, 4);
    assert_eq!(Vector3::from_vec4(&v4), Vector3::new(1, 2, 3));
    let v2 = Vector2::from_vector4(&v4);
    assert_eq!((v2.x, v2.y), (1, 2));
    let v2 = Vector2::from_vector3(&Vector3::new(5, 6, 7));
    assert_eq!((v2.x, v2.y), (5, 6));
}

#[test]
fn vector_times_matrices() {
    let m3 = Mat3 { r0c0: 1, r0c1: 2, r0c2: 3, r1c0: 4, r1c1: 5, r1c2: 6, r2c0: 7, r2c1: 8, r2c2: 9 };
    assert_eq!(Vector3::new(1, 1, 1).mul_mat3(&m3), Vector3::new(12, 15, 18));
    assert_eq!(Vector3::new(0, 0, 2).mul_mat3(&m3), Vector3::new(14, 16, 18));
    let mut v = Vector3::new(1, 0, 0);
    v.mul_mat3_assign(&m3);
    assert_eq!(v, Vector3::new(1, 2, 3));
    let mut m4 = Mat4::identity();
    m4.r3c0 = 10;
    m4.r3c1 = 20;
    m4.r3c2 = 30;
    m4.r2c2 = 5;
    assert_eq!(Vector3::new(1, 2, 3).mul_mat4(&m4), Vector4::new(11, 22, 45, 1));
    assert_eq!(Vector4::new(1, 2, 3, 0).mul_mat4(&m4), Vector4::new(1, 2, 15, 0));
    assert_eq!(Vector4::new(1, 2, 3, 2).mul_mat4(&m4), Vector4::new(21, 42, 75, 2));
}

#[test]
fn tolerance_predicates() {
    assert!(is_equal(10, 12, 2));
    assert!(!is_equal(10, 13, 2));
    assert!(is_not_equal(10, 13, 2));
    assert!(!is_not_equal(-3, -1, 2));
    assert!(is_one(1, MATH_TOLERANCE));
    assert!(!is_one(2, MATH_TOLERANCE));
    assert!(is_one(3, 2));
    assert!(is_zero(0, MATH_TOLERANCE));
    assert!(is_zero(-1, 1));
    assert!(!is_zero(2, 1));
    assert!(is_non_zero(2, 1));
    assert!(!is_non_zero(1, 1));
    assert!(is_equal(i64::MIN, i64::MAX, i64::MAX) == false);
    assert!(is_not_equal(i64::MIN, i64::MAX, 0));
}

#[test]
fn vector_equality_within_tolerance() {
    let a = Vector3::new(10, 20, 30);
    assert!(a.is_equal(&Vector3::new(11, 19, 30), 1));
    assert!(!a.is_equal(&Vector3::new(12, 20, 30), 1));
    assert!(a.is_equal(&a, MATH_TOLERANCE));
    let b = Vector4::new(1, 2, 3, 4);
    assert!(b.is_equal(&Vector4::new(1, 2, 3, 5), 1));
    assert!(!b.is_equal(&Vector4::new(1, 2, 3, 5), 0));
}
