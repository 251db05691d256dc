use spatial_math::mat4::Mat4;
use spatial_math::quat::Quat;
use spatial_math::vector3::Vector3;

fn q(x: i64, y: i64, z: i64, real: i64) -> Quat {
    Quat { x, y, z, real }
}

#[test]
fn identity_quaternion_gives_identity_matrix() {
    assert_eq!(Mat4::from_quat(&Quat::identity()), Mat4::identity());
}

#[test]
fn identity_quaternion_leaves_vectors_alone() {
    let v = Vector3::new(1, 0, 0);
    assert_eq!(Quat::identity().lqcvq(&v), Vector3::new(1, 0, 0));
    let w = Vector3::new(-4, 7, 2);
    assert_eq!(w.mul_quat(&Quat::identity()), w);
}

#[test]
fn quarter_turn_about_z_scaled_by_squared_length() {
    // (0, 0, 1, 1) is the quarter turn about Z with squared length 2, so
    // the sandwich product returns twice the rotated vector.
    let r = q(0, 0, 1, 1).lqcvq(&Vector3::new(1, 0, 0));
    assert_eq!(r, Vector3::new(0, 2, 0));
}

#[test]
fn half_turn_about_z() {
    let r = q(0, 0, 1, 0).lqcvq(&Vector3::new(1, 0, 0));
    assert_eq!(r, Vector3::new(-1, 0, 0));
    let r = q(0, 0, 1, 0).lqcvq(&Vector3::new(1, 2, 3));
    assert_eq!(r, Vector3::new(-1, -2, 3));
}

#[test]
fn sandwich_matches_rotation_matrix() {
    let v = Vector3::new(1, 2, 3);
    for quat in [q(1, 0, 0, 0), q(0, 1, 0, 0), q(0, 0, 1, 0), q(0, 0, 0, 1), q(0, -1, 0, 0)] {
        let by_quat = v.mul_quat(&quat);
        let by_matrix = v.mul_mat4(&Mat4::from_quat(&quat));
        assert_eq!((by_quat.x, by_quat.y, by_quat.z, 1), (by_matrix.x, by_matrix.y, by_matrix.z, by_matrix.w));
    }
}

#[test]
fn rotation_matrix_entries() {
    let m = Mat4::from_quat(&q(1, 0, 0, 0));
    assert_eq!((m.r0c0, m.r1c1, m.r2c2, m.r3c3), (1, -1, -1, 1));
    assert_eq!((m.r0c1, m.r1c2, m.r2c1, m.r0c3, m.r3c0), (0, 0, 0, 0, 0));
    // A non-unit quaternion gives the scaled formula.
    let m = Mat4::from_quat(&q(0, 0, 1, 1));
    assert_eq!((m.r0c0, m.r0c1, m.r1c0, m.r1c1, m.r2c2), (-1, 2, -2, -1, 1));
}

#[test]
fn matrix_round_trip_gives_quaternion_back() {
    for quat in [q(0, 0, 0, 1), q(1, 0, 0, 0), q(0, 1, 0, 0), q(0, 0, 1, 0)] {
        assert_eq!(Quat::from_mat4(&Mat4::from_quat(&quat)), quat);
    }
}

#[test]
fn matrix_round_trip_of_negated_axis_flips_sign() {
    // (-1, 0, 0, 0) and (1, 0, 0, 0) are the same rotation.
    assert_eq!(Quat::from_mat4(&Mat4::from_quat(&q(-1, 0, 0, 0))), q(1, 0, 0, 0));
}

#[test]
fn matrix_to_quaternion_branches() {
    let mut m = Mat4::identity();
    assert_eq!(Quat::from_mat4(&m), q(0, 0, 0, 1));
    m.r1c1 = -1;
    m.r2c2 = -1;
    assert_eq!(Quat::from_mat4(&m), q(1, 0, 0, 0));
    let mut m = Mat4::identity();
    m.r0c0 = -1;
    m.r2c2 = -1;
    assert_eq!(Quat::from_mat4(&m), q(0, 1, 0, 0));
    let mut m = Mat4::identity();
    m.r0c0 = -1;
    m.r1c1 = -1;
    assert_eq!(Quat::from_mat4(&m), q(0, 0, 1, 0));
    // Trace 1 + 1 + 1 = 3 with an antisymmetric pair: s = 2 * floor(sqrt(4)) = 4.
    let mut m = Mat4::identity();
    m.r1c0 = -8;
    m.r0c1 = 8;
    assert_eq!(Quat::from_mat4(&m), q(0, 0, 4, 1));
}

#[test]
fn transpose_reverses_rotation() {
    assert_eq!(Quat::identity().get_t(), Quat::identity());
    let mut h = q(0, 0, 1, 0);
    h.t();
    assert_eq!(h, q(0, 0, 1, 0));
    assert_eq!(q(0, 1, 0, 0).get_t(), q(0, 1, 0, 0));
}

#[test]
fn conjugate_negates_vector_part() {
    let a = q(1, -2, 3, 4);
    assert_eq!(a.get_conj(), q(-1, 2, -3, 4));
    let mut b = a;
    b.conj();
    assert_eq!(b, a.get_conj());
}

#[test]
fn conjugate_order_sandwich_rotates_backwards() {
    let v = Vector3::new(1, 0, 0);
    let quarter = q(0, 0, 1, 1);
    assert_eq!(quarter.lqvqc(&v), Vector3::new(0, -2, 0));
    assert_eq!(quarter.lqvqc(&v), quarter.get_conj().lqcvq(&v));
}

#[test]
fn quaternion_length_and_dot() {
    let a = q(1, 2, 3, 4);
    assert_eq!(a.get_mag_sqr(), 30);
    assert_eq!(a.dot(&q(4, 3, 2, 1)), 20);
    assert_eq!(Quat::zero().get_mag_sqr(), 0);
}

#[test]
fn inverse_of_unit_quaternion_is_conjugate() {
    let a = q(0, 1, 0, 0);
    assert_eq!(a.get_inv(), Some(q(0, -1, 0, 0)));
    let mut b = q(0, 0, 0, -1);
    assert!(b.inv());
    assert_eq!(b, q(0, 0, 0, -1));
}

#[test]
fn inverse_with_fractions_or_zero_is_refused() {
    assert_eq!(q(1, 1, 0, 0).get_inv(), None);
    assert_eq!(Quat::zero().get_inv(), None);
    let mut z = Quat::zero();
    assert!(!z.inv());
    assert_eq!(z, Quat::zero());
    assert_eq!(q(2, 0, 0, 0).get_inv(), None);
}

#[test]
fn vector_part() {
    assert_eq!(q(5, 6, 7, 8).get_v(), Vector3::new(5, 6, 7));
}

#[test]
fn exact_division_of_quaternion() {
    assert_eq!(q(2, -4, 6, 8).div(2), Some(q(1, -2, 3, 4)));
    assert_eq!(q(2, -4, 6, 8).div(-2), Some(q(-1, 2, -3, -4)));
    assert_eq!(q(2, -4, 6, 7).div(2), None);
    assert_eq!(q(1, 1, 1, 1).div(0), None);
    let mut a = q(3, 6, 9, 12);
    assert!(a.div_assign(3));
    assert_eq!(a, q(1, 2, 3, 4));
    assert!(!a.div_assign(5));
    assert_eq!(a, q(1, 2, 3, 4));
}
