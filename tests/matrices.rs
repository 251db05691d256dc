use spatial_math::mat3::Mat3;
use spatial_math::mat4::Mat4;

fn mat(r: [[i64; 4]; 4]) -> Mat4 {
    Mat4 {
        r0c0: r[0][0],
        r0c1: r[0][1],
        r0c2: r[0][2],
        r0c3: r[0][3],
        r1c0: r[1][0],
        r1c1: r[1][1],
        r1c2: r[1][2],
        r1c3: r[1][3],
        r2c0: r[2][0],
        r2c1: r[2][1],
        r2c2: r[2][2],
        r2c3: r[2][3],
        r3c0: r[3][0],
        r3c1: r[3][1],
        r3c2: r[3][2],
        r3c3: r[3][3],
    }
}

fn product(a: &Mat4, b: &Mat4) -> [[i64; 4]; 4] {
    let ra = rows(a);
    let rb = rows(b);
    let mut out = [[0i64; 4]; 4];
    for i in 0..4 {
        for j in 0..4 {
            out[i][j] = (0..4).map(|k| ra[i][k] * rb[k][j]).sum();
        }
    }
    out
}

fn rows(m: &Mat4) -> [[i64; 4]; 4] {
    [
        [m.r0c0, m.r0c1, m.r0c2, m.r0c3],
        [m.r1c0, m.r1c1, m.r1c2, m.r1c3],
        [m.r2c0, m.r2c1, m.r2c2, m.r2c3],
        [m.r3c0, m.r3c1, m.r3c2, m.r3c3],
    ]
}

const IDENTITY: [[i64; 4]; 4] = [[1, 0, 0, 0], [0, 1, 0, 0], [0, 0, 1, 0], [0, 0, 0, 1]];

#[test]
fn identity_and_zero_constructors() {
    assert_eq!(rows(&Mat4::identity()), IDENTITY);
    assert_eq!(rows(&Mat4::zero()), [[0; 4]; 4]);
    let i3 = Mat3::identity();
    assert_eq!((i3.r0c0, i3.r1c1, i3.r2c2, i3.r0c1, i3.r2c0), (1, 1, 1, 0, 0));
    let z3 = Mat3::zero();
    assert_eq!((z3.r0c0, z3.r1c1, z3.r2c2, z3.r1c2), (0, 0, 0, 0));
}

#[test]
fn determinant_of_identity_is_one_and_of_zero_is_zero() {
    assert_eq!(Mat4::identity().get_det(), 1);
    assert_eq!(Mat4::zero().get_det(), 0);
}

#[test]
fn determinant_by_cofactor_expansion() {
    let m = mat([[2, 0, 0, 0], [0, 3, 0, 0], [0, 0, 4, 0], [0, 0, 0, 5]]);
    assert_eq!(m.get_det(), 120);
    let m = mat([[1, 2, 3, 4], [5, 6, 7, 8], [2, 6, 4, 8], [3, 1, 1, 2]]);
    assert_eq!(m.get_det(), 72);
    let singular = mat([[1, 2, 3, 4], [2, 4, 6, 8], [0, 1, 0, 1], [5, 5, 5, 5]]);
    assert_eq!(singular.get_det(), 0);
}

#[test]
fn transpose_twice_is_identity_map() {
    let m = mat([[1, 2, 3, 4], [5, 6, 7, 8], [9, 10, 11, 12], [13, 14, 15, 16]]);
    assert_eq!(m.get_t().get_t(), m);
    assert_eq!(rows(&m.get_t())[0], [1, 5, 9, 13]);
    assert_eq!(rows(&m.get_t())[3], [4, 8, 12, 16]);
}

#[test]
fn transpose_in_place_matches_copy() {
    let m = mat([[1, 2, 3, 4], [5, 6, 7, 8], [9, 10, 11, 12], [13, 14, 15, 16]]);
    let mut n = m;
    n.t();
    assert_eq!(n, m.get_t());
    n.t();
    assert_eq!(n, m);
}

#[test]
fn adjugate_times_matrix_is_determinant_times_identity() {
    let m = mat([[1, 2, 3, 4], [5, 6, 7, 8], [2, 6, 4, 8], [3, 1, 1, 2]]);
    let adj = m.get_adj();
    let p = product(&m, &adj);
    for i in 0..4 {
        for j in 0..4 {
            assert_eq!(p[i][j], if i == j { 72 } else { 0 });
        }
    }
}

#[test]
fn inverse_of_unimodular_matrix() {
    let m = mat([[2, 1, 0, 0], [1, 1, 0, 0], [0, 0, 1, 0], [3, 4, 5, 1]]);
    assert_eq!(m.get_det(), 1);
    let inv = m.get_inv().expect("integer inverse");
    assert_eq!(product(&m, &inv), IDENTITY);
    assert_eq!(rows(&inv)[0], [1, -1, 0, 0]);
    assert_eq!(rows(&inv)[1], [-1, 2, 0, 0]);
}

#[test]
fn inverse_with_determinant_minus_one() {
    let m = mat([[0, 1, 0, 0], [1, 0, 0, 0], [0, 0, 1, 0], [0, 0, 0, 1]]);
    assert_eq!(m.get_det(), -1);
    let inv = m.get_inv().expect("integer inverse");
    assert_eq!(product(&m, &inv), IDENTITY);
}

#[test]
fn singular_matrix_has_no_inverse() {
    let singular = mat([[1, 2, 3, 4], [2, 4, 6, 8], [0, 1, 0, 1], [5, 5, 5, 5]]);
    assert!(singular.get_inv().is_none());
    assert!(Mat4::zero().get_inv().is_none());
}

#[test]
fn fractional_inverse_is_refused() {
    let m = mat([[2, 0, 0, 0], [0, 1, 0, 0], [0, 0, 1, 0], [0, 0, 0, 1]]);
    assert_eq!(m.get_det(), 2);
    assert!(m.get_inv().is_none());
}

#[test]
fn inverse_in_place_matches_copy() {
    let m = mat([[2, 1, 0, 0], [1, 1, 0, 0], [0, 0, 1, 0], [3, 4, 5, 1]]);
    let mut n = m;
    assert!(n.inv());
    assert_eq!(Some(n), m.get_inv());
    let d = mat([[2, 0, 0, 0], [0, 1, 0, 0], [0, 0, 1, 0], [0, 0, 0, 1]]);
    let mut e = d;
    assert!(!e.inv());
    assert_eq!(e, d);
}

#[test]
fn scaling_multiplies_every_entry() {
    let m = mat([[1, 2, 3, 4], [5, 6, 7, 8], [9, 10, 11, 12], [13, 14, 15, 16]]);
    let s = m.scale(-3);
    assert_eq!(rows(&s)[0], [-3, -6, -9, -12]);
    assert_eq!(rows(&s)[3], [-39, -42, -45, -48]);
}
