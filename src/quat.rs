use crate::util::{
    div_toward_zero, divides, exact_quotient, fits, floor_sqrt, isqrt, lemma_floor_sqrt, lemma_floor_sqrt_unique,
    lemma_mul_within, quotient_toward_zero, within, CUBIC_LIMIT, QUADRATIC_LIMIT, QUARTIC_LIMIT,
};
use crate::mat4::{is_matrix_of_quat, quat_matrix, Mat4};
use crate::vector3::{add3, cross3, dot3, scale3, transform_point, Vector3};
use vstd::prelude::*;

verus! {

/// A quaternion `x i + y j + z k + real`.
///
/// As a rotation operator a quaternion is expected to have unit length;
/// that is the caller's to ensure.
#[derive(Clone, Copy, Debug, PartialEq, Eq, Structural)]
pub struct Quat {
    pub x: i64,
    pub y: i64,
    pub z: i64,
    pub real: i64,
}

impl View for Quat {
    type V = (int, int, int, int);

    open spec fn view(&self) -> (int, int, int, int) {
        (self.x as int, self.y as int, self.z as int, self.real as int)
    }
}

/// The vector part of `q`.
pub open spec fn vector_part(q: (int, int, int, int)) -> (int, int, int) {
    (q.0, q.1, q.2)
}

/// The four-component dot product.
pub open spec fn dot4(a: (int, int, int, int), b: (int, int, int, int)) -> int {
    a.0 * b.0 + a.1 * b.1 + a.2 * b.2 + a.3 * b.3
}

/// The sandwich product `q v q*` expanded:
/// `2 real (qv × v) + (real² − qv·qv) v + 2 (qv·v) qv`.
pub open spec fn rotation(q: (int, int, int, int), v: (int, int, int)) -> (int, int, int) {
    let qv = vector_part(q);
    add3(
        add3(scale3(2 * q.3, cross3(qv, v)), scale3(q.3 * q.3 - dot3(qv, qv), v)),
        scale3(2 * dot3(qv, v), qv),
    )
}

/// The sandwich product in the conjugate order `q* v q`, which uses
/// `v × qv` in place of `qv × v`.
pub open spec fn conjugate_rotation(q: (int, int, int, int), v: (int, int, int)) -> (int, int, int) {
    let qv = vector_part(q);
    add3(
        add3(scale3(2 * q.3, cross3(v, qv)), scale3(q.3 * q.3 - dot3(qv, qv), v)),
        scale3(2 * dot3(qv, v), qv),
    )
}

/// The conjugate: the vector part negated, the real part kept.
pub open spec fn conjugate(q: (int, int, int, int)) -> (int, int, int, int) {
    (-q.0, -q.1, -q.2, q.3)
}

/// The cross product of bounded vectors is bounded by twice the square of
/// the bound.
proof fn lemma_cross_within(a: (int, int, int), b: (int, int, int), bound: int)
    requires
        within(a.0, bound) && within(a.1, bound) && within(a.2, bound),
        within(b.0, bound) && within(b.1, bound) && within(b.2, bound),
    ensures
        within(cross3(a, b).0, 2 * (bound * bound)),
        within(cross3(a, b).1, 2 * (bound * bound)),
        within(cross3(a, b).2, 2 * (bound * bound)),
{
    lemma_mul_within(a.0, b.1, bound, bound);
    lemma_mul_within(a.0, b.2, bound, bound);
    lemma_mul_within(a.1, b.0, bound, bound);
    lemma_mul_within(a.1, b.2, bound, bound);
    lemma_mul_within(a.2, b.0, bound, bound);
    lemma_mul_within(a.2, b.1, bound, bound);
}

/// `q` has nonzero length and its squared length divides each component
/// of its conjugate.
pub open spec fn has_integer_inverse(q: (int, int, int, int)) -> bool {
    let n = dot4(q, q);
    let c = conjugate(q);
    n != 0 && divides(n, c.0) && divides(n, c.1) && divides(n, c.2) && divides(n, c.3)
}

/// `inv` is the conjugate of `q` divided by the squared length of `q`.
pub open spec fn is_inverse_of(inv: (int, int, int, int), q: (int, int, int, int)) -> bool {
    let n = dot4(q, q);
    let c = conjugate(q);
    inv.0 * n == c.0 && inv.1 * n == c.1 && inv.2 * n == c.2 && inv.3 * n == c.3
}

/// The quaternion read off the rotation block `r` of a matrix (row-major
/// entries). The trace picks the branch: with a positive trace the real
/// part leads; otherwise the component of the largest diagonal entry does,
/// so that the divisor `s` never nears zero. Square roots are rounded down
/// and quotients toward zero.
pub open spec fn quat_from_rotation(
    r00: int,
    r01: int,
    r02: int,
    r10: int,
    r11: int,
    r12: int,
    r20: int,
    r21: int,
    r22: int,
) -> (int, int, int, int) {
    let t = r00 + r11 + r22;
    if t > 0 {
        let s = 2 * floor_sqrt(t + 1);
        (
            div_toward_zero(-(r21 - r12), s),
            div_toward_zero(-(r02 - r20), s),
            div_toward_zero(-(r10 - r01), s),
            s / 4,
        )
    } else if r00 > r11 && r00 > r22 {
        let s = 2 * floor_sqrt(1 + r00 - r11 - r22);
        (s / 4, div_toward_zero(r01 + r10, s), div_toward_zero(r02 + r20, s), div_toward_zero(-(r21 - r12), s))
    } else if r11 > r22 {
        let s = 2 * floor_sqrt(1 + r11 - r00 - r22);
        (div_toward_zero(r01 + r10, s), s / 4, div_toward_zero(r12 + r21, s), div_toward_zero(-(r02 - r20), s))
    } else {
        let s = 2 * floor_sqrt(1 + r22 - r00 - r11);
        (div_toward_zero(r02 + r20, s), div_toward_zero(r12 + r21, s), s / 4, div_toward_zero(-(r10 - r01), s))
    }
}

/// The quaternion read off the transpose of the rotation matrix of `q`:
/// the reverse rotation.
pub open spec fn transposed_rotation(q: (int, int, int, int)) -> (int, int, int, int) {
    quat_from_rotation(
        quat_matrix(q, 0, 0),
        quat_matrix(q, 1, 0),
        quat_matrix(q, 2, 0),
        quat_matrix(q, 0, 1),
        quat_matrix(q, 1, 1),
        quat_matrix(q, 2, 1),
        quat_matrix(q, 0, 2),
        quat_matrix(q, 1, 2),
        quat_matrix(q, 2, 2),
    )
}

/// `2 * floor_sqrt(n)`, the divisor of the conversion from a matrix.
fn root_scale(n: i64) -> (s: i64)
    requires
        1 <= n <= 0x1_0000_0000,
    ensures
        s == 2 * floor_sqrt(n as int),
        s >= 2,
{
    let h = isqrt(n as u64);
    proof {
        lemma_floor_sqrt(n as int);
        let f = h as int;
        assert(1 <= f < 0x2_0000) by (nonlinear_arith)
            requires
                f >= 0,
                f * f <= n,
                1 <= n < (f + 1) * (f + 1),
                n <= 0x1_0000_0000,
        ;
    }
    2 * (h as i64)
}

/// The entries of the rotation matrix of a quaternion within the quartic
/// bound stay within the quadratic one.
proof fn lemma_quat_matrix_within(q: (int, int, int, int))
    requires
        within(q.0, QUARTIC_LIMIT as int),
        within(q.1, QUARTIC_LIMIT as int),
        within(q.2, QUARTIC_LIMIT as int),
        within(q.3, QUARTIC_LIMIT as int),
    ensures
        forall|i: int, j: int| 0 <= i < 4 && 0 <= j < 4 ==> within(#[trigger] quat_matrix(q, i, j), QUADRATIC_LIMIT as int),
{
    let b = QUARTIC_LIMIT as int;
    let (x, y, z, w) = q;
    lemma_mul_within(x, x, b, b);
    lemma_mul_within(x, y, b, b);
    lemma_mul_within(x, z, b, b);
    lemma_mul_within(x, w, b, b);
    lemma_mul_within(y, y, b, b);
    lemma_mul_within(y, z, b, b);
    lemma_mul_within(y, w, b, b);
    lemma_mul_within(z, z, b, b);
    lemma_mul_within(z, w, b, b);
    assert(0 <= x * x && 0 <= y * y && 0 <= z * z) by (nonlinear_arith);
}

impl Quat {
    /// Each component lies in `[-b, b]`.
    pub open spec fn bounded(self, b: int) -> bool {
        within(self.x as int, b) && within(self.y as int, b) && within(self.z as int, b) && within(
            self.real as int,
            b,
        )
    }

    /// The zero quaternion.
    pub fn zero() -> (r: Self)
        ensures
            r@ == (0int, 0int, 0int, 0int),
    {
        Quat { x: 0, y: 0, z: 0, real: 0 }
    }

    /// The identity rotation `(0, 0, 0, 1)`.
    pub fn identity() -> (r: Self)
        ensures
            r@ == (0int, 0int, 0int, 1int),
    {
        Quat { x: 0, y: 0, z: 0, real: 1 }
    }

    /// The vector part `(x, y, z)`.
    pub fn get_v(&self) -> (r: Vector3)
        ensures
            r@ == vector_part(self@),
    {
        Vector3 { x: self.x, y: self.y, z: self.z }
    }

    /// Rotates `v_in` by the quaternion: the sandwich product `q v q*`.
    pub fn lqcvq(&self, v_in: &Vector3) -> (r: Vector3)
        requires
            self.bounded(CUBIC_LIMIT as int),
            v_in.bounded(CUBIC_LIMIT as int),
        ensures
            r@ == rotation(self@, v_in@),
    {
        let qv = self.get_v();
        let c = qv.cross(v_in);
        proof {
            lemma_cross_within(qv@, v_in@, CUBIC_LIMIT as int);
        }
        let s = self.sandwich_terms(&qv, v_in);
        self.sandwich(&c, &qv, v_in, s.0, s.1)
    }

    /// Rotates `v_in` by the conjugate order of the sandwich, `q* v q`.
    pub fn lqvqc(&self, v_in: &Vector3) -> (r: Vector3)
        requires
            self.bounded(CUBIC_LIMIT as int),
            v_in.bounded(CUBIC_LIMIT as int),
        ensures
            r@ == conjugate_rotation(self@, v_in@),
    {
        let qv = self.get_v();
        let c = v_in.cross(&qv);
        proof {
            lemma_cross_within(v_in@, qv@, CUBIC_LIMIT as int);
        }
        let s = self.sandwich_terms(&qv, v_in);
        self.sandwich(&c, &qv, v_in, s.0, s.1)
    }

    /// `real² − qv·qv` and `qv·v`.
    fn sandwich_terms(&self, qv: &Vector3, v: &Vector3) -> (r: (i64, i64))
        requires
            self.bounded(CUBIC_LIMIT as int),
            v.bounded(CUBIC_LIMIT as int),
            qv@ == vector_part(self@),
        ensures
            r.0 == self.real * self.real - dot3(qv@, qv@),
            r.1 == dot3(qv@, v@),
            within(r.0 as int, 4 * (CUBIC_LIMIT * CUBIC_LIMIT)),
            within(r.1 as int, 3 * (CUBIC_LIMIT * CUBIC_LIMIT)),
    {
        let ghost b = CUBIC_LIMIT as int;
        proof {
            lemma_mul_within(self.real as int, self.real as int, b, b);
            lemma_mul_within(qv.x as int, qv.x as int, b, b);
            lemma_mul_within(qv.y as int, qv.y as int, b, b);
            lemma_mul_within(qv.z as int, qv.z as int, b, b);
            lemma_mul_within(qv.x as int, v.x as int, b, b);
            lemma_mul_within(qv.y as int, v.y as int, b, b);
            lemma_mul_within(qv.z as int, v.z as int, b, b);
        }
        (self.real * self.real - qv.dot(qv), qv.dot(v))
    }

    /// `2 real c + k v + 2 d qv`.
    fn sandwich(&self, c: &Vector3, qv: &Vector3, v: &Vector3, k: i64, d: i64) -> (r: Vector3)
        requires
            self.bounded(CUBIC_LIMIT as int),
            v.bounded(CUBIC_LIMIT as int),
            qv@ == vector_part(self@),
            c.bounded(2 * (CUBIC_LIMIT * CUBIC_LIMIT)),
            within(k as int, 4 * (CUBIC_LIMIT * CUBIC_LIMIT)),
            within(d as int, 3 * (CUBIC_LIMIT * CUBIC_LIMIT)),
        ensures
            r@ == add3(add3(scale3(2 * self.real, c@), scale3(k as int, v@)), scale3(2 * d, qv@)),
    {
        // With b = 2^19: |2 real| <= 2^20, |c| <= 2^39, |k| <= 2^40, |2 d| <= 2^41.
        proof {
            lemma_mul_within(2 * self.real, c.x as int, 0x10_0000, 0x80_0000_0000);
            lemma_mul_within(2 * self.real, c.y as int, 0x10_0000, 0x80_0000_0000);
            lemma_mul_within(2 * self.real, c.z as int, 0x10_0000, 0x80_0000_0000);
            lemma_mul_within(k as int, v.x as int, 0x100_0000_0000, 0x8_0000);
            lemma_mul_within(k as int, v.y as int, 0x100_0000_0000, 0x8_0000);
            lemma_mul_within(k as int, v.z as int, 0x100_0000_0000, 0x8_0000);
            lemma_mul_within(2 * d, qv.x as int, 0x200_0000_0000, 0x8_0000);
            lemma_mul_within(2 * d, qv.y as int, 0x200_0000_0000, 0x8_0000);
            lemma_mul_within(2 * d, qv.z as int, 0x200_0000_0000, 0x8_0000);
        }
        let a = c.scale(2 * self.real);
        let kv = v.scale(k);
        let dq = qv.scale(2 * d);
        a.add(&kv).add(&dq)
    }

    /// The quaternion of the rotation block of `m` (see
    /// [`quat_from_rotation`]); the inverse of [`Mat4::from_quat`] on
    /// rotation matrices.
    pub fn from_mat4(m: &Mat4) -> (r: Self)
        requires
            m.bounded(QUADRATIC_LIMIT as int),
        ensures
            r@ == quat_from_rotation(
                m.r0c0 as int,
                m.r0c1 as int,
                m.r0c2 as int,
                m.r1c0 as int,
                m.r1c1 as int,
                m.r1c2 as int,
                m.r2c0 as int,
                m.r2c1 as int,
                m.r2c2 as int,
            ),
    {
        let t = m.r0c0 + m.r1c1 + m.r2c2;
        if t > 0 {
            let s = root_scale(t + 1);
            Quat {
                x: quotient_toward_zero(-(m.r2c1 - m.r1c2), s),
                y: quotient_toward_zero(-(m.r0c2 - m.r2c0), s),
                z: quotient_toward_zero(-(m.r1c0 - m.r0c1), s),
                real: s / 4,
            }
        } else if m.r0c0 > m.r1c1 && m.r0c0 > m.r2c2 {
            let s = root_scale(1 + m.r0c0 - m.r1c1 - m.r2c2);
            Quat {
                x: s / 4,
                y: quotient_toward_zero(m.r0c1 + m.r1c0, s),
                z: quotient_toward_zero(m.r0c2 + m.r2c0, s),
                real: quotient_toward_zero(-(m.r2c1 - m.r1c2), s),
            }
        } else if m.r1c1 > m.r2c2 {
            let s = root_scale(1 + m.r1c1 - m.r0c0 - m.r2c2);
            Quat {
                x: quotient_toward_zero(m.r0c1 + m.r1c0, s),
                y: s / 4,
                z: quotient_toward_zero(m.r1c2 + m.r2c1, s),
                real: quotient_toward_zero(-(m.r0c2 - m.r2c0), s),
            }
        } else {
            let s = root_scale(1 + m.r2c2 - m.r0c0 - m.r1c1);
            Quat {
                x: quotient_toward_zero(m.r0c2 + m.r2c0, s),
                y: quotient_toward_zero(m.r1c2 + m.r2c1, s),
                z: s / 4,
                real: quotient_toward_zero(-(m.r1c0 - m.r0c1), s),
            }
        }
    }

    /// The reverse rotation, through the matrix: convert to a matrix,
    /// transpose it, convert back.
    pub fn get_t(&self) -> (r: Self)
        requires
            self.bounded(QUARTIC_LIMIT as int),
        ensures
            r@ == transposed_rotation(self@),
    {
        proof {
            lemma_quat_matrix_within(self@);
        }
        let m = Mat4::from_quat(self);
        let mt = m.get_t();
        proof {
            assert forall|i: int, j: int| 0 <= i < 4 && 0 <= j < 4 implies #[trigger] mt.entry(i, j) == quat_matrix(self@, j, i) by {
                assert(m.entry(j, i) == quat_matrix(self@, j, i));
            }
            assert(mt.bounded(QUADRATIC_LIMIT as int)) by {
                assert forall|i: int, j: int| 0 <= i < 4 && 0 <= j < 4 implies within(#[trigger] mt.entry(i, j), QUADRATIC_LIMIT as int) by {
                    assert(mt.entry(i, j) == quat_matrix(self@, j, i));
                    assert(within(quat_matrix(self@, j, i), QUADRATIC_LIMIT as int));
                }
                assert(within(mt.entry(0, 0), QUADRATIC_LIMIT as int));
                assert(within(mt.entry(0, 1), QUADRATIC_LIMIT as int));
                assert(within(mt.entry(0, 2), QUADRATIC_LIMIT as int));
                assert(within(mt.entry(0, 3), QUADRATIC_LIMIT as int));
                assert(within(mt.entry(1, 0), QUADRATIC_LIMIT as int));
                assert(within(mt.entry(1, 1), QUADRATIC_LIMIT as int));
                assert(within(mt.entry(1, 2), QUADRATIC_LIMIT as int));
                assert(within(mt.entry(1, 3), QUADRATIC_LIMIT as int));
                assert(within(mt.entry(2, 0), QUADRATIC_LIMIT as int));
                assert(within(mt.entry(2, 1), QUADRATIC_LIMIT as int));
                assert(within(mt.entry(2, 2), QUADRATIC_LIMIT as int));
                assert(within(mt.entry(2, 3), QUADRATIC_LIMIT as int));
                assert(within(mt.entry(3, 0), QUADRATIC_LIMIT as int));
                assert(within(mt.entry(3, 1), QUADRATIC_LIMIT as int));
                assert(within(mt.entry(3, 2), QUADRATIC_LIMIT as int));
                assert(within(mt.entry(3, 3), QUADRATIC_LIMIT as int));
            }
            assert(mt.entry(0, 0) == quat_matrix(self@, 0, 0));
            assert(mt.entry(0, 1) == quat_matrix(self@, 1, 0));
            assert(mt.entry(0, 2) == quat_matrix(self@, 2, 0));
            assert(mt.entry(1, 0) == quat_matrix(self@, 0, 1));
            assert(mt.entry(1, 1) == quat_matrix(self@, 1, 1));
            assert(mt.entry(1, 2) == quat_matrix(self@, 2, 1));
            assert(mt.entry(2, 0) == quat_matrix(self@, 0, 2));
            assert(mt.entry(2, 1) == quat_matrix(self@, 1, 2));
            assert(mt.entry(2, 2) == quat_matrix(self@, 2, 2));
        }
        Quat::from_mat4(&mt)
    }

    /// Replaces the quaternion by the reverse rotation, through the matrix
    /// (see [`Quat::get_t`]).
    pub fn t(&mut self)
        requires
            old(self).bounded(QUARTIC_LIMIT as int),
        ensures
            final(self)@ == transposed_rotation(old(self)@),
    {
        *self = self.get_t();
    }

    /// Each component divided by `rhs`, when every quotient is an integer;
    /// `None` otherwise (in particular for `rhs == 0`).
    pub fn div(&self, rhs: i64) -> (r: Option<Self>)
        requires
            self.bounded(QUADRATIC_LIMIT as int),
            within(rhs as int, QUADRATIC_LIMIT as int),
        ensures
            r.is_some() == (rhs != 0 && divides(rhs as int, self.x as int) && divides(rhs as int, self.y as int)
                && divides(rhs as int, self.z as int) && divides(rhs as int, self.real as int)),
            r matches Some(d) ==> d.x * rhs == self.x && d.y * rhs == self.y && d.z * rhs == self.z && d.real
                * rhs == self.real,
    {
        if rhs == 0 {
            return None;
        }
        let x = match exact_quotient(self.x, rhs) {
            Some(v) => v,
            None => return None,
        };
        let y = match exact_quotient(self.y, rhs) {
            Some(v) => v,
            None => return None,
        };
        let z = match exact_quotient(self.z, rhs) {
            Some(v) => v,
            None => return None,
        };
        let w = match exact_quotient(self.real, rhs) {
            Some(v) => v,
            None => return None,
        };
        Some(Quat { x, y, z, real: w })
    }

    /// Divides each component by `rhs` in place and returns `true` when
    /// [`Quat::div`] gives a result; otherwise leaves the quaternion as it
    /// is and returns `false`.
    pub fn div_assign(&mut self, rhs: i64) -> (r: bool)
        requires
            old(self).bounded(QUADRATIC_LIMIT as int),
            within(rhs as int, QUADRATIC_LIMIT as int),
        ensures
            r == (rhs != 0 && divides(rhs as int, old(self).x as int) && divides(rhs as int, old(self).y as int)
                && divides(rhs as int, old(self).z as int) && divides(rhs as int, old(self).real as int)),
            r ==> final(self).x * rhs == old(self).x && final(self).y * rhs == old(self).y && final(self).z * rhs
                == old(self).z && final(self).real * rhs == old(self).real,
            !r ==> *final(self) == *old(self),
    {
        match self.div(rhs) {
            Some(d) => {
                *self = d;
                true
            },
            None => false,
        }
    }

    /// Conjugates in place: negates the vector part.
    pub fn conj(&mut self)
        requires
            fits(-old(self).x) && fits(-old(self).y) && fits(-old(self).z),
        ensures
            final(self)@ == conjugate(old(self)@),
    {
        self.x = -self.x;
        self.y = -self.y;
        self.z = -self.z;
    }

    /// The conjugate: the vector part negated, the real part kept.
    pub fn get_conj(&self) -> (r: Self)
        requires
            fits(-self.x) && fits(-self.y) && fits(-self.z),
        ensures
            r@ == conjugate(self@),
    {
        Quat { x: -self.x, y: -self.y, z: -self.z, real: self.real }
    }

    /// The squared length `x² + y² + z² + real²`.
    pub fn get_mag_sqr(&self) -> (r: i64)
        requires
            self.bounded(QUADRATIC_LIMIT as int),
        ensures
            r == dot4(self@, self@),
    {
        self.dot(self)
    }

    /// The four-component dot product.
    pub fn dot(&self, rhs: &Quat) -> (r: i64)
        requires
            self.bounded(QUADRATIC_LIMIT as int),
            rhs.bounded(QUADRATIC_LIMIT as int),
        ensures
            r == dot4(self@, rhs@),
    {
        let ghost b = QUADRATIC_LIMIT as int;
        proof {
            lemma_mul_within(self.x as int, rhs.x as int, b, b);
            lemma_mul_within(self.y as int, rhs.y as int, b, b);
            lemma_mul_within(self.z as int, rhs.z as int, b, b);
            lemma_mul_within(self.real as int, rhs.real as int, b, b);
        }
        self.x * rhs.x + self.y * rhs.y + self.z * rhs.z + self.real * rhs.real
    }

    /// The multiplicative inverse `conjugate / |q|²`, when its components
    /// are integers; `None` otherwise (in particular for the zero
    /// quaternion). For a unit quaternion it is the conjugate.
    pub fn get_inv(&self) -> (r: Option<Self>)
        requires
            self.bounded(QUADRATIC_LIMIT as int),
        ensures
            r.is_some() == has_integer_inverse(self@),
            r matches Some(inv) ==> is_inverse_of(inv@, self@),
            dot4(self@, self@) == 1 ==> (r matches Some(inv) && inv@ == conjugate(self@)),
    {
        let n = self.get_mag_sqr();
        if n == 0 {
            return None;
        }
        let c = self.get_conj();
        proof {
            let b = QUADRATIC_LIMIT as int;
            lemma_mul_within(self.x as int, self.x as int, b, b);
            lemma_mul_within(self.y as int, self.y as int, b, b);
            lemma_mul_within(self.z as int, self.z as int, b, b);
            lemma_mul_within(self.real as int, self.real as int, b, b);
        }
        let x = match exact_quotient(c.x, n) {
            Some(v) => v,
            None => return None,
        };
        let y = match exact_quotient(c.y, n) {
            Some(v) => v,
            None => return None,
        };
        let z = match exact_quotient(c.z, n) {
            Some(v) => v,
            None => return None,
        };
        let w = match exact_quotient(c.real, n) {
            Some(v) => v,
            None => return None,
        };
        Some(Quat { x, y, z, real: w })
    }

    /// Replaces the quaternion by its inverse and returns `true` when
    /// [`Quat::get_inv`] finds one; otherwise leaves it as it is and returns
    /// `false`.
    pub fn inv(&mut self) -> (r: bool)
        requires
            old(self).bounded(QUADRATIC_LIMIT as int),
        ensures
            r == has_integer_inverse(old(self)@),
            r ==> is_inverse_of(final(self)@, old(self)@),
            !r ==> *final(self) == *old(self),
    {
        match self.get_inv() {
            Some(q) => {
                *self = q;
                true
            },
            None => false,
        }
    }
}

/// One component of the sandwich product and of the matrix product, both
/// as sums of monomials: `(u, p, s)` are the quaternion's components along
/// the output axis and the two following ones (cyclically), `(a, e, f)` the
/// vector's, and `w` the real part.
proof fn lemma_component_monomials(u: int, p: int, s: int, w: int, a: int, e: int, f: int)
    ensures
        2 * w * (p * f - s * e) + (w * w - (u * u + p * p + s * s)) * a + 2 * (u * a + p * e + s * f) * u
            == 2 * (w * p * f) - 2 * (w * s * e) + w * w * a - p * p * a - s * s * a + u * u * a + 2 * (
        p * e * u) + 2 * (s * f * u),
        a * (1 - 2 * (p * p + s * s)) + e * (2 * (u * p - s * w)) + f * (2 * (u * s + p * w)) == a - 2 * (
        p * p * a) - 2 * (s * s * a) + 2 * (p * e * u) - 2 * (w * s * e) + 2 * (s * f * u) + 2 * (w
            * p * f),
        a * (u * u + p * p + s * s + w * w) == u * u * a + p * p * a + s * s * a + w * w * a,
{
    broadcast use vstd::arithmetic::mul::lemma_mul_is_associative, vstd::arithmetic::mul::lemma_mul_is_commutative;
    broadcast use vstd::arithmetic::mul::group_mul_is_distributive;

}

/// Multiplying by a value equal to one.
proof fn lemma_times_one(a: int, s: int)
    requires
        s == 1,
    ensures
        a * s == a,
{
}

/// For a unit quaternion the sandwich product agrees with multiplying by
/// the rotation matrix built from the same quaternion.
pub proof fn lemma_rotation_matches_matrix(q: (int, int, int, int), m: Mat4, v: (int, int, int))
    requires
        dot4(q, q) == 1,
        is_matrix_of_quat(m, q),
    ensures
        rotation(q, v).0 == transform_point(v, m).0,
        rotation(q, v).1 == transform_point(v, m).1,
        rotation(q, v).2 == transform_point(v, m).2,
        transform_point(v, m).3 == 1,
{
    let (x, y, z, w) = q;
    let (a, b, c) = v;
    lemma_component_monomials(x, y, z, w, a, b, c);
    lemma_component_monomials(y, z, x, w, b, c, a);
    lemma_component_monomials(z, x, y, w, c, a, b);
    assert(m.entry(0, 0) == quat_matrix(q, 0, 0));
    assert(m.entry(0, 1) == quat_matrix(q, 0, 1));
    assert(m.entry(0, 2) == quat_matrix(q, 0, 2));
    assert(m.entry(0, 3) == quat_matrix(q, 0, 3));
    assert(m.entry(1, 0) == quat_matrix(q, 1, 0));
    assert(m.entry(1, 1) == quat_matrix(q, 1, 1));
    assert(m.entry(1, 2) == quat_matrix(q, 1, 2));
    assert(m.entry(1, 3) == quat_matrix(q, 1, 3));
    assert(m.entry(2, 0) == quat_matrix(q, 2, 0));
    assert(m.entry(2, 1) == quat_matrix(q, 2, 1));
    assert(m.entry(2, 2) == quat_matrix(q, 2, 2));
    assert(m.entry(2, 3) == quat_matrix(q, 2, 3));
    assert(m.entry(3, 0) == quat_matrix(q, 3, 0));
    assert(m.entry(3, 1) == quat_matrix(q, 3, 1));
    assert(m.entry(3, 2) == quat_matrix(q, 3, 2));
    assert(m.entry(3, 3) == quat_matrix(q, 3, 3));
    assert(x * x + y * y + z * z + w * w == 1);
    assert(y * y + z * z + x * x + w * w == 1);
    assert(z * z + x * x + y * y + w * w == 1);
    let d = x * a + y * b + z * c;
    let n = x * x + y * y + z * z;
    assert(2 * (y * b + z * c + x * a) * y == 2 * d * y);
    assert(2 * (z * c + x * a + y * b) * z == 2 * d * z);
    assert((w * w - (y * y + z * z + x * x)) * b == (w * w - n) * b);
    assert((w * w - (z * z + x * x + y * y)) * c == (w * w - n) * c);
    assert(b * (1 - 2 * (z * z + x * x)) == b * (1 - 2 * (x * x + z * z)));
    assert(a * (2 * (y * x + z * w)) == a * (2 * (x * y + z * w)));
    assert(a * (2 * (z * x - y * w)) == a * (2 * (x * z - y * w)));
    assert(b * (2 * (z * y + x * w)) == b * (2 * (y * z + x * w)));
    lemma_times_one(a, x * x + y * y + z * z + w * w);
    lemma_times_one(b, y * y + z * z + x * x + w * w);
    lemma_times_one(c, z * z + x * x + y * y + w * w);
}

/// A unit quaternion with integer components has exactly one nonzero
/// component, and it is 1 or -1.
proof fn lemma_unit_components(q: (int, int, int, int))
    requires
        dot4(q, q) == 1,
    ensures
        -1 <= q.0 <= 1 && -1 <= q.1 <= 1 && -1 <= q.2 <= 1 && -1 <= q.3 <= 1,
{
    let (x, y, z, w) = q;
    assert(x * x >= 0 && y * y >= 0 && z * z >= 0 && w * w >= 0) by (nonlinear_arith);
    assert(forall|a: int| #![trigger a * a] a * a <= 1 ==> -1 <= a <= 1) by {
        assert forall|a: int| #![trigger a * a] a * a <= 1 implies -1 <= a <= 1 by {
            if a > 1 || a < -1 {
                assert(a * a > 1) by (nonlinear_arith)
                    requires
                        a > 1 || a < -1,
                ;
            }
        }
    }
}

/// Converting a unit quaternion to its rotation matrix and back gives the
/// quaternion again, for real part positive, or zero with a nonnegative
/// vector part (a quaternion and its negation give the same matrix).
pub proof fn lemma_quat_round_trip(q: (int, int, int, int))
    requires
        dot4(q, q) == 1,
        q.3 >= 0,
        q.3 == 0 ==> q.0 >= 0 && q.1 >= 0 && q.2 >= 0,
    ensures
        quat_from_rotation(
            quat_matrix(q, 0, 0),
            quat_matrix(q, 0, 1),
            quat_matrix(q, 0, 2),
            quat_matrix(q, 1, 0),
            quat_matrix(q, 1, 1),
            quat_matrix(q, 1, 2),
            quat_matrix(q, 2, 0),
            quat_matrix(q, 2, 1),
            quat_matrix(q, 2, 2),
        ) == q,
{
    lemma_unit_components(q);
    lemma_floor_sqrt_unique(4, 2);
}

/// The conjugate-order sandwich product is the rotation by the conjugate.
pub proof fn lemma_conjugate_rotation(q: (int, int, int, int), v: (int, int, int))
    ensures
        conjugate_rotation(q, v) == rotation(conjugate(q), v),
{
    let (x, y, z, w) = q;
    let (a, b, c) = v;
    let d = x * a + y * b + z * c;
    assert((-y) * c - (-z) * b == b * z - c * y) by (nonlinear_arith);
    assert((-z) * a - (-x) * c == c * x - a * z) by (nonlinear_arith);
    assert((-x) * b - (-y) * a == a * y - b * x) by (nonlinear_arith);
    assert((-x) * (-x) + (-y) * (-y) + (-z) * (-z) == x * x + y * y + z * z) by (nonlinear_arith);
    assert((-x) * a + (-y) * b + (-z) * c == -d) by (nonlinear_arith)
        requires
            d == x * a + y * b + z * c,
    ;
    assert(2 * (-d) * (-x) == 2 * d * x) by (nonlinear_arith);
    assert(2 * (-d) * (-y) == 2 * d * y) by (nonlinear_arith);
    assert(2 * (-d) * (-z) == 2 * d * z) by (nonlinear_arith);
}

/// For a unit quaternion with positive real part, reversing the rotation
/// through the transposed matrix gives the conjugate.
pub proof fn lemma_transpose_is_conjugate(q: (int, int, int, int))
    requires
        dot4(q, q) == 1,
        q.3 > 0,
    ensures
        transposed_rotation(q) == conjugate(q),
{
    lemma_unit_components(q);
    lemma_floor_sqrt_unique(4, 2);
}

} // verus!
