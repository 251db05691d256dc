use crate::mat3::Mat3;
use crate::mat4::Mat4;
use crate::util::{close, fits, is_equal, lemma_mul_within, within, CUBIC_LIMIT, QUADRATIC_LIMIT};
use crate::quat::{rotation, Quat};
use crate::vector4::Vector4;
use vstd::prelude::*;

verus! {

/// A point or direction in three dimensions.
#[derive(Clone, Copy, Debug, PartialEq, Eq, Structural)]
pub struct Vector3 {
    pub x: i64,
    pub y: i64,
    pub z: i64,
}

/// Component-wise sum.
pub open spec fn add3(a: (int, int, int), b: (int, int, int)) -> (int, int, int) {
    (a.0 + b.0, a.1 + b.1, a.2 + b.2)
}

/// `s` times each component.
pub open spec fn scale3(s: int, a: (int, int, int)) -> (int, int, int) {
    (s * a.0, s * a.1, s * a.2)
}

/// The dot product.
pub open spec fn dot3(a: (int, int, int), b: (int, int, int)) -> int {
    a.0 * b.0 + a.1 * b.1 + a.2 * b.2
}

/// The cross product.
pub open spec fn cross3(a: (int, int, int), b: (int, int, int)) -> (int, int, int) {
    (a.1 * b.2 - a.2 * b.1, a.2 * b.0 - a.0 * b.2, a.0 * b.1 - a.1 * b.0)
}

/// Each component fits in an `i64`.
pub open spec fn fits3(a: (int, int, int)) -> bool {
    fits(a.0) && fits(a.1) && fits(a.2)
}

/// `v`, extended by a fourth component 1, times `m`.
pub open spec fn transform_point(v: (int, int, int), m: Mat4) -> (int, int, int, int) {
    (
        v.0 * m.entry(0, 0) + v.1 * m.entry(1, 0) + v.2 * m.entry(2, 0) + m.entry(3, 0),
        v.0 * m.entry(0, 1) + v.1 * m.entry(1, 1) + v.2 * m.entry(2, 1) + m.entry(3, 1),
        v.0 * m.entry(0, 2) + v.1 * m.entry(1, 2) + v.2 * m.entry(2, 2) + m.entry(3, 2),
        v.0 * m.entry(0, 3) + v.1 * m.entry(1, 3) + v.2 * m.entry(2, 3) + m.entry(3, 3),
    )
}

/// `v` times `m`.
pub open spec fn transform3(v: (int, int, int), m: Mat3) -> (int, int, int) {
    (
        v.0 * m.r0c0 + v.1 * m.r1c0 + v.2 * m.r2c0,
        v.0 * m.r0c1 + v.1 * m.r1c1 + v.2 * m.r2c1,
        v.0 * m.r0c2 + v.1 * m.r1c2 + v.2 * m.r2c2,
    )
}

impl View for Vector3 {
    type V = (int, int, int);

    open spec fn view(&self) -> (int, int, int) {
        (self.x as int, self.y as int, self.z as int)
    }
}

impl Vector3 {
    /// Each component lies in `[-b, b]`.
    pub open spec fn bounded(self, b: int) -> bool {
        within(self.x as int, b) && within(self.y as int, b) && within(self.z as int, b)
    }

    /// The vector `(x, y, z)`.
    pub fn new(x: i64, y: i64, z: i64) -> (r: Self)
        ensures
            r@ == (x as int, y as int, z as int),
    {
        Vector3 { x, y, z }
    }

    /// The zero vector.
    pub fn zero() -> (r: Self)
        ensures
            r@ == (0int, 0int, 0int),
    {
        Vector3 { x: 0, y: 0, z: 0 }
    }

    /// The first three components of `v`.
    pub fn from_vec4(v: &Vector4) -> (r: Self)
        ensures
            r@ == (v.x as int, v.y as int, v.z as int),
    {
        Vector3 { x: v.x, y: v.y, z: v.z }
    }

    /// Overwrites all three components.
    pub fn set(&mut self, x: i64, y: i64, z: i64)
        ensures
            final(self)@ == (x as int, y as int, z as int),
    {
        self.x = x;
        self.y = y;
        self.z = z;
    }

    /// The squared length.
    pub fn get_mag_sqr(&self) -> (r: i64)
        requires
            self.bounded(QUADRATIC_LIMIT as int),
        ensures
            r == dot3(self@, self@),
    {
        self.dot(self)
    }

    /// The dot product.
    pub fn dot(&self, rhs: &Vector3) -> (r: i64)
        requires
            self.bounded(QUADRATIC_LIMIT as int),
            rhs.bounded(QUADRATIC_LIMIT as int),
        ensures
            r == dot3(self@, rhs@),
    {
        let ghost b = QUADRATIC_LIMIT as int;
        proof {
            lemma_mul_within(self.x as int, rhs.x as int, b, b);
            lemma_mul_within(self.y as int, rhs.y as int, b, b);
            lemma_mul_within(self.z as int, rhs.z as int, b, b);
        }
        self.x * rhs.x + self.y * rhs.y + self.z * rhs.z
    }

    /// The cross product `self × rhs`.
    pub fn cross(&self, rhs: &Vector3) -> (r: Self)
        requires
            self.bounded(QUADRATIC_LIMIT as int),
            rhs.bounded(QUADRATIC_LIMIT as int),
        ensures
            r@ == cross3(self@, rhs@),
    {
        let ghost b = QUADRATIC_LIMIT as int;
        proof {
            lemma_mul_within(self.x as int, rhs.y as int, b, b);
            lemma_mul_within(self.x as int, rhs.z as int, b, b);
            lemma_mul_within(self.y as int, rhs.x as int, b, b);
            lemma_mul_within(self.y as int, rhs.z as int, b, b);
            lemma_mul_within(self.z as int, rhs.x as int, b, b);
            lemma_mul_within(self.z as int, rhs.y as int, b, b);
        }
        Vector3 {
            x: self.y * rhs.z - self.z * rhs.y,
            y: self.z * rhs.x - self.x * rhs.z,
            z: self.x * rhs.y - self.y * rhs.x,
        }
    }

    /// Whether each component lies within `epsilon` of the one of `rhs`.
    pub fn is_equal(&self, rhs: &Vector3, epsilon: i64) -> (r: bool)
        ensures
            r == (close(self.x as int, rhs.x as int, epsilon as int) && close(self.y as int, rhs.y as int, epsilon as int)
                && close(self.z as int, rhs.z as int, epsilon as int)),
    {
        is_equal(self.x, rhs.x, epsilon) && is_equal(self.y, rhs.y, epsilon) && is_equal(self.z, rhs.z, epsilon)
    }

    /// The component-wise sum.
    pub fn add(&self, rhs: &Vector3) -> (r: Self)
        requires
            fits3(add3(self@, rhs@)),
        ensures
            r@ == add3(self@, rhs@),
    {
        Vector3 { x: self.x + rhs.x, y: self.y + rhs.y, z: self.z + rhs.z }
    }

    /// Adds `rhs` in place.
    pub fn add_assign(&mut self, rhs: &Vector3)
        requires
            fits3(add3(old(self)@, rhs@)),
        ensures
            final(self)@ == add3(old(self)@, rhs@),
    {
        *self = self.add(rhs);
    }

    /// The component-wise difference.
    pub fn sub(&self, rhs: &Vector3) -> (r: Self)
        requires
            fits3(add3(self@, scale3(-1, rhs@))),
        ensures
            r@ == add3(self@, scale3(-1, rhs@)),
    {
        Vector3 { x: self.x - rhs.x, y: self.y - rhs.y, z: self.z - rhs.z }
    }

    /// Subtracts `rhs` in place.
    pub fn sub_assign(&mut self, rhs: &Vector3)
        requires
            fits3(add3(old(self)@, scale3(-1, rhs@))),
        ensures
            final(self)@ == add3(old(self)@, scale3(-1, rhs@)),
    {
        *self = self.sub(rhs);
    }

    /// The opposite vector.
    pub fn neg(&self) -> (r: Self)
        requires
            fits3(scale3(-1, self@)),
        ensures
            r@ == scale3(-1, self@),
    {
        Vector3 { x: -self.x, y: -self.y, z: -self.z }
    }

    /// Each component multiplied by `s`.
    pub fn scale(&self, s: i64) -> (r: Self)
        requires
            fits3(scale3(s as int, self@)),
        ensures
            r@ == scale3(s as int, self@),
    {
        Vector3 { x: s * self.x, y: s * self.y, z: s * self.z }
    }

    /// Multiplies each component by `s` in place.
    pub fn scale_assign(&mut self, s: i64)
        requires
            fits3(scale3(s as int, old(self)@)),
        ensures
            final(self)@ == scale3(s as int, old(self)@),
    {
        *self = self.scale(s);
    }

    /// The vector times `m`.
    pub fn mul_mat3(&self, m: &Mat3) -> (r: Self)
        requires
            self.bounded(QUADRATIC_LIMIT as int),
            m.bounded(QUADRATIC_LIMIT as int),
        ensures
            r@ == transform3(self@, *m),
    {
        let ghost b = QUADRATIC_LIMIT as int;
        proof {
            lemma_mul_within(self.x as int, m.r0c0 as int, b, b);
            lemma_mul_within(self.x as int, m.r0c1 as int, b, b);
            lemma_mul_within(self.x as int, m.r0c2 as int, b, b);
            lemma_mul_within(self.y as int, m.r1c0 as int, b, b);
            lemma_mul_within(self.y as int, m.r1c1 as int, b, b);
            lemma_mul_within(self.y as int, m.r1c2 as int, b, b);
            lemma_mul_within(self.z as int, m.r2c0 as int, b, b);
            lemma_mul_within(self.z as int, m.r2c1 as int, b, b);
            lemma_mul_within(self.z as int, m.r2c2 as int, b, b);
        }
        Vector3 {
            x: self.x * m.r0c0 + self.y * m.r1c0 + self.z * m.r2c0,
            y: self.x * m.r0c1 + self.y * m.r1c1 + self.z * m.r2c1,
            z: self.x * m.r0c2 + self.y * m.r1c2 + self.z * m.r2c2,
        }
    }

    /// Replaces the vector by itself times `m`.
    pub fn mul_mat3_assign(&mut self, m: &Mat3)
        requires
            old(self).bounded(QUADRATIC_LIMIT as int),
            m.bounded(QUADRATIC_LIMIT as int),
        ensures
            final(self)@ == transform3(old(self)@, *m),
    {
        *self = self.mul_mat3(m);
    }

    /// The point `(x, y, z, 1)` times `m`.
    pub fn mul_mat4(&self, m: &Mat4) -> (r: Vector4)
        requires
            self.bounded(QUADRATIC_LIMIT as int),
            m.bounded(QUADRATIC_LIMIT as int),
        ensures
            r@ == transform_point(self@, *m),
    {
        let ghost b = QUADRATIC_LIMIT as int;
        proof {
            lemma_mul_within(self.x as int, m.r0c0 as int, b, b);
            lemma_mul_within(self.x as int, m.r0c1 as int, b, b);
            lemma_mul_within(self.x as int, m.r0c2 as int, b, b);
            lemma_mul_within(self.x as int, m.r0c3 as int, b, b);
            lemma_mul_within(self.y as int, m.r1c0 as int, b, b);
            lemma_mul_within(self.y as int, m.r1c1 as int, b, b);
            lemma_mul_within(self.y as int, m.r1c2 as int, b, b);
            lemma_mul_within(self.y as int, m.r1c3 as int, b, b);
            lemma_mul_within(self.z as int, m.r2c0 as int, b, b);
            lemma_mul_within(self.z as int, m.r2c1 as int, b, b);
            lemma_mul_within(self.z as int, m.r2c2 as int, b, b);
            lemma_mul_within(self.z as int, m.r2c3 as int, b, b);
        }
        Vector4 {
            x: self.x * m.r0c0 + self.y * m.r1c0 + self.z * m.r2c0 + m.r3c0,
            y: self.x * m.r0c1 + self.y * m.r1c1 + self.z * m.r2c1 + m.r3c1,
            z: self.x * m.r0c2 + self.y * m.r1c2 + self.z * m.r2c2 + m.r3c2,
            w: self.x * m.r0c3 + self.y * m.r1c3 + self.z * m.r2c3 + m.r3c3,
        }
    }

    /// The vector rotated by `q` (see [`Quat::lqcvq`]).
    pub fn mul_quat(&self, q: &Quat) -> (r: Self)
        requires
            self.bounded(CUBIC_LIMIT as int),
            q.bounded(CUBIC_LIMIT as int),
        ensures
            r@ == rotation(q@, self@),
    {
        q.lqcvq(self)
    }

    /// Rotates the vector by `q` in place.
    pub fn mul_quat_assign(&mut self, q: &Quat)
        requires
            old(self).bounded(CUBIC_LIMIT as int),
            q.bounded(CUBIC_LIMIT as int),
        ensures
            final(self)@ == rotation(q@, old(self)@),
    {
        *self = q.lqcvq(self);
    }
}

} // verus!
