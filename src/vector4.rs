use crate::mat4::Mat4;
use crate::util::{close, fits, is_equal, lemma_mul_within, within, QUADRATIC_LIMIT};
use vstd::prelude::*;

verus! {

/// A homogeneous vector in three dimensions.
#[derive(Clone, Copy, Debug, PartialEq, Eq, Structural)]
pub struct Vector4 {
    pub x: i64,
    pub y: i64,
    pub z: i64,
    pub w: i64,
}

/// Component-wise sum.
pub open spec fn add4(a: (int, int, int, int), b: (int, int, int, int)) -> (int, int, int, int) {
    (a.0 + b.0, a.1 + b.1, a.2 + b.2, a.3 + b.3)
}

/// `s` times each component.
pub open spec fn scale4(s: int, a: (int, int, int, int)) -> (int, int, int, int) {
    (s * a.0, s * a.1, s * a.2, s * a.3)
}

/// Each component fits in an `i64`.
pub open spec fn fits4(a: (int, int, int, int)) -> bool {
    fits(a.0) && fits(a.1) && fits(a.2) && fits(a.3)
}

/// `v` times `m`.
pub open spec fn transform4(v: (int, int, int, int), m: Mat4) -> (int, int, int, int) {
    (
        v.0 * m.entry(0, 0) + v.1 * m.entry(1, 0) + v.2 * m.entry(2, 0) + v.3 * m.entry(3, 0),
        v.0 * m.entry(0, 1) + v.1 * m.entry(1, 1) + v.2 * m.entry(2, 1) + v.3 * m.entry(3, 1),
        v.0 * m.entry(0, 2) + v.1 * m.entry(1, 2) + v.2 * m.entry(2, 2) + v.3 * m.entry(3, 2),
        v.0 * m.entry(0, 3) + v.1 * m.entry(1, 3) + v.2 * m.entry(2, 3) + v.3 * m.entry(3, 3),
    )
}

impl View for Vector4 {
    type V = (int, int, int, int);

    open spec fn view(&self) -> (int, int, int, int) {
        (self.x as int, self.y as int, self.z as int, self.w as int)
    }
}

impl Vector4 {
    /// Each component lies in `[-b, b]`.
    pub open spec fn bounded(self, b: int) -> bool {
        within(self.x as int, b) && within(self.y as int, b) && within(self.z as int, b) && within(self.w as int, b)
    }

    /// The vector `(x, y, z, w)`.
    pub fn new(x: i64, y: i64, z: i64, w: i64) -> (r: Self)
        ensures
            r@ == (x as int, y as int, z as int, w as int),
    {
        Vector4 { x, y, z, w }
    }

    /// The squared length over all four components.
    pub fn get_mag_sqr(&self) -> (r: i64)
        requires
            self.bounded(QUADRATIC_LIMIT as int),
        ensures
            r == self.x * self.x + self.y * self.y + self.z * self.z + self.w * self.w,
    {
        self.dot(self)
    }

    /// The four-component dot product.
    pub fn dot(&self, rhs: &Vector4) -> (r: i64)
        requires
            self.bounded(QUADRATIC_LIMIT as int),
            rhs.bounded(QUADRATIC_LIMIT as int),
        ensures
            r == self.x * rhs.x + self.y * rhs.y + self.z * rhs.z + self.w * rhs.w,
    {
        let ghost b = QUADRATIC_LIMIT as int;
        proof {
            lemma_mul_within(self.x as int, rhs.x as int, b, b);
            lemma_mul_within(self.y as int, rhs.y as int, b, b);
            lemma_mul_within(self.z as int, rhs.z as int, b, b);
            lemma_mul_within(self.w as int, rhs.w as int, b, b);
        }
        self.x * rhs.x + self.y * rhs.y + self.z * rhs.z + self.w * rhs.w
    }

    /// The cross product of the first three components, as a point
    /// (fourth component 1).
    pub fn cross(&self, rhs: &Vector4) -> (r: Self)
        requires
            self.bounded(QUADRATIC_LIMIT as int),
            rhs.bounded(QUADRATIC_LIMIT as int),
        ensures
            r@ == (
                self.y * rhs.z - self.z * rhs.y,
                self.z * rhs.x - self.x * rhs.z,
                self.x * rhs.y - self.y * rhs.x,
                1int,
            ),
    {
        let ghost b = QUADRATIC_LIMIT as int;
        proof {
            lemma_mul_within(self.x as int, rhs.y as int, b, b);
            lemma_mul_within(self.x as int, rhs.z as int, b, b);
            lemma_mul_within(self.y as int, rhs.x as int, b, b);
            lemma_mul_within(self.y as int, rhs.z as int, b, b);
            lemma_mul_within(self.z as int, rhs.x as int, b, b);
            lemma_mul_within(self.z as int, rhs.y as int, b, b);
        }
        Vector4 {
            x: self.y * rhs.z - self.z * rhs.y,
            y: self.z * rhs.x - self.x * rhs.z,
            z: self.x * rhs.y - self.y * rhs.x,
            w: 1,
        }
    }

    /// Whether each component lies within `epsilon` of the one of `rhs`.
    pub fn is_equal(&self, rhs: &Vector4, epsilon: i64) -> (r: bool)
        ensures
            r == (close(self.x as int, rhs.x as int, epsilon as int) && close(self.y as int, rhs.y as int, epsilon as int)
                && close(self.z as int, rhs.z as int, epsilon as int) && close(self.w as int, rhs.w as int, epsilon as int)),
    {
        is_equal(self.x, rhs.x, epsilon) && is_equal(self.y, rhs.y, epsilon) && is_equal(self.z, rhs.z, epsilon)
            && is_equal(self.w, rhs.w, epsilon)
    }

    /// The component-wise sum.
    pub fn add(&self, rhs: &Vector4) -> (r: Self)
        requires
            fits4(add4(self@, rhs@)),
        ensures
            r@ == add4(self@, rhs@),
    {
        Vector4 { x: self.x + rhs.x, y: self.y + rhs.y, z: self.z + rhs.z, w: self.w + rhs.w }
    }

    /// Adds `rhs` in place.
    pub fn add_assign(&mut self, rhs: &Vector4)
        requires
            fits4(add4(old(self)@, rhs@)),
        ensures
            final(self)@ == add4(old(self)@, rhs@),
    {
        *self = self.add(rhs);
    }

    /// The component-wise difference.
    pub fn sub(&self, rhs: &Vector4) -> (r: Self)
        requires
            fits4(add4(self@, scale4(-1, rhs@))),
        ensures
            r@ == add4(self@, scale4(-1, rhs@)),
    {
        Vector4 { x: self.x - rhs.x, y: self.y - rhs.y, z: self.z - rhs.z, w: self.w - rhs.w }
    }

    /// Subtracts `rhs` in place.
    pub fn sub_assign(&mut self, rhs: &Vector4)
        requires
            fits4(add4(old(self)@, scale4(-1, rhs@))),
        ensures
            final(self)@ == add4(old(self)@, scale4(-1, rhs@)),
    {
        *self = self.sub(rhs);
    }

    /// The opposite vector.
    pub fn neg(&self) -> (r: Self)
        requires
            fits4(scale4(-1, self@)),
        ensures
            r@ == scale4(-1, self@),
    {
        Vector4 { x: -self.x, y: -self.y, z: -self.z, w: -self.w }
    }

    /// Each component multiplied by `s`.
    pub fn scale(&self, s: i64) -> (r: Self)
        requires
            fits4(scale4(s as int, self@)),
        ensures
            r@ == scale4(s as int, self@),
    {
        Vector4 { x: s * self.x, y: s * self.y, z: s * self.z, w: s * self.w }
    }

    /// Multiplies each component by `s` in place.
    pub fn scale_assign(&mut self, s: i64)
        requires
            fits4(scale4(s as int, old(self)@)),
        ensures
            final(self)@ == scale4(s as int, old(self)@),
    {
        *self = self.scale(s);
    }

    /// The vector times `m`.
    pub fn mul_mat4(&self, m: &Mat4) -> (r: Vector4)
        requires
            self.bounded(QUADRATIC_LIMIT as int),
            m.bounded(QUADRATIC_LIMIT as int),
        ensures
            r@ == transform4(self@, *m),
    {
        let ghost b = QUADRATIC_LIMIT as int;
        proof {
            lemma_mul_within(self.x as int, m.r0c0 as int, b, b);
            lemma_mul_within(self.x as int, m.r0c1 as int, b, b);
            lemma_mul_within(self.x as int, m.r0c2 as int, b, b);
            lemma_mul_within(self.x as int, m.r0c3 as int, b, b);
            lemma_mul_within(self.y as int, m.r1c0 as int, b, b);
            lemma_mul_within(self.y as int, m.r1c1 as int, b, b);
            lemma_mul_within(self.y as int, m.r1c2 as int, b, b);
            lemma_mul_within(self.y as int, m.r1c3 as int, b, b);
            lemma_mul_within(self.z as int, m.r2c0 as int, b, b);
            lemma_mul_within(self.z as int, m.r2c1 as int, b, b);
            lemma_mul_within(self.z as int, m.r2c2 as int, b, b);
            lemma_mul_within(self.z as int, m.r2c3 as int, b, b);
            lemma_mul_within(self.w as int, m.r3c0 as int, b, b);
            lemma_mul_within(self.w as int, m.r3c1 as int, b, b);
            lemma_mul_within(self.w as int, m.r3c2 as int, b, b);
            lemma_mul_within(self.w as int, m.r3c3 as int, b, b);
        }
        Vector4 {
            x: self.x * m.r0c0 + self.y * m.r1c0 + self.z * m.r2c0 + self.w * m.r3c0,
            y: self.x * m.r0c1 + self.y * m.r1c1 + self.z * m.r2c1 + self.w * m.r3c1,
            z: self.x * m.r0c2 + self.y * m.r1c2 + self.z * m.r2c2 + self.w * m.r3c2,
            w: self.x * m.r0c3 + self.y * m.r1c3 + self.z * m.r2c3 + self.w * m.r3c3,
        }
    }
}

} // verus!
