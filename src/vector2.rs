use crate::util::{lemma_mul_within, within, QUADRATIC_LIMIT};
use crate::vector3::Vector3;
use crate::vector4::Vector4;
use vstd::prelude::*;

verus! {

/// A point or direction in the plane.
#[derive(Clone, Copy, Debug)]
pub struct Vector2 {
    pub x: i64,
    pub y: i64,
}

impl View for Vector2 {
    type V = (int, int);

    open spec fn view(&self) -> (int, int) {
        (self.x as int, self.y as int)
    }
}

impl Vector2 {
    /// Each component lies in `[-b, b]`.
    pub open spec fn bounded(self, b: int) -> bool {
        within(self.x as int, b) && within(self.y as int, b)
    }

    /// The vector `(x, y)`.
    pub fn new(x: i64, y: i64) -> (r: Self)
        ensures
            r@ == (x as int, y as int),
    {
        Vector2 { x, y }
    }

    /// The projection of `v` on its first two components.
    pub fn from_vector3(v: &Vector3) -> (r: Self)
        ensures
            r@ == (v.x as int, v.y as int),
    {
        Vector2 { x: v.x, y: v.y }
    }

    /// The projection of `v` on its first two components.
    pub fn from_vector4(v: &Vector4) -> (r: Self)
        ensures
            r@ == (v.x as int, v.y as int),
    {
        Vector2 { x: v.x, y: v.y }
    }

    /// The squared length.
    pub fn get_mag_sqr(&self) -> (r: i64)
        requires
            self.bounded(QUADRATIC_LIMIT as int),
        ensures
            r == self.x * self.x + self.y * self.y,
    {
        self.dot(self)
    }

    /// The dot product.
    pub fn dot(&self, rhs: &Vector2) -> (r: i64)
        requires
            self.bounded(QUADRATIC_LIMIT as int),
            rhs.bounded(QUADRATIC_LIMIT as int),
        ensures
            r == self.x * rhs.x + self.y * rhs.y,
    {
        let ghost b = QUADRATIC_LIMIT as int;
        proof {
            lemma_mul_within(self.x as int, rhs.x as int, b, b);
            lemma_mul_within(self.y as int, rhs.y as int, b, b);
        }
        self.x * rhs.x + self.y * rhs.y
    }
}

} // verus!
