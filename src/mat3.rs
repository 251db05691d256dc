use vstd::prelude::*;

verus! {

/// A 3x3 matrix, addressed by row and column (`r<row>c<col>`).
#[derive(Clone, Copy, Debug, PartialEq, Eq, Structural)]
pub struct Mat3 {
    pub r0c0: i64,
    pub r0c1: i64,
    pub r0c2: i64,
    pub r1c0: i64,
    pub r1c1: i64,
    pub r1c2: i64,
    pub r2c0: i64,
    pub r2c1: i64,
    pub r2c2: i64,
}

impl Mat3 {
    /// Every entry lies in `[-b, b]`.
    pub open spec fn bounded(self, b: int) -> bool {
        &&& -b <= self.r0c0 <= b
        &&& -b <= self.r0c1 <= b
        &&& -b <= self.r0c2 <= b
        &&& -b <= self.r1c0 <= b
        &&& -b <= self.r1c1 <= b
        &&& -b <= self.r1c2 <= b
        &&& -b <= self.r2c0 <= b
        &&& -b <= self.r2c1 <= b
        &&& -b <= self.r2c2 <= b
    }

    /// The zero matrix.
    pub fn zero() -> (r: Self)
        ensures
            r == (Mat3 { r0c0: 0, r0c1: 0, r0c2: 0, r1c0: 0, r1c1: 0, r1c2: 0, r2c0: 0, r2c1: 0, r2c2: 0 }),
    {
        Mat3 { r0c0: 0, r0c1: 0, r0c2: 0, r1c0: 0, r1c1: 0, r1c2: 0, r2c0: 0, r2c1: 0, r2c2: 0 }
    }

    /// The identity matrix.
    pub fn identity() -> (r: Self)
        ensures
            r == (Mat3 { r0c0: 1, r0c1: 0, r0c2: 0, r1c0: 0, r1c1: 1, r1c2: 0, r2c0: 0, r2c1: 0, r2c2: 1 }),
    {
        Mat3 { r0c0: 1, r0c1: 0, r0c2: 0, r1c0: 0, r1c1: 1, r1c2: 0, r2c0: 0, r2c1: 0, r2c2: 1 }
    }
}

} // verus!
