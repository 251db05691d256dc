//! An exact-arithmetic spatial math kernel: 2-, 3- and 4-component vectors,
//! 3x3 and 4x4 matrices and quaternions over 64-bit integer coordinates.
//!
//! Every operation is stated over mathematical integers, so the algebraic
//! laws of the kernel (transpose is an involution, a matrix times its
//! adjugate is its determinant times the identity, the quaternion sandwich
//! product agrees with the rotation matrix built from the same quaternion)
//! hold exactly and are proved here.
pub mod mat3;
pub mod mat4;
pub mod quat;
pub mod util;
pub mod vector2;
pub mod vector3;
pub mod vector4;
