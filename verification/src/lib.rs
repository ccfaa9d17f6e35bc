//! Quaternion arithmetic over exact integer scalars, verified.
//!
//! A quaternion is a scalar part together with a three-component vector
//! part.  This crate implements the algebra (identity, sum, scaling, dot
//! product, Hamilton product, conjugate, squared length) and the rotation
//! of a vector by a unit quaternion, and proves the algebraic laws that
//! make quaternions usable as rotations.  The componentwise vector
//! primitives come from the `vecmath` crate.

pub mod laws;
pub mod model;
pub mod ops;
pub mod vec;

pub use crate::ops::add;
pub use crate::ops::conj;
pub use crate::ops::dot;
pub use crate::ops::id;
pub use crate::ops::mul;
pub use crate::ops::rotate_vector;
pub use crate::ops::scale;
pub use crate::ops::square_len;
pub use crate::ops::Quaternion;
pub use crate::vec::Vector3;
