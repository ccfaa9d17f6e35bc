//! The executable vector type and the componentwise primitives it takes
//! from the `vecmath` crate.  Each wrapper states, against the model in
//! `model`, exactly what the `vecmath` source computes, and admits only
//! inputs on which that computation stays inside the scalar's range.

use crate::model::Vec3;
use vstd::prelude::*;

verus! {

/// A three-component vector of exact scalars.
pub type Vector3 = (i64, i64, i64);

/// The value of an executable vector in the model.
pub open spec fn vec3_model(v: Vector3) -> Vec3 {
    Vec3 { x: v.0 as int, y: v.1 as int, z: v.2 as int }
}

/// Whether an unbounded integer fits the executable scalar type.
pub open spec fn fits(x: int) -> bool {
    i64::MIN <= x <= i64::MAX
}

/// Relies on vecmath::vec3_add: the componentwise sum of two vectors.
#[verifier::external_body]
pub(crate) fn vec3_add(a: Vector3, b: Vector3) -> (r: Vector3)
    requires
        fits(a.0 + b.0),
        fits(a.1 + b.1),
        fits(a.2 + b.2),
    ensures
        vec3_model(r) == vec3_model(a).add(vec3_model(b)),
{
    let r = vecmath::vec3_add([a.0, a.1, a.2], [b.0, b.1, b.2]);
    (r[0], r[1], r[2])
}

/// Relies on vecmath::vec3_scale: each component multiplied by `t`.
#[verifier::external_body]
pub(crate) fn vec3_scale(a: Vector3, t: i64) -> (r: Vector3)
    requires
        fits(a.0 * t),
        fits(a.1 * t),
        fits(a.2 * t),
    ensures
        vec3_model(r) == vec3_model(a).scale(t as int),
{
    let r = vecmath::vec3_scale([a.0, a.1, a.2], t);
    (r[0], r[1], r[2])
}

/// Relies on vecmath::vec3_neg: the componentwise negation.
#[verifier::external_body]
pub(crate) fn vec3_neg(a: Vector3) -> (r: Vector3)
    requires
        fits(-a.0),
        fits(-a.1),
        fits(-a.2),
    ensures
        vec3_model(r) == vec3_model(a).neg(),
{
    let r = vecmath::vec3_neg([a.0, a.1, a.2]);
    (r[0], r[1], r[2])
}

/// Relies on vecmath::vec3_dot: the sum of the componentwise products,
/// taken left to right.
#[verifier::external_body]
pub(crate) fn vec3_dot(a: Vector3, b: Vector3) -> (r: i64)
    requires
        fits(a.0 * b.0),
        fits(a.1 * b.1),
        fits(a.2 * b.2),
        fits(a.0 * b.0 + a.1 * b.1),
        fits(a.0 * b.0 + a.1 * b.1 + a.2 * b.2),
    ensures
        r == vec3_model(a).dot(vec3_model(b)),
{
    vecmath::vec3_dot([a.0, a.1, a.2], [b.0, b.1, b.2])
}

/// Relies on vecmath::vec3_cross: the cross product, each component a
/// difference of two products.
#[verifier::external_body]
pub(crate) fn vec3_cross(a: Vector3, b: Vector3) -> (r: Vector3)
    requires
        fits(a.1 * b.2),
        fits(a.2 * b.1),
        fits(a.1 * b.2 - a.2 * b.1),
        fits(a.2 * b.0),
        fits(a.0 * b.2),
        fits(a.2 * b.0 - a.0 * b.2),
        fits(a.0 * b.1),
        fits(a.1 * b.0),
        fits(a.0 * b.1 - a.1 * b.0),
    ensures
        vec3_model(r) == vec3_model(a).cross(vec3_model(b)),
{
    let r = vecmath::vec3_cross([a.0, a.1, a.2], [b.0, b.1, b.2]);
    (r[0], r[1], r[2])
}

/// Relies on vecmath::vec3_square_len: the sum of the squares of the
/// components, taken left to right.
#[verifier::external_body]
pub(crate) fn vec3_square_len(a: Vector3) -> (r: i64)
    requires
        fits(a.0 * a.0),
        fits(a.1 * a.1),
        fits(a.2 * a.2),
        fits(a.0 * a.0 + a.1 * a.1),
        fits(a.0 * a.0 + a.1 * a.1 + a.2 * a.2),
    ensures
        r == vec3_model(a).sqlen(),
{
    vecmath::vec3_square_len([a.0, a.1, a.2])
}

} // verus!
