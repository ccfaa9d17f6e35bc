//! The executable quaternion operations.  Each is specified exactly
//! against the model in `model`; the preconditions admit every input on
//! which the computation stays inside the scalar's range.

use crate::model::alg_bound;
use crate::model::rot_bound;
use crate::model::Quat;
use crate::model::Vec3;
use crate::vec::fits;
use crate::vec::vec3_add;
use crate::vec::vec3_cross;
use crate::vec::vec3_dot;
use crate::vec::vec3_model;
use crate::vec::vec3_neg;
use crate::vec::vec3_scale;
use crate::vec::vec3_square_len;
use crate::vec::Vector3;
use vstd::prelude::*;

verus! {

/// A quaternion: a scalar part and a vector part.
pub type Quaternion = (i64, Vector3);

/// The value of an executable quaternion in the model.
pub open spec fn quat_model(q: Quaternion) -> Quat {
    Quat { w: q.0 as int, v: vec3_model(q.1) }
}

/// The product of two values within the given bounds is within the
/// product of the bounds.
proof fn lemma_mul_bound(x: int, y: int, bx: int, by: int)
    by (nonlinear_arith)
    requires
        0 <= bx,
        0 <= by,
        -bx <= x <= bx,
        -by <= y <= by,
    ensures
        -(bx * by) <= x * y <= bx * by,
{
}

/// Every componentwise product of two bounded vectors is within the
/// product of the bounds.
proof fn lemma_prod_bounds(u: Vec3, v: Vec3, bu: int, bv: int)
    requires
        0 <= bu,
        0 <= bv,
        u.bounded(bu),
        v.bounded(bv),
    ensures
        -(bu * bv) <= u.x * v.x <= bu * bv,
        -(bu * bv) <= u.x * v.y <= bu * bv,
        -(bu * bv) <= u.x * v.z <= bu * bv,
        -(bu * bv) <= u.y * v.x <= bu * bv,
        -(bu * bv) <= u.y * v.y <= bu * bv,
        -(bu * bv) <= u.y * v.z <= bu * bv,
        -(bu * bv) <= u.z * v.x <= bu * bv,
        -(bu * bv) <= u.z * v.y <= bu * bv,
        -(bu * bv) <= u.z * v.z <= bu * bv,
{
    lemma_mul_bound(u.x, v.x, bu, bv);
    lemma_mul_bound(u.x, v.y, bu, bv);
    lemma_mul_bound(u.x, v.z, bu, bv);
    lemma_mul_bound(u.y, v.x, bu, bv);
    lemma_mul_bound(u.y, v.y, bu, bv);
    lemma_mul_bound(u.y, v.z, bu, bv);
    lemma_mul_bound(u.z, v.x, bu, bv);
    lemma_mul_bound(u.z, v.y, bu, bv);
    lemma_mul_bound(u.z, v.z, bu, bv);
}

/// Constructs the identity quaternion.
pub fn id() -> (r: Quaternion)
    ensures
        quat_model(r) == Quat::id(),
{
    let r = (1i64, (0i64, 0i64, 0i64));
    proof {
        assert(quat_model(r) =~= Quat::id());
    }
    r
}

/// Adds two quaternions componentwise.
pub fn add(a: Quaternion, b: Quaternion) -> (r: Quaternion)
    requires
        fits(a.0 + b.0),
        fits(a.1.0 + b.1.0),
        fits(a.1.1 + b.1.1),
        fits(a.1.2 + b.1.2),
    ensures
        quat_model(r) == quat_model(a).add(quat_model(b)),
{
    (a.0 + b.0, vec3_add(a.1, b.1))
}

/// Scales a quaternion componentwise by a scalar.
pub fn scale(q: Quaternion, t: i64) -> (r: Quaternion)
    requires
        fits(q.0 * t),
        fits(q.1.0 * t),
        fits(q.1.1 * t),
        fits(q.1.2 * t),
    ensures
        quat_model(r) == quat_model(q).scale(t as int),
{
    (q.0 * t, vec3_scale(q.1, t))
}

/// Dot product of two quaternions.
pub fn dot(a: Quaternion, b: Quaternion) -> (r: i64)
    requires
        quat_model(a).bounded(alg_bound()),
        quat_model(b).bounded(alg_bound()),
    ensures
        r == quat_model(a).dot(quat_model(b)),
{
    proof {
        lemma_mul_bound(a.0 as int, b.0 as int, alg_bound(), alg_bound());
        lemma_prod_bounds(vec3_model(a.1), vec3_model(b.1), alg_bound(), alg_bound());
    }
    a.0 * b.0 + vec3_dot(a.1, b.1)
}

/// Multiplies two quaternions: the Hamilton product.
pub fn mul(a: Quaternion, b: Quaternion) -> (r: Quaternion)
    requires
        quat_model(a).bounded(alg_bound()),
        quat_model(b).bounded(alg_bound()),
    ensures
        quat_model(r) == quat_model(a).mul(quat_model(b)),
{
    proof {
        lemma_mul_bound(a.0 as int, b.0 as int, alg_bound(), alg_bound());
        lemma_prod_bounds(vec3_model(a.1), vec3_model(b.1), alg_bound(), alg_bound());
        lemma_prod_bounds(
            vec3_model(b.1),
            Vec3 { x: a.0 as int, y: a.0 as int, z: a.0 as int },
            alg_bound(),
            alg_bound(),
        );
        lemma_prod_bounds(
            vec3_model(a.1),
            Vec3 { x: b.0 as int, y: b.0 as int, z: b.0 as int },
            alg_bound(),
            alg_bound(),
        );
    }
    let s = a.0 * b.0 - vec3_dot(a.1, b.1);
    let v = vec3_add(vec3_add(vec3_scale(b.1, a.0), vec3_scale(a.1, b.0)), vec3_cross(a.1, b.1));
    (s, v)
}

/// Takes the quaternion conjugate: the vector part negated, the scalar
/// part unchanged.
pub fn conj(a: Quaternion) -> (r: Quaternion)
    requires
        fits(-a.1.0),
        fits(-a.1.1),
        fits(-a.1.2),
    ensures
        quat_model(r) == quat_model(a).conj(),
{
    (a.0, vec3_neg(a.1))
}

/// Computes the squared length of a quaternion.  It is never negative.
pub fn square_len(q: Quaternion) -> (r: i64)
    requires
        quat_model(q).bounded(alg_bound()),
    ensures
        r == quat_model(q).sqlen(),
        r >= 0,
{
    proof {
        lemma_mul_bound(q.0 as int, q.0 as int, alg_bound(), alg_bound());
        lemma_prod_bounds(vec3_model(q.1), vec3_model(q.1), alg_bound(), alg_bound());
        crate::laws::lemma_sqlen_nonneg(quat_model(q));
    }
    q.0 * q.0 + vec3_square_len(q.1)
}

/// Rotates the vector `v` by the quaternion `q`, in the doubled-cross-
/// product form.  The result represents the rotation only when `q` has
/// squared length one; `laws` relates this form to the sandwich product.
pub fn rotate_vector(q: Quaternion, v: Vector3) -> (r: Vector3)
    requires
        quat_model(q).bounded(rot_bound()),
        vec3_model(v).bounded(rot_bound()),
    ensures
        vec3_model(r) == quat_model(q).rotate(vec3_model(v)),
{
    proof {
        lemma_prod_bounds(vec3_model(q.1), vec3_model(v), rot_bound(), rot_bound());
    }
    let t = vec3_scale(vec3_cross(q.1, v), 2);
    proof {
        let tm = vec3_model(t);
        let rb = rot_bound();
        lemma_prod_bounds(
            tm,
            Vec3 { x: q.0 as int, y: q.0 as int, z: q.0 as int },
            4 * rb * rb,
            rb,
        );
        lemma_prod_bounds(vec3_model(q.1), tm, rb, 4 * rb * rb);
    }
    vec3_add(vec3_add(v, vec3_scale(t, q.0)), vec3_cross(q.1, t))
}

} // verus!
