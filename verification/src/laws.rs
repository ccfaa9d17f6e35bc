//! The algebraic laws of the quaternion algebra, stated and proved over
//! the model in `model`.

use crate::model::Quat;
use crate::model::Vec3;
use vstd::prelude::*;

verus! {

/// A square is never negative.
proof fn lemma_square_nonneg(x: int)
    by (nonlinear_arith)
    ensures
        0 <= x * x,
{
}

/// Multiplication commutes.
proof fn lemma_mul_comm(p: int, q: int)
    by (nonlinear_arith)
    ensures
        p * q == q * p,
{
}

/// The square of a difference, expanded.
proof fn lemma_diff_sq(p: int, q: int)
    by (nonlinear_arith)
    ensures
        (p - q) * (p - q) == p * p - 2 * (p * q) + q * q,
{
}

/// The square of a product, regrouped into a product of squares.
proof fn lemma_sq_of_prod(p: int, q: int)
    by (nonlinear_arith)
    ensures
        (p * q) * (p * q) == (p * p) * (q * q),
{
}

/// A product of two products, regrouped across the pairs.
proof fn lemma_mul_shuffle(p: int, q: int, r: int, s: int)
    by (nonlinear_arith)
    ensures
        (p * q) * (r * s) == (p * s) * (r * q),
{
}

/// Multiplication by a difference, distributed.
proof fn lemma_diff_scale(p: int, q: int, t: int)
    by (nonlinear_arith)
    ensures
        (p - q) * t == p * t - q * t,
{
}

/// Multiplication over a sum of three on the right, distributed.
proof fn lemma_scale_sum3(t: int, p1: int, p2: int, p3: int)
    by (nonlinear_arith)
    ensures
        t * (p1 + p2 + p3) == t * p1 + t * p2 + t * p3,
{
}

/// Multiplication reassociated.
proof fn lemma_mul_assoc(p: int, q: int, r: int)
    by (nonlinear_arith)
    ensures
        (p * q) * r == p * (q * r),
{
}

/// A product of three, rotated to put the middle factor first.
proof fn lemma_mul_rot3(p: int, q: int, r: int)
    by (nonlinear_arith)
    ensures
        (p * q) * r == q * (p * r),
{
}

/// A product of three, with the two outer factors exchanged.
proof fn lemma_mul_shuffle3(p: int, q: int, r: int)
    by (nonlinear_arith)
    ensures
        p * (q * r) == q * (p * r),
{
}

/// The square of a sum, expanded.
proof fn lemma_sum_sq(p: int, q: int)
    by (nonlinear_arith)
    ensures
        (p + q) * (p + q) == p * p + 2 * (p * q) + q * q,
{
}

/// Multiplication over a sum of two on the right, distributed.
proof fn lemma_scale_sum2(t: int, p: int, q: int)
    by (nonlinear_arith)
    ensures
        t * (p + q) == t * p + t * q,
{
}

/// Multiplication by a sum of two on the left, distributed.
proof fn lemma_sum2_scale(p: int, q: int, t: int)
    by (nonlinear_arith)
    ensures
        (p + q) * t == p * t + q * t,
{
}

/// A negated first factor pulls the sign out.
proof fn lemma_neg_mul(p: int, q: int)
    by (nonlinear_arith)
    ensures
        (-p) * q == -(p * q),
{
}

/// A negated second factor pulls the sign out.
proof fn lemma_mul_neg(p: int, q: int)
    by (nonlinear_arith)
    ensures
        p * (-q) == -(p * q),
{
}

/// A product of two sums of three, expanded into the nine products.
proof fn lemma_sum3_mul(p1: int, p2: int, p3: int, q1: int, q2: int, q3: int)
    by (nonlinear_arith)
    ensures
        (p1 + p2 + p3) * (q1 + q2 + q3) == p1 * q1 + p1 * q2 + p1 * q3 + p2 * q1 + p2 * q2 + p2
            * q3 + p3 * q1 + p3 * q2 + p3 * q3,
{
}

/// Multiplication over a difference of two on the right, distributed.
proof fn lemma_scale_diff(t: int, p: int, q: int)
    by (nonlinear_arith)
    ensures
        t * (p - q) == t * p - t * q,
{
}

/// A product of two sums of four, expanded into the sixteen products.
proof fn lemma_sum4_mul(
    p1: int,
    p2: int,
    p3: int,
    p4: int,
    q1: int,
    q2: int,
    q3: int,
    q4: int,
)
    ensures
        (p1 + p2 + p3 + p4) * (q1 + q2 + q3 + q4) == p1 * q1 + p1 * q2 + p1 * q3 + p1 * q4 + p2
            * q1 + p2 * q2 + p2 * q3 + p2 * q4 + p3 * q1 + p3 * q2 + p3 * q3 + p3 * q4 + p4 * q1
            + p4 * q2 + p4 * q3 + p4 * q4,
{
    lemma_scale_sum2(p1 + p2 + p3 + p4, q1 + q2 + q3, q4);
    lemma_scale_sum3(p1 + p2 + p3 + p4, q1, q2, q3);
    lemma_sum2_scale(p1 + p2 + p3, p4, q1);
    lemma_sum2_scale(p1 + p2, p3, q1);
    lemma_sum2_scale(p1, p2, q1);
    lemma_sum2_scale(p1 + p2 + p3, p4, q2);
    lemma_sum2_scale(p1 + p2, p3, q2);
    lemma_sum2_scale(p1, p2, q2);
    lemma_sum2_scale(p1 + p2 + p3, p4, q3);
    lemma_sum2_scale(p1 + p2, p3, q3);
    lemma_sum2_scale(p1, p2, q3);
    lemma_sum2_scale(p1 + p2 + p3, p4, q4);
    lemma_sum2_scale(p1 + p2, p3, q4);
    lemma_sum2_scale(p1, p2, q4);
}

/// The squared length of a quaternion is never negative.
pub proof fn lemma_sqlen_nonneg(q: Quat)
    ensures
        0 <= q.sqlen(),
{
    lemma_square_nonneg(q.w);
    lemma_square_nonneg(q.v.x);
    lemma_square_nonneg(q.v.y);
    lemma_square_nonneg(q.v.z);
}

/// The identity quaternion is neutral for the Hamilton product on either
/// side.
pub proof fn lemma_mul_id(q: Quat)
    ensures
        q.mul(Quat::id()) == q,
        Quat::id().mul(q) == q,
{
    assert(q.v.scale(1) =~= q.v);
    assert(q.mul(Quat::id()).v =~= q.v);
    assert(q.mul(Quat::id()) =~= q);
    assert(Quat::id().mul(q).v =~= q.v);
    assert(Quat::id().mul(q) =~= q);
}

/// The conjugate preserves the squared length.
pub proof fn lemma_conj_sqlen(q: Quat)
    ensures
        q.conj().sqlen() == q.sqlen(),
{
    assert((-q.v.x) * (-q.v.x) == q.v.x * q.v.x) by (nonlinear_arith);
    assert((-q.v.y) * (-q.v.y) == q.v.y * q.v.y) by (nonlinear_arith);
    assert((-q.v.z) * (-q.v.z) == q.v.z * q.v.z) by (nonlinear_arith);
}

/// An axis-angle quaternion built from a unit axis and a cosine/sine
/// pair of the half-angle has squared length one.
pub proof fn lemma_axis_angle_unit(c: int, s: int, axis: Vec3)
    requires
        c * c + s * s == 1,
        axis.sqlen() == 1,
    ensures
        Quat::axis_angle(c, s, axis).sqlen() == 1,
{
    assert(c * c + (axis.x * s) * (axis.x * s) + (axis.y * s) * (axis.y * s) + (axis.z * s) * (
    axis.z * s) == 1) by (nonlinear_arith)
        requires
            c * c + s * s == 1,
            axis.x * axis.x + axis.y * axis.y + axis.z * axis.z == 1,
    ;
}

/// The cross product of two vectors is orthogonal to both.
pub proof fn lemma_cross_orthogonal(a: Vec3, b: Vec3)
    ensures
        a.cross(b).dot(a) == 0,
        a.cross(b).dot(b) == 0,
{
    assert((a.y * b.z - a.z * b.y) * a.x + (a.z * b.x - a.x * b.z) * a.y + (a.x * b.y - a.y * b.x)
        * a.z == 0) by (nonlinear_arith);
    assert((a.y * b.z - a.z * b.y) * b.x + (a.z * b.x - a.x * b.z) * b.y + (a.x * b.y - a.y * b.x)
        * b.z == 0) by (nonlinear_arith);
}

/// The Lagrange identity: the squared length of the cross product is the
/// product of the squared lengths less the square of the dot product.
pub proof fn lemma_lagrange(a: Vec3, b: Vec3)
    ensures
        a.cross(b).sqlen() == a.sqlen() * b.sqlen() - a.dot(b) * a.dot(b),
{
    lemma_diff_sq(a.y * b.z, a.z * b.y);
    lemma_diff_sq(a.z * b.x, a.x * b.z);
    lemma_diff_sq(a.x * b.y, a.y * b.x);
    lemma_sq_of_prod(a.y, b.z);
    lemma_sq_of_prod(a.z, b.y);
    lemma_sq_of_prod(a.z, b.x);
    lemma_sq_of_prod(a.x, b.z);
    lemma_sq_of_prod(a.x, b.y);
    lemma_sq_of_prod(a.y, b.x);
    lemma_mul_shuffle(a.y, b.z, a.z, b.y);
    lemma_mul_shuffle(a.z, b.x, a.x, b.z);
    lemma_mul_shuffle(a.x, b.y, a.y, b.x);
    lemma_sum3_mul(a.x * a.x, a.y * a.y, a.z * a.z, b.x * b.x, b.y * b.y, b.z * b.z);
    lemma_sum3_mul(a.x * b.x, a.y * b.y, a.z * b.z, a.x * b.x, a.y * b.y, a.z * b.z);
    lemma_sq_of_prod(a.x, b.x);
    lemma_sq_of_prod(a.y, b.y);
    lemma_sq_of_prod(a.z, b.z);
    lemma_mul_comm(a.x * b.x, a.y * b.y);
    lemma_mul_comm(a.x * b.x, a.z * b.z);
    lemma_mul_comm(a.y * b.y, a.z * b.z);
}

/// Rotating a vector about an axis parallel to it leaves it unchanged:
/// when the vector part of the quaternion has zero cross product with the
/// vector, the rotation is the identity on it.
pub proof fn lemma_rotate_parallel_axis(q: Quat, p: Vec3)
    requires
        q.v.cross(p) == Vec3::zero(),
    ensures
        q.rotate(p) == p,
{
    let t = q.v.cross(p).scale(2);
    assert(t =~= Vec3::zero());
    assert(t.scale(q.w) =~= Vec3::zero());
    assert(q.v.cross(t) =~= Vec3::zero());
    assert(q.rotate(p) =~= p);
}

/// A half-turn about a unit axis orthogonal to a vector sends the vector
/// to its negation.  The quaternion of such a half-turn is the pure
/// quaternion whose vector part is the axis.
pub proof fn lemma_rotate_antiparallel(u: Vec3, a: Vec3)
    requires
        u.dot(a) == 0,
        u.sqlen() == 1,
    ensures
        Quat::from_vec(u).rotate(a) == a.neg(),
{
    let q = Quat::from_vec(u);
    let t = u.cross(a).scale(2);
    assert(t.scale(0) =~= Vec3::zero());
    assert(a.x + u.y * ((u.x * a.y - u.y * a.x) * 2) - u.z * ((u.z * a.x - u.x * a.z) * 2)
        == -a.x) by (nonlinear_arith)
        requires
            u.x * a.x + u.y * a.y + u.z * a.z == 0,
            u.x * u.x + u.y * u.y + u.z * u.z == 1,
    ;
    assert(a.y + u.z * ((u.y * a.z - u.z * a.y) * 2) - u.x * ((u.x * a.y - u.y * a.x) * 2)
        == -a.y) by (nonlinear_arith)
        requires
            u.x * a.x + u.y * a.y + u.z * a.z == 0,
            u.x * u.x + u.y * u.y + u.z * u.z == 1,
    ;
    assert(a.z + u.x * ((u.z * a.x - u.x * a.z) * 2) - u.y * ((u.y * a.z - u.z * a.y) * 2)
        == -a.z) by (nonlinear_arith)
        requires
            u.x * a.x + u.y * a.y + u.z * a.z == 0,
            u.x * u.x + u.y * u.y + u.z * u.z == 1,
    ;
    assert(q.rotate(a) =~= a.neg());
}

/// The triple product expansion: `(x × y) × z == (x · z) y − (y · z) x`.
pub proof fn lemma_triple_product(x: Vec3, y: Vec3, z: Vec3)
    ensures
        x.cross(y).cross(z) == y.scale(x.dot(z)).add(x.scale(y.dot(z)).neg()),
{
    lemma_diff_scale(x.z * y.x, x.x * y.z, z.z);
    lemma_diff_scale(x.x * y.y, x.y * y.x, z.y);
    lemma_scale_sum3(y.x, x.x * z.x, x.y * z.y, x.z * z.z);
    lemma_scale_sum3(x.x, y.x * z.x, y.y * z.y, y.z * z.z);
    lemma_mul_shuffle3(y.x, x.x, z.x);
    lemma_mul_rot3(x.y, y.x, z.y);
    lemma_mul_rot3(x.z, y.x, z.z);
    lemma_mul_assoc(x.x, y.y, z.y);
    lemma_mul_assoc(x.x, y.z, z.z);
    lemma_diff_scale(x.x * y.y, x.y * y.x, z.x);
    lemma_diff_scale(x.y * y.z, x.z * y.y, z.z);
    lemma_scale_sum3(y.y, x.x * z.x, x.y * z.y, x.z * z.z);
    lemma_scale_sum3(x.y, y.x * z.x, y.y * z.y, y.z * z.z);
    lemma_mul_rot3(x.x, y.y, z.x);
    lemma_mul_assoc(x.y, y.x, z.x);
    lemma_mul_assoc(x.y, y.z, z.z);
    lemma_mul_rot3(x.z, y.y, z.z);
    lemma_mul_shuffle3(y.y, x.y, z.y);
    lemma_diff_scale(x.y * y.z, x.z * y.y, z.y);
    lemma_diff_scale(x.z * y.x, x.x * y.z, z.x);
    lemma_scale_sum3(y.z, x.x * z.x, x.y * z.y, x.z * z.z);
    lemma_scale_sum3(x.z, y.x * z.x, y.y * z.y, y.z * z.z);
    lemma_mul_rot3(x.y, y.z, z.y);
    lemma_mul_assoc(x.z, y.y, z.y);
    lemma_mul_assoc(x.z, y.x, z.x);
    lemma_mul_rot3(x.x, y.z, z.x);
    lemma_mul_shuffle3(y.z, x.z, z.z);
    assert(x.cross(y).cross(z) =~= y.scale(x.dot(z)).add(x.scale(y.dot(z)).neg()));
}

/// The dot product commutes.
proof fn lemma_dot_comm(x: Vec3, y: Vec3)
    ensures
        x.dot(y) == y.dot(x),
{
    lemma_mul_comm(x.x, y.x);
    lemma_mul_comm(x.y, y.y);
    lemma_mul_comm(x.z, y.z);
}

/// Scaling by one changes nothing.
proof fn lemma_scale_one(v: Vec3)
    ensures
        v.scale(1) == v,
{
    assert(v.scale(1) =~= v);
}

/// The cross product is linear in its second argument: scaling.
proof fn lemma_cross_scale_right(x: Vec3, y: Vec3, s: int)
    ensures
        x.cross(y.scale(s)) == x.cross(y).scale(s),
{
    lemma_diff_scale(x.y * y.z, x.z * y.y, s);
    lemma_mul_assoc(x.y, y.z, s);
    lemma_mul_assoc(x.z, y.y, s);
    lemma_diff_scale(x.z * y.x, x.x * y.z, s);
    lemma_mul_assoc(x.z, y.x, s);
    lemma_mul_assoc(x.x, y.z, s);
    lemma_diff_scale(x.x * y.y, x.y * y.x, s);
    lemma_mul_assoc(x.x, y.y, s);
    lemma_mul_assoc(x.y, y.x, s);
    assert(x.cross(y.scale(s)) =~= x.cross(y).scale(s));
}

/// The cross product is linear in its second argument: sums.
proof fn lemma_cross_add_right(x: Vec3, y: Vec3, z: Vec3)
    ensures
        x.cross(y.add(z)) == x.cross(y).add(x.cross(z)),
{
    lemma_scale_sum2(x.y, y.z, z.z);
    lemma_scale_sum2(x.z, y.y, z.y);
    lemma_scale_sum2(x.z, y.x, z.x);
    lemma_scale_sum2(x.x, y.z, z.z);
    lemma_scale_sum2(x.x, y.y, z.y);
    lemma_scale_sum2(x.y, y.x, z.x);
    assert(x.cross(y.add(z)) =~= x.cross(y).add(x.cross(z)));
}

/// The cross product is linear in its second argument: negation.
proof fn lemma_cross_neg_right(x: Vec3, y: Vec3)
    ensures
        x.cross(y.neg()) == x.cross(y).neg(),
{
    lemma_mul_neg(x.y, y.z);
    lemma_mul_neg(x.z, y.y);
    lemma_mul_neg(x.z, y.x);
    lemma_mul_neg(x.x, y.z);
    lemma_mul_neg(x.x, y.y);
    lemma_mul_neg(x.y, y.x);
    assert(x.cross(y.neg()) =~= x.cross(y).neg());
}

/// Two scalings compose into one.
proof fn lemma_scale_scale(v: Vec3, s: int, t: int)
    ensures
        v.scale(s).scale(t) == v.scale(s * t),
{
    lemma_mul_assoc(v.x, s, t);
    lemma_mul_assoc(v.y, s, t);
    lemma_mul_assoc(v.z, s, t);
    assert(v.scale(s).scale(t) =~= v.scale(s * t));
}

/// Scaling distributes over a vector sum.
proof fn lemma_scale_add(x: Vec3, y: Vec3, t: int)
    ensures
        x.add(y).scale(t) == x.scale(t).add(y.scale(t)),
{
    lemma_sum2_scale(x.x, y.x, t);
    lemma_sum2_scale(x.y, y.y, t);
    lemma_sum2_scale(x.z, y.z, t);
    assert(x.add(y).scale(t) =~= x.scale(t).add(y.scale(t)));
}

/// Scaling by a sum of scalars splits into a vector sum.
proof fn lemma_scale_split(v: Vec3, s: int, t: int)
    ensures
        v.scale(s + t) == v.scale(s).add(v.scale(t)),
{
    lemma_scale_sum2(v.x, s, t);
    lemma_scale_sum2(v.y, s, t);
    lemma_scale_sum2(v.z, s, t);
    assert(v.scale(s + t) =~= v.scale(s).add(v.scale(t)));
}

/// Scaling a negated vector negates the scaled vector.
proof fn lemma_scale_of_neg(v: Vec3, t: int)
    ensures
        v.neg().scale(t) == v.scale(t).neg(),
{
    lemma_neg_mul(v.x, t);
    lemma_neg_mul(v.y, t);
    lemma_neg_mul(v.z, t);
    assert(v.neg().scale(t) =~= v.scale(t).neg());
}

/// The cross product is linear in its first argument: scaling.
proof fn lemma_cross_scale_left(x: Vec3, z: Vec3, s: int)
    ensures
        x.scale(s).cross(z) == x.cross(z).scale(s),
{
    lemma_mul_rot3(x.y, s, z.z);
    lemma_mul_rot3(x.z, s, z.y);
    lemma_mul_rot3(x.z, s, z.x);
    lemma_mul_rot3(x.x, s, z.z);
    lemma_mul_rot3(x.x, s, z.y);
    lemma_mul_rot3(x.y, s, z.x);
    lemma_mul_comm(x.y * z.z, s);
    lemma_mul_comm(x.z * z.y, s);
    lemma_mul_comm(x.z * z.x, s);
    lemma_mul_comm(x.x * z.z, s);
    lemma_mul_comm(x.x * z.y, s);
    lemma_mul_comm(x.y * z.x, s);
    lemma_diff_scale(x.y * z.z, x.z * z.y, s);
    lemma_diff_scale(x.z * z.x, x.x * z.z, s);
    lemma_diff_scale(x.x * z.y, x.y * z.x, s);
    assert(x.scale(s).cross(z) =~= x.cross(z).scale(s));
}

/// The cross product is linear in its first argument: sums.
proof fn lemma_cross_add_left(x: Vec3, y: Vec3, z: Vec3)
    ensures
        x.add(y).cross(z) == x.cross(z).add(y.cross(z)),
{
    lemma_sum2_scale(x.y, y.y, z.z);
    lemma_sum2_scale(x.z, y.z, z.y);
    lemma_sum2_scale(x.z, y.z, z.x);
    lemma_sum2_scale(x.x, y.x, z.z);
    lemma_sum2_scale(x.x, y.x, z.y);
    lemma_sum2_scale(x.y, y.y, z.x);
    assert(x.add(y).cross(z) =~= x.cross(z).add(y.cross(z)));
}

/// The cross product is antisymmetric.
proof fn lemma_cross_antisym(x: Vec3, y: Vec3)
    ensures
        x.cross(y) == y.cross(x).neg(),
{
    lemma_mul_comm(x.y, y.z);
    lemma_mul_comm(x.z, y.y);
    lemma_mul_comm(x.z, y.x);
    lemma_mul_comm(x.x, y.z);
    lemma_mul_comm(x.x, y.y);
    lemma_mul_comm(x.y, y.x);
    assert(x.cross(y) =~= y.cross(x).neg());
}

/// The dot product is linear in its first argument: sums.
proof fn lemma_dot_add_left(x: Vec3, y: Vec3, z: Vec3)
    ensures
        x.add(y).dot(z) == x.dot(z) + y.dot(z),
{
    lemma_sum2_scale(x.x, y.x, z.x);
    lemma_sum2_scale(x.y, y.y, z.y);
    lemma_sum2_scale(x.z, y.z, z.z);
}

/// The dot product is linear in its first argument: scaling.
proof fn lemma_dot_scale_left(x: Vec3, s: int, z: Vec3)
    ensures
        x.scale(s).dot(z) == s * x.dot(z),
{
    lemma_mul_rot3(x.x, s, z.x);
    lemma_mul_rot3(x.y, s, z.y);
    lemma_mul_rot3(x.z, s, z.z);
    lemma_scale_sum3(s, x.x * z.x, x.y * z.y, x.z * z.z);
}

/// The dot product is linear in its second argument: negation.
proof fn lemma_dot_neg_right(x: Vec3, y: Vec3)
    ensures
        x.dot(y.neg()) == -x.dot(y),
{
    lemma_mul_neg(x.x, y.x);
    lemma_mul_neg(x.y, y.y);
    lemma_mul_neg(x.z, y.z);
}

/// The Euler-angle conversion formula builds exactly the composed
/// rotation: the product of the three axis-angle quaternions about the
/// x, y and z axes, nested so that the x rotation is applied first,
/// then the y, then the z.
pub proof fn lemma_euler_composed(cx: int, sx: int, cy: int, sy: int, cz: int, sz: int)
    ensures
        Quat::euler(cx, sx, cy, sy, cz, sz) == Quat::axis_angle(
            cz,
            sz,
            Vec3 { x: 0, y: 0, z: 1 },
        ).mul(
            Quat::axis_angle(cy, sy, Vec3 { x: 0, y: 1, z: 0 }).mul(
                Quat::axis_angle(cx, sx, Vec3 { x: 1, y: 0, z: 0 }),
            ),
        ),
{
    let qx: Quat = Quat { w: cx, v: Vec3 { x: sx, y: 0, z: 0 } };
    let qy: Quat = Quat { w: cy, v: Vec3 { x: 0, y: sy, z: 0 } };
    let qz: Quat = Quat { w: cz, v: Vec3 { x: 0, y: 0, z: sz } };
    assert((Vec3 { x: 1, y: 0, z: 0 }).scale(sx) =~= qx.v);
    assert((Vec3 { x: 0, y: 1, z: 0 }).scale(sy) =~= qy.v);
    assert((Vec3 { x: 0, y: 0, z: 1 }).scale(sz) =~= qz.v);
    assert(Quat::axis_angle(cx, sx, Vec3 { x: 1, y: 0, z: 0 }) =~= qx);
    assert(Quat::axis_angle(cy, sy, Vec3 { x: 0, y: 1, z: 0 }) =~= qy);
    assert(Quat::axis_angle(cz, sz, Vec3 { x: 0, y: 0, z: 1 }) =~= qz);
    let m: Quat = qy.mul(qx);
    assert(m.v =~= (Vec3 { x: sx * cy, y: sy * cx, z: -(sy * sx) }));
    assert(m.w == cy * cx);
    lemma_mul_neg(sz, sy * sx);
    lemma_neg_mul(sy * sx, cz);
    assert(cz * (cy * cx) == cx * cy * cz) by (nonlinear_arith);
    assert(sz * (sy * sx) == sx * sy * sz) by (nonlinear_arith);
    assert(sz * (sy * cx) == cx * sy * sz) by (nonlinear_arith);
    assert((sy * cx) * cz == cx * sy * cz) by (nonlinear_arith);
    assert(sz * (sx * cy) == sx * cy * sz) by (nonlinear_arith);
    assert((sy * sx) * cz == sx * sy * cz) by (nonlinear_arith);
    assert(sz * (cy * cx) == cx * cy * sz) by (nonlinear_arith);
    assert(qz.mul(m).v =~= Quat::euler(cx, sx, cy, sy, cz, sz).v);
    assert(qz.mul(m).w == Quat::euler(cx, sx, cy, sy, cz, sz).w);
    assert(qz.mul(m) =~= Quat::euler(cx, sx, cy, sy, cz, sz));
}

/// The quaternion built by the Euler-angle conversion formula from
/// three cosine/sine pairs of half-angles is a unit quaternion: it is a
/// product of three unit quaternions, and the squared length is
/// multiplicative.
pub proof fn lemma_euler_unit(cx: int, sx: int, cy: int, sy: int, cz: int, sz: int)
    requires
        cx * cx + sx * sx == 1,
        cy * cy + sy * sy == 1,
        cz * cz + sz * sz == 1,
    ensures
        Quat::euler(cx, sx, cy, sy, cz, sz).sqlen() == 1,
{
    lemma_euler_composed(cx, sx, cy, sy, cz, sz);
    let qx: Quat = Quat::axis_angle(cx, sx, Vec3 { x: 1, y: 0, z: 0 });
    let qy: Quat = Quat::axis_angle(cy, sy, Vec3 { x: 0, y: 1, z: 0 });
    let qz: Quat = Quat::axis_angle(cz, sz, Vec3 { x: 0, y: 0, z: 1 });
    assert((Vec3 { x: 1, y: 0, z: 0 }).sqlen() == 1);
    assert((Vec3 { x: 0, y: 1, z: 0 }).sqlen() == 1);
    assert((Vec3 { x: 0, y: 0, z: 1 }).sqlen() == 1);
    lemma_axis_angle_unit(cx, sx, Vec3 { x: 1, y: 0, z: 0 });
    lemma_axis_angle_unit(cy, sy, Vec3 { x: 0, y: 1, z: 0 });
    lemma_axis_angle_unit(cz, sz, Vec3 { x: 0, y: 0, z: 1 });
    lemma_sqlen_mul(qy, qx);
    lemma_sqlen_mul(qz, qy.mul(qx));
    assert(qy.mul(qx).sqlen() == 1) by (nonlinear_arith)
        requires
            qy.mul(qx).sqlen() == qy.sqlen() * qx.sqlen(),
            qy.sqlen() == 1,
            qx.sqlen() == 1,
    ;
    assert(qz.mul(qy.mul(qx)).sqlen() == 1) by (nonlinear_arith)
        requires
            qz.mul(qy.mul(qx)).sqlen() == qz.sqlen() * qy.mul(qx).sqlen(),
            qz.sqlen() == 1,
            qy.mul(qx).sqlen() == 1,
    ;
}

/// The squared length is multiplicative over the Hamilton product: the
/// four-square identity.
pub proof fn lemma_sqlen_mul(a: Quat, b: Quat)
    ensures
        a.mul(b).sqlen() == a.sqlen() * b.sqlen(),
{
    let aw: int = a.w;
    let ax: int = a.v.x;
    let ay: int = a.v.y;
    let az: int = a.v.z;
    let bw: int = b.w;
    let bx: int = b.v.x;
    let by: int = b.v.y;
    let bz: int = b.v.z;
    let dv: int = ax * bx + ay * by + az * bz;
    lemma_diff_sq(aw * bw, dv);
    assert((aw * bw) * (aw * bw) == (aw * aw) * (bw * bw)) by (nonlinear_arith);
    lemma_scale_sum3(aw * bw, ax * bx, ay * by, az * bz);
    assert((aw * bw) * (ax * bx) == (aw * ax) * (bw * bx)) by (nonlinear_arith);
    assert((aw * bw) * (ay * by) == (aw * ay) * (bw * by)) by (nonlinear_arith);
    assert((aw * bw) * (az * bz) == (aw * az) * (bw * bz)) by (nonlinear_arith);
    lemma_sum3_mul(ax * bx, ay * by, az * bz, ax * bx, ay * by, az * bz);
    assert((ax * bx) * (ax * bx) == (ax * ax) * (bx * bx)) by (nonlinear_arith);
    assert((ay * by) * (ay * by) == (ay * ay) * (by * by)) by (nonlinear_arith);
    assert((az * bz) * (az * bz) == (az * az) * (bz * bz)) by (nonlinear_arith);
    assert((ax * bx) * (ay * by) == (ax * ay) * (bx * by)) by (nonlinear_arith);
    assert((ay * by) * (ax * bx) == (ax * ay) * (bx * by)) by (nonlinear_arith);
    assert((ax * bx) * (az * bz) == (ax * az) * (bx * bz)) by (nonlinear_arith);
    assert((az * bz) * (ax * bx) == (ax * az) * (bx * bz)) by (nonlinear_arith);
    assert((ay * by) * (az * bz) == (ay * az) * (by * bz)) by (nonlinear_arith);
    assert((az * bz) * (ay * by) == (ay * az) * (by * bz)) by (nonlinear_arith);
    lemma_sum_sq(bx * aw + ax * bw, ay * bz - az * by);
    lemma_sum_sq(bx * aw, ax * bw);
    assert((bx * aw) * (bx * aw) == (aw * aw) * (bx * bx)) by (nonlinear_arith);
    assert((ax * bw) * (ax * bw) == (ax * ax) * (bw * bw)) by (nonlinear_arith);
    assert((bx * aw) * (ax * bw) == (aw * ax) * (bw * bx)) by (nonlinear_arith);
    lemma_sum2_scale(bx * aw, ax * bw, ay * bz - az * by);
    lemma_scale_diff(bx * aw, ay * bz, az * by);
    lemma_scale_diff(ax * bw, ay * bz, az * by);
    assert((bx * aw) * (ay * bz) == (aw * ay) * (bx * bz)) by (nonlinear_arith);
    assert((bx * aw) * (az * by) == (aw * az) * (bx * by)) by (nonlinear_arith);
    assert((ax * bw) * (ay * bz) == (ax * ay) * (bw * bz)) by (nonlinear_arith);
    assert((ax * bw) * (az * by) == (ax * az) * (bw * by)) by (nonlinear_arith);
    lemma_diff_sq(ay * bz, az * by);
    assert((ay * bz) * (ay * bz) == (ay * ay) * (bz * bz)) by (nonlinear_arith);
    assert((az * by) * (az * by) == (az * az) * (by * by)) by (nonlinear_arith);
    assert((ay * bz) * (az * by) == (ay * az) * (by * bz)) by (nonlinear_arith);
    lemma_sum_sq(by * aw + ay * bw, az * bx - ax * bz);
    lemma_sum_sq(by * aw, ay * bw);
    assert((by * aw) * (by * aw) == (aw * aw) * (by * by)) by (nonlinear_arith);
    assert((ay * bw) * (ay * bw) == (ay * ay) * (bw * bw)) by (nonlinear_arith);
    assert((by * aw) * (ay * bw) == (aw * ay) * (bw * by)) by (nonlinear_arith);
    lemma_sum2_scale(by * aw, ay * bw, az * bx - ax * bz);
    lemma_scale_diff(by * aw, az * bx, ax * bz);
    lemma_scale_diff(ay * bw, az * bx, ax * bz);
    assert((by * aw) * (az * bx) == (aw * az) * (bx * by)) by (nonlinear_arith);
    assert((by * aw) * (ax * bz) == (aw * ax) * (by * bz)) by (nonlinear_arith);
    assert((ay * bw) * (az * bx) == (ay * az) * (bw * bx)) by (nonlinear_arith);
    assert((ay * bw) * (ax * bz) == (ax * ay) * (bw * bz)) by (nonlinear_arith);
    lemma_diff_sq(az * bx, ax * bz);
    assert((az * bx) * (az * bx) == (az * az) * (bx * bx)) by (nonlinear_arith);
    assert((ax * bz) * (ax * bz) == (ax * ax) * (bz * bz)) by (nonlinear_arith);
    assert((az * bx) * (ax * bz) == (ax * az) * (bx * bz)) by (nonlinear_arith);
    lemma_sum_sq(bz * aw + az * bw, ax * by - ay * bx);
    lemma_sum_sq(bz * aw, az * bw);
    assert((bz * aw) * (bz * aw) == (aw * aw) * (bz * bz)) by (nonlinear_arith);
    assert((az * bw) * (az * bw) == (az * az) * (bw * bw)) by (nonlinear_arith);
    assert((bz * aw) * (az * bw) == (aw * az) * (bw * bz)) by (nonlinear_arith);
    lemma_sum2_scale(bz * aw, az * bw, ax * by - ay * bx);
    lemma_scale_diff(bz * aw, ax * by, ay * bx);
    lemma_scale_diff(az * bw, ax * by, ay * bx);
    assert((bz * aw) * (ax * by) == (aw * ax) * (by * bz)) by (nonlinear_arith);
    assert((bz * aw) * (ay * bx) == (aw * ay) * (bx * bz)) by (nonlinear_arith);
    assert((az * bw) * (ax * by) == (ax * az) * (bw * by)) by (nonlinear_arith);
    assert((az * bw) * (ay * bx) == (ay * az) * (bw * bx)) by (nonlinear_arith);
    lemma_diff_sq(ax * by, ay * bx);
    assert((ax * by) * (ax * by) == (ax * ax) * (by * by)) by (nonlinear_arith);
    assert((ay * bx) * (ay * bx) == (ay * ay) * (bx * bx)) by (nonlinear_arith);
    assert((ax * by) * (ay * bx) == (ax * ay) * (bx * by)) by (nonlinear_arith);
    lemma_sum4_mul(aw * aw, ax * ax, ay * ay, az * az, bw * bw, bx * bx, by * by, bz * bz);
    assert((aw * aw + (ax * ax + ay * ay + az * az)) * (bw * bw + (bx * bx + by * by + bz * bz))
        == (aw * aw + ax * ax + ay * ay + az * az) * (bw * bw + bx * bx + by * by + bz * bz));
}

/// Rotating by a unit quaternion preserves the squared length of the
/// vector.
pub proof fn lemma_rotate_preserves_sqlen(q: Quat, p: Vec3)
    requires
        q.sqlen() == 1,
    ensures
        q.rotate(p).sqlen() == p.sqlen(),
{
    lemma_rotate_is_sandwich(q, p);
    lemma_sqlen_mul(q, Quat::from_vec(p));
    lemma_sqlen_mul(q.mul(Quat::from_vec(p)), q.conj());
    lemma_conj_sqlen(q);
    assert(Quat::from_vec(p).sqlen() == p.sqlen());
    assert(Quat::from_vec(q.rotate(p)).sqlen() == q.rotate(p).sqlen());
    assert(q.sqlen() * Quat::from_vec(p).sqlen() == Quat::from_vec(p).sqlen())
        by (nonlinear_arith)
        requires
            q.sqlen() == 1,
    ;
    assert(q.mul(Quat::from_vec(p)).sqlen() * q.conj().sqlen() == q.mul(
        Quat::from_vec(p),
    ).sqlen()) by (nonlinear_arith)
        requires
            q.conj().sqlen() == 1,
    ;
}

/// The sandwich product `q * (0, p) * conj(q)` is always a pure
/// quaternion, and its vector part is the doubled-cross-product rotation
/// of `p` plus `p` scaled by the squared length of `q` less one.
pub proof fn lemma_sandwich(q: Quat, p: Vec3)
    ensures
        q.mul(Quat::from_vec(p)).mul(q.conj()).w == 0,
        q.mul(Quat::from_vec(p)).mul(q.conj()).v == q.rotate(p).add(p.scale(q.sqlen() - 1)),
{
    let w: int = q.w;
    let u: Vec3 = q.v;
    let dd: int = u.dot(p);
    let udotu: int = u.dot(u);
    let c: Vec3 = u.cross(p);
    let m1: Quat = q.mul(Quat::from_vec(p));
    assert(m1.v =~= p.scale(w).add(c));
    assert(m1.w == -dd);
    let s: Quat = m1.mul(q.conj());
    lemma_dot_neg_right(m1.v, u);
    lemma_dot_add_left(p.scale(w), c, u);
    lemma_dot_scale_left(p, w, u);
    lemma_cross_orthogonal(u, p);
    lemma_dot_comm(u, p);
    lemma_neg_mul(dd, w);
    lemma_mul_comm(dd, w);
    assert(s.w == 0);
    lemma_scale_of_neg(u, m1.w);
    lemma_mul_neg(u.x, dd);
    lemma_mul_neg(u.y, dd);
    lemma_mul_neg(u.z, dd);
    assert(u.neg().scale(m1.w) =~= u.scale(dd));
    lemma_scale_add(p.scale(w), c, w);
    lemma_scale_scale(p, w, w);
    lemma_cross_neg_right(m1.v, u);
    lemma_cross_add_left(p.scale(w), c, u);
    lemma_cross_scale_left(p, u, w);
    lemma_cross_antisym(p, u);
    lemma_scale_of_neg(c, w);
    lemma_triple_product(u, p, u);
    lemma_scale_scale(c, 2, w);
    lemma_mul_shuffle3(c.x, 2, w);
    lemma_mul_shuffle3(c.y, 2, w);
    lemma_mul_shuffle3(c.z, 2, w);
    lemma_cross_scale_right(u, c, 2);
    lemma_cross_antisym(u, c);
    lemma_scale_of_neg(c.cross(u), 2);
    lemma_scale_add(p.scale(udotu), u.scale(dd).neg(), 2);
    lemma_scale_of_neg(u.scale(dd), 2);
    lemma_scale_scale(p, udotu, 2);
    lemma_scale_scale(u, dd, 2);
    lemma_mul_assoc(p.x, udotu, 2);
    lemma_mul_assoc(p.y, udotu, 2);
    lemma_mul_assoc(p.z, udotu, 2);
    lemma_mul_assoc(u.x, dd, 2);
    lemma_mul_assoc(u.y, dd, 2);
    lemma_mul_assoc(u.z, dd, 2);
    assert(q.sqlen() - 1 == (w * w) + (udotu - 1));
    lemma_scale_split(p, w * w, udotu - 1);
    assert(udotu - 1 == udotu + (-1));
    lemma_scale_split(p, udotu, -1);
    assert(s.v =~= q.rotate(p).add(p.scale(q.sqlen() - 1)));
}

/// For a unit quaternion the sandwich product and the doubled-cross-
/// product rotation agree exactly: applying the quaternion to a vector
/// by either form gives the same pure quaternion.
pub proof fn lemma_rotate_is_sandwich(q: Quat, p: Vec3)
    requires
        q.sqlen() == 1,
    ensures
        q.mul(Quat::from_vec(p)).mul(q.conj()) == Quat::from_vec(q.rotate(p)),
{
    lemma_sandwich(q, p);
    assert(p.scale(q.sqlen() - 1) =~= Vec3::zero());
    assert(q.rotate(p).add(Vec3::zero()) =~= q.rotate(p));
    assert(q.mul(Quat::from_vec(p)).mul(q.conj()) =~= Quat::from_vec(q.rotate(p)));
}

/// The half-way-vector construction behind the rotation from one unit
/// vector to another: for unit `a` and `b` with `d = a · b`, the
/// quaternion `(1 + d, a × b)` has squared length `2 + 2 d`, and rotating
/// `a` by it yields `b` scaled by that squared length, less `a` scaled by
/// `1 + 2 d`.  After the normalization that divides the quaternion by its
/// length, the rotation carries `a` exactly onto `b`.
pub proof fn lemma_from_to(a: Vec3, b: Vec3)
    requires
        a.sqlen() == 1,
        b.sqlen() == 1,
    ensures
        ({
            let d: int = a.dot(b);
            (Quat { w: 1 + d, v: a.cross(b) }).sqlen() == 2 + 2 * d
        }),
        ({
            let d: int = a.dot(b);
            (Quat { w: 1 + d, v: a.cross(b) }).rotate(a) == b.scale(2 + 2 * d).add(
                a.scale(1 + 2 * d).neg(),
            )
        }),
{
    let d: int = a.dot(b);
    let u: Vec3 = a.cross(b);
    let q: Quat = Quat { w: 1 + d, v: u };
    lemma_lagrange(a, b);
    assert(a.sqlen() * b.sqlen() == 1) by (nonlinear_arith)
        requires
            a.sqlen() == 1,
            b.sqlen() == 1,
    ;
    lemma_sum_sq(1, d);
    assert(q.sqlen() == 2 + 2 * d);
    lemma_triple_product(a, b, a);
    lemma_triple_product(a, b, b);
    lemma_dot_comm(b, a);
    lemma_scale_one(a);
    lemma_scale_one(b);
    let c: Vec3 = u.cross(a);
    assert(c =~= b.add(a.scale(d).neg()));
    assert(u.cross(b) =~= b.scale(d).add(a.neg()));
    lemma_scale_scale(c, 2, 1 + d);
    lemma_scale_add(b, a.scale(d).neg(), 2 * (1 + d));
    lemma_scale_of_neg(a.scale(d), 2 * (1 + d));
    lemma_scale_scale(a, d, 2 * (1 + d));
    lemma_cross_scale_right(u, c, 2);
    lemma_cross_add_right(u, b, a.scale(d).neg());
    lemma_cross_neg_right(u, a.scale(d));
    lemma_cross_scale_right(u, a, d);
    lemma_scale_add(b, a.scale(d).neg(), d);
    lemma_scale_of_neg(a.scale(d), d);
    lemma_scale_scale(a, d, d);
    assert(u.cross(c) =~= a.scale(d * d).add(a.neg()));
    lemma_scale_add(a.scale(d * d), a.neg(), 2);
    lemma_scale_scale(a, d * d, 2);
    lemma_scale_of_neg(a, 2);
    assert(d * (2 * (1 + d)) == 2 * d + 2 * (d * d)) by (nonlinear_arith);
    assert((d * d) * 2 == 2 * (d * d)) by (nonlinear_arith);
    lemma_scale_split(a, 2 * d, 2 * (d * d));
    lemma_scale_split(a, 1, 2 * d);
    assert(q.rotate(a) =~= b.scale(2 + 2 * d).add(a.scale(1 + 2 * d).neg()));
}

} // verus!
