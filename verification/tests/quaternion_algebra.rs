//! Exercises the quaternion algebra on concrete values, including the
//! exactly representable rotation scenarios: half-turns about coordinate
//! axes and rotations about an axis parallel to the vector.

#[test]
fn identity_values() {
    let q = quaternion::id();
    assert_eq!(q, (1, (0, 0, 0)));
}

#[test]
fn add_componentwise() {
    let r = quaternion::add((1, (2, 3, 4)), (10, (20, 30, 40)));
    assert_eq!(r, (11, (22, 33, 44)));
}

#[test]
fn scale_componentwise() {
    let r = quaternion::scale((1, (2, 3, 4)), 3);
    assert_eq!(r, (3, (6, 9, 12)));
}

#[test]
fn dot_concrete() {
    let r = quaternion::dot((1, (2, 3, 4)), (5, (6, 7, 8)));
    assert_eq!(r, 70);
}

#[test]
fn mul_imaginary_units() {
    // i * j == k in the Hamilton product.
    let r = quaternion::mul((0, (1, 0, 0)), (0, (0, 1, 0)));
    assert_eq!(r, (0, (0, 0, 1)));
}

#[test]
fn mul_concrete() {
    let r = quaternion::mul((1, (2, 3, 4)), (5, (6, 7, 8)));
    assert_eq!(r, (-60, (12, 30, 24)));
}

#[test]
fn mul_identity_both_sides() {
    let q = (3, (-2, 5, 7));
    assert_eq!(quaternion::mul(q, quaternion::id()), q);
    assert_eq!(quaternion::mul(quaternion::id(), q), q);
}

#[test]
fn conj_negates_vector_part() {
    let r = quaternion::conj((1, (2, -3, 4)));
    assert_eq!(r, (1, (-2, 3, -4)));
}

#[test]
fn square_len_concrete() {
    assert_eq!(quaternion::square_len((1, (2, 3, 4))), 30);
}

#[test]
fn conj_preserves_square_len() {
    let q = (3, (-2, 5, 7));
    assert_eq!(
        quaternion::square_len(quaternion::conj(q)),
        quaternion::square_len(q)
    );
    assert_eq!(quaternion::square_len(q), 87);
}

#[test]
fn axis_angle_half_turn_is_unit() {
    // The axis-angle quaternion for a half-turn about the y axis: the
    // half-angle has cosine zero and sine one, so the quaternion is
    // (0, (0, 1, 0)), a unit quaternion.
    let q = (0, (0, 1, 0));
    assert_eq!(quaternion::square_len(q), 1);
}

#[test]
fn rotate_half_turn_about_y() {
    // A half-turn about the y axis sends (1, 1, 1) to (-1, 1, -1).
    let q = (0, (0, 1, 0));
    let r = quaternion::rotate_vector(q, (1, 1, 1));
    assert_eq!(r, (-1, 1, -1));
}

#[test]
fn euler_half_turn_about_y() {
    // The Euler-angle formula for a half-turn about the y axis alone:
    // the x and z half-angles have cosine one and sine zero, the y
    // half-angle has cosine zero and sine one.
    let (cx, sx): (i64, i64) = (1, 0);
    let (cy, sy): (i64, i64) = (0, 1);
    let (cz, sz): (i64, i64) = (1, 0);
    let q = (
        cx * cy * cz + sx * sy * sz,
        (
            sx * cy * cz - cx * sy * sz,
            cx * sy * cz + sx * cy * sz,
            cx * cy * sz - sx * sy * cz,
        ),
    );
    assert_eq!(q, (0, (0, 1, 0)));
    assert_eq!(quaternion::square_len(q), 1);
    let r = quaternion::rotate_vector(q, (1, 1, 1));
    assert_eq!(r, (-1, 1, -1));
}

#[test]
fn euler_three_half_turns_is_identity() {
    // Half-turns about x, y and z in turn compose to no rotation at
    // all: every half-angle has cosine zero and sine one, and the
    // Euler formula collapses to the identity quaternion.
    let (cx, sx): (i64, i64) = (0, 1);
    let (cy, sy): (i64, i64) = (0, 1);
    let (cz, sz): (i64, i64) = (0, 1);
    let q = (
        cx * cy * cz + sx * sy * sz,
        (
            sx * cy * cz - cx * sy * sz,
            cx * sy * cz + sx * cy * sz,
            cx * cy * sz - sx * sy * cz,
        ),
    );
    assert_eq!(q, quaternion::id());
    assert_eq!(quaternion::square_len(q), 1);
}

#[test]
fn euler_two_half_turns() {
    // Half-turns about x then y compose to a half-turn about z, with
    // the vector part pointing down the negative z axis.
    let (cx, sx): (i64, i64) = (0, 1);
    let (cy, sy): (i64, i64) = (0, 1);
    let (cz, sz): (i64, i64) = (1, 0);
    let q = (
        cx * cy * cz + sx * sy * sz,
        (
            sx * cy * cz - cx * sy * sz,
            cx * sy * cz + sx * cy * sz,
            cx * cy * sz - sx * sy * cz,
        ),
    );
    assert_eq!(q, (0, (0, 0, -1)));
    assert_eq!(quaternion::square_len(q), 1);
    let r = quaternion::rotate_vector(q, (1, 1, 1));
    assert_eq!(r, (-1, -1, 1));
}

#[test]
fn rotate_about_parallel_axis() {
    // Rotating a vector about an axis parallel to it changes nothing.
    let q = (0, (1, 0, 0));
    let r = quaternion::rotate_vector(q, (5, 0, 0));
    assert_eq!(r, (5, 0, 0));
}

#[test]
fn rotate_antiparallel_half_turn() {
    // A half-turn about a unit axis orthogonal to the vector negates it.
    let q = (0, (0, 1, 0));
    let r = quaternion::rotate_vector(q, (1, 0, 0));
    assert_eq!(r, (-1, 0, 0));
}

#[test]
fn square_len_multiplicative() {
    let a = (1, (2, 3, 4));
    let b = (5, (6, 7, 8));
    assert_eq!(
        quaternion::square_len(quaternion::mul(a, b)),
        quaternion::square_len(a) * quaternion::square_len(b)
    );
}

#[test]
fn rotate_preserves_square_len() {
    // The vector and its image under a half-turn about the y axis have
    // the same squared length.
    let q = (0, (0, 1, 0));
    let v = (3, -4, 12);
    let r = quaternion::rotate_vector(q, v);
    assert_eq!(r.0 * r.0 + r.1 * r.1 + r.2 * r.2, 3 * 3 + 4 * 4 + 12 * 12);
}

#[test]
fn rotate_by_half_way_quaternion() {
    // The half-way-vector quaternion from (1,0,0) toward (0,1,0) is
    // (1, (0, 0, 1)).  Rotating (1,0,0) by it gives the target scaled by
    // the quaternion's squared length, less the source: (-1, 2, 0).
    let q = (1, (0, 0, 1));
    assert_eq!(quaternion::square_len(q), 2);
    let r = quaternion::rotate_vector(q, (1, 0, 0));
    assert_eq!(r, (-1, 2, 0));
}

#[test]
fn rotate_at_the_range_bound() {
    // The largest components the rotation admits stay exact.
    let b: i64 = 524288;
    let q = (0, (0, b, 0));
    let r = quaternion::rotate_vector(q, (b, b, b));
    assert_eq!(r, (b - 2 * b * b * b, b, b - 2 * b * b * b));
}
