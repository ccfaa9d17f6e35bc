//! The mathematical model: quaternions and three-component vectors over
//! the unbounded integers, with the algebra written as spec functions.
//! The executable operations are specified against this model, and the
//! algebraic laws in `laws` are stated and proved over it.

use vstd::prelude::*;

verus! {

/// A three-component vector over the unbounded integers.
#[verifier::ext_equal]
pub ghost struct Vec3 {
    pub x: int,
    pub y: int,
    pub z: int,
}

impl Vec3 {
    /// The zero vector.
    pub open spec fn zero() -> Vec3 {
        Vec3 { x: 0, y: 0, z: 0 }
    }

    /// Componentwise sum.
    pub open spec fn add(self, o: Vec3) -> Vec3 {
        Vec3 { x: self.x + o.x, y: self.y + o.y, z: self.z + o.z }
    }

    /// Each component multiplied by `t`.
    pub open spec fn scale(self, t: int) -> Vec3 {
        Vec3 { x: self.x * t, y: self.y * t, z: self.z * t }
    }

    /// Componentwise negation.
    pub open spec fn neg(self) -> Vec3 {
        Vec3 { x: -self.x, y: -self.y, z: -self.z }
    }

    /// Dot product.
    pub open spec fn dot(self, o: Vec3) -> int {
        self.x * o.x + self.y * o.y + self.z * o.z
    }

    /// Cross product.
    pub open spec fn cross(self, o: Vec3) -> Vec3 {
        Vec3 {
            x: self.y * o.z - self.z * o.y,
            y: self.z * o.x - self.x * o.z,
            z: self.x * o.y - self.y * o.x,
        }
    }

    /// Squared length.
    pub open spec fn sqlen(self) -> int {
        self.dot(self)
    }

    /// All components within `[-b, b]`.
    pub open spec fn bounded(self, b: int) -> bool {
        &&& -b <= self.x <= b
        &&& -b <= self.y <= b
        &&& -b <= self.z <= b
    }
}

/// A quaternion over the unbounded integers: a scalar part `w` and a
/// vector part `v`.
#[verifier::ext_equal]
pub ghost struct Quat {
    pub w: int,
    pub v: Vec3,
}

impl Quat {
    /// The multiplicative identity: scalar one, zero vector part.
    pub open spec fn id() -> Quat {
        Quat { w: 1, v: Vec3::zero() }
    }

    /// A pure quaternion: zero scalar part, vector part `v`.
    pub open spec fn from_vec(v: Vec3) -> Quat {
        Quat { w: 0, v: v }
    }

    /// Componentwise sum.
    pub open spec fn add(self, o: Quat) -> Quat {
        Quat { w: self.w + o.w, v: self.v.add(o.v) }
    }

    /// Each component multiplied by `t`.
    pub open spec fn scale(self, t: int) -> Quat {
        Quat { w: self.w * t, v: self.v.scale(t) }
    }

    /// Dot product of two quaternions, taken as four-component vectors.
    pub open spec fn dot(self, o: Quat) -> int {
        self.w * o.w + self.v.dot(o.v)
    }

    /// The Hamilton product.  Non-commutative; `a.mul(b)` is the rotation
    /// that applies `b` first and then `a`.
    pub open spec fn mul(self, o: Quat) -> Quat {
        Quat {
            w: self.w * o.w - self.v.dot(o.v),
            v: o.v.scale(self.w).add(self.v.scale(o.w)).add(self.v.cross(o.v)),
        }
    }

    /// The conjugate: vector part negated, scalar part unchanged.
    pub open spec fn conj(self) -> Quat {
        Quat { w: self.w, v: self.v.neg() }
    }

    /// Squared length: `w * w` plus the squared length of the vector part.
    pub open spec fn sqlen(self) -> int {
        self.w * self.w + self.v.sqlen()
    }

    /// The rotation of `p` by `self`, in the doubled-cross-product form
    /// `p + w * t + v × t` with `t = 2 (v × p)`.  It agrees with the
    /// sandwich product `self * (0, p) * conj(self)` exactly when `self`
    /// has squared length one; `laws` proves that.
    pub open spec fn rotate(self, p: Vec3) -> Vec3 {
        let t = self.v.cross(p).scale(2);
        p.add(t.scale(self.w)).add(self.v.cross(t))
    }

    /// The axis-angle quaternion `(c, axis * s)`, written with the cosine
    /// `c` and sine `s` of the half-angle.
    pub open spec fn axis_angle(c: int, s: int, axis: Vec3) -> Quat {
        Quat { w: c, v: axis.scale(s) }
    }

    /// The quaternion built from three half-angle cosine/sine pairs by the
    /// standard Euler-angle conversion formula, for the rotation that
    /// applies the x-axis rotation first, then the y, then the z.  `laws`
    /// proves that it equals the product of the three axis-angle
    /// quaternions and is always a unit quaternion.
    pub open spec fn euler(cx: int, sx: int, cy: int, sy: int, cz: int, sz: int) -> Quat {
        Quat {
            w: cx * cy * cz + sx * sy * sz,
            v: Vec3 {
                x: sx * cy * cz - cx * sy * sz,
                y: cx * sy * cz + sx * cy * sz,
                z: cx * cy * sz - sx * sy * cz,
            },
        }
    }

    /// All four components within `[-b, b]`.
    pub open spec fn bounded(self, b: int) -> bool {
        &&& -b <= self.w <= b
        &&& self.v.bounded(b)
    }
}

/// Components within this bound keep every intermediate value of the
/// product-forming operations (dot, Hamilton product, squared length)
/// inside the scalar's machine range.
pub open spec fn alg_bound() -> int {
    0x4000_0000
}

/// Components within this tighter bound do the same for the rotation of a
/// vector, whose intermediates are cubic in the inputs.
pub open spec fn rot_bound() -> int {
    0x80000
}

} // verus!
