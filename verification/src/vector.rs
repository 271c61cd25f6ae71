//! Three-component vectors of `Scalar`s: construction, access, swizzles and
//! sign changes. Sums and products are arithmetic, which the kernel does not do.

use vstd::prelude::*;
use crate::scalar::Scalar;

verus! {

/// A point, a direction or an RGB triple.
#[derive(Clone, Copy, Debug, PartialEq, Eq, Structural)]
pub struct Float3 {
    pub x: Scalar,
    pub y: Scalar,
    pub z: Scalar,
}

/// The vector with the given components.
pub fn float3(x: Scalar, y: Scalar, z: Scalar) -> (v: Float3)
    ensures
        v == (Float3 { x, y, z }),
{
    Float3::new(x, y, z)
}

impl Float3 {
    /// The vector whose three components are positive zero.
    pub open spec fn origin() -> Float3 {
        Float3 { x: Scalar { bits: 0 }, y: Scalar { bits: 0 }, z: Scalar { bits: 0 } }
    }

    /// The vector with the sign of every component flipped.
    pub open spec fn negated(self) -> Float3 {
        Float3 { x: self.x.negated(), y: self.y.negated(), z: self.z.negated() }
    }

    /// The vector turned against a direction: kept where `cosine`, the inner
    /// product of the two, is below zero, and negated otherwise.
    pub open spec fn turned_against(self, cosine: Scalar) -> Float3 {
        if cosine.less(Scalar { bits: 0 }) {
            self
        } else {
            self.negated()
        }
    }

    /// The vector whose components are all zero.
    pub fn zero() -> (v: Float3)
        ensures
            v == Float3::origin(),
    {
        Float3 { x: Scalar::zero(), y: Scalar::zero(), z: Scalar::zero() }
    }

    /// The vector with the given components.
    pub fn new(x: Scalar, y: Scalar, z: Scalar) -> (v: Float3)
        ensures
            v == (Float3 { x, y, z }),
    {
        Float3 { x, y, z }
    }

    /// The three components.
    pub fn unwrap(self) -> (t: (Scalar, Scalar, Scalar))
        ensures
            t == (self.x, self.y, self.z),
    {
        (self.x, self.y, self.z)
    }

    /// The first component.
    pub fn get_x(self) -> (x: Scalar)
        ensures
            x == self.x,
    {
        self.x
    }

    /// The second component.
    pub fn get_y(self) -> (y: Scalar)
        ensures
            y == self.y,
    {
        self.y
    }

    /// The third component.
    pub fn get_z(self) -> (z: Scalar)
        ensures
            z == self.z,
    {
        self.z
    }

    /// Replaces the first component.
    pub fn set_x(&mut self, x: Scalar)
        ensures
            *final(self) == (Float3 { x, ..*old(self) }),
    {
        self.x = x;
    }

    /// Replaces the second component.
    pub fn set_y(&mut self, y: Scalar)
        ensures
            *final(self) == (Float3 { y, ..*old(self) }),
    {
        self.y = y;
    }

    /// Replaces the third component.
    pub fn set_z(&mut self, z: Scalar)
        ensures
            *final(self) == (Float3 { z, ..*old(self) }),
    {
        self.z = z;
    }

    /// The components rotated one place to the left.
    pub fn yzx(self) -> (v: Float3)
        ensures
            v == (Float3 { x: self.y, y: self.z, z: self.x }),
    {
        Float3 { x: self.y, y: self.z, z: self.x }
    }

    /// The components rotated one place to the right.
    pub fn zxy(self) -> (v: Float3)
        ensures
            v == (Float3 { x: self.z, y: self.x, z: self.y }),
    {
        Float3 { x: self.z, y: self.x, z: self.y }
    }

    /// Flips the sign of every component.
    pub fn neg(self) -> (v: Float3)
        ensures
            v == self.negated(),
    {
        Float3 { x: self.x.neg(), y: self.y.neg(), z: self.z.neg() }
    }

    /// Orients a surface normal against the ray that met the surface.
    /// `cosine` is the inner product of the normal and the ray's direction.
    pub fn facing(self, cosine: Scalar) -> (v: Float3)
        ensures
            v == self.turned_against(cosine),
    {
        if cosine.lt(Scalar::zero()) {
            self
        } else {
            self.neg()
        }
    }
}

/// Negating a vector twice gives it back.
pub proof fn lemma_negated_twice(v: Float3)
    ensures
        v.negated().negated() == v,
{
}

/// A normal that was turned against a ray is the normal or its negation, and
/// turning happens exactly when the normal does not already face the ray.
pub proof fn lemma_turned_against(normal: Float3, cosine: Scalar)
    ensures
        normal.turned_against(cosine) == normal || normal.turned_against(cosine)
            == normal.negated(),
        normal.turned_against(cosine) == normal <==> (cosine.less(Scalar { bits: 0 })
            || normal.negated() == normal),
{
}

} // verus!
