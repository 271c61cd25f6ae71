//! Infinite planes: when a ray meets the front of one.

use vstd::prelude::*;
use crate::hit::Hit;
use crate::material::Material;
use crate::scalar::Scalar;
use crate::scene::EPSILON_BITS;
use crate::vector::Float3;

verus! {

/// An infinite plane through `position`, whose front looks along `normal`.
#[derive(Clone, Copy, Debug, PartialEq, Eq, Structural)]
pub struct Plane {
    pub position: Float3,
    pub normal: Float3,
    pub material: Material,
}

impl Plane {
    /// A ray meets the plane where `denominator`, the inner product of the
    /// negated normal and the ray's direction, is above `1e-6`.
    pub open spec fn met(denominator: Scalar) -> bool {
        (Scalar { bits: EPSILON_BITS }).less(denominator)
    }

    /// A plane through a point with a normal and a material.
    pub fn new(position: Float3, normal: Float3, material: Material) -> (p: Plane)
        ensures
            p == (Plane { position, normal, material }),
    {
        Plane { position, normal, material }
    }

    /// Whether a ray meets the plane: not where it runs along the plane,
    /// grazes it or looks away from its front.
    pub fn faces(denominator: Scalar) -> (hit: bool)
        ensures
            hit == Self::met(denominator),
    {
        denominator.gt(Scalar::from_bits(EPSILON_BITS))
    }

    /// Writes the hit at distance `t` into the record: the point `p`, the
    /// plane's normal turned against the ray, and the plane's material.
    /// `cosine` is the inner product of the plane's normal and the ray's
    /// direction.
    pub fn record(&self, t: Scalar, p: Float3, cosine: Scalar, result: &mut Hit)
        ensures
            *final(result) == (Hit {
                p,
                n: self.normal.turned_against(cosine),
                t,
                b: old(result).b,
                material: self.material,
            }),
    {
        result.t = t;
        result.p = p;
        result.n = self.normal.facing(cosine);
        result.material = self.material;
    }
}

/// A ray parallel to the plane, or any whose denominator is at most `1e-6`
/// or no number, does not hit it.
pub proof fn lemma_parallel_ray_misses(denominator: Scalar)
    requires
        denominator.at_most(Scalar { bits: EPSILON_BITS }) || denominator.nan(),
    ensures
        !Plane::met(denominator),
{
}

} // verus!
