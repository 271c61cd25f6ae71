//! Spheres: which root of the quadratic is the hit.

use vstd::prelude::*;
use vstd::arithmetic::power2::lemma2_to64;
use crate::hit::Hit;
use crate::material::Material;
use crate::scalar::{lemma_rounds, Scalar};
use crate::vector::Float3;

verus! {

/// The bit pattern of `0.01`: a root counts only beyond this distance.
pub const SPHERE_OFFSET_BITS: u32 = 0x3c23_d70a;

/// `SPHERE_OFFSET_BITS` is the binary32 number nearest to one hundredth.
pub proof fn lemma_offset_is_a_hundredth()
    ensures
        (Scalar { bits: SPHERE_OFFSET_BITS }).rounds(1, 100),
{
    let offset = Scalar { bits: SPHERE_OFFSET_BITS };
    assert(offset.exponent() == 120 && offset.fraction() == 2_348_810);
    lemma2_to64();
    lemma_rounds(offset, 10_737_418, 30, 1, 100);
}

/// A sphere of radius `radius` around `position`.
#[derive(Clone, Copy, Debug, PartialEq, Eq, Structural)]
pub struct Sphere {
    pub radius: Scalar,
    pub position: Float3,
    pub material: Material,
}

impl Sphere {
    /// Whether a root lies far enough along the ray.
    pub open spec fn beyond_offset(root: Scalar) -> bool {
        (Scalar { bits: SPHERE_OFFSET_BITS }).less(root)
    }

    /// The distance of the hit, given the discriminant of
    /// `|o + t d - c|^2 = r^2` and its two roots `near <= far`: none unless
    /// the discriminant is above zero; else the near root where it lies
    /// beyond the offset; else the far root where that one does.
    pub open spec fn root(discriminant: Scalar, near: Scalar, far: Scalar) -> Option<Scalar> {
        if discriminant.at_most(Scalar { bits: 0 }) {
            None
        } else if Self::beyond_offset(near) {
            Some(near)
        } else if Self::beyond_offset(far) {
            Some(far)
        } else {
            None
        }
    }

    /// A sphere from its radius, centre and material.
    pub fn new(radius: Scalar, position: Float3, material: Material) -> (s: Sphere)
        ensures
            s == (Sphere { radius, position, material }),
    {
        Sphere { radius, position, material }
    }

    /// Chooses the root at which a ray meets a sphere. With `b` the inner
    /// product of the ray's direction and the vector to the centre, and `det`
    /// the square root of the discriminant, `near` is `b - det` and `far` is
    /// `b + det`.
    pub fn hit_distance(discriminant: Scalar, near: Scalar, far: Scalar) -> (t: Option<Scalar>)
        ensures
            t == Self::root(discriminant, near, far),
    {
        let offset = Scalar::from_bits(SPHERE_OFFSET_BITS);
        if discriminant.le(Scalar::zero()) {
            None
        } else if near.gt(offset) {
            Some(near)
        } else if far.gt(offset) {
            Some(far)
        } else {
            None
        }
    }

    /// Writes the hit at distance `t` into the record: the point `p`, the
    /// normal turned against the ray, and the sphere's material. `cosine` is
    /// the inner product of `normal` and the ray's direction.
    pub fn record(&self, t: Scalar, p: Float3, normal: Float3, cosine: Scalar, result: &mut Hit)
        ensures
            *final(result) == (Hit {
                p,
                n: normal.turned_against(cosine),
                t,
                b: old(result).b,
                material: self.material,
            }),
    {
        result.t = t;
        result.p = p;
        result.n = normal.facing(cosine);
        result.material = self.material;
    }
}

/// A ray that touches the sphere in one point, where the discriminant is
/// exactly zero, does not hit it; nor does one whose discriminant is below
/// zero.
pub proof fn lemma_tangent_ray_misses(discriminant: Scalar, near: Scalar, far: Scalar)
    requires
        discriminant.same(Scalar { bits: 0 }) || discriminant.less(Scalar { bits: 0 }),
    ensures
        Sphere::root(discriminant, near, far) is None,
{
}

/// From outside the sphere, where both roots lie beyond the offset, the hit
/// is the near root; from inside, where only the far root does, it is the far
/// root. Either way no root beyond the offset is nearer than the hit.
pub proof fn lemma_root_is_nearest(discriminant: Scalar, near: Scalar, far: Scalar)
    requires
        (Scalar { bits: 0 }).less(discriminant),
        near.at_most(far),
    ensures
        Sphere::beyond_offset(near) ==> Sphere::root(discriminant, near, far) == Some(near),
        !Sphere::beyond_offset(near) && Sphere::beyond_offset(far) ==> Sphere::root(
            discriminant,
            near,
            far,
        ) == Some(far),
        Sphere::root(discriminant, near, far) matches Some(t) ==> Sphere::beyond_offset(t) && (
        Sphere::beyond_offset(near) ==> t.at_most(near)) && (Sphere::beyond_offset(far)
            ==> t.at_most(far)),
        Sphere::root(discriminant, near, far) is None <==> !Sphere::beyond_offset(far),
{
}

} // verus!
