//! The record of a ray meeting a surface.

use vstd::prelude::*;
use crate::material::Material;
use crate::scalar::{Scalar, INFINITY_BITS};
use crate::vector::Float3;

verus! {

/// Where a ray met a surface: the point `p`, the normal `n` turned against the
/// ray, the distance `t` along the ray, the barycentric weights `b`, and the
/// surface's material.
#[derive(Clone, Copy, Debug, PartialEq, Eq, Structural)]
pub struct Hit {
    pub p: Float3,
    pub n: Float3,
    pub t: Scalar,
    pub b: Float3,
    pub material: Material,
}

impl Hit {
    /// The record of no hit yet: infinitely far away, on a black surface.
    pub open spec fn nowhere() -> Hit {
        Hit {
            p: Float3::origin(),
            n: Float3::origin(),
            t: Scalar { bits: INFINITY_BITS },
            b: Float3::origin(),
            material: Material::spec_black(),
        }
    }

    /// A record from its five parts.
    pub fn new(p: Float3, n: Float3, t: Scalar, b: Float3, material: Material) -> (h: Hit)
        ensures
            h == (Hit { p, n, t, b, material }),
    {
        Hit { p, n, t, b, material }
    }

    /// The record that a query starts from: no hit yet.
    pub fn init() -> (h: Hit)
        ensures
            h == Hit::nowhere(),
    {
        Hit {
            p: Float3::zero(),
            n: Float3::zero(),
            t: Scalar::infinity(),
            b: Float3::zero(),
            material: Material::black(),
        }
    }
}

} // verus!
