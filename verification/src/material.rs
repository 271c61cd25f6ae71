//! Surface materials.

use vstd::prelude::*;
use crate::scalar::{Scalar, ONE_BITS};
use crate::vector::Float3;

verus! {

/// How a surface scatters light.
#[derive(Clone, Copy, Debug, PartialEq, Eq, Structural)]
pub enum BSDF {
    Diffuse,
    Mirror,
    Glass,
}

/// What a surface emits, what it reflects, and how.
#[derive(Clone, Copy, Debug, PartialEq, Eq, Structural)]
pub struct Material {
    pub emission: Float3,
    pub albedo: Float3,
    pub bsdf: BSDF,
}

impl Material {
    /// The diffuse material that neither emits nor reflects.
    pub open spec fn spec_black() -> Material {
        Material { emission: Float3::origin(), albedo: Float3::origin(), bsdf: BSDF::Diffuse }
    }

    /// The diffuse material that reflects everything.
    pub open spec fn spec_white() -> Material {
        Material {
            emission: Float3::origin(),
            albedo: Float3 {
                x: Scalar { bits: ONE_BITS },
                y: Scalar { bits: ONE_BITS },
                z: Scalar { bits: ONE_BITS },
            },
            bsdf: BSDF::Diffuse,
        }
    }

    /// A material from its emission, albedo and scattering.
    pub fn new(emission: Float3, albedo: Float3, bsdf: BSDF) -> (m: Material)
        ensures
            m == (Material { emission, albedo, bsdf }),
    {
        Material { emission, albedo, bsdf }
    }

    /// The diffuse material that neither emits nor reflects.
    pub fn black() -> (m: Material)
        ensures
            m == Material::spec_black(),
    {
        Material { emission: Float3::zero(), albedo: Float3::zero(), bsdf: BSDF::Diffuse }
    }

    /// The diffuse material that reflects everything.
    pub fn white() -> (m: Material)
        ensures
            m == Material::spec_white(),
    {
        Material {
            emission: Float3::zero(),
            albedo: Float3::new(Scalar::one(), Scalar::one(), Scalar::one()),
            bsdf: BSDF::Diffuse,
        }
    }
}

} // verus!
