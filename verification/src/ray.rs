//! Rays.

use vstd::prelude::*;
use crate::vector::Float3;

verus! {

/// A half-line: where it starts and where it points. The direction is
/// expected to have unit length; nothing enforces it.
#[derive(Clone, Copy, Debug, PartialEq, Eq, Structural)]
pub struct Ray {
    pub origin: Float3,
    pub direction: Float3,
}

impl Ray {
    /// A ray from its origin and direction.
    pub fn new(origin: Float3, direction: Float3) -> (r: Ray)
        ensures
            r == (Ray { origin, direction }),
    {
        Ray { origin, direction }
    }
}

} // verus!
