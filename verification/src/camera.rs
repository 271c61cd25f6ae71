//! The camera's frame.

use vstd::prelude::*;
use crate::vector::Float3;

verus! {

/// An origin and three axes. `right` and `up` are scaled to the field of view
/// for the target aspect ratio.
#[derive(Clone, Copy, Debug, PartialEq, Eq, Structural)]
pub struct Camera {
    pub origin: Float3,
    pub forward: Float3,
    pub right: Float3,
    pub up: Float3,
}

impl Camera {
    /// A camera from its origin and three axes.
    pub fn new(origin: Float3, forward: Float3, right: Float3, up: Float3) -> (c: Camera)
        ensures
            c == (Camera { origin, forward, right, up }),
    {
        Camera { origin, forward, right, up }
    }
}

} // verus!
