//! Rectangles: a plane, and bounds along two axes in it.

use vstd::prelude::*;
use crate::hit::Hit;
use crate::material::Material;
use crate::plane::Plane;
use crate::scalar::Scalar;
use crate::vector::Float3;

verus! {

/// A rectangle around `position` in the plane with normal `normal`: `width`
/// along the axis `left` and `height` along the axis `up`.
#[derive(Clone, Copy, Debug, PartialEq, Eq, Structural)]
pub struct Rectangle {
    pub position: Float3,
    pub normal: Float3,
    pub left: Float3,
    pub up: Float3,
    pub width: Scalar,
    pub height: Scalar,
    pub material: Material,
}

impl Rectangle {
    /// A point of the supporting plane lies on the rectangle where its
    /// offset from the centre, projected on each of the two axes, is at most
    /// half the extent along that axis, on either side.
    pub open spec fn covers(
        along_left: Scalar,
        along_up: Scalar,
        half_width: Scalar,
        half_height: Scalar,
    ) -> bool {
        along_left.absolute().at_most(half_width) && along_up.absolute().at_most(half_height)
    }

    /// A rectangle from its centre, normal, two axes, two extents and material.
    pub fn new(
        position: Float3,
        normal: Float3,
        left: Float3,
        up: Float3,
        width: Scalar,
        height: Scalar,
        material: Material,
    ) -> (r: Rectangle)
        ensures
            r == (Rectangle { position, normal, left, up, width, height, material }),
    {
        Rectangle { position, normal, left, up, width, height, material }
    }

    /// The infinite plane that the rectangle lies in.
    pub fn plane(&self) -> (p: Plane)
        ensures
            p == (Plane { position: self.position, normal: self.normal, material: self.material }),
    {
        Plane::new(self.position, self.normal, self.material)
    }

    /// Whether a hit on the supporting plane lies on the rectangle.
    /// `along_left` and `along_up` are the inner products of the hit point's
    /// offset from the centre with the two axes.
    pub fn within(
        along_left: Scalar,
        along_up: Scalar,
        half_width: Scalar,
        half_height: Scalar,
    ) -> (inside: bool)
        ensures
            inside == Self::covers(along_left, along_up, half_width, half_height),
    {
        along_left.abs().le(half_width) && along_up.abs().le(half_height)
    }

    /// Writes a hit that lies on the rectangle into the record, after the
    /// supporting plane has written its own: the point `p`, the rectangle's
    /// normal turned against the ray, and its material.
    pub fn record(&self, p: Float3, cosine: Scalar, result: &mut Hit)
        ensures
            *final(result) == (Hit {
                p,
                n: self.normal.turned_against(cosine),
                material: self.material,
                ..*old(result)
            }),
    {
        result.p = p;
        result.n = self.normal.facing(cosine);
        result.material = self.material;
    }
}

/// A point of the plane that lies beyond half the width along the left axis,
/// or beyond half the height along the up axis, is no hit.
pub proof fn lemma_outside_bounds_misses(
    along_left: Scalar,
    along_up: Scalar,
    half_width: Scalar,
    half_height: Scalar,
)
    requires
        half_width.less(along_left.absolute()) || half_height.less(along_up.absolute()),
    ensures
        !Rectangle::covers(along_left, along_up, half_width, half_height),
{
}

/// Whether a point is covered depends on neither the side of the centre it
/// lies on.
pub proof fn lemma_bounds_are_symmetric(
    along_left: Scalar,
    along_up: Scalar,
    half_width: Scalar,
    half_height: Scalar,
)
    ensures
        Rectangle::covers(along_left, along_up, half_width, half_height) == Rectangle::covers(
            along_left.negated(),
            along_up.negated(),
            half_width,
            half_height,
        ),
{
}

} // verus!
