//! Triangles: their bounding boxes, and when barycentric coordinates lie on
//! the face.

use vstd::prelude::*;
use crate::hit::Hit;
use crate::material::Material;
use crate::scalar::{Scalar, INFINITY_BITS, ONE_BITS, SIGN_BIT};
use crate::vector::Float3;

verus! {

/// The bit pattern of negative infinity.
pub const NEG_INFINITY_BITS: u32 = SIGN_BIT + INFINITY_BITS;

/// An axis-aligned box, by its least and its greatest corner.
#[derive(Clone, Copy, Debug, PartialEq, Eq, Structural)]
pub struct Bounds {
    pub min: Float3,
    pub max: Float3,
}

impl Bounds {
    /// The box that holds no point: its least corner lies at positive
    /// infinity and its greatest at negative infinity.
    pub open spec fn nothing() -> Bounds {
        Bounds {
            min: Float3 {
                x: Scalar { bits: INFINITY_BITS },
                y: Scalar { bits: INFINITY_BITS },
                z: Scalar { bits: INFINITY_BITS },
            },
            max: Float3 {
                x: Scalar { bits: NEG_INFINITY_BITS },
                y: Scalar { bits: NEG_INFINITY_BITS },
                z: Scalar { bits: NEG_INFINITY_BITS },
            },
        }
    }

    /// The least box that holds this box and the point: along each axis the
    /// smaller of the least corner and the point, and the larger of the
    /// greatest corner and the point.
    pub open spec fn grown(self, point: Float3) -> Bounds {
        Bounds {
            min: Float3 {
                x: self.min.x.smaller(point.x),
                y: self.min.y.smaller(point.y),
                z: self.min.z.smaller(point.z),
            },
            max: Float3 {
                x: self.max.x.larger(point.x),
                y: self.max.y.larger(point.y),
                z: self.max.z.larger(point.z),
            },
        }
    }

    /// Whether the point lies in the box, its faces included.
    pub open spec fn holds(self, point: Float3) -> bool {
        &&& self.min.x.at_most(point.x) && point.x.at_most(self.max.x)
        &&& self.min.y.at_most(point.y) && point.y.at_most(self.max.y)
        &&& self.min.z.at_most(point.z) && point.z.at_most(self.max.z)
    }

    /// The least box around three points.
    pub open spec fn around(p0: Float3, p1: Float3, p2: Float3) -> Bounds {
        Bounds::nothing().grown(p0).grown(p1).grown(p2)
    }

    /// The box that holds no point.
    pub fn empty() -> (b: Bounds)
        ensures
            b == Bounds::nothing(),
    {
        let high = Scalar::infinity();
        let low = Scalar::from_bits(NEG_INFINITY_BITS);
        Bounds { min: Float3::new(high, high, high), max: Float3::new(low, low, low) }
    }

    /// The least box that holds this box and the point.
    pub fn grow(&self, other: &Float3) -> (b: Bounds)
        ensures
            b == self.grown(*other),
    {
        Bounds {
            min: Float3::new(
                self.min.x.min(other.x),
                self.min.y.min(other.y),
                self.min.z.min(other.z),
            ),
            max: Float3::new(
                self.max.x.max(other.x),
                self.max.y.max(other.y),
                self.max.z.max(other.z),
            ),
        }
    }
}

/// Whether the three components of a point are numbers.
pub open spec fn is_point(p: Float3) -> bool {
    !p.x.nan() && !p.y.nan() && !p.z.nan()
}

/// A box that was grown by a point holds the point, and still holds every
/// point that it held before.
pub proof fn lemma_grown_holds(b: Bounds, point: Float3, other: Float3)
    requires
        is_point(point),
    ensures
        b.grown(point).holds(point),
        b.holds(other) ==> b.grown(point).holds(other),
{
}

/// Along one axis: the least of three numbers, found by growing from
/// positive infinity, is one of them and at most each; the greatest, found by
/// growing from negative infinity, is one of them and at least each.
proof fn lemma_extremes(a: Scalar, b: Scalar, c: Scalar)
    requires
        !a.nan(),
        !b.nan(),
        !c.nan(),
    ensures
        ({
            let least = (Scalar { bits: INFINITY_BITS }).smaller(a).smaller(b).smaller(c);
            let greatest = (Scalar { bits: NEG_INFINITY_BITS }).larger(a).larger(b).larger(c);
            &&& least == a || least == b || least == c
            &&& least.at_most(a) && least.at_most(b) && least.at_most(c)
            &&& greatest == a || greatest == b || greatest == c
            &&& a.at_most(greatest) && b.at_most(greatest) && c.at_most(greatest)
        }),
{
}

/// The box around three points holds all three, and every box that holds all
/// three holds the box's two corners: it is the least one.
pub proof fn lemma_around_is_tight(p0: Float3, p1: Float3, p2: Float3, other: Bounds)
    requires
        is_point(p0),
        is_point(p1),
        is_point(p2),
    ensures
        Bounds::around(p0, p1, p2).holds(p0),
        Bounds::around(p0, p1, p2).holds(p1),
        Bounds::around(p0, p1, p2).holds(p2),
        other.holds(p0) && other.holds(p1) && other.holds(p2) ==> other.holds(
            Bounds::around(p0, p1, p2).min,
        ) && other.holds(Bounds::around(p0, p1, p2).max),
{
    lemma_extremes(p0.x, p1.x, p2.x);
    lemma_extremes(p0.y, p1.y, p2.y);
    lemma_extremes(p0.z, p1.z, p2.z);
}

/// Three corners, the face normal, a normal at each corner, a material, the
/// bounding box of the corners, and the index of the node that holds the
/// triangle in an acceleration structure.
#[derive(Clone, Copy, Debug, PartialEq, Eq, Structural)]
pub struct Triangle {
    pub p0: Float3,
    pub p1: Float3,
    pub p2: Float3,
    pub normal: Float3,
    pub n0: Float3,
    pub n1: Float3,
    pub n2: Float3,
    pub material: Material,
    pub bounds: Bounds,
    pub node_index: usize,
}

impl Triangle {
    /// The point with barycentric coordinates `u` and `v` lies on the face
    /// where `0 <= u <= 1`, `v` is not below zero, and `sum`, which is
    /// `u + v`, is not above one.
    pub open spec fn on_face(u: Scalar, v: Scalar, sum: Scalar) -> bool {
        &&& (Scalar { bits: 0 }).at_most(u)
        &&& u.at_most(Scalar { bits: ONE_BITS })
        &&& !v.less(Scalar { bits: 0 })
        &&& !(Scalar { bits: ONE_BITS }).less(sum)
    }

    /// A triangle with flat shading: the face normal stands at every corner.
    pub fn new(p0: Float3, p1: Float3, p2: Float3, normal: Float3, material: Material) -> (t:
        Triangle)
        ensures
            t == (Triangle {
                p0,
                p1,
                p2,
                normal,
                n0: normal,
                n1: normal,
                n2: normal,
                material,
                bounds: Bounds::around(p0, p1, p2),
                node_index: 0,
            }),
    {
        Triangle {
            p0,
            p1,
            p2,
            normal,
            n0: normal,
            n1: normal,
            n2: normal,
            material,
            bounds: Bounds::empty().grow(&p0).grow(&p1).grow(&p2),
            node_index: 0,
        }
    }

    /// A triangle with a normal of its own at each corner.
    pub fn new_ext(
        p0: Float3,
        p1: Float3,
        p2: Float3,
        n0: Float3,
        n1: Float3,
        n2: Float3,
        normal: Float3,
        material: Material,
    ) -> (t: Triangle)
        ensures
            t == (Triangle {
                p0,
                p1,
                p2,
                normal,
                n0,
                n1,
                n2,
                material,
                bounds: Bounds::around(p0, p1, p2),
                node_index: 0,
            }),
    {
        Triangle {
            p0,
            p1,
            p2,
            normal,
            n0,
            n1,
            n2,
            material,
            bounds: Bounds::empty().grow(&p0).grow(&p1).grow(&p2),
            node_index: 0,
        }
    }

    /// The bounding box of the corners, as it was when the triangle was made.
    pub fn aabb(&self) -> (b: Bounds)
        ensures
            b == self.bounds,
    {
        self.bounds
    }

    /// Notes the node that holds the triangle in an acceleration structure.
    pub fn set_bh_node_index(&mut self, index: usize)
        ensures
            *final(self) == (Triangle { node_index: index, ..*old(self) }),
    {
        self.node_index = index;
    }

    /// The node that holds the triangle in an acceleration structure.
    pub fn bh_node_index(&self) -> (index: usize)
        ensures
            index == self.node_index,
    {
        self.node_index
    }

    /// Whether the point where a ray meets the triangle's plane lies on the
    /// face, by its barycentric coordinates.
    pub fn inside(u: Scalar, v: Scalar, sum: Scalar) -> (hit: bool)
        ensures
            hit == Self::on_face(u, v, sum),
    {
        let zero = Scalar::zero();
        let one = Scalar::one();
        if !(zero.le(u) && u.le(one)) {
            return false;
        }
        if v.lt(zero) || sum.gt(one) {
            return false;
        }
        true
    }

    /// Writes the hit at distance `t` into the record: the point `p`, the
    /// weights `b` of the three corners, the normal interpolated with those
    /// weights and turned against the ray, and the triangle's material.
    /// `cosine` is the inner product of `normal` and the ray's direction.
    pub fn record(
        &self,
        t: Scalar,
        p: Float3,
        b: Float3,
        normal: Float3,
        cosine: Scalar,
        result: &mut Hit,
    )
        ensures
            *final(result) == (Hit {
                p,
                n: normal.turned_against(cosine),
                t,
                b,
                material: self.material,
            }),
    {
        result.t = t;
        result.p = p;
        result.material = self.material;
        result.b = b;
        result.n = normal.facing(cosine);
    }
}

/// A point on the face has both coordinates and their sum between zero and
/// one, as far as these are numbers.
pub proof fn lemma_on_face_is_bounded(u: Scalar, v: Scalar, sum: Scalar)
    requires
        Triangle::on_face(u, v, sum),
    ensures
        u.rank() >= 0,
        u.rank() <= ONE_BITS,
        !v.nan() ==> v.rank() >= 0,
        !sum.nan() ==> sum.rank() <= ONE_BITS,
{
}

/// A point with a coordinate below zero, with `u` above one or no number, or
/// with a sum above one, is off the face.
pub proof fn lemma_off_face(u: Scalar, v: Scalar, sum: Scalar)
    requires
        u.less(Scalar { bits: 0 }) || (Scalar { bits: ONE_BITS }).less(u) || u.nan() || v.less(
            Scalar { bits: 0 },
        ) || (Scalar { bits: ONE_BITS }).less(sum),
    ensures
        !Triangle::on_face(u, v, sum),
{
}

} // verus!
