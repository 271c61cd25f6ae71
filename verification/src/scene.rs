//! The scene: a short list of explicit surfaces, a triangle soup, and the one
//! query that the integrator makes of them, the nearest hit.

use vstd::prelude::*;
use vstd::arithmetic::power2::{lemma2_to64, lemma_pow2_adds};
use crate::hit::Hit;
use crate::ray::Ray;
use crate::scalar::{lemma_rounds, Scalar, INFINITY_BITS};

verus! {

/// The bit pattern of `1e-6`: a hit must lie farther than this along the ray,
/// so that a ray does not meet again the surface it starts on.
pub const EPSILON_BITS: u32 = 0x3586_37bd;

/// `EPSILON_BITS` is the binary32 number nearest to one millionth.
pub proof fn lemma_epsilon_is_a_millionth()
    ensures
        (Scalar { bits: EPSILON_BITS }).rounds(1, 1_000_000),
{
    lemma_pow2_adds(32, 11);
    lemma2_to64();
    lemma_rounds(Scalar { bits: EPSILON_BITS }, 8_796_093, 43, 1, 1_000_000);
}

/// The kinds of surface.
#[derive(Clone, Copy, Debug, PartialEq, Eq, Structural)]
pub enum PrimitiveType {
    Triangle,
    Plane,
    Rectangle,
    Sphere,
}

impl PrimitiveType {
    /// The number that stands for the kind: 0 for a triangle, 1 for a plane,
    /// 2 for a rectangle, 3 for a sphere.
    pub fn code(self) -> (c: u8)
        ensures
            c == match self {
                PrimitiveType::Triangle => 0u8,
                PrimitiveType::Plane => 1u8,
                PrimitiveType::Rectangle => 2u8,
                PrimitiveType::Sphere => 3u8,
            },
    {
        match self {
            PrimitiveType::Triangle => 0,
            PrimitiveType::Plane => 1,
            PrimitiveType::Rectangle => 2,
            PrimitiveType::Sphere => 3,
        }
    }
}

/// A surface that a ray can be tested against.
///
/// Implementations do the arithmetic; the kernel assumes nothing of what
/// they return.
pub trait Traceable: Send + Sync {
    /// Tests the ray against the surface. On a hit the record is filled in
    /// and `true` is returned; otherwise the record holds nothing of use.
    fn intersect(&self, ray: &Ray, result: &mut Hit) -> bool;

    /// The kind of the surface.
    fn get_primitive_type(&self) -> PrimitiveType;
}

/// What one surface answered to one ray.
#[derive(Clone, Copy, Debug, PartialEq, Eq, Structural)]
pub struct Outcome {
    pub hit: bool,
    pub record: Hit,
}

/// An answer counts when it reports a hit at a finite distance beyond the
/// epsilon offset.
pub open spec fn admissible(o: Outcome) -> bool {
    o.hit && (Scalar { bits: EPSILON_BITS }).less(o.record.t) && o.record.t.less(
        Scalar { bits: INFINITY_BITS },
    )
}

/// `i` is the first of the admissible answers with the least distance.
pub open spec fn first_minimum(outcomes: Seq<Outcome>, i: int) -> bool {
    &&& 0 <= i < outcomes.len()
    &&& admissible(outcomes[i])
    &&& forall|j: int|
        0 <= j < outcomes.len() && admissible(#[trigger] outcomes[j])
            ==> outcomes[i].record.t.at_most(outcomes[j].record.t)
    &&& forall|j: int|
        0 <= j < i && admissible(#[trigger] outcomes[j]) ==> outcomes[i].record.t.less(
            outcomes[j].record.t,
        )
}

/// The index of the nearest hit among the answers, taken in order: a later
/// answer replaces an earlier one only where it is strictly nearer.
pub open spec fn nearest_index(outcomes: Seq<Outcome>) -> Option<int>
    decreases outcomes.len(),
{
    if outcomes.len() == 0 {
        None
    } else {
        let earlier = nearest_index(outcomes.drop_last());
        let bound = match earlier {
            None => Scalar { bits: INFINITY_BITS },
            Some(i) => outcomes[i].record.t,
        };
        let o = outcomes.last();
        if o.hit && o.record.t.less(bound) && (Scalar { bits: EPSILON_BITS }).less(o.record.t) {
            Some(outcomes.len() - 1)
        } else {
            earlier
        }
    }
}

/// The record of the nearest hit among the answers, if there is one.
pub open spec fn nearest(outcomes: Seq<Outcome>) -> Option<Hit> {
    match nearest_index(outcomes) {
        None => None,
        Some(i) => Some(outcomes[i].record),
    }
}

/// The nearest hit is the first admissible answer of least distance, and
/// there is none exactly when no answer is admissible.
pub proof fn lemma_nearest_index(outcomes: Seq<Outcome>)
    ensures
        match nearest_index(outcomes) {
            None => forall|j: int| 0 <= j < outcomes.len() ==> !admissible(#[trigger] outcomes[j]),
            Some(i) => first_minimum(outcomes, i),
        },
    decreases outcomes.len(),
{
    if outcomes.len() > 0 {
        let front = outcomes.drop_last();
        lemma_nearest_index(front);
        assert(forall|j: int| 0 <= j < front.len() ==> front[j] == outcomes[j]);
    }
}

/// One more answer never moves the nearest hit away: the hit stays, or the
/// new answer is nearer and takes its place.
pub proof fn lemma_more_answers_are_never_farther(outcomes: Seq<Outcome>, o: Outcome)
    ensures
        nearest(outcomes) matches Some(h) ==> (nearest(outcomes.push(o)) == Some(h) || (nearest(
            outcomes.push(o),
        ) == Some(o.record) && o.record.t.less(h.t))),
        nearest(outcomes) is None ==> (nearest(outcomes.push(o)) == (if admissible(o) {
            Some(o.record)
        } else {
            None
        })),
{
    let more = outcomes.push(o);
    assert(more.drop_last() == outcomes);
    lemma_nearest_index(outcomes);
}

/// The distance of the nearest hit does not depend on the order in which the
/// answers come, nor on how often one comes: two lists that hold the same
/// answers have a nearest hit or none together, and at the same distance.
pub proof fn lemma_order_does_not_matter(a: Seq<Outcome>, b: Seq<Outcome>)
    requires
        forall|o: Outcome| a.contains(o) <==> b.contains(o),
    ensures
        nearest(a) is None <==> nearest(b) is None,
        nearest(a) matches Some(ha) ==> (nearest(b) matches Some(hb) && ha.t == hb.t),
{
    lemma_nearest_index(a);
    lemma_nearest_index(b);
    lemma_nearer_elsewhere(a, b);
    lemma_nearer_elsewhere(b, a);
}

/// Where one list has a nearest hit, a list that holds the same answer has
/// one that is as near or nearer.
proof fn lemma_nearer_elsewhere(a: Seq<Outcome>, b: Seq<Outcome>)
    requires
        forall|o: Outcome| a.contains(o) ==> b.contains(o),
    ensures
        nearest_index(a) matches Some(i) ==> (nearest_index(b) matches Some(k)
            && b[k].record.t.at_most(a[i].record.t)),
{
    lemma_nearest_index(a);
    lemma_nearest_index(b);
    if let Some(i) = nearest_index(a) {
        assert(a.contains(a[i]));
    }
}

/// Picks the nearest hit among the answers that surfaces gave to one ray.
pub fn nearest_hit(outcomes: &Vec<Outcome>) -> (r: Option<Hit>)
    ensures
        r == nearest(outcomes@),
        r is None <==> forall|j: int| 0 <= j < outcomes.len() ==> !admissible(#[trigger] outcomes[j]),
        r matches Some(h) ==> exists|i: int|
            first_minimum(outcomes@, i) && h == (#[trigger] outcomes[i]).record,
{
    let mut final_hit = Hit::init();
    let ghost mut chosen: Option<int> = None;
    let mut s: usize = 0;
    while s < outcomes.len()
        invariant
            s <= outcomes.len(),
            chosen == nearest_index(outcomes@.take(s as int)),
            match chosen {
                None => final_hit == Hit::nowhere(),
                Some(i) => 0 <= i < s && final_hit == outcomes[i].record && admissible(outcomes[i]),
            },
        decreases outcomes.len() - s,
    {
        let current = outcomes[s];
        proof {
            assert(outcomes@.take(s + 1).drop_last() == outcomes@.take(s as int));
        }
        if current.hit && current.record.t.lt(final_hit.t) && current.record.t.gt(
            Scalar::from_bits(EPSILON_BITS),
        ) {
            final_hit = current.record;
            proof {
                chosen = Some(s as int);
            }
        }
        s += 1;
    }
    proof {
        assert(outcomes@.take(s as int) == outcomes@);
        lemma_nearest_index(outcomes@);
    }
    if !final_hit.t.eq_value(Scalar::infinity()) {
        Some(final_hit)
    } else {
        None
    }
}

/// Explicit surfaces of mixed kinds, and a soup of triangles of type `T` that
/// an acceleration structure indexes.
pub struct Scene<T: Traceable> {
    pub objects: Vec<Box<dyn Traceable>>,
    pub triangles: Vec<T>,
}

impl<T: Traceable> Scene<T> {
    /// The empty scene.
    pub fn init() -> (scene: Scene<T>)
        ensures
            scene.objects@ == Seq::<Box<dyn Traceable>>::empty(),
            scene.triangles@ == Seq::<T>::empty(),
    {
        Scene { objects: Vec::new(), triangles: Vec::new() }
    }

    /// Appends an explicit surface.
    pub fn add(&mut self, obj: Box<dyn Traceable>)
        ensures
            final(self).objects@ == old(self).objects@.push(obj),
            final(self).triangles@ == old(self).triangles@,
    {
        self.objects.push(obj);
    }

    /// Appends a triangle to the soup.
    pub fn add_triangle(&mut self, triangle: T)
        ensures
            final(self).triangles@ == old(self).triangles@.push(triangle),
            final(self).objects@ == old(self).objects@,
    {
        self.triangles.push(triangle);
    }

    /// The nearest hit of the ray in the scene. Every explicit surface is
    /// tested, each with a fresh record; of the triangles only `candidates`,
    /// those whose bounding volume the ray may cross, in the order given and
    /// with one record handed from each to the next.
    ///
    /// The surfaces decide what they answer. Whatever they answer, the result
    /// is `nearest` of their answers, one for each explicit surface and
    /// candidate; `nearest_hit` says what that is.
    pub fn intersect(&self, ray: Ray, candidates: &Vec<&T>) -> (r: Option<Hit>)
        ensures
            exists|outcomes: Seq<Outcome>|
                outcomes.len() == self.objects.len() + candidates.len() && r == #[trigger] nearest(
                    outcomes,
                ),
            self.objects.len() == 0 && candidates.len() == 0 ==> r is None,
            r matches Some(h) ==> (Scalar { bits: EPSILON_BITS }).less(h.t) && h.t.less(
                Scalar { bits: INFINITY_BITS },
            ),
    {
        let mut outcomes: Vec<Outcome> = Vec::new();
        let mut s: usize = 0;
        while s < self.objects.len()
            invariant
                s <= self.objects.len(),
                outcomes.len() == s,
            decreases self.objects.len() - s,
        {
            let mut current_hit = Hit::init();
            let hit = self.objects[s].intersect(&ray, &mut current_hit);
            outcomes.push(Outcome { hit, record: current_hit });
            s += 1;
        }
        let mut current_hit = Hit::init();
        let mut k: usize = 0;
        while k < candidates.len()
            invariant
                k <= candidates.len(),
                outcomes.len() == self.objects.len() + k,
            decreases candidates.len() - k,
        {
            let is_hit = candidates[k].intersect(&ray, &mut current_hit);
            outcomes.push(Outcome { hit: is_hit, record: current_hit });
            k += 1;
        }
        nearest_hit(&outcomes)
    }
}

} // verus!
