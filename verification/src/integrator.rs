//! The path-tracing estimator: its decisions, and the state of a path.
//!
//! A path starts with a camera ray at depth 0. The caller runs the loop: it
//! takes a ray from the `Path`, intersects it with the scene, tells the path
//! what the ray met, and sends on the rays that the path allows, each one
//! level deeper. What becomes of a ray is decided by `arrival`; what a
//! surface's lobe leaves open, by `frame_axis`, `enters` and `glass_choice`.
//! The caller draws the random numbers and does the arithmetic.

use vstd::prelude::*;
use vstd::arithmetic::power2::lemma2_to64;
use crate::hit::Hit;
use crate::material::BSDF;
use crate::ray::Ray;
use crate::scalar::{lemma_rounds, Scalar, ONE_BITS};
use crate::scene::{nearest, Outcome};
use crate::vector::Float3;

verus! {

/// Beyond this depth a path plays Russian roulette at every hit.
pub const ROULETTE_DEPTH: i32 = 3;

/// At this depth a path ends, whatever the roulette says.
pub const DEPTH_CEILING: i32 = 10;

/// Up to this depth glass traces both the reflected and the refracted ray.
pub const SPLIT_DEPTH: i32 = 1;

/// The bit pattern of `0.1`: a normal whose x component is larger in
/// magnitude counts as near the x axis.
pub const AXIS_THRESHOLD_BITS: u32 = 0x3dcc_cccd;

/// The most rays that one camera sample can cost.
pub const RAY_BUDGET: usize = 39;

/// The bit pattern of `0.299`, the weight of red in the luminance of a
/// colour.
pub const LUMINANCE_RED_BITS: u32 = 0x3e99_1687;

/// The bit pattern of `0.587`, the weight of green.
pub const LUMINANCE_GREEN_BITS: u32 = 0x3f16_45a2;

/// The bit pattern of `0.114`, the weight of blue.
pub const LUMINANCE_BLUE_BITS: u32 = 0x3de9_78d5;

/// The bit pattern of `1.0`, the refractive index outside glass.
pub const INDEX_OUTSIDE_BITS: u32 = ONE_BITS;

/// The bit pattern of `1.5`, the refractive index of glass.
pub const INDEX_GLASS_BITS: u32 = 0x3fc0_0000;

/// The bit pattern of `0.04`, the reflectance of glass for a ray that meets
/// it head-on: the square of the difference of the two refractive indices
/// over their sum.
pub const BASE_REFLECTANCE_BITS: u32 = 0x3d23_d70a;

/// The bit pattern of `0.25`: the least probability with which glass
/// follows the reflected ray.
pub const REFLECT_FLOOR_BITS: u32 = 0x3e80_0000;

/// The bit pattern of `0.5`: what a unit of reflectance adds to that
/// probability.
pub const REFLECT_SLOPE_BITS: u32 = 0x3f00_0000;

/// How Russian roulette went.
#[derive(Clone, Copy, Debug, PartialEq, Eq, Structural)]
pub enum Roulette {
    /// The path is too shallow to play.
    Exempt,
    /// The path goes on, with its albedo divided by the albedo's luminance.
    Survived,
    /// The path ends.
    Ended,
}

/// What becomes of a path once its ray was intersected with the scene.
#[derive(Clone, Copy, Debug, PartialEq, Eq, Structural)]
pub enum Arrival {
    /// The path is over and returns this radiance.
    Done(Float3),
    /// The path scatters at the surface. `rescale` says whether the albedo is
    /// to be divided by its luminance first.
    Scatter { bsdf: BSDF, rescale: bool },
}

/// Which rays a glass surface sends on.
#[derive(Clone, Copy, Debug, PartialEq, Eq, Structural)]
pub enum GlassBranch {
    /// Total internal reflection: the reflected ray alone, unweighted.
    TotalReflection,
    /// Both rays, the reflected one weighted by the reflectance `R` and the
    /// refracted one by the transmittance `T = 1 - R`.
    Split,
    /// The reflected ray alone, weighted by `R / p`.
    Reflect,
    /// The refracted ray alone, weighted by `T / (1 - p)`.
    Refract,
}

/// Whether a hit at this depth plays roulette.
pub open spec fn plays_roulette(depth: i32) -> bool {
    depth > ROULETTE_DEPTH
}

/// Roulette at a hit: a path deeper than `ROULETTE_DEPTH` survives where the
/// uniform `sample` is below the luminance of the albedo and the depth is
/// below `DEPTH_CEILING`.
pub open spec fn roulette_outcome(depth: i32, sample: Scalar, luminance: Scalar) -> Roulette {
    if !plays_roulette(depth) {
        Roulette::Exempt
    } else if sample.less(luminance) && depth < DEPTH_CEILING {
        Roulette::Survived
    } else {
        Roulette::Ended
    }
}

/// What becomes of the path: black where the ray left the scene, the
/// surface's emission where roulette ended the path, and else a bounce off
/// the surface.
pub open spec fn arrival(depth: i32, hit: Option<Hit>, sample: Scalar, luminance: Scalar)
    -> Arrival {
    match hit {
        None => Arrival::Done(Float3::origin()),
        Some(h) => match roulette_outcome(depth, sample, luminance) {
            Roulette::Ended => Arrival::Done(h.material.emission),
            Roulette::Survived => Arrival::Scatter { bsdf: h.material.bsdf, rescale: true },
            Roulette::Exempt => Arrival::Scatter { bsdf: h.material.bsdf, rescale: false },
        },
    }
}

/// The axis from which the tangent frame around a normal is built: world y
/// where the normal's x component is above `0.1` in magnitude, world x
/// otherwise.
pub open spec fn frame_axis(normal_x: Scalar) -> Float3 {
    if (Scalar { bits: AXIS_THRESHOLD_BITS }).less(normal_x.absolute()) {
        Float3 { x: Scalar { bits: 0 }, y: Scalar { bits: ONE_BITS }, z: Scalar { bits: 0 } }
    } else {
        Float3 { x: Scalar { bits: ONE_BITS }, y: Scalar { bits: 0 }, z: Scalar { bits: 0 } }
    }
}

/// The rays that glass sends on. `cos2t` is the discriminant of Snell's law;
/// below zero there is no refracted ray. Otherwise both rays are traced up to
/// `SPLIT_DEPTH`, and deeper one of them: the reflected ray where the uniform
/// `sample` is below the probability `p`.
pub open spec fn glass_choice(depth: i32, cos2t: Scalar, sample: Scalar, p: Scalar)
    -> GlassBranch {
    if cos2t.less(Scalar { bits: 0 }) {
        GlassBranch::TotalReflection
    } else if depth > SPLIT_DEPTH {
        if sample.less(p) {
            GlassBranch::Reflect
        } else {
            GlassBranch::Refract
        }
    } else {
        GlassBranch::Split
    }
}

/// Whether a ray that meets glass enters it rather than leaves it. The test
/// reads `normal_squared`, the inner product of the surface normal with
/// itself, which is above zero for every normal that is no zero vector: a
/// ray that meets glass always counts as entering.
pub open spec fn enters(normal_squared: Scalar) -> bool {
    (Scalar { bits: 0 }).less(normal_squared)
}

/// How many rays an arrival sends on at most.
pub open spec fn fan_out(a: Arrival, glass: GlassBranch) -> nat {
    match a {
        Arrival::Done(_) => 0,
        Arrival::Scatter { bsdf, .. } => match bsdf {
            BSDF::Glass => if glass is Split {
                2
            } else {
                1
            },
            _ => 1,
        },
    }
}

/// The most rays that a path at `depth` can still cost, its own included.
pub open spec fn ray_bound(depth: int) -> nat
    decreases DEPTH_CEILING - depth,
{
    if depth >= DEPTH_CEILING {
        1
    } else if depth > SPLIT_DEPTH {
        1 + ray_bound(depth + 1)
    } else {
        1 + 2 * ray_bound(depth + 1)
    }
}

/// Whether a hit at this depth needs a roulette sample drawn.
pub fn roulette_applies(depth: i32) -> (r: bool)
    ensures
        r == plays_roulette(depth),
{
    depth > ROULETTE_DEPTH
}

/// Plays Russian roulette for a path that hit a surface.
pub fn roulette(depth: i32, sample: Scalar, luminance: Scalar) -> (r: Roulette)
    ensures
        r == roulette_outcome(depth, sample, luminance),
{
    if depth > ROULETTE_DEPTH {
        if sample.lt(luminance) && depth < DEPTH_CEILING {
            Roulette::Survived
        } else {
            Roulette::Ended
        }
    } else {
        Roulette::Exempt
    }
}

/// Decides what becomes of a path at `depth` whose ray met `hit`, or
/// nothing. `sample` is a uniform number in `[0, 1)` and `luminance` the
/// luminance of the surface's albedo; neither is read for a path that does
/// not play roulette.
pub fn arrive(depth: i32, hit: &Option<Hit>, sample: Scalar, luminance: Scalar) -> (a: Arrival)
    ensures
        a == arrival(depth, *hit, sample, luminance),
{
    match hit {
        None => Arrival::Done(Float3::zero()),
        Some(h) => match roulette(depth, sample, luminance) {
            Roulette::Ended => Arrival::Done(h.material.emission),
            Roulette::Survived => Arrival::Scatter { bsdf: h.material.bsdf, rescale: true },
            Roulette::Exempt => Arrival::Scatter { bsdf: h.material.bsdf, rescale: false },
        },
    }
}

/// Picks the axis that the tangent frame of a diffuse bounce is built from,
/// one that is not nearly parallel to the normal.
pub fn tangent_up(normal: Float3) -> (axis: Float3)
    ensures
        axis == frame_axis(normal.x),
{
    let zero = Scalar::zero();
    let one = Scalar::one();
    if normal.x.abs().gt(Scalar::from_bits(AXIS_THRESHOLD_BITS)) {
        Float3::new(zero, one, zero)
    } else {
        Float3::new(one, zero, zero)
    }
}

/// Decides which rays a glass surface sends on. `sample` is a uniform number
/// in `[0, 1)` and `p` the probability of following the reflected ray; they
/// are read only deeper than `SPLIT_DEPTH`, where the ray refracts at all.
pub fn glass_branch(depth: i32, cos2t: Scalar, sample: Scalar, p: Scalar) -> (g: GlassBranch)
    ensures
        g == glass_choice(depth, cos2t, sample, p),
{
    if cos2t.lt(Scalar::zero()) {
        GlassBranch::TotalReflection
    } else if depth > SPLIT_DEPTH {
        if sample.lt(p) {
            GlassBranch::Reflect
        } else {
            GlassBranch::Refract
        }
    } else {
        GlassBranch::Split
    }
}

/// Decides whether a ray that meets glass enters it, which fixes the ratio of
/// the refractive indices and the side on which the refracted ray leaves.
pub fn entering(normal_squared: Scalar) -> (into: bool)
    ensures
        into == enters(normal_squared),
{
    normal_squared.gt(Scalar::zero())
}

/// The weights of the luminance are the binary32 numbers nearest to 0.299,
/// 0.587 and 0.114.
pub proof fn lemma_luminance_weights()
    ensures
        (Scalar { bits: LUMINANCE_RED_BITS }).rounds(299, 1000),
        (Scalar { bits: LUMINANCE_GREEN_BITS }).rounds(587, 1000),
        (Scalar { bits: LUMINANCE_BLUE_BITS }).rounds(114, 1000),
{
    lemma2_to64();
    lemma_rounds(Scalar { bits: LUMINANCE_RED_BITS }, 10_032_775, 25, 299, 1000);
    lemma_rounds(Scalar { bits: LUMINANCE_GREEN_BITS }, 9_848_226, 24, 587, 1000);
    lemma_rounds(Scalar { bits: LUMINANCE_BLUE_BITS }, 15_300_821, 27, 114, 1000);
}

/// Whether `numerator / denominator` is the reflectance, after Schlick, of a
/// ray that meets head-on the boundary between two media whose refractive
/// indices are in the ratio `outside : glass`: the square of the difference
/// of the indices over their sum.
pub open spec fn head_on_reflectance(outside: int, glass: int, numerator: int, denominator: int)
    -> bool {
    numerator * ((glass + outside) * (glass + outside)) == denominator * ((glass - outside) * (
    glass - outside))
}

/// The refractive indices are exactly 1 and 3/2, the reflectance at normal
/// incidence that they give is 1/25, and `BASE_REFLECTANCE_BITS` is the
/// binary32 number nearest to it.
pub proof fn lemma_glass_constants()
    ensures
        (Scalar { bits: INDEX_OUTSIDE_BITS }).rounds(1, 1),
        (Scalar { bits: INDEX_GLASS_BITS }).rounds(3, 2),
        (Scalar { bits: INDEX_GLASS_BITS }).signed_units() * 2 == 3 * (Scalar {
            bits: INDEX_OUTSIDE_BITS,
        }).signed_units(),
        head_on_reflectance(2, 3, 1, 25),
        (Scalar { bits: BASE_REFLECTANCE_BITS }).rounds(1, 25),
        (Scalar { bits: REFLECT_FLOOR_BITS }).rounds(1, 4),
        (Scalar { bits: REFLECT_SLOPE_BITS }).rounds(1, 2),
{
    let outside = Scalar { bits: INDEX_OUTSIDE_BITS };
    let glass = Scalar { bits: INDEX_GLASS_BITS };
    let base = Scalar { bits: BASE_REFLECTANCE_BITS };
    let floor = Scalar { bits: REFLECT_FLOOR_BITS };
    let slope = Scalar { bits: REFLECT_SLOPE_BITS };
    assert(outside.exponent() == 127 && outside.fraction() == 0);
    assert(glass.exponent() == 127 && glass.fraction() == 4_194_304);
    assert(base.exponent() == 122 && base.fraction() == 2_348_810);
    assert(floor.exponent() == 125 && floor.fraction() == 0);
    assert(slope.exponent() == 126 && slope.fraction() == 0);
    assert(head_on_reflectance(2, 3, 1, 25)) by (nonlinear_arith);
    lemma2_to64();
    lemma_rounds(outside, 8_388_608, 23, 1, 1);
    lemma_rounds(glass, 12_582_912, 23, 3, 2);
    lemma_rounds(base, 10_737_418, 28, 1, 25);
    lemma_rounds(floor, 8_388_608, 25, 1, 4);
    lemma_rounds(slope, 8_388_608, 24, 1, 2);
}

/// `AXIS_THRESHOLD_BITS` is the binary32 number nearest to one tenth.
pub proof fn lemma_axis_threshold_is_a_tenth()
    ensures
        (Scalar { bits: AXIS_THRESHOLD_BITS }).rounds(1, 10),
{
    lemma2_to64();
    lemma_rounds(Scalar { bits: AXIS_THRESHOLD_BITS }, 13_421_773, 27, 1, 10);
}

/// A ray that leaves the scene ends its path with black, at any depth and
/// whatever was drawn.
pub proof fn lemma_miss_is_black(depth: i32, sample: Scalar, luminance: Scalar)
    ensures
        arrival(depth, None, sample, luminance) == Arrival::Done(Float3::origin()),
{
}

/// In a scene without surfaces no ray meets anything, so every path returns
/// black at once.
pub proof fn lemma_empty_scene_is_black(
    outcomes: Seq<Outcome>,
    depth: i32,
    sample: Scalar,
    luminance: Scalar,
)
    requires
        outcomes.len() == 0,
    ensures
        nearest(outcomes) is None,
        arrival(depth, nearest(outcomes), sample, luminance) == Arrival::Done(Float3::origin()),
{
}

/// At the depth ceiling every path ends: no arrival there sends a ray on, so
/// no ray is ever traced deeper than the ceiling.
pub proof fn lemma_ceiling_ends_paths(
    depth: i32,
    hit: Option<Hit>,
    sample: Scalar,
    luminance: Scalar,
    glass: GlassBranch,
)
    requires
        depth >= DEPTH_CEILING,
    ensures
        arrival(depth, hit, sample, luminance) is Done,
        fan_out(arrival(depth, hit, sample, luminance), glass) == 0,
{
}

/// A path that survives roulette does so with a sample below the luminance,
/// so that dividing the albedo by the luminance weighs the survivors by the
/// inverse of their chance; an exempt path is never rescaled.
pub proof fn lemma_survivors_are_rescaled(
    depth: i32,
    hit: Hit,
    sample: Scalar,
    luminance: Scalar,
)
    ensures
        arrival(depth, Some(hit), sample, luminance) matches Arrival::Scatter { rescale, .. }
            ==> (rescale <==> depth > ROULETTE_DEPTH) && (rescale ==> sample.less(luminance)),
        arrival(depth, Some(hit), sample, luminance) matches Arrival::Done(radiance) ==> radiance
            == hit.material.emission && depth > ROULETTE_DEPTH,
{
}

/// Every inner product of a vector with itself that is a number above zero
/// counts as entering, whatever side the ray came from.
pub proof fn lemma_glass_is_always_entered(normal_squared: Scalar)
    requires
        !normal_squared.nan(),
        normal_squared.rank() > 0,
    ensures
        enters(normal_squared),
{
}

/// Glass sends two rays on only up to the split depth, and whenever a ray
/// refracts Snell's discriminant is not below zero.
pub proof fn lemma_glass_branches(depth: i32, cos2t: Scalar, sample: Scalar, p: Scalar)
    ensures
        glass_choice(depth, cos2t, sample, p) is Split ==> depth <= SPLIT_DEPTH,
        glass_choice(depth, cos2t, sample, p) is TotalReflection <==> cos2t.less(
            Scalar { bits: 0 },
        ),
        glass_choice(depth, cos2t, sample, p) is Reflect ==> sample.less(p),
        glass_choice(depth, cos2t, sample, p) is Refract ==> !sample.less(p),
{
}

/// Every arrival sends on at most two rays, and two only from glass at or
/// above the split depth; so the rays of a path at `depth` number at most
/// `ray_bound(depth)`, by one step of its recursion.
pub proof fn lemma_fan_out_is_bounded(
    depth: i32,
    hit: Option<Hit>,
    sample: Scalar,
    luminance: Scalar,
    cos2t: Scalar,
    branch_sample: Scalar,
    p: Scalar,
)
    requires
        0 <= depth,
    ensures
        ({
            let sent = fan_out(
                arrival(depth, hit, sample, luminance),
                glass_choice(depth, cos2t, branch_sample, p),
            );
            &&& sent <= 2
            &&& depth > SPLIT_DEPTH ==> sent <= 1
            &&& depth >= DEPTH_CEILING ==> sent == 0
            &&& 1 + sent * ray_bound(depth + 1) <= ray_bound(depth as int)
        }),
{
    let sent = fan_out(
        arrival(depth, hit, sample, luminance),
        glass_choice(depth, cos2t, branch_sample, p),
    );
    let below = ray_bound(depth + 1);
    if depth >= DEPTH_CEILING {
        assert(sent == 0);
        assert(sent * below == 0);
    } else if depth > SPLIT_DEPTH {
        assert(sent <= 1);
        assert(sent * below <= below) by (nonlinear_arith)
            requires
                sent <= 1,
        ;
    } else {
        assert(sent * below <= 2 * below) by (nonlinear_arith)
            requires
                sent <= 2,
        ;
    }
}

/// One camera sample costs at most `RAY_BUDGET` rays.
pub proof fn lemma_ray_budget()
    ensures
        ray_bound(0) == RAY_BUDGET,
{
    reveal_with_fuel(ray_bound, 12);
}

/// A ray that waits to be traced: its depth in the path, and the weight
/// that its radiance carries into the estimate.
#[derive(Clone, Copy, Debug, PartialEq, Eq, Structural)]
pub struct Pending {
    pub ray: Ray,
    pub depth: i32,
    pub throughput: Float3,
}

/// What the path is busy with.
#[derive(Clone, Copy, Debug, PartialEq, Eq, Structural)]
pub enum Stage {
    /// No ray is being worked on.
    Idle,
    /// A ray was taken and waits to hear what it met.
    Taken { depth: i32 },
    /// The ray met glass; which rays go on is not yet decided.
    Glass { depth: i32 },
    /// The surface may send `left` more rays on.
    Sending { depth: i32, left: usize },
}

/// The most rays that the rays in waiting can still cost.
pub open spec fn waiting_cost(pending: Seq<Pending>) -> nat
    decreases pending.len(),
{
    if pending.len() == 0 {
        0
    } else {
        waiting_cost(pending.drop_last()) + ray_bound(pending.last().depth as int)
    }
}

/// The most rays that the ray being worked on can still cost, itself not
/// counted.
pub open spec fn stage_cost(stage: Stage) -> nat {
    match stage {
        Stage::Idle => 0,
        Stage::Taken { depth } => (ray_bound(depth as int) - 1) as nat,
        Stage::Glass { depth } => (ray_bound(depth as int) - 1) as nat,
        Stage::Sending { depth, left } => (left * ray_bound(depth + 1)) as nat,
    }
}

/// The stage that follows once a taken ray has arrived.
pub open spec fn stage_after_arrival(depth: i32, a: Arrival) -> Stage {
    match a {
        Arrival::Done(_) => Stage::Idle,
        Arrival::Scatter { bsdf: BSDF::Glass, .. } => Stage::Glass { depth },
        Arrival::Scatter { .. } => Stage::Sending { depth, left: 1 },
    }
}

/// The stage that follows once glass has chosen its rays.
pub open spec fn stage_after_branch(depth: i32, g: GlassBranch) -> Stage {
    Stage::Sending {
        depth,
        left: if g is Split {
            2
        } else {
            1
        },
    }
}

/// The stage that follows once a ray was sent on.
pub open spec fn stage_after_sending(depth: i32, left: usize) -> Stage {
    if left <= 1 {
        Stage::Idle
    } else {
        Stage::Sending { depth, left: (left - 1) as usize }
    }
}

/// The state of one camera sample: the rays that wait to be traced, the
/// number of rays traced so far, and what the path is busy with.
///
/// The caller runs the loop: it takes a ray, intersects it with the scene,
/// tells the path what the ray met, and sends on the rays that the path
/// allows. The path keeps the depth of every ray and allows no more rays than
/// the estimator's rules do, so that every sample ends within `RAY_BUDGET`
/// rays whatever the caller does.
pub struct Path {
    pending: Vec<Pending>,
    traced: usize,
    stage: Stage,
}

impl Path {
    #[verifier::type_invariant]
    spec fn within_budget(self) -> bool {
        &&& forall|i: int|
            0 <= i < self.pending@.len() ==> 0 <= (#[trigger] self.pending@[i]).depth
                <= DEPTH_CEILING
        &&& match self.stage {
            Stage::Idle => true,
            Stage::Taken { depth } => 0 <= depth <= DEPTH_CEILING,
            Stage::Glass { depth } => 0 <= depth < DEPTH_CEILING,
            Stage::Sending { depth, left } => 0 <= depth < DEPTH_CEILING && 1 <= left <= 2 && (
            left == 2 ==> depth <= SPLIT_DEPTH),
        }
        &&& self.traced + waiting_cost(self.pending@) + stage_cost(self.stage) <= RAY_BUDGET
    }

    /// The rays in waiting; the last one is taken next.
    pub closed spec fn waiting(self) -> Seq<Pending> {
        self.pending@
    }

    /// The number of rays taken so far.
    pub closed spec fn spent(self) -> nat {
        self.traced as nat
    }

    /// What the path is busy with.
    pub closed spec fn busy(self) -> Stage {
        self.stage
    }

    /// The path of a camera ray: the ray waits at depth 0 with full weight.
    pub fn start(ray: Ray) -> (path: Path)
        ensures
            path.waiting() == seq![
                Pending {
                    ray,
                    depth: 0,
                    throughput: Float3 {
                        x: Scalar { bits: ONE_BITS },
                        y: Scalar { bits: ONE_BITS },
                        z: Scalar { bits: ONE_BITS },
                    },
                },
            ],
            path.spent() == 0,
            path.busy() == Stage::Idle,
    {
        let one = Scalar::one();
        let first = Pending { ray, depth: 0, throughput: Float3::new(one, one, one) };
        let mut pending: Vec<Pending> = Vec::new();
        pending.push(first);
        proof {
            lemma_ray_budget();
            assert(pending@.drop_last() == Seq::<Pending>::empty());
            assert(waiting_cost(pending@) == waiting_cost(Seq::<Pending>::empty()) + ray_bound(0));
        }
        Path { pending, traced: 0, stage: Stage::Idle }
    }

    /// The number of rays taken so far.
    pub fn traced(&self) -> (n: usize)
        ensures
            n == self.spent(),
            n <= RAY_BUDGET,
    {
        proof {
            use_type_invariant(self);
        }
        self.traced
    }

    /// What the path is busy with.
    pub fn stage(&self) -> (stage: Stage)
        ensures
            stage == self.busy(),
    {
        self.stage
    }

    /// Whether no ray waits any more.
    pub fn is_finished(&self) -> (r: bool)
        ensures
            r == (self.waiting().len() == 0),
    {
        self.pending.len() == 0
    }

    /// Takes the ray that was sent last, if one waits, and counts it. What
    /// the ray before it could still send on is given up.
    pub fn take(&mut self) -> (next: Option<Pending>)
        ensures
            old(self).waiting().len() == 0 ==> next is None && final(self).waiting() == old(
                self,
            ).waiting() && final(self).spent() == old(self).spent() && final(self).busy()
                == Stage::Idle,
            old(self).waiting().len() > 0 ==> next == Some(old(self).waiting().last())
                && final(self).waiting() == old(self).waiting().drop_last() && final(self).spent()
                == old(self).spent() + 1 && final(self).busy() == (Stage::Taken {
                depth: old(self).waiting().last().depth,
            }),
            next matches Some(p) ==> 0 <= p.depth <= DEPTH_CEILING,
            final(self).spent() <= RAY_BUDGET,
    {
        proof {
            use_type_invariant(&*self);
        }
        self.stage = Stage::Idle;
        let mut waiting: Vec<Pending> = Vec::new();
        std::mem::swap(&mut self.pending, &mut waiting);
        let next = waiting.pop();
        proof {
            if let Some(p) = next {
                lemma_bound_unfolds(p.depth as int);
            }
        }
        std::mem::swap(&mut self.pending, &mut waiting);
        match next {
            None => None,
            Some(p) => {
                self.traced = self.traced + 1;
                self.stage = Stage::Taken { depth: p.depth };
                Some(p)
            },
        }
    }

    /// Tells the path what the taken ray met, and hears what becomes of
    /// it: `arrival` at the ray's depth. `None`, and nothing changes, where no
    /// taken ray waits to hear.
    pub fn arrive(&mut self, hit: &Option<Hit>, sample: Scalar, luminance: Scalar) -> (a: Option<
        Arrival,
    >)
        ensures
            final(self).waiting() == old(self).waiting(),
            final(self).spent() == old(self).spent(),
            match old(self).busy() {
                Stage::Taken { depth } => a == Some(arrival(depth, *hit, sample, luminance))
                    && final(self).busy() == stage_after_arrival(
                    depth,
                    arrival(depth, *hit, sample, luminance),
                ),
                _ => a is None && final(self).busy() == old(self).busy(),
            },
    {
        proof {
            use_type_invariant(&*self);
        }
        match self.stage {
            Stage::Taken { depth } => {
                let a = arrive(depth, hit, sample, luminance);
                proof {
                    lemma_bound_unfolds(depth as int);
                }
                self.stage = match a {
                    Arrival::Done(_) => Stage::Idle,
                    Arrival::Scatter { bsdf: BSDF::Glass, .. } => Stage::Glass { depth },
                    Arrival::Scatter { .. } => Stage::Sending { depth, left: 1 },
                };
                Some(a)
            },
            _ => None,
        }
    }

    /// Decides which rays the glass that the taken ray met sends on:
    /// `glass_choice` at the ray's depth. `None`, and nothing changes, where
    /// the path is not at glass.
    pub fn branch(&mut self, cos2t: Scalar, sample: Scalar, p: Scalar) -> (g: Option<GlassBranch>)
        ensures
            final(self).waiting() == old(self).waiting(),
            final(self).spent() == old(self).spent(),
            match old(self).busy() {
                Stage::Glass { depth } => g == Some(glass_choice(depth, cos2t, sample, p))
                    && final(self).busy() == stage_after_branch(
                    depth,
                    glass_choice(depth, cos2t, sample, p),
                ),
                _ => g is None && final(self).busy() == old(self).busy(),
            },
    {
        proof {
            use_type_invariant(&*self);
        }
        match self.stage {
            Stage::Glass { depth } => {
                let g = glass_branch(depth, cos2t, sample, p);
                proof {
                    lemma_bound_unfolds(depth as int);
                }
                self.stage = Stage::Sending {
                    depth,
                    left: match g {
                        GlassBranch::Split => 2,
                        _ => 1,
                    },
                };
                Some(g)
            },
            _ => None,
        }
    }

    /// Sends a ray on from the surface that the taken ray met, one level
    /// deeper. `false`, and nothing changes, where the surface may send no
    /// ray, or no more.
    pub fn follow(&mut self, ray: Ray, throughput: Float3) -> (sent: bool)
        ensures
            final(self).spent() == old(self).spent(),
            match old(self).busy() {
                Stage::Sending { depth, left } => sent && final(self).waiting() == old(
                    self,
                ).waiting().push(Pending { ray, depth: (depth + 1) as i32, throughput })
                    && final(self).busy() == stage_after_sending(depth, left),
                _ => !sent && final(self).waiting() == old(self).waiting() && final(self).busy()
                    == old(self).busy(),
            },
    {
        proof {
            use_type_invariant(&*self);
        }
        match self.stage {
            Stage::Sending { depth, left } => {
                let child = Pending { ray, depth: depth + 1, throughput };
                proof {
                    assert(self.pending@.push(child).drop_last() == self.pending@);
                    assert(left * ray_bound(depth + 1) == (left - 1) * ray_bound(depth + 1)
                        + ray_bound(depth + 1)) by (nonlinear_arith);
                }
                self.stage = if left <= 1 {
                    Stage::Idle
                } else {
                    Stage::Sending { depth, left: left - 1 }
                };
                let mut waiting: Vec<Pending> = Vec::new();
                std::mem::swap(&mut self.pending, &mut waiting);
                waiting.push(child);
                std::mem::swap(&mut self.pending, &mut waiting);
                true
            },
            _ => false,
        }
    }
}

/// One step of the bound: below the ceiling a ray costs itself and what the
/// one or two rays that it sends on cost.
pub proof fn lemma_bound_unfolds(depth: int)
    ensures
        ray_bound(depth) >= 1,
        depth >= DEPTH_CEILING ==> ray_bound(depth) == 1,
        SPLIT_DEPTH < depth < DEPTH_CEILING ==> ray_bound(depth) == 1 + ray_bound(depth + 1),
        depth <= SPLIT_DEPTH ==> ray_bound(depth) == 1 + 2 * ray_bound(depth + 1),
{
}

} // verus!
