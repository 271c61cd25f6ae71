//! What the display layer needs of the kernel: colours clamped to the unit
//! range, and channels packed into a pixel.

use vstd::prelude::*;
use crate::scalar::{Scalar, ONE_BITS};
use crate::vector::Float3;

verus! {

/// A channel clamped to `[0, 1]`: zero for what lies below or is no number,
/// one for what lies above.
pub open spec fn clamped(c: Scalar) -> Scalar {
    c.larger(Scalar { bits: 0 }).smaller(Scalar { bits: ONE_BITS })
}

/// The three channels of a pixel in one word: red in bits 16 to 23, green in
/// bits 8 to 15, blue in bits 0 to 7.
pub open spec fn packed(r: u8, g: u8, b: u8) -> int {
    r * 65536 + g * 256 + b
}

/// Clamps every channel of a colour to `[0, 1]`.
pub fn saturate(color: Float3) -> (c: Float3)
    ensures
        c == (Float3 { x: clamped(color.x), y: clamped(color.y), z: clamped(color.z) }),
{
    let zero = Scalar::zero();
    let one = Scalar::one();
    Float3::new(
        color.x.max(zero).min(one),
        color.y.max(zero).min(one),
        color.z.max(zero).min(one),
    )
}

/// Packs three 8-bit channels into a pixel.
pub fn pack_rgb(r: u8, g: u8, b: u8) -> (pixel: u32)
    ensures
        pixel == packed(r, g, b),
        pixel <= 0x00ff_ffff,
{
    let r32: u32 = r as u32;
    let g32: u32 = g as u32;
    let b32: u32 = b as u32;
    assert((r32 << 16) | (g32 << 8) | b32 == r32 * 65536 + g32 * 256 + b32) by (bit_vector)
        requires
            r32 < 256,
            g32 < 256,
            b32 < 256,
    ;
    (r32 << 16) | (g32 << 8) | b32
}

/// A clamped channel is a number between zero and one, and a channel that
/// already was one is left as it is.
pub proof fn lemma_clamped_is_in_range(c: Scalar)
    ensures
        !clamped(c).nan(),
        0 <= clamped(c).rank() <= ONE_BITS,
        !c.nan() && 0 <= c.rank() <= ONE_BITS ==> clamped(c) == c,
        c.nan() ==> clamped(c) == (Scalar { bits: 0 }),
{
}

/// Clamping twice changes nothing more.
pub proof fn lemma_clamped_twice(c: Scalar)
    ensures
        clamped(clamped(c)) == clamped(c),
{
}

/// No two triples of channels pack into the same pixel.
pub proof fn lemma_packed_is_injective(r: u8, g: u8, b: u8, r2: u8, g2: u8, b2: u8)
    requires
        packed(r, g, b) == packed(r2, g2, b2),
    ensures
        r == r2 && g == g2 && b == b2,
{
}

} // verus!
