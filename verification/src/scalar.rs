//! Single-precision numbers, carried by their IEEE-754 bit patterns.
//!
//! The kernel never does arithmetic on a number: it compares, selects and
//! flips signs, all of which are exact on the bit pattern. A `Scalar` is made
//! from `to_bits` of a machine number and handed back through `from_bits`.

use vstd::prelude::*;
use vstd::arithmetic::power2::{
    lemma2_to64, lemma_pow2_adds, lemma_pow2_pos, lemma_pow2_strictly_increases, lemma_pow2_unfold,
    pow2,
};

verus! {

/// The bit that holds the sign.
pub const SIGN_BIT: u32 = 0x8000_0000;

/// The bit pattern of positive infinity; every larger magnitude is a NaN.
pub const INFINITY_BITS: u32 = 0x7f80_0000;

/// The bit pattern of `1.0`.
pub const ONE_BITS: u32 = 0x3f80_0000;

/// The number of bit patterns that share one exponent: two to the 23.
pub const FRACTION_SPAN: u32 = 0x0080_0000;

/// An IEEE-754 binary32 value, held as its 32 bits.
#[derive(Clone, Copy, Debug, PartialEq, Eq, Structural)]
pub struct Scalar {
    pub bits: u32,
}

impl Scalar {
    /// The bits without the sign.
    pub open spec fn magnitude(self) -> int {
        if self.bits >= SIGN_BIT {
            self.bits - SIGN_BIT
        } else {
            self.bits as int
        }
    }

    /// Whether the sign bit is set.
    pub open spec fn negative(self) -> bool {
        self.bits >= SIGN_BIT
    }

    /// Whether the value is not a number.
    pub open spec fn nan(self) -> bool {
        self.magnitude() > INFINITY_BITS as int
    }

    /// A key that orders the numbers as their values are ordered: for two
    /// values that are no NaN, the smaller value has the smaller rank, and
    /// both zeros have rank 0.
    pub open spec fn rank(self) -> int {
        if self.negative() {
            -self.magnitude()
        } else {
            self.magnitude()
        }
    }

    /// The exponent field: 0 for zero and the subnormal numbers, 255 for
    /// infinity and the NaNs.
    pub open spec fn exponent(self) -> int {
        self.magnitude() / (FRACTION_SPAN as int)
    }

    /// The fraction field.
    pub open spec fn fraction(self) -> int {
        self.magnitude() % (FRACTION_SPAN as int)
    }

    /// Whether the value is a number other than an infinity.
    pub open spec fn finite(self) -> bool {
        self.magnitude() < INFINITY_BITS
    }

    /// The absolute value that the bits stand for, counted in units of two to
    /// the -149, the least positive number: the fraction itself below the
    /// first exponent, and above it the fraction with its hidden leading bit,
    /// doubled once for each further exponent. Infinity comes out as two to
    /// the 128.
    pub open spec fn units(self) -> int {
        if self.exponent() == 0 {
            self.fraction()
        } else {
            (FRACTION_SPAN + self.fraction()) * pow2((self.exponent() - 1) as nat)
        }
    }

    /// The value that the bits stand for, in units of two to the -149.
    pub open spec fn signed_units(self) -> int {
        if self.negative() {
            -self.units()
        } else {
            self.units()
        }
    }

    /// Whether the bits stand for a positive normal number that lies within
    /// half the distance to its neighbours of `numerator / denominator`: no
    /// other value is nearer to the fraction.
    pub open spec fn rounds(self, numerator: int, denominator: int) -> bool {
        let spacing = pow2((self.exponent() - 1) as nat) as int;
        let error = self.units() * denominator - numerator * pow2(149);
        &&& !self.negative() && self.finite() && self.exponent() >= 1
        &&& -denominator * spacing <= 2 * error <= denominator * spacing
    }

    /// `self < other` as IEEE-754 defines it: false as soon as one is a NaN.
    pub open spec fn less(self, other: Scalar) -> bool {
        !self.nan() && !other.nan() && self.rank() < other.rank()
    }

    /// `self <= other` as IEEE-754 defines it.
    pub open spec fn at_most(self, other: Scalar) -> bool {
        !self.nan() && !other.nan() && self.rank() <= other.rank()
    }

    /// `self == other` as IEEE-754 defines it: the two zeros are equal, and a
    /// NaN equals nothing.
    pub open spec fn same(self, other: Scalar) -> bool {
        !self.nan() && !other.nan() && self.rank() == other.rank()
    }

    /// The value with its sign flipped.
    pub open spec fn negated(self) -> Scalar {
        if self.negative() {
            Scalar { bits: (self.bits - SIGN_BIT) as u32 }
        } else {
            Scalar { bits: (self.bits + SIGN_BIT) as u32 }
        }
    }

    /// The value with its sign cleared.
    pub open spec fn absolute(self) -> Scalar {
        Scalar { bits: self.magnitude() as u32 }
    }

    /// The larger of two values; a NaN loses against anything else, and of
    /// two values that are the same, such as the two zeros, the first stays.
    pub open spec fn larger(self, other: Scalar) -> Scalar {
        if self.nan() {
            other
        } else if other.nan() {
            self
        } else if self.less(other) {
            other
        } else {
            self
        }
    }

    /// The smaller of two values; a NaN loses against anything else, and of
    /// two values that are the same, such as the two zeros, the first stays.
    pub open spec fn smaller(self, other: Scalar) -> Scalar {
        if self.nan() {
            other
        } else if other.nan() {
            self
        } else if other.less(self) {
            other
        } else {
            self
        }
    }

    /// The value with the given bit pattern.
    pub fn from_bits(bits: u32) -> (s: Scalar)
        ensures
            s.bits == bits,
    {
        Scalar { bits }
    }

    /// The bit pattern of the value.
    pub fn to_bits(self) -> (bits: u32)
        ensures
            bits == self.bits,
    {
        self.bits
    }

    /// Positive zero.
    pub fn zero() -> (s: Scalar)
        ensures
            s.bits == 0,
    {
        Scalar { bits: 0 }
    }

    /// The number one.
    pub fn one() -> (s: Scalar)
        ensures
            s.bits == ONE_BITS,
    {
        Scalar { bits: ONE_BITS }
    }

    /// Positive infinity.
    pub fn infinity() -> (s: Scalar)
        ensures
            s.bits == INFINITY_BITS,
    {
        Scalar { bits: INFINITY_BITS }
    }

    /// The bits without the sign.
    fn magnitude_bits(self) -> (m: u32)
        ensures
            m == self.magnitude(),
    {
        if self.bits >= SIGN_BIT {
            self.bits - SIGN_BIT
        } else {
            self.bits
        }
    }

    /// The rank, in a machine integer.
    fn rank_key(self) -> (k: i64)
        ensures
            k == self.rank(),
    {
        let m: i64 = self.magnitude_bits() as i64;
        if self.bits >= SIGN_BIT {
            -m
        } else {
            m
        }
    }

    /// Whether the value is not a number.
    pub fn is_nan(self) -> (r: bool)
        ensures
            r == self.nan(),
    {
        self.magnitude_bits() > INFINITY_BITS
    }

    /// `self < other`.
    pub fn lt(self, other: Scalar) -> (r: bool)
        ensures
            r == self.less(other),
    {
        !self.is_nan() && !other.is_nan() && self.rank_key() < other.rank_key()
    }

    /// `self <= other`.
    pub fn le(self, other: Scalar) -> (r: bool)
        ensures
            r == self.at_most(other),
    {
        !self.is_nan() && !other.is_nan() && self.rank_key() <= other.rank_key()
    }

    /// `self > other`.
    pub fn gt(self, other: Scalar) -> (r: bool)
        ensures
            r == other.less(self),
    {
        other.lt(self)
    }

    /// `self >= other`.
    pub fn ge(self, other: Scalar) -> (r: bool)
        ensures
            r == other.at_most(self),
    {
        other.le(self)
    }

    /// Equality of values, not of bits.
    pub fn eq_value(self, other: Scalar) -> (r: bool)
        ensures
            r == self.same(other),
    {
        !self.is_nan() && !other.is_nan() && self.rank_key() == other.rank_key()
    }

    /// Flips the sign, of a zero and of a NaN too.
    pub fn neg(self) -> (r: Scalar)
        ensures
            r == self.negated(),
    {
        if self.bits >= SIGN_BIT {
            Scalar { bits: self.bits - SIGN_BIT }
        } else {
            Scalar { bits: self.bits + SIGN_BIT }
        }
    }

    /// Clears the sign.
    pub fn abs(self) -> (r: Scalar)
        ensures
            r == self.absolute(),
    {
        Scalar { bits: self.magnitude_bits() }
    }

    /// The larger of two values, as `larger` defines it.
    pub fn max(self, other: Scalar) -> (r: Scalar)
        ensures
            r == self.larger(other),
    {
        if self.is_nan() {
            other
        } else if other.is_nan() {
            self
        } else if self.lt(other) {
            other
        } else {
            self
        }
    }

    /// The smaller of two values, as `smaller` defines it.
    pub fn min(self, other: Scalar) -> (r: Scalar)
        ensures
            r == self.smaller(other),
    {
        if self.is_nan() {
            other
        } else if other.is_nan() {
            self
        } else if other.lt(self) {
            other
        } else {
            self
        }
    }
}

/// No value is less than itself, and `less` never holds both ways.
pub proof fn lemma_less_is_strict(a: Scalar, b: Scalar)
    ensures
        !a.less(a),
        a.less(b) ==> !b.less(a),
        a.less(b) ==> !a.same(b),
{
}

/// `less` is transitive.
pub proof fn lemma_less_is_transitive(a: Scalar, b: Scalar, c: Scalar)
    requires
        a.less(b),
        b.less(c),
    ensures
        a.less(c),
{
}

/// Of two values that are no NaN, exactly one of `<`, `==`, `>` holds.
pub proof fn lemma_order_is_total(a: Scalar, b: Scalar)
    requires
        !a.nan(),
        !b.nan(),
    ensures
        a.less(b) || a.same(b) || b.less(a),
        a.at_most(b) <==> (a.less(b) || a.same(b)),
{
}

/// Flipping the sign twice gives the value back, keeps a NaN a NaN, and
/// reverses the order.
pub proof fn lemma_negation(a: Scalar, b: Scalar)
    ensures
        a.negated().negated() == a,
        a.negated().nan() == a.nan(),
        a.negated().rank() == -a.rank(),
        a.less(b) <==> b.negated().less(a.negated()),
{
}

/// The absolute value is never below zero, and is the value or its negation.
pub proof fn lemma_absolute(a: Scalar)
    ensures
        a.absolute().nan() == a.nan(),
        !a.nan() ==> a.absolute().rank() >= 0,
        a.absolute() == (if a.negative() { a.negated() } else { a }),
{
}

/// The larger bit pattern, signs aside, stands for the larger absolute value.
proof fn lemma_units_grow(a: Scalar, b: Scalar)
    requires
        a.magnitude() < b.magnitude(),
    ensures
        0 <= a.units() < b.units(),
{
    let span = FRACTION_SPAN as int;
    let ea = a.exponent();
    let fa = a.fraction();
    let eb = b.exponent();
    let fb = b.fraction();
    assert(a.magnitude() == ea * span + fa && 0 <= fa < span && 0 <= ea);
    assert(b.magnitude() == eb * span + fb && 0 <= fb < span && 0 <= eb);
    if ea == eb {
        if ea > 0 {
            let scale = pow2((ea - 1) as nat) as int;
            lemma_pow2_pos((ea - 1) as nat);
            assert(0 <= (span + fa) * scale < (span + fb) * scale) by (nonlinear_arith)
                requires
                    0 <= fa < fb,
                    0 < span,
                    0 < scale,
            ;
        }
    } else {
        assert(ea < eb);
        let scale_b = pow2((eb - 1) as nat) as int;
        lemma_pow2_pos((eb - 1) as nat);
        assert(span * scale_b <= (span + fb) * scale_b) by (nonlinear_arith)
            requires
                0 <= fb,
                0 < scale_b,
        ;
        assert(span <= span * scale_b) by (nonlinear_arith)
            requires
                0 < span,
                1 <= scale_b,
        ;
        if ea > 0 {
            let scale_a = pow2((ea - 1) as nat) as int;
            lemma_pow2_pos((ea - 1) as nat);
            lemma_pow2_strictly_increases((ea - 1) as nat, (eb - 1) as nat);
            assert(2 * scale_a <= scale_b) by {
                lemma_pow2_unfold(ea as nat);
                if ea < eb - 1 {
                    lemma_pow2_strictly_increases(ea as nat, (eb - 1) as nat);
                }
            }
            assert(0 <= (span + fa) * scale_a < span * scale_b) by (nonlinear_arith)
                requires
                    0 <= fa < span,
                    0 < scale_a,
                    2 * scale_a <= scale_b,
            ;
        }
    }
}

/// The order of the ranks is the order of the values that the bits stand
/// for: of two values that are no NaN, one is less than the other exactly
/// when it stands for the lesser number, and they are the same exactly when
/// they stand for the same number.
pub proof fn lemma_rank_orders_values(a: Scalar, b: Scalar)
    requires
        !a.nan(),
        !b.nan(),
    ensures
        a.less(b) <==> a.signed_units() < b.signed_units(),
        a.same(b) <==> a.signed_units() == b.signed_units(),
        a.at_most(b) <==> a.signed_units() <= b.signed_units(),
{
    let zero = Scalar { bits: 0 };
    assert(zero.units() == 0);
    if a.magnitude() < b.magnitude() {
        lemma_units_grow(a, b);
    } else if b.magnitude() < a.magnitude() {
        lemma_units_grow(b, a);
    }
    if 0 < a.magnitude() {
        lemma_units_grow(zero, a);
    }
    if 0 < b.magnitude() {
        lemma_units_grow(zero, b);
    }
}

/// One stands for two to the 149 units, that is for the number 1; the
/// infinities lie beyond every finite value.
pub proof fn lemma_one_and_infinity(a: Scalar)
    requires
        a.finite(),
    ensures
        (Scalar { bits: ONE_BITS }).signed_units() == pow2(149),
        a.less(Scalar { bits: INFINITY_BITS }),
        (Scalar { bits: (SIGN_BIT + INFINITY_BITS) as u32 }).less(a),
{
    let one = Scalar { bits: ONE_BITS };
    assert(one.exponent() == 127 && one.fraction() == 0);
    lemma_pow2_adds(23, 126);
    lemma2_to64();
}

/// A bit pattern rounds a fraction where its exponent and fraction fields,
/// taken as a whole number `significand` scaled by two to the `shift`, come
/// within half a step of the fraction. This is how the decimal thresholds of
/// the kernel are checked against their bit patterns.
pub proof fn lemma_rounds(s: Scalar, significand: int, shift: nat, numerator: int, denominator: int)
    requires
        !s.negative(),
        0 < denominator,
        1 <= s.exponent() < 255,
        significand == FRACTION_SPAN + s.fraction(),
        shift + s.exponent() == 150,
        -denominator <= 2 * (significand * denominator - numerator * pow2(shift)) <= denominator,
    ensures
        s.rounds(numerator, denominator),
{
    let below = (s.exponent() - 1) as nat;
    let spacing = pow2(below) as int;
    let step = pow2(shift) as int;
    lemma_pow2_pos(below);
    lemma_pow2_adds(shift, below);
    assert(pow2(149) == step * spacing);
    let near = significand * denominator - numerator * step;
    assert(s.units() * denominator - numerator * (step * spacing) == near * spacing)
        by (nonlinear_arith)
        requires
            s.units() == significand * spacing,
            near == significand * denominator - numerator * step,
    ;
    assert(-denominator * spacing <= 2 * (near * spacing) <= denominator * spacing)
        by (nonlinear_arith)
        requires
            -denominator <= 2 * near <= denominator,
            0 < spacing,
    ;
}

} // verus!
