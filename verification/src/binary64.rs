//! Double-precision readings, held as the bit patterns the host hands over.
//!
//! Webots, the manifest and the wire all speak floating point. The controller's
//! rules only ever classify such a reading, order two of them, or round one to
//! a whole number, and each of those is exact on the bit pattern. Arithmetic
//! stays with the host's floating-point unit: it hands the result over as
//! another pattern. Single-precision readings are widened first, which loses
//! nothing.
//!
//! Every double is a whole multiple of the smallest subnormal, two to the power
//! of minus 1074. [`Binary64::units`] is that multiple, so what a pattern means
//! is an integer and comparing or rounding readings is integer arithmetic.

use vstd::arithmetic::div_mod::*;
use vstd::arithmetic::mul::*;
use vstd::arithmetic::power2::*;
use vstd::bits::*;
use vstd::prelude::*;

verus! {

/// The number of fraction patterns, two to the power of 52.
pub const FRACTION_SPAN: u64 = 0x10_0000_0000_0000;

/// The number of exponent patterns.
pub const EXPONENT_SPAN: u64 = 0x800;

/// The weight of the sign bit.
pub const SIGN_WEIGHT: u64 = 0x8000_0000_0000_0000;

/// The exponent field shared by the infinities and the NaNs.
pub const TOP_EXPONENT: u64 = 0x7ff;

/// The binary point: one is two to this power, in units of the smallest
/// subnormal.
pub const ONE_SCALE: u64 = 1074;

/// One double-precision value as its bit pattern.
///
/// `==` compares patterns, so it tells the two zeros apart and finds a NaN
/// equal to itself; [`Binary64::exceeds`] is the numeric order.
#[derive(Clone, Copy, Debug, PartialEq, Eq, Structural)]
pub struct Binary64 {
    pub bits: u64,
}

/// One, in units of the smallest subnormal.
pub open spec fn one_unit() -> nat {
    pow2(ONE_SCALE as nat)
}

impl Binary64 {
    /// The eleven exponent bits.
    pub open spec fn exponent_field(self) -> nat {
        ((self.bits / FRACTION_SPAN) % EXPONENT_SPAN) as nat
    }

    /// The significand as a whole number: the fraction bits, with the implicit
    /// leading one of every normal number.
    pub open spec fn significand(self) -> nat {
        if self.exponent_field() == 0 {
            (self.bits % FRACTION_SPAN) as nat
        } else {
            (self.bits % FRACTION_SPAN + FRACTION_SPAN) as nat
        }
    }

    /// The power of two the significand is scaled by, in units of the smallest
    /// subnormal.
    pub open spec fn scale(self) -> nat {
        if self.exponent_field() == 0 {
            0
        } else {
            (self.exponent_field() - 1) as nat
        }
    }

    /// The absolute value in units of the smallest subnormal. An infinity is
    /// the first multiple beyond the largest finite value, which is where the
    /// numeric order puts it.
    pub open spec fn magnitude(self) -> nat {
        self.significand() * pow2(self.scale())
    }

    /// Whether the sign bit is set.
    pub open spec fn sign_is_set(self) -> bool {
        self.bits >= SIGN_WEIGHT
    }

    /// The value in units of the smallest subnormal.
    pub open spec fn units(self) -> int {
        if self.sign_is_set() {
            -(self.magnitude() as int)
        } else {
            self.magnitude() as int
        }
    }

    /// Neither an infinity nor a NaN.
    pub open spec fn finite(self) -> bool {
        self.exponent_field() != TOP_EXPONENT
    }

    /// Not a number.
    pub open spec fn nan(self) -> bool {
        self.exponent_field() == TOP_EXPONENT && self.bits % FRACTION_SPAN != 0
    }

    /// Greater than zero, as a comparison of floats finds it.
    pub open spec fn above_zero(self) -> bool {
        !self.nan() && self.units() > 0
    }

    /// Less than zero, as a comparison of floats finds it.
    pub open spec fn below_zero(self) -> bool {
        !self.nan() && self.units() < 0
    }

    /// Greater than `other`, as a comparison of floats finds it: a NaN is
    /// greater than nothing and nothing is greater than a NaN.
    pub open spec fn greater_than(self, other: Binary64) -> bool {
        !self.nan() && !other.nan() && self.units() > other.units()
    }

    /// The absolute value rounded to the nearest whole number, halves away
    /// from zero.
    pub open spec fn rounded_magnitude(self) -> nat {
        (2 * self.magnitude() + one_unit()) / (2 * one_unit())
    }

    /// Adopt the bit pattern of a reading.
    pub fn from_bits(bits: u64) -> (value: Binary64)
        ensures
            value.bits == bits,
    {
        Binary64 { bits }
    }

    /// The bit pattern of this reading.
    pub fn to_bits(self) -> (bits: u64)
        ensures
            bits == self.bits,
    {
        self.bits
    }

    /// Whether this reading is finite.
    pub fn is_finite(self) -> (finite: bool)
        ensures
            finite == self.finite(),
    {
        (self.bits / FRACTION_SPAN) % EXPONENT_SPAN != TOP_EXPONENT
    }

    /// Whether this reading is not a number.
    pub fn is_nan(self) -> (nan: bool)
        ensures
            nan == self.nan(),
    {
        !self.is_finite() && self.bits % FRACTION_SPAN != 0
    }

    /// Whether this reading is one of the two zeros.
    pub fn is_zero(self) -> (zero: bool)
        ensures
            zero == (self.units() == 0),
    {
        proof {
            lemma_magnitude_is_zero(self);
        }
        self.bits % SIGN_WEIGHT == 0
    }

    /// Whether this reading is greater than zero.
    pub fn is_positive(self) -> (positive: bool)
        ensures
            positive == self.above_zero(),
    {
        !self.is_nan() && !self.is_zero() && self.bits < SIGN_WEIGHT
    }

    /// Whether this reading is less than zero.
    pub fn is_negative(self) -> (negative: bool)
        ensures
            negative == self.below_zero(),
    {
        !self.is_nan() && !self.is_zero() && self.bits >= SIGN_WEIGHT
    }

    /// Whether this reading is greater than `other`.
    pub fn exceeds(self, other: Binary64) -> (greater: bool)
        ensures
            greater == self.greater_than(other),
    {
        if self.is_nan() || other.is_nan() {
            return false;
        }
        let own: u64 = self.bits % SIGN_WEIGHT;
        let others: u64 = other.bits % SIGN_WEIGHT;
        proof {
            lemma_magnitude_is_zero(self);
            lemma_magnitude_is_zero(other);
            law_magnitude_follows_the_pattern(self, other);
            law_magnitude_follows_the_pattern(other, self);
        }
        if self.bits < SIGN_WEIGHT {
            if other.bits < SIGN_WEIGHT {
                own > others
            } else {
                own > 0 || others > 0
            }
        } else {
            other.bits >= SIGN_WEIGHT && own < others
        }
    }

    /// The absolute value rounded to the nearest whole number, halves away
    /// from zero, when that fits in 64 bits.
    pub fn round_magnitude(self) -> (rounded: Option<u64>)
        ensures
            match rounded {
                Some(whole) => whole == self.rounded_magnitude(),
                None => self.rounded_magnitude() > u64::MAX,
            },
    {
        let exponent: u64 = (self.bits / FRACTION_SPAN) % EXPONENT_SPAN;
        let fraction: u64 = self.bits % FRACTION_SPAN;
        let significand: u64 = if exponent == 0 { fraction } else { fraction + FRACTION_SPAN };
        let scale: u64 = if exponent == 0 { 0 } else { exponent - 1 };
        if scale >= ONE_SCALE {
            let shift: u64 = scale - ONE_SCALE;
            proof {
                lemma_round_whole(significand as nat, scale as nat);
            }
            if shift > 11 {
                proof {
                    lemma_pow2_strictly_increases(11, shift as nat);
                    lemma_pow2_unfold(12);
                    lemma2_to64();
                    assert(pow2(shift as nat) >= 4096) by {
                        if shift > 12 {
                            lemma_pow2_strictly_increases(12, shift as nat);
                        }
                    }
                    assert(significand * pow2(shift as nat) >= FRACTION_SPAN * 4096)
                        by (nonlinear_arith)
                        requires
                            significand >= FRACTION_SPAN,
                            pow2(shift as nat) >= 4096,
                    ;
                }
                return None;
            }
            proof {
                lemma2_to64();
                if shift < 11 {
                    lemma_pow2_strictly_increases(shift as nat, 11);
                }
                assert(significand * pow2(shift as nat) <= (2 * FRACTION_SPAN - 1) * 2048)
                    by (nonlinear_arith)
                    requires
                        significand <= 2 * FRACTION_SPAN - 1,
                        pow2(shift as nat) <= 2048,
                ;
                lemma_u64_shl_is_mul(significand, shift);
            }
            Some(significand << shift)
        } else {
            let shift: u64 = ONE_SCALE - scale;
            proof {
                lemma_round_fraction(significand as nat, scale as nat);
            }
            if shift > 53 {
                proof {
                    lemma2_to64_rest();
                    if shift > 54 {
                        lemma_pow2_strictly_increases(53, (shift - 1) as nat);
                    }
                    lemma_pow2_unfold(shift as nat);
                    lemma_basic_div((significand + pow2((shift - 1) as nat)) as int, pow2(shift as nat) as int);
                }
                return Some(0);
            }
            proof {
                lemma2_to64_rest();
                lemma2_to64();
                if shift < 53 {
                    lemma_pow2_strictly_increases((shift - 1) as nat, 52);
                }
                lemma_u64_shl_is_mul(1, (shift - 1) as u64);
            }
            let half: u64 = 1u64 << (shift - 1);
            proof {
                lemma_u64_shr_is_div((significand + half) as u64, shift);
            }
            Some((significand + half) >> shift)
        }
    }
}

/// Exactly the two zero patterns have no magnitude.
proof fn lemma_magnitude_is_zero(value: Binary64)
    ensures
        value.magnitude() == 0 <==> value.bits % SIGN_WEIGHT == 0,
{
    lemma_pow2_pos(value.scale());
    let s = value.significand();
    let p = pow2(value.scale());
    assert(s * p == 0 <==> s == 0) by (nonlinear_arith)
        requires
            p > 0,
    ;
}

/// A value at or past the binary point is a whole number already.
proof fn lemma_round_whole(significand: nat, scale: nat)
    requires
        scale >= ONE_SCALE,
    ensures
        (2 * (significand * pow2(scale)) + one_unit()) / (2 * one_unit()) == significand * pow2(
            (scale - ONE_SCALE) as nat,
        ),
{
    let one = one_unit() as int;
    let shift = (scale - ONE_SCALE) as nat;
    lemma_pow2_pos(ONE_SCALE as nat);
    lemma_pow2_adds(ONE_SCALE as nat, shift);
    let whole = significand * pow2(shift);
    assert(significand * pow2(scale) == one * whole) by (nonlinear_arith)
        requires
            pow2(scale) == one * pow2(shift),
            whole == significand * pow2(shift),
    ;
    assert(2 * (one * whole) + one == (2 * one) * whole + one) by (nonlinear_arith);
    lemma_fundamental_div_mod_converse(2 * (one * whole) + one, 2 * one, whole as int, one);
}

/// Rounding a value whose lowest bits are below the binary point is adding a
/// half and dropping those bits.
proof fn lemma_round_fraction(significand: nat, scale: nat)
    requires
        scale < ONE_SCALE,
    ensures
        (2 * (significand * pow2(scale)) + one_unit()) / (2 * one_unit()) == (significand + pow2(
            (ONE_SCALE - scale - 1) as nat,
        )) / pow2((ONE_SCALE - scale) as nat),
{
    let shift = (ONE_SCALE - scale) as nat;
    let half = pow2((shift - 1) as nat) as int;
    let unit = pow2(shift) as int;
    let low = pow2(scale) as int;
    lemma_pow2_pos(scale);
    lemma_pow2_pos(shift);
    lemma_pow2_pos((shift - 1) as nat);
    lemma_pow2_unfold(shift);
    lemma_pow2_adds(scale, shift);
    let sum = significand + half;
    assert(2 * (significand * low) + low * unit == (2 * low) * sum) by (nonlinear_arith)
        requires
            unit == 2 * half,
            sum == significand + half,
    ;
    assert(2 * (low * unit) == (2 * low) * unit) by (nonlinear_arith);
    lemma_truncate_common_factor(sum, 2 * low, unit);
}

/// A common factor cancels out of a quotient.
proof fn lemma_truncate_common_factor(x: int, factor: int, d: int)
    requires
        x >= 0,
        factor > 0,
        d > 0,
    ensures
        (factor * x) / (factor * d) == x / d,
{
    lemma_mul_is_commutative(factor, x);
    assert(factor * d > 0) by (nonlinear_arith)
        requires
            factor > 0,
            d > 0,
    ;
    lemma_div_denominator(factor * x, factor, d);
    lemma_div_multiples_vanish(x, factor);
}

/// The numeric order of absolute values is the order of their patterns.
pub proof fn law_magnitude_follows_the_pattern(smaller: Binary64, larger: Binary64)
    ensures
        smaller.bits % SIGN_WEIGHT < larger.bits % SIGN_WEIGHT <==> smaller.magnitude()
            < larger.magnitude(),
{
    if smaller.bits % SIGN_WEIGHT < larger.bits % SIGN_WEIGHT {
        lemma_magnitude_increases(smaller, larger);
    } else if larger.bits % SIGN_WEIGHT < smaller.bits % SIGN_WEIGHT {
        lemma_magnitude_increases(larger, smaller);
    } else {
        lemma_fields_ignore_the_sign(smaller);
        lemma_fields_ignore_the_sign(larger);
        assert(smaller.significand() == larger.significand());
    }
}

/// The sign bit is part of neither the exponent nor the fraction.
proof fn lemma_fields_ignore_the_sign(value: Binary64)
    ensures
        value.exponent_field() == (value.bits % SIGN_WEIGHT) / FRACTION_SPAN,
        value.bits % FRACTION_SPAN == (value.bits % SIGN_WEIGHT) % FRACTION_SPAN,
{
    let bits = value.bits;
    assert((bits / 0x10_0000_0000_0000u64) % 0x800 == (bits % 0x8000_0000_0000_0000u64)
        / 0x10_0000_0000_0000u64) by (bit_vector);
    assert(bits % 0x10_0000_0000_0000u64 == (bits % 0x8000_0000_0000_0000u64)
        % 0x10_0000_0000_0000u64) by (bit_vector);
}

proof fn lemma_magnitude_increases(smaller: Binary64, larger: Binary64)
    requires
        smaller.bits % SIGN_WEIGHT < larger.bits % SIGN_WEIGHT,
    ensures
        smaller.magnitude() < larger.magnitude(),
{
    lemma_fields_ignore_the_sign(smaller);
    lemma_fields_ignore_the_sign(larger);
    let a = smaller.significand();
    let b = larger.significand();
    let p = pow2(smaller.scale());
    let q = pow2(larger.scale());
    lemma_pow2_pos(smaller.scale());
    lemma_pow2_pos(larger.scale());
    if smaller.exponent_field() == larger.exponent_field() {
        assert(a * p < b * p) by (nonlinear_arith)
            requires
                a < b,
                p > 0,
        ;
    } else {
        assert(smaller.exponent_field() < larger.exponent_field());
        assert(b * q >= FRACTION_SPAN * q) by (nonlinear_arith)
            requires
                b >= FRACTION_SPAN,
        ;
        if smaller.exponent_field() == 0 {
            lemma2_to64();
            assert(FRACTION_SPAN * q >= FRACTION_SPAN) by (nonlinear_arith)
                requires
                    q >= 1,
            ;
        } else {
            lemma_pow2_unfold((smaller.scale() + 1) as nat);
            if smaller.scale() + 1 < larger.scale() {
                lemma_pow2_strictly_increases((smaller.scale() + 1) as nat, larger.scale());
            }
            assert(a * p < FRACTION_SPAN * q) by (nonlinear_arith)
                requires
                    a < 2 * FRACTION_SPAN,
                    2 * p <= q,
                    p > 0,
            ;
        }
    }
}

/// Rounding moves a value by at most a half, and a half is moved away from zero.
pub proof fn law_rounding_is_nearest(value: Binary64)
    ensures
        2 * value.magnitude() < (2 * value.rounded_magnitude() + 1) * one_unit(),
        (2 * value.rounded_magnitude()) * one_unit() <= 2 * value.magnitude() + one_unit(),
{
    let one = one_unit() as int;
    lemma_pow2_pos(ONE_SCALE as nat);
    let n = 2 * value.magnitude() + one;
    let r = value.rounded_magnitude() as int;
    lemma_fundamental_div_mod(n, 2 * one);
    assert((2 * one) * r == (2 * r) * one) by (nonlinear_arith);
    assert((2 * r + 1) * one == (2 * r) * one + one) by (nonlinear_arith);
}

/// Rounding keeps the order of absolute values.
pub proof fn law_rounding_is_monotone(smaller: Binary64, larger: Binary64)
    requires
        smaller.magnitude() <= larger.magnitude(),
    ensures
        smaller.rounded_magnitude() <= larger.rounded_magnitude(),
{
    lemma_pow2_pos(ONE_SCALE as nat);
    let one = one_unit() as int;
    lemma_div_is_ordered(2 * smaller.magnitude() + one, 2 * larger.magnitude() + one, 2 * one);
}

/// No finite value lies within a half below the first whole number beyond 64
/// bits, so a value rounds to one that fits exactly when it is below that
/// number itself.
pub proof fn law_rounding_fits_below_the_limit(value: Binary64)
    ensures
        value.rounded_magnitude() <= u64::MAX <==> value.magnitude() < 0x1_0000_0000_0000_0000
            * one_unit(),
{
    let one = one_unit() as int;
    let limit: int = 0x1_0000_0000_0000_0000;
    let m = value.magnitude() as int;
    let r = value.rounded_magnitude() as int;
    lemma_pow2_pos(ONE_SCALE as nat);
    lemma_fundamental_div_mod(2 * m + one, 2 * one);
    lemma_mod_bound(2 * m + one, 2 * one);
    assert((2 * one) * r == 2 * (one * r)) by (nonlinear_arith);
    if m >= limit * one {
        assert(r >= limit) by (nonlinear_arith)
            requires
                2 * m + one < 2 * (one * r) + 2 * one,
                m >= limit * one,
                one > 0,
        ;
    } else {
        let significand = value.significand() as int;
        let scale = value.scale();
        if scale >= ONE_SCALE {
            let shift = (scale - ONE_SCALE) as nat;
            lemma_pow2_adds(ONE_SCALE as nat, shift);
            let whole = significand * pow2(shift);
            assert(m == one * whole) by (nonlinear_arith)
                requires
                    m == significand * pow2(scale),
                    pow2(scale) == one * pow2(shift),
                    whole == significand * pow2(shift),
            ;
            assert(r < limit) by (nonlinear_arith)
                requires
                    m == one * whole,
                    m < limit * one,
                    2 * (one * r) <= 2 * m + one,
                    one > 0,
            ;
        } else {
            lemma_pow2_strictly_increases(scale, ONE_SCALE as nat);
            lemma_fields_ignore_the_sign(value);
            let low = pow2(scale) as int;
            assert(r < limit) by (nonlinear_arith)
                requires
                    m == significand * low,
                    0 <= significand < 0x20_0000_0000_0000,
                    0 <= low < one,
                    2 * (one * r) <= 2 * m + one,
                    limit == 0x1_0000_0000_0000_0000int,
            ;
        }
    }
}

/// A whole number is its own nearest.
pub proof fn law_whole_numbers_round_to_themselves(value: Binary64, whole: nat)
    requires
        value.magnitude() == whole * one_unit(),
    ensures
        value.rounded_magnitude() == whole,
{
    lemma_pow2_pos(ONE_SCALE as nat);
    let one = one_unit() as int;
    let w = whole as int;
    assert((2 * w + 1) * one == 2 * (w * one) + one) by (nonlinear_arith);
    assert((2 * w) * one == 2 * (w * one)) by (nonlinear_arith);
    lemma_nearest_is_unique(value, whole);
}

/// Only one whole number is nearest, with halves moved away from zero.
pub proof fn lemma_nearest_is_unique(value: Binary64, whole: nat)
    requires
        2 * value.magnitude() < (2 * whole + 1) * one_unit(),
        (2 * whole) * one_unit() <= 2 * value.magnitude() + one_unit(),
    ensures
        value.rounded_magnitude() == whole,
{
    lemma_pow2_pos(ONE_SCALE as nat);
    let one = one_unit() as int;
    let w = whole as int;
    let n = 2 * value.magnitude() + one;
    assert((2 * w + 1) * one == (2 * one) * w + one) by (nonlinear_arith);
    assert((2 * w) * one == (2 * one) * w) by (nonlinear_arith);
    assert((2 * one) * w == w * (2 * one)) by (nonlinear_arith);
    lemma_fundamental_div_mod_converse(n, 2 * one, w, n - (2 * one) * w);
}

/// Counting patterns up from zero counts absolute values up: each step adds the
/// weight of the last fraction bit, which is one unit below the first normal
/// number and doubles with every exponent from there on.
pub proof fn law_each_pattern_adds_its_last_bit(bits: u64)
    requires
        bits < 0x7fff_ffff_ffff_ffff,
    ensures
        (Binary64 { bits: 0 }).magnitude() == 0,
        (Binary64 { bits: (bits + 1) as u64 }).magnitude() == (Binary64 { bits }).magnitude()
            + pow2(
            if bits < 0x20_0000_0000_0000 {
                0
            } else {
                (bits as nat / 0x10_0000_0000_0000nat - 1) as nat
            },
        ),
{
    let zero = Binary64 { bits: 0 };
    assert(zero.significand() == 0);
    assert(0 * pow2(zero.scale()) == 0);
    let low = Binary64 { bits };
    let high = Binary64 { bits: (bits + 1) as u64 };
    lemma_fields_ignore_the_sign(low);
    lemma_fields_ignore_the_sign(high);
    lemma_pow2_pos(low.scale());
    lemma2_to64();
    let p = pow2(low.scale()) as int;
    if bits % FRACTION_SPAN == 0xf_ffff_ffff_ffff {
        assert(high.bits % FRACTION_SPAN == 0);
        assert(high.exponent_field() == low.exponent_field() + 1);
        if low.exponent_field() == 0 {
            assert(FRACTION_SPAN * pow2(0) == FRACTION_SPAN);
            assert(low.significand() * pow2(0) == low.significand());
        } else {
            lemma_pow2_unfold(high.scale());
            let a = low.significand() as int;
            assert(FRACTION_SPAN * (2 * p) == a * p + p) by (nonlinear_arith)
                requires
                    a == 2 * FRACTION_SPAN - 1,
            ;
        }
    } else {
        assert(high.exponent_field() == low.exponent_field());
        assert(high.bits % FRACTION_SPAN == low.bits % FRACTION_SPAN + 1);
        let a = low.significand() as int;
        assert((a + 1) * p == a * p + p) by (nonlinear_arith);
    }
}

/// The pattern of a power of two no less than one stands for that power.
pub proof fn law_powers_of_two_have_their_own_patterns(exponent: nat)
    requires
        exponent <= 1023,
    ensures
        (Binary64 { bits: (0x3ff0_0000_0000_0000 + exponent * 0x10_0000_0000_0000) as u64 })
            .magnitude() == pow2(exponent) * one_unit(),
{
    let value = Binary64 { bits: (0x3ff0_0000_0000_0000 + exponent * 0x10_0000_0000_0000) as u64 };
    lemma_fields_ignore_the_sign(value);
    assert(value.exponent_field() == 1023 + exponent);
    assert(value.significand() == FRACTION_SPAN);
    assert(value.scale() == 1022 + exponent);
    lemma2_to64();
    lemma2_to64_rest();
    assert(pow2(52) == FRACTION_SPAN);
    lemma_pow2_adds(52, value.scale());
    lemma_pow2_adds(exponent, ONE_SCALE as nat);
}

/// What a pattern is can be read off it: the sign is the top bit, what is left
/// is finite below the pattern of infinity and not a number above it.
pub proof fn law_classes_are_read_off_the_pattern(value: Binary64)
    ensures
        value.finite() <==> value.bits % 0x8000_0000_0000_0000 < 0x7ff0_0000_0000_0000,
        value.nan() <==> value.bits % 0x8000_0000_0000_0000 > 0x7ff0_0000_0000_0000,
        value.above_zero() <==> 0 < value.bits <= 0x7ff0_0000_0000_0000,
        value.below_zero() <==> 0x8000_0000_0000_0000 < value.bits <= 0xfff0_0000_0000_0000,
        value.magnitude() == 0 <==> value.bits == 0 || value.bits == 0x8000_0000_0000_0000,
        value.units() == if value.bits < 0x8000_0000_0000_0000 {
            value.magnitude() as int
        } else {
            -(value.magnitude() as int)
        },
{
    lemma_fields_ignore_the_sign(value);
    let zero = Binary64 { bits: 0 };
    assert(zero.significand() == 0);
    assert(0 * pow2(zero.scale()) == 0);
    law_magnitude_follows_the_pattern(zero, value);
    assert(value.bits / FRACTION_SPAN < 0x1000);
}

/// Numbers are ordered by their patterns: upwards where both are positive,
/// downwards where both are negative, and a positive one is above a negative
/// one. A pattern that is no number is above nothing and below nothing.
pub proof fn law_order_is_read_off_the_patterns(value: Binary64, other: Binary64)
    ensures
        value.nan() || other.nan() ==> !value.greater_than(other),
        !value.nan() && !other.nan() ==> {
            let top: u64 = 0x8000_0000_0000_0000;
            &&& value.bits < top && other.bits < top ==> (value.greater_than(other) <==> value.bits
                > other.bits)
            &&& value.bits >= top && other.bits >= top ==> (value.greater_than(other)
                <==> value.bits < other.bits)
            &&& value.bits < top && other.bits >= top ==> (value.greater_than(other) <==> value.bits
                != 0 || other.bits != top)
            &&& value.bits >= top && other.bits < top ==> !value.greater_than(other)
        },
{
    law_classes_are_read_off_the_pattern(value);
    law_classes_are_read_off_the_pattern(other);
    law_magnitude_follows_the_pattern(value, other);
    law_magnitude_follows_the_pattern(other, value);
}

} // verus!
