//! Raster samples as IEEE-754 binary64 bit patterns, and their classification.

use vstd::prelude::*;
use vstd::arithmetic::power2::{
    lemma2_to64, lemma_pow2_pos, lemma_pow2_strictly_increases, lemma_pow2_unfold, pow2,
};

verus! {

/// The class a sample falls into. Every sample belongs to exactly one.
#[derive(Clone, Copy, Debug, PartialEq, Eq, Structural)]
pub enum SampleClass {
    /// NaN or an infinity.
    NonFinite,
    /// Finite and within tolerance of the band's nodata value.
    Nodata,
    /// Finite and not nodata: contributes to the statistics.
    Valid,
}

/// One raster sample as the library sees it.
#[derive(Clone, Copy, Debug, PartialEq, Eq, Structural)]
pub struct Sample {
    /// The sample widened to binary64, as its bit pattern.
    pub bits: u64,
    /// Whether a nodata value is configured and the sample differs from it
    /// by less than one millionth, in absolute terms. `Sample::of` decides
    /// this from the two patterns.
    pub near_nodata: bool,
}

/// A binary64 pattern is finite when its exponent field is not all ones.
pub open spec fn is_finite_bits(bits: u64) -> bool {
    (bits >> 52) & 0x7ff != 0x7ff
}

/// The classification rule: non-finite first, then nodata, else valid.
pub open spec fn classify_spec(s: Sample) -> SampleClass {
    if !is_finite_bits(s.bits) {
        SampleClass::NonFinite
    } else if s.near_nodata {
        SampleClass::Nodata
    } else {
        SampleClass::Valid
    }
}

/// An integer that orders binary64 patterns as their numbers are ordered:
/// negative patterns are complemented, the others get the top bit set.
pub open spec fn order_key_spec(bits: u64) -> u64 {
    if bits >> 63 == 1 {
        !bits
    } else {
        bits | 0x8000_0000_0000_0000
    }
}

/// The pattern that a key was made from.
pub open spec fn key_bits_spec(key: u64) -> u64 {
    if key >> 63 == 1 {
        key & 0x7fff_ffff_ffff_ffff
    } else {
        !key
    }
}

/// Sign of a pattern: true for the negative half.
pub open spec fn sign_of(bits: u64) -> bool {
    bits >> 63 == 1
}

/// Magnitude of a pattern: exponent and mantissa, without the sign bit.
pub open spec fn magnitude_of(bits: u64) -> u64 {
    bits & 0x7fff_ffff_ffff_ffff
}

/// Numeric order on patterns by sign and magnitude, negative zero before
/// positive zero.
pub open spec fn pattern_before(a: u64, b: u64) -> bool {
    if sign_of(a) && sign_of(b) {
        magnitude_of(a) > magnitude_of(b)
    } else if sign_of(a) {
        true
    } else if sign_of(b) {
        false
    } else {
        magnitude_of(a) < magnitude_of(b)
    }
}

pub fn is_finite(bits: u64) -> (r: bool)
    ensures
        r == is_finite_bits(bits),
{
    (bits >> 52) & 0x7ff != 0x7ff
}

pub fn classify(s: Sample) -> (c: SampleClass)
    ensures
        c == classify_spec(s),
{
    if !is_finite(s.bits) {
        SampleClass::NonFinite
    } else if s.near_nodata {
        SampleClass::Nodata
    } else {
        SampleClass::Valid
    }
}

pub fn order_key(bits: u64) -> (key: u64)
    ensures
        key == order_key_spec(bits),
{
    if bits >> 63 == 1 {
        !bits
    } else {
        bits | 0x8000_0000_0000_0000
    }
}

pub fn key_bits(key: u64) -> (bits: u64)
    ensures
        bits == key_bits_spec(key),
{
    if key >> 63 == 1 {
        key & 0x7fff_ffff_ffff_ffff
    } else {
        !key
    }
}

/// A key gives its pattern back.
pub proof fn key_round_trip(bits: u64)
    ensures
        key_bits_spec(order_key_spec(bits)) == bits,
{
    assert(key_bits_spec(order_key_spec(bits)) == bits) by (bit_vector);
}

/// Keys compare as the patterns do by sign and magnitude.
pub proof fn key_order_is_pattern_order(a: u64, b: u64)
    ensures
        order_key_spec(a) < order_key_spec(b) <==> pattern_before(a, b),
{
    assert(order_key_spec(a) < order_key_spec(b) <==> pattern_before(a, b)) by (bit_vector);
}

/// The exponent field of a pattern.
pub open spec fn exponent_of(bits: u64) -> int {
    ((bits >> 52) & 0x7ff) as int
}

/// The fraction field of a pattern.
pub open spec fn fraction_of(bits: u64) -> int {
    (bits & 0xf_ffff_ffff_ffff) as int
}

/// The significand of a finite pattern: its fraction, with the hidden bit
/// of a normal number.
pub open spec fn significand_of(bits: u64) -> int {
    if exponent_of(bits) == 0 {
        fraction_of(bits)
    } else {
        fraction_of(bits) + 0x10_0000_0000_0000
    }
}

/// The power of two that the significand of a finite pattern is scaled by,
/// counted from the smallest subnormal step.
pub open spec fn scale_of(bits: u64) -> nat {
    if exponent_of(bits) == 0 {
        0
    } else {
        (exponent_of(bits) - 1) as nat
    }
}

/// The size of the number that a finite pattern stands for, in units of the
/// smallest subnormal step.
pub open spec fn scaled_size(bits: u64) -> int {
    significand_of(bits) * pow2(scale_of(bits))
}

/// The number that a finite pattern stands for, in units of the smallest
/// subnormal step.
pub open spec fn scaled_value(bits: u64) -> int {
    if sign_of(bits) {
        -scaled_size(bits)
    } else {
        scaled_size(bits)
    }
}

/// Among finite patterns, a larger magnitude field stands for a larger
/// size.
pub proof fn magnitude_orders_size(a: u64, b: u64)
    requires
        is_finite_bits(a),
        is_finite_bits(b),
        magnitude_of(a) < magnitude_of(b),
    ensures
        0 <= scaled_size(a) < scaled_size(b),
{
    let ea = exponent_of(a);
    let eb = exponent_of(b);
    let fa = fraction_of(a);
    let fb = fraction_of(b);
    assert(magnitude_of(a) == ((a >> 52) & 0x7ff) * 0x10_0000_0000_0000 + (a
        & 0xf_ffff_ffff_ffff) && (a & 0xf_ffff_ffff_ffff) < 0x10_0000_0000_0000 && ((a >> 52)
        & 0x7ff) <= 0x7ff) by (bit_vector)
        requires
            magnitude_of(a) == a & 0x7fff_ffff_ffff_ffff,
    ;
    assert(magnitude_of(b) == ((b >> 52) & 0x7ff) * 0x10_0000_0000_0000 + (b
        & 0xf_ffff_ffff_ffff) && (b & 0xf_ffff_ffff_ffff) < 0x10_0000_0000_0000 && ((b >> 52)
        & 0x7ff) <= 0x7ff) by (bit_vector)
        requires
            magnitude_of(b) == b & 0x7fff_ffff_ffff_ffff,
    ;
    assert(magnitude_of(a) == ea * 0x10_0000_0000_0000 + fa);
    assert(magnitude_of(b) == eb * 0x10_0000_0000_0000 + fb);
    let sa = scale_of(a);
    let sb = scale_of(b);
    let ma = significand_of(a);
    let mb = significand_of(b);
    lemma_pow2_pos(sa);
    lemma_pow2_pos(sb);
    assert(0 <= ma * pow2(sa)) by (nonlinear_arith)
        requires
            ma >= 0,
            pow2(sa) > 0,
    ;
    if ea == eb {
        assert(fa < fb);
        assert(ma * pow2(sa) < mb * pow2(sa)) by (nonlinear_arith)
            requires
                ma < mb,
                pow2(sa) > 0,
        ;
    } else {
        assert(ea < eb);
        assert(mb >= 0x10_0000_0000_0000);
        if ea == 0 {
            assert(ma < 0x10_0000_0000_0000);
            assert(ma * pow2(sa) == ma) by {
                lemma2_to64();
            }
            assert(mb * pow2(sb) >= mb) by (nonlinear_arith)
                requires
                    mb >= 0,
                    pow2(sb) >= 1,
            ;
        } else {
            assert(ma < 0x20_0000_0000_0000);
            assert(sb >= sa + 1);
            if sb > sa + 1 {
                lemma_pow2_strictly_increases(sa + 1, sb);
            }
            lemma_pow2_unfold(sa + 1);
            assert(pow2(sb) >= 2 * pow2(sa));
            assert(ma * pow2(sa) < mb * pow2(sb)) by (nonlinear_arith)
                requires
                    0 <= ma < 0x20_0000_0000_0000,
                    mb >= 0x10_0000_0000_0000,
                    pow2(sb) >= 2 * pow2(sa),
                    pow2(sa) > 0,
            ;
        }
    }
}

/// Keys order finite patterns as the numbers they stand for are ordered:
/// a smaller key never stands for a larger number, and a smaller number
/// always has the smaller key.
pub proof fn keys_order_numbers(a: u64, b: u64)
    requires
        is_finite_bits(a),
        is_finite_bits(b),
    ensures
        order_key_spec(a) < order_key_spec(b) ==> scaled_value(a) <= scaled_value(b),
        scaled_value(a) < scaled_value(b) ==> order_key_spec(a) < order_key_spec(b),
{
    key_order_is_pattern_order(a, b);
    key_order_is_pattern_order(b, a);
    key_round_trip(a);
    key_round_trip(b);
    lemma_pow2_pos(scale_of(a));
    lemma_pow2_pos(scale_of(b));
    assert(0 <= scaled_size(a)) by (nonlinear_arith)
        requires
            significand_of(a) >= 0,
            pow2(scale_of(a)) > 0,
            scaled_size(a) == significand_of(a) * pow2(scale_of(a)),
    ;
    assert(0 <= scaled_size(b)) by (nonlinear_arith)
        requires
            significand_of(b) >= 0,
            pow2(scale_of(b)) > 0,
            scaled_size(b) == significand_of(b) * pow2(scale_of(b)),
    ;
    if magnitude_of(a) < magnitude_of(b) {
        magnitude_orders_size(a, b);
    }
    if magnitude_of(b) < magnitude_of(a) {
        magnitude_orders_size(b, a);
    }
    if magnitude_of(a) == magnitude_of(b) {
        assert(exponent_of(a) == exponent_of(b) && fraction_of(a) == fraction_of(b)) by {
            assert(((a >> 52) & 0x7ff) == ((b >> 52) & 0x7ff) && (a & 0xf_ffff_ffff_ffff) == (b
                & 0xf_ffff_ffff_ffff)) by (bit_vector)
                requires
                    a & 0x7fff_ffff_ffff_ffff == b & 0x7fff_ffff_ffff_ffff,
            ;
        }
    }
}

/// A pattern gives its key back.
pub proof fn bits_round_trip(key: u64)
    ensures
        order_key_spec(key_bits_spec(key)) == key,
{
    assert(order_key_spec(key_bits_spec(key)) == key) by (bit_vector);
}

/// Of two keys of finite patterns, the one that is not larger stands for
/// the number that is not larger.
pub proof fn key_order_is_number_order(low: u64, high: u64)
    requires
        low <= high,
        is_finite_bits(key_bits_spec(low)),
        is_finite_bits(key_bits_spec(high)),
    ensures
        scaled_value(key_bits_spec(low)) <= scaled_value(key_bits_spec(high)),
{
    bits_round_trip(low);
    bits_round_trip(high);
    keys_order_numbers(key_bits_spec(low), key_bits_spec(high));
}

} // verus!
