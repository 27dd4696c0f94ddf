//! The colour ramp of the terminal display.
//!
//! Intensities are single-precision numbers in the binary interchange format
//! of IEEE 754, handled by their 32-bit patterns: sign, eight exponent bits,
//! twenty-three fraction bits. Comparing two of them as numbers is integer
//! work on the patterns, which is all this module does.

use vstd::prelude::*;

verus! {

/// Pattern of positive infinity; every greater pattern with a clear sign bit
/// encodes no number.
pub const POSITIVE_INFINITY: u32 = 0x7f80_0000;

/// Pattern of negative zero, the least pattern with the sign bit set.
pub const NEGATIVE_ZERO: u32 = 0x8000_0000;

/// Pattern of negative infinity; every greater pattern encodes no number.
pub const NEGATIVE_INFINITY: u32 = 0xff80_0000;

/// Pattern of the single-precision number nearest to 0.3.
pub const CYAN_FROM: u32 = 0x3e99_999a;

/// Pattern of the single-precision number nearest to 0.4.
pub const GREEN_FROM: u32 = 0x3ecc_cccd;

/// Pattern of the single-precision number nearest to 0.6.
pub const YELLOW_FROM: u32 = 0x3f19_999a;

/// Pattern of the single-precision number nearest to 0.8.
pub const RED_FROM: u32 = 0x3f4c_cccd;

/// The five colours of the ramp, from faint to strong.
#[derive(Clone, Copy, Debug, PartialEq, Eq, Structural)]
pub enum Shade {
    Blue,
    Cyan,
    Green,
    Yellow,
    Red,
}

/// The pattern encodes no number.
pub open spec fn is_nan(bits: u32) -> bool {
    (POSITIVE_INFINITY < bits && bits < NEGATIVE_ZERO) || NEGATIVE_INFINITY < bits
}

/// Place of the encoded number in the order of all encoded numbers: equal
/// numbers (the two zeros) share a place, and a smaller number has a smaller
/// place.
pub open spec fn rank(bits: u32) -> int
    recommends
        !is_nan(bits),
{
    if bits < NEGATIVE_ZERO {
        bits as int
    } else {
        NEGATIVE_ZERO - bits
    }
}

/// The number that `a` encodes is less than the number that `b` encodes.
/// Nothing is less than, and nothing is greater than, a pattern that encodes
/// no number.
pub open spec fn less_than(a: u32, b: u32) -> bool {
    !is_nan(a) && !is_nan(b) && rank(a) < rank(b)
}

/// The colour for an intensity: blue below 0.3, cyan below 0.4, green below
/// 0.6, yellow below 0.8, red from there on and for what is no number.
pub open spec fn shade_of(bits: u32) -> Shade {
    if less_than(bits, CYAN_FROM) {
        Shade::Blue
    } else if less_than(bits, GREEN_FROM) {
        Shade::Cyan
    } else if less_than(bits, YELLOW_FROM) {
        Shade::Green
    } else if less_than(bits, RED_FROM) {
        Shade::Yellow
    } else {
        Shade::Red
    }
}

/// Place of a colour on the ramp, counted from the faintest.
pub open spec fn strength(shade: Shade) -> nat {
    match shade {
        Shade::Blue => 0,
        Shade::Cyan => 1,
        Shade::Green => 2,
        Shade::Yellow => 3,
        Shade::Red => 4,
    }
}

/// The ramp never runs backwards: of two intensities the greater is never
/// drawn in the fainter colour.
pub proof fn lemma_ramp_is_monotone(a: u32, b: u32)
    requires
        less_than(a, b),
    ensures
        strength(shade_of(a)) <= strength(shade_of(b)),
{
}

/// Whether the pattern encodes no number.
pub fn encodes_no_number(bits: u32) -> (nan: bool)
    ensures
        nan == is_nan(bits),
{
    (POSITIVE_INFINITY < bits && bits < NEGATIVE_ZERO) || NEGATIVE_INFINITY < bits
}

/// Compares two patterns as the numbers that they encode.
pub fn is_less(a: u32, b: u32) -> (less: bool)
    ensures
        less == less_than(a, b),
{
    if encodes_no_number(a) || encodes_no_number(b) {
        false
    } else if a < NEGATIVE_ZERO {
        b < NEGATIVE_ZERO && a < b
    } else if b < NEGATIVE_ZERO {
        a != NEGATIVE_ZERO || b != 0
    } else {
        b < a
    }
}

/// The colour in which an intensity is drawn.
pub fn intensity_color(val: u32) -> (shade: Shade)
    ensures
        shade == shade_of(val),
{
    if is_less(val, CYAN_FROM) {
        Shade::Blue
    } else if is_less(val, GREEN_FROM) {
        Shade::Cyan
    } else if is_less(val, YELLOW_FROM) {
        Shade::Green
    } else if is_less(val, RED_FROM) {
        Shade::Yellow
    } else {
        Shade::Red
    }
}

} // verus!
