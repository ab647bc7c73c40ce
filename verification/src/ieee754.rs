//! IEEE-754 bit patterns.
//!
//! The simulation data carries binary32 and binary64 values. The library holds
//! each such value by its bit pattern (what `to_bits` returns) and decides
//! finiteness, sign and order on the pattern, exactly as the hardware comparison
//! operators do.
use vstd::prelude::*;

verus! {

pub open spec fn b64_exponent(b: u64) -> nat {
    ((b as nat) / 0x10_0000_0000_0000) % 2048
}

pub open spec fn b64_mantissa(b: u64) -> nat {
    (b as nat) % 0x10_0000_0000_0000
}

pub open spec fn b64_negative_sign(b: u64) -> bool {
    b >= 0x8000_0000_0000_0000
}

pub open spec fn b64_magnitude(b: u64) -> nat {
    (b as nat) % 0x8000_0000_0000_0000
}

/// The pattern encodes a NaN.
pub open spec fn b64_is_nan(b: u64) -> bool {
    b64_exponent(b) == 2047 && b64_mantissa(b) != 0
}

/// `is_finite()` of the binary64 value.
pub open spec fn b64_is_finite(b: u64) -> bool {
    b64_exponent(b) != 2047
}

/// `x < 0.0` for the binary64 value `x`.
pub open spec fn b64_below_zero(b: u64) -> bool {
    !b64_is_nan(b) && b64_negative_sign(b) && b64_magnitude(b) != 0
}

/// `x <= y` for the binary64 values `x` and `y` (false when either is NaN;
/// the two zeros compare equal).
pub open spec fn b64_le(x: u64, y: u64) -> bool {
    if b64_is_nan(x) || b64_is_nan(y) {
        false
    } else if b64_magnitude(x) == 0 && b64_magnitude(y) == 0 {
        true
    } else if b64_negative_sign(x) && !b64_negative_sign(y) {
        true
    } else if !b64_negative_sign(x) && b64_negative_sign(y) {
        false
    } else if !b64_negative_sign(x) {
        b64_magnitude(x) <= b64_magnitude(y)
    } else {
        b64_magnitude(y) <= b64_magnitude(x)
    }
}

pub open spec fn b32_exponent(b: u32) -> nat {
    ((b as nat) / 0x80_0000) % 256
}

pub open spec fn b32_mantissa(b: u32) -> nat {
    (b as nat) % 0x80_0000
}

pub open spec fn b32_negative_sign(b: u32) -> bool {
    b >= 0x8000_0000
}

pub open spec fn b32_magnitude(b: u32) -> nat {
    (b as nat) % 0x8000_0000
}

/// The pattern encodes a NaN.
pub open spec fn b32_is_nan(b: u32) -> bool {
    b32_exponent(b) == 255 && b32_mantissa(b) != 0
}

/// `is_finite()` of the binary32 value.
pub open spec fn b32_is_finite(b: u32) -> bool {
    b32_exponent(b) != 255
}

/// `x <= 0.0` for the binary32 value `x`.
pub open spec fn b32_at_most_zero(b: u32) -> bool {
    !b32_is_nan(b) && (b32_negative_sign(b) || b32_magnitude(b) == 0)
}

pub fn binary64_is_finite(b: u64) -> (r: bool)
    ensures
        r == b64_is_finite(b),
{
    (b / 0x10_0000_0000_0000) % 2048 != 2047
}

pub fn binary64_is_nan(b: u64) -> (r: bool)
    ensures
        r == b64_is_nan(b),
{
    (b / 0x10_0000_0000_0000) % 2048 == 2047 && b % 0x10_0000_0000_0000 != 0
}

/// `x < 0.0`.
pub fn binary64_below_zero(b: u64) -> (r: bool)
    ensures
        r == b64_below_zero(b),
{
    !binary64_is_nan(b) && b >= 0x8000_0000_0000_0000 && b % 0x8000_0000_0000_0000 != 0
}

/// `x <= y`.
pub fn binary64_le(x: u64, y: u64) -> (r: bool)
    ensures
        r == b64_le(x, y),
{
    let mx = x % 0x8000_0000_0000_0000;
    let my = y % 0x8000_0000_0000_0000;
    let nx = x >= 0x8000_0000_0000_0000;
    let ny = y >= 0x8000_0000_0000_0000;
    if binary64_is_nan(x) || binary64_is_nan(y) {
        false
    } else if mx == 0 && my == 0 {
        true
    } else if nx && !ny {
        true
    } else if !nx && ny {
        false
    } else if !nx {
        mx <= my
    } else {
        my <= mx
    }
}

pub fn binary32_is_finite(b: u32) -> (r: bool)
    ensures
        r == b32_is_finite(b),
{
    (b / 0x80_0000) % 256 != 255
}

/// `x <= 0.0`.
pub fn binary32_at_most_zero(b: u32) -> (r: bool)
    ensures
        r == b32_at_most_zero(b),
{
    let nan = (b / 0x80_0000) % 256 == 255 && b % 0x80_0000 != 0;
    !nan && (b >= 0x8000_0000 || b % 0x8000_0000 == 0)
}

/// In the order of bit patterns, binary32 values run: +0, the positive finite
/// values up to `0x7f7f_ffff`, +inf, the NaNs, -0, the negative finite values,
/// -inf, the NaNs. A value is at most zero exactly when it is a zero, a
/// negative finite value or -inf.
pub proof fn lemma_b32_at_most_zero_patterns(b: u32)
    ensures
        b32_at_most_zero(b) <==> (b == 0 || (0x8000_0000 <= b && b <= 0xff80_0000)),
        b32_is_finite(b) && !b32_at_most_zero(b) <==> (0 < b && b < 0x7f80_0000),
{
}

/// A binary64 value is below zero exactly when it is a negative finite value
/// other than -0, or -inf; it is finite and not below zero exactly when it is
/// +0, a positive finite value, or -0.
pub proof fn lemma_b64_below_zero_patterns(b: u64)
    ensures
        b64_below_zero(b) <==> (0x8000_0000_0000_0000 < b && b <= 0xfff0_0000_0000_0000),
        b64_is_finite(b) && !b64_below_zero(b) <==> (b < 0x7ff0_0000_0000_0000 || b == 0x8000_0000_0000_0000),
{
}

} // verus!
