//! IEEE-754 binary64 values, held as their 64-bit patterns.
//!
//! Bit 63 is the sign, bits 62..52 the biased exponent and bits 51..0 the
//! fraction. All exponent bits set with a zero fraction is an infinity, with a
//! non-zero fraction a NaN. For the other values the 63 low bits (the
//! magnitude field) grow strictly with the absolute value, so the signed
//! magnitude orders the non-NaN values as the real line does, with `-0.0`
//! and `+0.0` equal. These facts are what the predicates below state.
use vstd::prelude::*;

verus! {

/// The sign bit.
pub open spec fn sign_bit() -> u64 {
    0x8000_0000_0000_0000
}

/// The bit pattern of positive infinity: the magnitude at which the
/// non-finite values begin.
pub open spec fn infinity_bits() -> u64 {
    0x7FF0_0000_0000_0000
}

/// The bit pattern of the NaN that Rust's `f64::NAN` holds.
pub open spec fn canonical_nan_bits() -> u64 {
    0x7FF8_0000_0000_0000
}

/// The 63 low bits: exponent and fraction.
pub open spec fn magnitude(b: u64) -> int {
    (b % sign_bit()) as int
}

/// The sign bit is set.
pub open spec fn sign_set(b: u64) -> bool {
    b >= sign_bit()
}

pub open spec fn spec_is_nan(b: u64) -> bool {
    magnitude(b) > infinity_bits()
}

pub open spec fn spec_is_finite(b: u64) -> bool {
    magnitude(b) < infinity_bits()
}

/// An integer that orders the non-NaN values as their real values are
/// ordered (infinities included): the magnitude, negated when the sign is set.
pub open spec fn order_key(b: u64) -> int {
    if sign_set(b) {
        -magnitude(b)
    } else {
        magnitude(b)
    }
}

/// `a < b` on the values that the patterns encode.
pub open spec fn spec_float_lt(a: u64, b: u64) -> bool {
    !spec_is_nan(a) && !spec_is_nan(b) && order_key(a) < order_key(b)
}

/// `a >= b` on the values that the patterns encode.
pub open spec fn spec_float_ge(a: u64, b: u64) -> bool {
    !spec_is_nan(a) && !spec_is_nan(b) && order_key(a) >= order_key(b)
}

/// `a == b` on the values that the patterns encode.
pub open spec fn spec_float_eq(a: u64, b: u64) -> bool {
    !spec_is_nan(a) && !spec_is_nan(b) && order_key(a) == order_key(b)
}

/// `|b|`: the pattern with its sign bit cleared.
pub open spec fn spec_abs(b: u64) -> u64 {
    (b % sign_bit()) as u64
}

/// The value is neither infinite nor NaN.
pub fn is_finite(b: u64) -> (r: bool)
    ensures
        r == spec_is_finite(b),
{
    b % 0x8000_0000_0000_0000u64 < 0x7FF0_0000_0000_0000u64
}

/// The value is a NaN.
pub fn is_nan(b: u64) -> (r: bool)
    ensures
        r == spec_is_nan(b),
{
    b % 0x8000_0000_0000_0000u64 > 0x7FF0_0000_0000_0000u64
}

fn key_less(a: u64, b: u64) -> (r: bool)
    ensures
        r == (order_key(a) < order_key(b)),
{
    let ma = a % 0x8000_0000_0000_0000u64;
    let mb = b % 0x8000_0000_0000_0000u64;
    let na = a >= 0x8000_0000_0000_0000u64;
    let nb = b >= 0x8000_0000_0000_0000u64;
    if na && nb {
        mb < ma
    } else if na {
        !(ma == 0 && mb == 0)
    } else if nb {
        false
    } else {
        ma < mb
    }
}

/// `a < b` as the floating-point comparison decides it.
pub fn float_lt(a: u64, b: u64) -> (r: bool)
    ensures
        r == spec_float_lt(a, b),
{
    !is_nan(a) && !is_nan(b) && key_less(a, b)
}

/// `a >= b` as the floating-point comparison decides it.
pub fn float_ge(a: u64, b: u64) -> (r: bool)
    ensures
        r == spec_float_ge(a, b),
{
    !is_nan(a) && !is_nan(b) && !key_less(a, b)
}

/// `a == b` as the floating-point comparison decides it.
pub fn float_eq(a: u64, b: u64) -> (r: bool)
    ensures
        r == spec_float_eq(a, b),
{
    !is_nan(a) && !is_nan(b) && !key_less(a, b) && !key_less(b, a)
}

/// The absolute value.
pub fn abs_bits(b: u64) -> (r: u64)
    ensures
        r == spec_abs(b),
{
    b % 0x8000_0000_0000_0000u64
}

/// A finite value unchanged; any infinity or NaN replaced by NaN.
pub fn finite_or_nan(b: u64) -> (r: u64)
    ensures
        r == (if spec_is_finite(b) {
            b
        } else {
            canonical_nan_bits()
        }),
        spec_is_finite(r) || spec_is_nan(r),
{
    if is_finite(b) {
        b
    } else {
        0x7FF8_0000_0000_0000u64
    }
}

} // verus!
