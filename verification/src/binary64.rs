//! Binary floating-point numbers of 64 bits, by their bit patterns.
//!
//! A pattern holds a sign bit, eleven exponent bits and fifty-two fraction
//! bits. Apart from the patterns that are not numbers, the numbers are
//! ordered as their patterns are, read as sign and magnitude; the two zeros
//! are equal.

use vstd::prelude::*;

verus! {

/// The sign bit of a pattern.
pub const SIGN_BIT: u64 = 0x8000_0000_0000_0000;

/// The pattern of positive infinity: all exponent bits set, no fraction bit.
pub const INFINITY_BITS: u64 = 0x7ff0_0000_0000_0000;

/// The pattern without its sign bit.
pub open spec fn magnitude(bits: u64) -> int {
    if bits >= SIGN_BIT {
        bits - SIGN_BIT
    } else {
        bits as int
    }
}

/// The pattern stands for no number.
pub open spec fn is_nan(bits: u64) -> bool {
    magnitude(bits) > INFINITY_BITS
}

/// The place of a pattern among the numbers: the magnitude, negated where
/// the sign bit is set.
pub open spec fn ordinal(bits: u64) -> int {
    if bits >= SIGN_BIT {
        -magnitude(bits)
    } else {
        magnitude(bits)
    }
}

/// `a < b` as numbers; false where either is not a number.
pub open spec fn less_than(a: u64, b: u64) -> bool {
    !is_nan(a) && !is_nan(b) && ordinal(a) < ordinal(b)
}

/// The order of the numbers is strict: no number is less than itself, and
/// what is less than something less than a third is less than the third.
pub proof fn lemma_order_is_strict(a: u64, b: u64, c: u64)
    ensures
        !less_than(a, a),
        less_than(a, b) ==> !less_than(b, a),
        less_than(a, b) && less_than(b, c) ==> less_than(a, c),
{
}

/// Of two different numbers one is the lesser; the two zeros are one
/// number.
pub proof fn lemma_order_is_total(a: u64, b: u64)
    requires
        !is_nan(a),
        !is_nan(b),
    ensures
        less_than(a, b) || less_than(b, a) || a == b || (magnitude(a) == 0 && magnitude(b) == 0),
{
}

fn place(bits: u64) -> (r: Option<i128>)
    ensures
        r is None <==> is_nan(bits),
        r matches Some(p) ==> p == ordinal(bits),
{
    if bits >= SIGN_BIT {
        let m: u64 = bits - SIGN_BIT;
        if m > INFINITY_BITS {
            None
        } else {
            Some(-(m as i128))
        }
    } else if bits > INFINITY_BITS {
        None
    } else {
        Some(bits as i128)
    }
}

/// Whether the number with pattern `a` is less than the one with pattern
/// `b`.
pub fn is_less(a: u64, b: u64) -> (r: bool)
    ensures
        r == less_than(a, b),
{
    match (place(a), place(b)) {
        (Some(x), Some(y)) => x < y,
        _ => false,
    }
}

} // verus!
