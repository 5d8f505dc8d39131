//! The order of single-precision numbers, read off their bit patterns.
//!
//! The library carries such numbers as `u32` bit patterns and never computes
//! with them. Comparing them needs no arithmetic: apart from the sign, a
//! larger bit pattern is a larger number.

use vstd::prelude::*;

verus! {

/// The bit that holds the sign.
pub const SIGN_BIT: u32 = 0x8000_0000;

/// The bit pattern of positive infinity: the largest magnitude of a number.
pub const INFINITY: u32 = 0x7f80_0000;

/// The bit pattern of `+0.0`.
pub const ZERO: u32 = 0;

/// The bit pattern of `1.0`.
pub const ONE: u32 = 0x3f80_0000;

/// A bit pattern without its sign bit. Among numbers of one sign, the one
/// with the larger magnitude is further from zero.
pub open spec fn magnitude(bits: u32) -> int {
    if bits >= SIGN_BIT {
        bits - SIGN_BIT
    } else {
        bits as int
    }
}

/// Whether a bit pattern stands for no number.
pub open spec fn is_nan(bits: u32) -> bool {
    magnitude(bits) > INFINITY
}

/// An integer that grows as the number grows: the magnitude, negated under
/// the sign bit. Both zeros have rank zero.
pub open spec fn rank(bits: u32) -> int {
    if bits >= SIGN_BIT {
        -magnitude(bits)
    } else {
        magnitude(bits)
    }
}

/// Whether the number with the first bit pattern is less than the number
/// with the second. Where either is no number, it is not.
pub open spec fn less(left: u32, right: u32) -> bool {
    !is_nan(left) && !is_nan(right) && rank(left) < rank(right)
}

/// The rank of a bit pattern.
fn rank_of(bits: u32) -> (r: i64)
    ensures
        r == rank(bits),
{
    if bits >= SIGN_BIT {
        -((bits - SIGN_BIT) as i64)
    } else {
        bits as i64
    }
}

/// Whether a bit pattern stands for no number.
pub fn not_a_number(bits: u32) -> (nan: bool)
    ensures
        nan == is_nan(bits),
{
    if bits >= SIGN_BIT {
        bits - SIGN_BIT > INFINITY
    } else {
        bits > INFINITY
    }
}

/// Compares two numbers by their bit patterns, as `<` compares the numbers.
pub fn less_than(left: u32, right: u32) -> (result: bool)
    ensures
        result == less(left, right),
{
    !not_a_number(left) && !not_a_number(right) && rank_of(left) < rank_of(right)
}

} // verus!
