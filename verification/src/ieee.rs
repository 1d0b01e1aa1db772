//! The order of IEEE-754 binary32 values, read off their bit patterns.
//!
//! A binary32 value is a sign bit, eight exponent bits and twenty-three
//! fraction bits. Without the sign bit the pattern grows with the value's
//! size, so two values that are not NaN compare as their signed magnitudes
//! do. Both zeros have magnitude zero and are equal. A NaN is neither greater
//! nor less than anything.

use vstd::prelude::*;

verus! {

/// The pattern's sign bit.
pub const SIGN_BIT: u32 = 0x8000_0000;

/// Positive infinity. Every greater magnitude is a NaN.
pub const INFINITY: u32 = 0x7f80_0000;

/// Positive zero.
pub const ZERO: u32 = 0;

/// The value one.
pub const ONE: u32 = 0x3f80_0000;

/// The pattern without its sign bit: the pattern of the absolute value.
pub open spec fn magnitude(bits: u32) -> u32 {
    if bits >= SIGN_BIT {
        (bits - SIGN_BIT) as u32
    } else {
        bits
    }
}

/// Whether the pattern is a NaN.
pub open spec fn is_nan(bits: u32) -> bool {
    magnitude(bits) > INFINITY
}

/// An integer that grows exactly as the value does, for patterns that are
/// no NaN.
pub open spec fn rank(bits: u32) -> int {
    if bits >= SIGN_BIT {
        -(magnitude(bits) as int)
    } else {
        bits as int
    }
}

/// The value of `a` is greater than the value of `b`.
pub open spec fn greater(a: u32, b: u32) -> bool {
    !is_nan(a) && !is_nan(b) && rank(a) > rank(b)
}

/// The pattern of the absolute value.
pub fn abs(bits: u32) -> (r: u32)
    ensures
        r == magnitude(bits),
{
    if bits >= SIGN_BIT {
        bits - SIGN_BIT
    } else {
        bits
    }
}

/// Whether `value` is greater than `limit`, as the values compare.
pub fn exceeds(value: u32, limit: u32) -> (r: bool)
    ensures
        r == greater(value, limit),
{
    if abs(value) > INFINITY || abs(limit) > INFINITY {
        return false;
    }
    let v: i64 = if value >= SIGN_BIT {
        -((value - SIGN_BIT) as i64)
    } else {
        value as i64
    };
    let l: i64 = if limit >= SIGN_BIT {
        -((limit - SIGN_BIT) as i64)
    } else {
        limit as i64
    };
    v > l
}

/// `greater` is a strict order: nothing is greater than itself, and it
/// carries over a middle value.
pub proof fn lemma_greater_strict(a: u32, b: u32, c: u32)
    ensures
        !greater(a, a),
        greater(a, b) ==> !greater(b, a),
        greater(a, b) && greater(b, c) ==> greater(a, c),
{
}

} // verus!
