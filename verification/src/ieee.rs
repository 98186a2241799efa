//! Order and equality of IEEE-754 numbers, read from their bit patterns.
//!
//! The library holds a single-precision number as a `u32` and a double as a
//! `u64`: the sign in the top bit, then the exponent, then the fraction. The
//! functions here say how two such patterns compare as numbers.

use vstd::prelude::*;

verus! {

/// The value of the sign bit of a single.
pub const SINGLE_SIGN: u32 = 0x8000_0000;

/// The magnitude bits of an infinite single; a larger magnitude is not a number.
pub const SINGLE_INFINITY: u32 = 0x7f80_0000;

/// The value of the sign bit of a double.
pub const DOUBLE_SIGN: u64 = 0x8000_0000_0000_0000;

/// The magnitude bits of an infinite double; a larger magnitude is not a number.
pub const DOUBLE_INFINITY: u64 = 0x7ff0_0000_0000_0000;

/// Whether the pattern of a single is not a number.
pub open spec fn single_is_nan(bits: u32) -> bool {
    bits % SINGLE_SIGN > SINGLE_INFINITY
}

/// An integer that orders singles as their values are ordered: the magnitude
/// bits, negated where the sign bit is set. Both zeros have key 0.
pub open spec fn single_key(bits: u32) -> int {
    if bits >= SINGLE_SIGN {
        -((bits % SINGLE_SIGN) as int)
    } else {
        bits as int
    }
}

/// Whether the pattern of a double is not a number.
pub open spec fn double_is_nan(bits: u64) -> bool {
    bits % DOUBLE_SIGN > DOUBLE_INFINITY
}

/// An integer that orders doubles as their values are ordered.
pub open spec fn double_key(bits: u64) -> int {
    if bits >= DOUBLE_SIGN {
        -((bits % DOUBLE_SIGN) as int)
    } else {
        bits as int
    }
}

/// How two doubles compare: -1, 0 or 1 for less, equal or greater, and 0
/// where either is not a number.
pub open spec fn double_order(a: u64, b: u64) -> int {
    if double_is_nan(a) || double_is_nan(b) {
        0
    } else if double_key(a) < double_key(b) {
        -1
    } else if double_key(a) > double_key(b) {
        1
    } else {
        0
    }
}

/// Whether two doubles are equal as numbers: neither is not a number, and
/// they have the same key, so that the two zeros are equal.
pub open spec fn double_equal(a: u64, b: u64) -> bool {
    !double_is_nan(a) && !double_is_nan(b) && double_key(a) == double_key(b)
}

/// Tests whether the pattern of a single is not a number.
pub fn single_is_nan_exec(bits: u32) -> (r: bool)
    ensures
        r == single_is_nan(bits),
{
    bits % SINGLE_SIGN > SINGLE_INFINITY
}

/// Computes `single_key`.
pub fn single_key_exec(bits: u32) -> (r: i64)
    ensures
        r == single_key(bits),
{
    if bits >= SINGLE_SIGN {
        let magnitude: u32 = bits % SINGLE_SIGN;
        let m: i64 = magnitude as i64;
        -m
    } else {
        bits as i64
    }
}

/// Tests whether the pattern of a double is not a number.
pub fn double_is_nan_exec(bits: u64) -> (r: bool)
    ensures
        r == double_is_nan(bits),
{
    bits % DOUBLE_SIGN > DOUBLE_INFINITY
}

/// Computes `double_key`.
pub fn double_key_exec(bits: u64) -> (r: i128)
    ensures
        r == double_key(bits),
{
    if bits >= DOUBLE_SIGN {
        let magnitude: u64 = bits % DOUBLE_SIGN;
        let m: i128 = magnitude as i128;
        -m
    } else {
        bits as i128
    }
}

/// Compares two doubles by their bit patterns.
pub fn compare_doubles(a: u64, b: u64) -> (r: i8)
    ensures
        r == double_order(a, b),
{
    if double_is_nan_exec(a) || double_is_nan_exec(b) {
        0
    } else {
        let ka: i128 = double_key_exec(a);
        let kb: i128 = double_key_exec(b);
        if ka < kb {
            -1
        } else if ka > kb {
            1
        } else {
            0
        }
    }
}

/// Tests two doubles for equality by their bit patterns.
pub fn doubles_equal(a: u64, b: u64) -> (r: bool)
    ensures
        r == double_equal(a, b),
{
    if double_is_nan_exec(a) || double_is_nan_exec(b) {
        false
    } else {
        double_key_exec(a) == double_key_exec(b)
    }
}

} // verus!
