//! Order and sign of 32-bit floats, read off their IEEE-754 bit patterns.
//!
//! Registers carry floats as bit patterns. Comparing two floats and
//! flipping the sign of one are exact operations that need no rounding, so
//! they can be done on the patterns themselves: a pattern is a sign bit above
//! a magnitude, magnitudes order like the absolute values they stand for,
//! and every magnitude above that of infinity is a NaN.

use vstd::prelude::*;

verus! {

/// The sign bit of a pattern.
pub const SIGN_BIT: u32 = 0x8000_0000;

/// The pattern of positive infinity, the largest magnitude that is a number.
pub const INFINITY_BITS: u32 = 0x7F80_0000;

/// Whether the sign bit is set.
pub open spec fn is_negative(bits: u32) -> bool {
    bits >= SIGN_BIT
}

/// The pattern without its sign bit.
pub open spec fn magnitude(bits: u32) -> int {
    if is_negative(bits) {
        bits - SIGN_BIT
    } else {
        bits as int
    }
}

/// Whether the pattern is that of a NaN.
pub open spec fn is_nan(bits: u32) -> bool {
    magnitude(bits) > INFINITY_BITS
}

/// An integer that orders patterns of numbers as the numbers are ordered.
/// Both zeros get the key zero.
pub open spec fn order_key(bits: u32) -> int {
    if is_negative(bits) {
        -magnitude(bits)
    } else {
        magnitude(bits)
    }
}

/// `a < b` as floats: false if either is a NaN.
pub open spec fn less(a: u32, b: u32) -> bool {
    !is_nan(a) && !is_nan(b) && order_key(a) < order_key(b)
}

/// The pattern of `-x` for the pattern of `x`: the sign bit flipped.
pub open spec fn negated(bits: u32) -> u32 {
    if is_negative(bits) {
        (bits - SIGN_BIT) as u32
    } else {
        (bits + SIGN_BIT) as u32
    }
}

/// Whether the pattern is that of a NaN.
pub fn float_is_nan(bits: u32) -> (nan: bool)
    ensures
        nan == is_nan(bits),
{
    if bits >= SIGN_BIT {
        bits - SIGN_BIT > INFINITY_BITS
    } else {
        bits > INFINITY_BITS
    }
}

/// The order key of a pattern.
fn key(bits: u32) -> (key: i64)
    ensures
        key == order_key(bits),
{
    if bits >= SIGN_BIT {
        -((bits - SIGN_BIT) as i64)
    } else {
        bits as i64
    }
}

/// `a < b` as floats.
pub fn float_lt(a: u32, b: u32) -> (lt: bool)
    ensures
        lt == less(a, b),
{
    !float_is_nan(a) && !float_is_nan(b) && key(a) < key(b)
}

/// `a > b` as floats.
pub fn float_gt(a: u32, b: u32) -> (gt: bool)
    ensures
        gt == less(b, a),
{
    float_lt(b, a)
}

/// The pattern of `-x` for the pattern of `x`.
pub fn float_neg(bits: u32) -> (neg: u32)
    ensures
        neg == negated(bits),
{
    if bits >= SIGN_BIT {
        bits - SIGN_BIT
    } else {
        bits + SIGN_BIT
    }
}

/// The order is strict: nothing is below itself, and it is transitive.
/// Negation reverses it and undoes itself.
pub proof fn lemma_float_order(a: u32, b: u32, c: u32)
    ensures
        !less(a, a),
        less(a, b) && less(b, c) ==> less(a, c),
        less(a, b) ==> !less(b, a),
        less(a, b) <==> less(negated(b), negated(a)),
        negated(negated(a)) == a,
        is_nan(negated(a)) == is_nan(a),
{
}

} // verus!
