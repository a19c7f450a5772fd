//! Numbers. A number is an IEEE 754 binary64 value, held as its 64 bits: the
//! sign in the highest bit, then the exponent and the fraction.
//!
//! The order of such numbers, and their negation, can be read off the bits, and
//! are computed here. Their sums, differences, products and quotients are not:
//! whoever evaluates an expression hands the arithmetic in.
use vstd::prelude::*;

verus! {

/// The bit of the sign.
pub const SIGN: u64 = 0x8000_0000_0000_0000;

/// Positive infinity. What lies above it, sign apart, is no number.
pub const INFINITY: u64 = 0x7ff0_0000_0000_0000;

/// The bits of `bits` without the sign.
pub open spec fn magnitude(bits: u64) -> int {
    if bits >= SIGN {
        bits - SIGN
    } else {
        bits as int
    }
}

/// Whether `bits` is no number (a NaN).
pub open spec fn nan(bits: u64) -> bool {
    magnitude(bits) > INFINITY
}

/// The place of `bits` in the order of numbers: of two numbers, the one of
/// lower rank is the smaller, and two of one rank are equal. Positive and
/// negative zero share rank 0.
pub open spec fn rank(bits: u64) -> int {
    if bits >= SIGN {
        -magnitude(bits)
    } else {
        magnitude(bits)
    }
}

/// `a == b`, as numbers. False where either is no number.
pub open spec fn eq(a: u64, b: u64) -> bool {
    !nan(a) && !nan(b) && rank(a) == rank(b)
}

/// `a < b`, as numbers. False where either is no number.
pub open spec fn lt(a: u64, b: u64) -> bool {
    !nan(a) && !nan(b) && rank(a) < rank(b)
}

/// `a <= b`, as numbers. False where either is no number.
pub open spec fn le(a: u64, b: u64) -> bool {
    !nan(a) && !nan(b) && rank(a) <= rank(b)
}

/// `-bits`: the same bits with the other sign.
pub open spec fn neg(bits: u64) -> u64 {
    if bits >= SIGN {
        (bits - SIGN) as u64
    } else {
        (bits + SIGN) as u64
    }
}

/// Whether `bits` is no number.
pub fn is_nan(bits: u64) -> (r: bool)
    ensures
        r == nan(bits),
{
    if bits >= SIGN {
        bits - SIGN > INFINITY
    } else {
        bits > INFINITY
    }
}

/// Whether `a == b`, as numbers.
pub fn equal(a: u64, b: u64) -> (r: bool)
    ensures
        r == eq(a, b),
{
    if is_nan(a) || is_nan(b) {
        false
    } else if a == b {
        true
    } else {
        // the two zeros
        (a == 0 && b == SIGN) || (a == SIGN && b == 0)
    }
}

/// Whether `a < b`, as numbers.
pub fn less(a: u64, b: u64) -> (r: bool)
    ensures
        r == lt(a, b),
{
    if is_nan(a) || is_nan(b) {
        false
    } else if a >= SIGN {
        if b >= SIGN {
            a > b
        } else {
            a > SIGN || b > 0
        }
    } else {
        b < SIGN && a < b
    }
}

/// Whether `a <= b`, as numbers.
pub fn less_or_equal(a: u64, b: u64) -> (r: bool)
    ensures
        r == le(a, b),
{
    less(a, b) || equal(a, b)
}

/// `-bits`.
pub fn negate(bits: u64) -> (r: u64)
    ensures
        r == neg(bits),
{
    if bits >= SIGN {
        bits - SIGN
    } else {
        bits + SIGN
    }
}

/// `a <= b` holds where `a < b` or `a == b`, and nowhere else.
pub proof fn law_less_or_equal(a: u64, b: u64)
    ensures
        le(a, b) <==> lt(a, b) || eq(a, b),
{
}

/// Of two numbers, exactly one of `a < b`, `a == b` and `b < a` holds.
pub proof fn law_trichotomy(a: u64, b: u64)
    requires
        !nan(a),
        !nan(b),
    ensures
        lt(a, b) || eq(a, b) || lt(b, a),
        !(lt(a, b) && eq(a, b)),
        !(lt(a, b) && lt(b, a)),
        !(eq(a, b) && lt(b, a)),
{
}

/// A number equals itself and is not less than itself; what is no number
/// stands in no order, not even to itself.
pub proof fn law_reflexive(a: u64)
    ensures
        !nan(a) ==> eq(a, a) && le(a, a) && !lt(a, a),
        nan(a) ==> !eq(a, a) && !le(a, a) && !lt(a, a),
{
}

/// The order is transitive.
pub proof fn law_transitive(a: u64, b: u64, c: u64)
    ensures
        lt(a, b) && lt(b, c) ==> lt(a, c),
        le(a, b) && le(b, c) ==> le(a, c),
        eq(a, b) && eq(b, c) ==> eq(a, c),
{
}

/// Negating twice gives the number back, and negation turns the order round.
pub proof fn law_negation(a: u64, b: u64)
    ensures
        neg(neg(a)) == a,
        nan(neg(a)) == nan(a),
        lt(neg(a), neg(b)) == lt(b, a),
        eq(neg(a), neg(b)) == eq(a, b),
{
}

} // verus!
