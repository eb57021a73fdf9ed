//! Numbers, held as the bits of an IEEE 754 double.
//!
//! The library keeps a number as its 64-bit pattern: one sign bit, eleven
//! exponent bits, fifty-two fraction bits. Order, equality and negation are
//! decided on the bits here. Arithmetic and the conversion to and from
//! decimal text are left to the host, which has the floating-point unit.
use vstd::prelude::*;

verus! {

/// The bit that holds the sign.
pub const SIGN: u64 = 0x8000_0000_0000_0000;

/// The bits of positive infinity. Every larger magnitude is not a number.
pub const INFINITY: u64 = 0x7FF0_0000_0000_0000;

/// The pattern without its sign.
pub open spec fn magnitude(bits: u64) -> u64 {
    if bits >= SIGN {
        (bits - SIGN) as u64
    } else {
        bits
    }
}

/// Whether the sign bit is set.
pub open spec fn negative(bits: u64) -> bool {
    bits >= SIGN
}

/// Whether the pattern is one of the NaNs.
pub open spec fn nan(bits: u64) -> bool {
    magnitude(bits) > INFINITY
}

/// Where a pattern that is no NaN stands among the numbers: patterns
/// compare as their ranks do. Both zeros have rank 0.
pub open spec fn rank(bits: u64) -> int {
    if negative(bits) {
        -(magnitude(bits) as int)
    } else {
        magnitude(bits) as int
    }
}

/// `a < b`. A comparison with a NaN is false.
pub open spec fn lt(a: u64, b: u64) -> bool {
    !nan(a) && !nan(b) && rank(a) < rank(b)
}

/// `a <= b`. A comparison with a NaN is false.
pub open spec fn le(a: u64, b: u64) -> bool {
    !nan(a) && !nan(b) && rank(a) <= rank(b)
}

/// `a > b`. A comparison with a NaN is false.
pub open spec fn gt(a: u64, b: u64) -> bool {
    !nan(a) && !nan(b) && rank(a) > rank(b)
}

/// `a >= b`. A comparison with a NaN is false.
pub open spec fn ge(a: u64, b: u64) -> bool {
    !nan(a) && !nan(b) && rank(a) >= rank(b)
}

/// `a == b`. A NaN equals nothing, itself included; the two zeros are equal.
pub open spec fn eq(a: u64, b: u64) -> bool {
    !nan(a) && !nan(b) && rank(a) == rank(b)
}

/// `-a`: the same pattern with the other sign.
pub open spec fn negated(bits: u64) -> u64 {
    if bits >= SIGN {
        (bits - SIGN) as u64
    } else {
        (bits + SIGN) as u64
    }
}

fn magnitude_of(bits: u64) -> (m: u64)
    ensures
        m == magnitude(bits),
        m < SIGN,
{
    if bits >= SIGN {
        bits - SIGN
    } else {
        bits
    }
}

/// Whether `bits` is a NaN.
pub fn is_nan(bits: u64) -> (r: bool)
    ensures
        r == nan(bits),
{
    magnitude_of(bits) > INFINITY
}

/// `a < b` on doubles.
pub fn less(a: u64, b: u64) -> (r: bool)
    ensures
        r == lt(a, b),
{
    if is_nan(a) || is_nan(b) {
        false
    } else if a >= SIGN {
        if b >= SIGN {
            magnitude_of(a) > magnitude_of(b)
        } else {
            magnitude_of(a) > 0 || b > 0
        }
    } else {
        b < SIGN && a < b
    }
}

/// `a == b` on doubles.
pub fn equal(a: u64, b: u64) -> (r: bool)
    ensures
        r == eq(a, b),
{
    if is_nan(a) || is_nan(b) {
        false
    } else {
        a == b || (magnitude_of(a) == 0 && magnitude_of(b) == 0)
    }
}

/// `a <= b` on doubles.
pub fn less_equal(a: u64, b: u64) -> (r: bool)
    ensures
        r == le(a, b),
{
    less(a, b) || equal(a, b)
}

/// `a > b` on doubles.
pub fn greater(a: u64, b: u64) -> (r: bool)
    ensures
        r == gt(a, b),
{
    less(b, a)
}

/// `a >= b` on doubles.
pub fn greater_equal(a: u64, b: u64) -> (r: bool)
    ensures
        r == ge(a, b),
{
    less_equal(b, a)
}

/// `-bits` on doubles.
pub fn negate(bits: u64) -> (r: u64)
    ensures
        r == negated(bits),
{
    if bits >= SIGN {
        bits - SIGN
    } else {
        bits + SIGN
    }
}

/// The four comparisons are four different relations: `>` is `<` with the
/// operands exchanged, `>=` is `<=` with the operands exchanged, and of two
/// numbers of which neither is a NaN exactly one of `<`, `==`, `>` holds,
/// so that `>` is false wherever `<=` is true.
pub proof fn lemma_comparisons(a: u64, b: u64)
    ensures
        gt(a, b) == lt(b, a),
        ge(a, b) == le(b, a),
        le(a, b) == (lt(a, b) || eq(a, b)),
        ge(a, b) == (gt(a, b) || eq(a, b)),
        !(gt(a, b) && le(a, b)),
        !(lt(a, b) && ge(a, b)),
        !nan(a) && !nan(b) ==> gt(a, b) == !le(a, b),
        !nan(a) && !nan(b) ==> ge(a, b) == !lt(a, b),
        nan(a) || nan(b) ==> !lt(a, b) && !le(a, b) && !gt(a, b) && !ge(a, b) && !eq(a, b),
{
}

/// Negating twice gives the number back, and negation keeps the magnitude.
pub proof fn lemma_negated(a: u64)
    ensures
        negated(negated(a)) == a,
        magnitude(negated(a)) == magnitude(a),
        negative(negated(a)) == !negative(a),
        nan(negated(a)) == nan(a),
{
}

} // verus!
