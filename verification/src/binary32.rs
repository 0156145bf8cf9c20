//! Ordering of IEEE-754 binary32 values, given by their bit patterns.

use vstd::prelude::*;

verus! {

/// The bit pattern of positive zero.
pub const POSITIVE_ZERO: u32 = 0;

/// Bit mask of the sign bit.
pub const SIGN_BIT: u32 = 0x8000_0000;

/// Bit pattern of positive infinity; magnitudes above it are NaNs.
pub const INFINITY_BITS: u32 = 0x7f80_0000;

/// A NaN: all exponent bits set and a nonzero fraction, either sign.
pub open spec fn is_nan(bits: u32) -> bool {
    bits % 0x8000_0000 > 0x7f80_0000
}

/// An integer that orders non-NaN values as the reals they denote:
/// the magnitude bits, negated when the sign bit is set (so both zeros map to 0).
pub open spec fn order_key(bits: u32) -> int {
    if bits >= 0x8000_0000 {
        -((bits - 0x8000_0000) as int)
    } else {
        bits as int
    }
}

/// IEEE-754 `<`: false whenever either operand is a NaN.
pub open spec fn binary32_lt(a: u32, b: u32) -> bool {
    !is_nan(a) && !is_nan(b) && order_key(a) < order_key(b)
}

/// IEEE `<` is the order of the reals the patterns denote. For two numbers
/// with the sign bit clear it is the order of the patterns (a larger
/// pattern is a larger magnitude); with the sign bit set on both it is the
/// reverse; a negative number lies below a positive one, except that the
/// two zeros are equal; and nothing is below or above a NaN.
pub proof fn lemma_binary32_lt_is_real_order(a: u32, b: u32)
    ensures
        is_nan(a) || is_nan(b) ==> !binary32_lt(a, b),
        !is_nan(a) && !is_nan(b) && a < 0x8000_0000 && b < 0x8000_0000 ==> (binary32_lt(a, b)
            <==> a < b),
        !is_nan(a) && !is_nan(b) && a >= 0x8000_0000 && b >= 0x8000_0000 ==> (binary32_lt(a, b)
            <==> b < a),
        !is_nan(a) && !is_nan(b) && a >= 0x8000_0000 && b < 0x8000_0000 ==> (binary32_lt(a, b)
            <==> !(a == 0x8000_0000 && b == 0)),
        !is_nan(a) && !is_nan(b) && a < 0x8000_0000 && b >= 0x8000_0000 ==> !binary32_lt(a, b),
{
}

/// Decides whether a bit pattern is a NaN.
pub fn is_not_a_number(bits: u32) -> (r: bool)
    ensures
        r == is_nan(bits),
{
    bits % SIGN_BIT > INFINITY_BITS
}

/// Decides IEEE-754 `a < b` on bit patterns.
pub fn less_than(a: u32, b: u32) -> (r: bool)
    ensures
        r == binary32_lt(a, b),
{
    let a_mag = a % SIGN_BIT;
    let b_mag = b % SIGN_BIT;
    if a_mag > INFINITY_BITS || b_mag > INFINITY_BITS {
        return false;
    }
    let a_neg = a >= SIGN_BIT;
    let b_neg = b >= SIGN_BIT;
    if a_neg && b_neg {
        b_mag < a_mag
    } else if a_neg {
        !(a_mag == 0 && b_mag == 0)
    } else if b_neg {
        false
    } else {
        a_mag < b_mag
    }
}

} // verus!
