//! Percentages that are computed in floating point reach the library as the bit
//! patterns of IEEE 754 doubles. These functions compare such patterns as the
//! floats they encode would compare.

use vstd::prelude::*;

verus! {

/// The sign bit of a double.
pub const SIGN_BIT: u64 = 0x8000_0000_0000_0000;

/// The bit pattern of `+inf`; every larger magnitude is a NaN.
pub const INFINITY_BITS: u64 = 0x7FF0_0000_0000_0000;

/// The bits of a double without its sign.
pub open spec fn magnitude(bits: u64) -> int {
    if bits >= SIGN_BIT {
        bits - SIGN_BIT
    } else {
        bits as int
    }
}

/// Whether the double is a NaN: all exponent bits set and a nonzero mantissa.
pub open spec fn is_nan(bits: u64) -> bool {
    magnitude(bits) > INFINITY_BITS
}

/// The position of a double in the total order of IEEE 754 `totalOrder` (the order of
/// `f64::total_cmp`): negative values by decreasing magnitude, then positive ones by
/// increasing magnitude, with `-0` before `+0` and NaNs at either end by sign.
pub open spec fn order_key(bits: u64) -> int {
    if bits < SIGN_BIT {
        bits + SIGN_BIT
    } else {
        u64::MAX - bits
    }
}

/// Equality of doubles as `==` decides it: no NaN equals anything, and `-0 == +0`.
pub open spec fn float_eq(a: u64, b: u64) -> bool {
    &&& !is_nan(a)
    &&& !is_nan(b)
    &&& (a == b || (magnitude(a) == 0 && magnitude(b) == 0))
}

/// Distinct bit patterns have distinct positions in the total order.
pub proof fn lemma_order_key_injective(a: u64, b: u64)
    ensures
        order_key(a) == order_key(b) <==> a == b,
{
}

/// The total order of doubles read off the bits: a pattern without the sign bit
/// (a positive double) is ordered by its bits, larger ones later; one with the sign
/// bit (a negative double) is ordered by its bits the other way; every negative
/// pattern comes before every positive one.
pub proof fn lemma_order_key_follows_doubles(a: u64, b: u64)
    ensures
        a < SIGN_BIT && b < SIGN_BIT ==> (order_key(a) < order_key(b) <==> a < b),
        a >= SIGN_BIT && b >= SIGN_BIT ==> (order_key(a) < order_key(b) <==> a > b),
        a >= SIGN_BIT && b < SIGN_BIT ==> order_key(a) < order_key(b),
{
}

/// The position of a double in the total order, as an unsigned number.
pub fn total_order_key(bits: u64) -> (k: u64)
    ensures
        k == order_key(bits),
{
    if bits < SIGN_BIT {
        bits + SIGN_BIT
    } else {
        u64::MAX - bits
    }
}

/// `a == b` on the doubles with these bit patterns.
pub fn floats_equal(a: u64, b: u64) -> (r: bool)
    ensures
        r == float_eq(a, b),
{
    let ma = if a >= SIGN_BIT {
        a - SIGN_BIT
    } else {
        a
    };
    let mb = if b >= SIGN_BIT {
        b - SIGN_BIT
    } else {
        b
    };
    if ma > INFINITY_BITS || mb > INFINITY_BITS {
        false
    } else {
        a == b || (ma == 0 && mb == 0)
    }
}

} // verus!
