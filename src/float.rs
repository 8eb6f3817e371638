//! Real thresholds and scores are IEEE-754 binary64 values, carried as their
//! bit patterns. This module states and decides their strict order.

use vstd::prelude::*;

verus! {

/// The sign bit of a binary64 pattern.
pub const SIGN_BIT: u64 = 0x8000_0000_0000_0000;

/// The pattern of positive infinity; every larger magnitude is a NaN.
pub const INFINITY_BITS: u64 = 0x7ff0_0000_0000_0000;

/// The pattern without its sign bit.
pub open spec fn magnitude(b: u64) -> u64 {
    b % SIGN_BIT
}

pub open spec fn is_negative(b: u64) -> bool {
    b >= SIGN_BIT
}

pub open spec fn is_nan(b: u64) -> bool {
    magnitude(b) > INFINITY_BITS
}

/// `a < b` on the binary64 values whose patterns are `a` and `b`: false when
/// either is a NaN, and `-0.0` equals `+0.0`.
pub open spec fn f64_lt(a: u64, b: u64) -> bool {
    &&& !is_nan(a)
    &&& !is_nan(b)
    &&& !(magnitude(a) == 0 && magnitude(b) == 0)
    &&& if is_negative(a) {
        !is_negative(b) || magnitude(b) < magnitude(a)
    } else {
        !is_negative(b) && magnitude(a) < magnitude(b)
    }
}

/// Decides `a < b` on two binary64 bit patterns.
pub fn bits_less_than(a: u64, b: u64) -> (r: bool)
    ensures
        r == f64_lt(a, b),
{
    let ma: u64 = a % SIGN_BIT;
    let mb: u64 = b % SIGN_BIT;
    if ma > INFINITY_BITS || mb > INFINITY_BITS {
        false
    } else if ma == 0 && mb == 0 {
        false
    } else if a >= SIGN_BIT {
        b < SIGN_BIT || mb < ma
    } else {
        b < SIGN_BIT && ma < mb
    }
}

} // verus!
