//! Carry- and borrow-reporting arithmetic on a single 128-bit limb.

use vstd::prelude::*;
use crate::word::pow2_128;

verus! {

/// Adds two limbs modulo `2^128` and reports whether the true sum did not fit.
pub fn overflowing_add(a: u128, b: u128) -> (r: (u128, bool))
    ensures
        r.1 == (a + b > u128::MAX),
        r.0 as int == (a + b) % (pow2_128() as int),
        r.0 as int == a + b - (if r.1 { pow2_128() as int } else { 0 }),
{
    let sum = a.wrapping_add(b);
    (sum, sum < a)
}

/// Subtracts two limbs modulo `2^128` and reports whether the true
/// difference was negative.
pub fn overflowing_sub(a: u128, b: u128) -> (r: (u128, bool))
    ensures
        r.1 == (a < b),
        r.0 as int == (a - b) % (pow2_128() as int),
        r.0 as int == a - b + (if r.1 { pow2_128() as int } else { 0 }),
{
    let diff = a.wrapping_sub(b);
    (diff, a < b)
}

/// The carry or borrow bit as a limb.
pub fn bit(flag: bool) -> (r: u128)
    ensures
        r == (if flag { 1u128 } else { 0u128 }),
{
    if flag {
        1
    } else {
        0
    }
}

} // verus!
