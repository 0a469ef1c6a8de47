//! Wraparound addition, subtraction and negation of 256-bit words.

use vstd::prelude::*;
use vstd::std_specs::ops::{AddSpecImpl, NegSpecImpl, SubSpecImpl};
use crate::limb::{bit, overflowing_add, overflowing_sub};
use crate::word::{pow2_256, UPrimitive, U256};

verus! {

impl U256 {
    /// The sum of two words modulo `2^256`.
    pub open spec fn wrapping_sum(self, rhs: U256) -> U256 {
        U256::wrap((self@ + rhs@) as int)
    }

    /// The difference of two words modulo `2^256`.
    pub open spec fn wrapping_difference(self, rhs: U256) -> U256 {
        U256::wrap(self@ - rhs@)
    }

    /// The additive inverse of a word modulo `2^256`.
    pub open spec fn negation(self) -> U256 {
        U256::wrap(-self@)
    }
}

impl AddSpecImpl<U256> for U256 {
    open spec fn obeys_add_spec() -> bool {
        true
    }

    open spec fn add_req(self, rhs: U256) -> bool {
        true
    }

    open spec fn add_spec(self, rhs: U256) -> U256 {
        self.wrapping_sum(rhs)
    }
}

impl core::ops::Add<U256> for U256 {
    type Output = U256;

    /// Adds limb by limb, carrying from the lower limb into the higher one
    /// and dropping the carry out of the higher limb.
    fn add(self, rhs: U256) -> (r: U256)
        ensures
            r@ == (self@ + rhs@) % pow2_256(),
    {
        let (lower, carr_1) = overflowing_add(self.lower, rhs.lower);
        let higher = self.higher.wrapping_add(rhs.higher).wrapping_add(bit(carr_1));
        U256 { higher, lower }
    }
}

impl<'a> AddSpecImpl<&'a U256> for U256 {
    open spec fn obeys_add_spec() -> bool {
        true
    }

    open spec fn add_req(self, rhs: &'a U256) -> bool {
        true
    }

    open spec fn add_spec(self, rhs: &'a U256) -> U256 {
        self.wrapping_sum(*rhs)
    }
}

impl<'a> core::ops::Add<&'a U256> for U256 {
    type Output = U256;

    fn add(self, rhs: &'a U256) -> (r: U256)
        ensures
            r@ == (self@ + rhs@) % pow2_256(),
    {
        self + *rhs
    }
}

impl<'a> AddSpecImpl<U256> for &'a U256 {
    open spec fn obeys_add_spec() -> bool {
        true
    }

    open spec fn add_req(self, rhs: U256) -> bool {
        true
    }

    open spec fn add_spec(self, rhs: U256) -> U256 {
        self.wrapping_sum(rhs)
    }
}

impl<'a> core::ops::Add<U256> for &'a U256 {
    type Output = U256;

    fn add(self, rhs: U256) -> (r: U256)
        ensures
            r@ == (self@ + rhs@) % pow2_256(),
    {
        *self + rhs
    }
}

impl<'a, 'b> AddSpecImpl<&'b U256> for &'a U256 {
    open spec fn obeys_add_spec() -> bool {
        true
    }

    open spec fn add_req(self, rhs: &'b U256) -> bool {
        true
    }

    open spec fn add_spec(self, rhs: &'b U256) -> U256 {
        self.wrapping_sum(*rhs)
    }
}

impl<'a, 'b> core::ops::Add<&'b U256> for &'a U256 {
    type Output = U256;

    fn add(self, rhs: &'b U256) -> (r: U256)
        ensures
            r@ == (self@ + rhs@) % pow2_256(),
    {
        *self + *rhs
    }
}

impl<T: UPrimitive> AddSpecImpl<T> for U256 {
    open spec fn obeys_add_spec() -> bool {
        true
    }

    open spec fn add_req(self, rhs: T) -> bool {
        true
    }

    open spec fn add_spec(self, rhs: T) -> U256 {
        self.wrapping_sum(U256 { higher: 0, lower: rhs.widened() })
    }
}

impl<T: UPrimitive> core::ops::Add<T> for U256 {
    type Output = U256;

    /// Adds a native unsigned integer to the lower limb and carries into the
    /// higher one.
    fn add(self, rhs: T) -> (r: U256)
        ensures
            r@ == (self@ + rhs.widened()) % (pow2_256() as int),
    {
        let (lower, carr_1) = overflowing_add(self.lower, rhs.widen());
        let higher = self.higher.wrapping_add(bit(carr_1));
        U256 { higher, lower }
    }
}

impl SubSpecImpl<U256> for U256 {
    open spec fn obeys_sub_spec() -> bool {
        true
    }

    open spec fn sub_req(self, rhs: U256) -> bool {
        true
    }

    open spec fn sub_spec(self, rhs: U256) -> U256 {
        self.wrapping_difference(rhs)
    }
}

impl core::ops::Sub<U256> for U256 {
    type Output = U256;

    /// Subtracts limb by limb, borrowing from the higher limb for the lower
    /// one and dropping the borrow out of the higher limb.
    fn sub(self, rhs: U256) -> (r: U256)
        ensures
            r@ == (self@ - rhs@) % (pow2_256() as int),
    {
        let (lower, borr_1) = overflowing_sub(self.lower, rhs.lower);
        let higher = self.higher.wrapping_sub(bit(borr_1)).wrapping_sub(rhs.higher);
        U256 { higher, lower }
    }
}

impl<'a> SubSpecImpl<&'a U256> for U256 {
    open spec fn obeys_sub_spec() -> bool {
        true
    }

    open spec fn sub_req(self, rhs: &'a U256) -> bool {
        true
    }

    open spec fn sub_spec(self, rhs: &'a U256) -> U256 {
        self.wrapping_difference(*rhs)
    }
}

impl<'a> core::ops::Sub<&'a U256> for U256 {
    type Output = U256;

    fn sub(self, rhs: &'a U256) -> (r: U256)
        ensures
            r@ == (self@ - rhs@) % (pow2_256() as int),
    {
        self - *rhs
    }
}

impl<'a> SubSpecImpl<U256> for &'a U256 {
    open spec fn obeys_sub_spec() -> bool {
        true
    }

    open spec fn sub_req(self, rhs: U256) -> bool {
        true
    }

    open spec fn sub_spec(self, rhs: U256) -> U256 {
        self.wrapping_difference(rhs)
    }
}

impl<'a> core::ops::Sub<U256> for &'a U256 {
    type Output = U256;

    fn sub(self, rhs: U256) -> (r: U256)
        ensures
            r@ == (self@ - rhs@) % (pow2_256() as int),
    {
        *self - rhs
    }
}

impl<'a, 'b> SubSpecImpl<&'b U256> for &'a U256 {
    open spec fn obeys_sub_spec() -> bool {
        true
    }

    open spec fn sub_req(self, rhs: &'b U256) -> bool {
        true
    }

    open spec fn sub_spec(self, rhs: &'b U256) -> U256 {
        self.wrapping_difference(*rhs)
    }
}

impl<'a, 'b> core::ops::Sub<&'b U256> for &'a U256 {
    type Output = U256;

    fn sub(self, rhs: &'b U256) -> (r: U256)
        ensures
            r@ == (self@ - rhs@) % (pow2_256() as int),
    {
        *self - *rhs
    }
}

impl NegSpecImpl for U256 {
    open spec fn obeys_neg_spec() -> bool {
        true
    }

    open spec fn neg_req(self) -> bool {
        true
    }

    open spec fn neg_spec(self) -> U256 {
        self.negation()
    }
}

impl core::ops::Neg for U256 {
    type Output = U256;

    /// Two's complement: the largest word minus `self`, plus one.
    fn neg(self) -> (r: U256)
        ensures
            r@ == (-self@) % (pow2_256() as int),
            r@ == (if self@ == 0 { 0 } else { pow2_256() - self@ }),
    {
        (U256::max() - self) + &U256::from(1u8)
    }
}

impl<'a> NegSpecImpl for &'a U256 {
    open spec fn obeys_neg_spec() -> bool {
        true
    }

    open spec fn neg_req(self) -> bool {
        true
    }

    open spec fn neg_spec(self) -> U256 {
        self.negation()
    }
}

impl<'a> core::ops::Neg for &'a U256 {
    type Output = U256;

    fn neg(self) -> (r: U256)
        ensures
            r@ == (-self@) % (pow2_256() as int),
            r@ == (if self@ == 0 { 0 } else { pow2_256() - self@ }),
    {
        (*self).neg()
    }
}

} // verus!
