//! The two-limb representation of a 256-bit word and its mathematical value.

use vstd::prelude::*;
use vstd::std_specs::convert::FromSpecImpl;

verus! {

/// Two to the power 64.
pub open spec fn pow2_64() -> nat {
    0x1_0000_0000_0000_0000nat
}

/// Two to the power 128: the weight of the higher limb.
pub open spec fn pow2_128() -> nat {
    0x1_0000_0000_0000_0000_0000_0000_0000_0000nat
}

/// Two to the power 256: the modulus of all arithmetic on [`U256`].
pub open spec fn pow2_256() -> nat {
    0x1_0000_0000_0000_0000_0000_0000_0000_0000_0000_0000_0000_0000_0000_0000_0000_0000nat
}

/// An unsigned 256-bit integer held as two 128-bit limbs.
///
/// Every pair of limbs is a valid word, and two words are equal exactly when
/// both limbs are equal.
#[derive(Debug, Copy, Clone, PartialEq, Eq, Structural)]
pub struct U256 {
    pub higher: u128,
    pub lower: u128,
}

impl View for U256 {
    type V = nat;

    /// The number that the two limbs stand for: `higher * 2^128 + lower`.
    open spec fn view(&self) -> nat {
        self.higher as nat * pow2_128() + self.lower as nat
    }
}

impl U256 {
    /// The largest word: both limbs hold their largest value.
    pub open spec fn max_value() -> U256 {
        U256 { higher: u128::MAX, lower: u128::MAX }
    }

    /// The word zero: both limbs are zero.
    pub open spec fn zero_value() -> U256 {
        U256 { higher: 0, lower: 0 }
    }

    /// The largest word, `2^256 - 1`.
    pub fn max() -> (r: U256)
        ensures
            r == U256::max_value(),
            r@ == pow2_256() - 1,
    {
        U256 { higher: u128::MAX, lower: u128::MAX }
    }

    /// The word zero.
    pub fn zero() -> (r: U256)
        ensures
            r == U256::zero_value(),
            r@ == 0,
    {
        U256 { higher: 0, lower: 0 }
    }

    /// The word that stands for `n` reduced modulo `2^256`.
    pub open spec fn wrap(n: int) -> U256 {
        let m = n % (pow2_256() as int);
        U256 { higher: (m / (pow2_128() as int)) as u128, lower: (m % (pow2_128() as int)) as u128 }
    }

    /// Every word stands for a number below `2^256`.
    pub proof fn lemma_view_bound(self)
        ensures
            self@ < pow2_256(),
    {
    }

    /// `wrap` reduces modulo `2^256`.
    pub proof fn lemma_wrap_view(n: int)
        ensures
            U256::wrap(n)@ == n % (pow2_256() as int),
    {
    }

    /// A word is the wrap of its own value.
    pub proof fn lemma_view_wrap(self)
        ensures
            U256::wrap(self@ as int) == self,
    {
    }

    /// Words with the same value are the same word.
    pub proof fn lemma_view_injective(a: U256, b: U256)
        requires
            a@ == b@,
        ensures
            a == b,
    {
    }
}

/// The native unsigned integers that convert to a word without loss.
pub trait UPrimitive: Copy {
    /// The number as a 128-bit limb.
    spec fn widened(self) -> u128;

    /// The size of the type in bytes.
    spec fn byte_size() -> nat;

    /// Widens the number to a 128-bit limb.
    fn widen(self) -> (r: u128)
        ensures
            r == self.widened(),
    ;

    /// The size of the type in bytes: at most 16.
    fn bytes() -> (r: usize)
        ensures
            r == Self::byte_size(),
            r <= 16,
    ;
}

impl UPrimitive for u128 {
    open spec fn widened(self) -> u128 {
        self
    }

    open spec fn byte_size() -> nat {
        16
    }

    fn widen(self) -> u128 {
        self
    }

    fn bytes() -> usize {
        16
    }
}

impl UPrimitive for u64 {
    open spec fn widened(self) -> u128 {
        self as u128
    }

    open spec fn byte_size() -> nat {
        8
    }

    fn widen(self) -> u128 {
        self as u128
    }

    fn bytes() -> usize {
        8
    }
}

impl UPrimitive for u32 {
    open spec fn widened(self) -> u128 {
        self as u128
    }

    open spec fn byte_size() -> nat {
        4
    }

    fn widen(self) -> u128 {
        self as u128
    }

    fn bytes() -> usize {
        4
    }
}

impl UPrimitive for u16 {
    open spec fn widened(self) -> u128 {
        self as u128
    }

    open spec fn byte_size() -> nat {
        2
    }

    fn widen(self) -> u128 {
        self as u128
    }

    fn bytes() -> usize {
        2
    }
}

impl UPrimitive for u8 {
    open spec fn widened(self) -> u128 {
        self as u128
    }

    open spec fn byte_size() -> nat {
        1
    }

    fn widen(self) -> u128 {
        self as u128
    }

    fn bytes() -> usize {
        1
    }
}

impl<T: UPrimitive> FromSpecImpl<T> for U256 {
    open spec fn obeys_from_spec() -> bool {
        true
    }

    open spec fn from_spec(v: T) -> U256 {
        U256 { higher: 0, lower: v.widened() }
    }
}

impl<T: UPrimitive> From<T> for U256 {
    /// The word with the value of a native unsigned integer: the higher limb
    /// is zero.
    fn from(from: T) -> (r: U256)
        ensures
            r@ == from.widened(),
    {
        U256 { higher: 0, lower: from.widen() }
    }
}

/// Conversion into a word, from a single native unsigned integer or from a
/// pair of them that gives the higher and the lower limb.
pub trait Initialize {
    /// The word that the value converts to.
    spec fn word(self) -> U256;

    /// Converts the value into a word.
    fn to_u256(self) -> (r: U256)
        ensures
            r == self.word(),
    ;
}

impl<T: UPrimitive, U: UPrimitive> Initialize for (T, U) {
    open spec fn word(self) -> U256 {
        U256 { higher: self.0.widened(), lower: self.1.widened() }
    }

    fn to_u256(self) -> (r: U256)
        ensures
            r@ == self.0.widened() as nat * pow2_128() + self.1.widened() as nat,
    {
        U256 { higher: self.0.widen(), lower: self.1.widen() }
    }
}

impl<T: UPrimitive> Initialize for T {
    open spec fn word(self) -> U256 {
        U256 { higher: 0, lower: self.widened() }
    }

    fn to_u256(self) -> (r: U256)
        ensures
            r@ == self.widened(),
    {
        U256::from(self)
    }
}

} // verus!
