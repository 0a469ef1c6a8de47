//! 256-bit words held in an arbitrary-precision integer.
//!
//! The same arithmetic as on the two-limb word, computed by `num_bigint` and
//! reduced modulo `2^256` after every operation. What `num_bigint` does is
//! not verified here: its operations stand behind the private functions
//! below, whose contracts are taken on trust.

use num_bigint::BigUint;
use vstd::prelude::*;
use vstd::arithmetic::div_mod::{lemma_div_denominator, lemma_mod_multiples_vanish};
use vstd::arithmetic::power2::{lemma2_to64, lemma_pow2_adds, lemma_pow2_pos, pow2};
use vstd::std_specs::convert::FromSpecImpl;
use vstd::std_specs::ops::{AddSpecImpl, NegSpecImpl, SubSpecImpl};
use crate::hex::hex_digit;
use crate::shift::{lemma_pow2_limbs, lemma_shr_limb};
use crate::word::{pow2_128, pow2_256, UPrimitive};

verus! {

/// `num_bigint::BigUint`, an unsigned integer of any size. Nothing inside it
/// is visible here; what it holds goes by the name [`big_value`].
#[verifier::external_type_specification]
#[verifier::external_body]
pub struct ExBigUint(num_bigint::BigUint);

/// The number that a `BigUint` holds. Two of them are equal exactly when
/// they hold the same number.
pub uninterp spec fn big_value(n: BigUint) -> nat;

/// The number that a sequence of bytes stands for, the most significant byte
/// first.
pub open spec fn be_value(bytes: Seq<u8>) -> nat
    decreases bytes.len(),
{
    if bytes.len() == 0 {
        0
    } else {
        be_value(bytes.drop_last()) * 256 + bytes.last() as nat
    }
}

/// The hexadecimal digits of a number, without leading zeros; zero is `0`.
pub open spec fn hex_minimal(v: nat) -> Seq<char>
    decreases v,
{
    if v < 16 {
        seq![hex_digit(v)]
    } else {
        hex_minimal(v / 16).push(hex_digit(v % 16))
    }
}

/// `clone` on a `BigUint`: an integer with the same value.
pub assume_specification[ <BigUint as Clone>::clone ](n: &BigUint) -> (r: BigUint)
    ensures
        big_value(r) == big_value(*n),
;

/// `==` on two `BigUint`: whether the values are equal.
pub assume_specification[ <BigUint as PartialEq>::eq ](a: &BigUint, b: &BigUint) -> (r: bool)
    ensures
        r == (big_value(*a) == big_value(*b)),
;

/// `BigUint::from` on a `u128`: the integer with the value of the argument.
#[verifier::external_body]
fn big_from_u128(x: u128) -> (r: BigUint)
    ensures
        big_value(r) == x,
{
    BigUint::from(x)
}

/// `BigUint::from_bytes_be`: the integer that the bytes stand for, the most
/// significant byte first; no bytes stand for zero.
#[verifier::external_body]
fn big_from_bytes_be(bytes: &Vec<u8>) -> (r: BigUint)
    ensures
        big_value(r) == be_value(bytes@),
{
    BigUint::from_bytes_be(bytes)
}

/// `<<` on a `BigUint` with an `i32` count: the value times two to the power
/// of the count. It panics on a negative count, which the precondition
/// leaves out.
#[verifier::external_body]
fn big_shl(n: BigUint, bits: i32) -> (r: BigUint)
    requires
        bits >= 0,
    ensures
        big_value(r) == big_value(n) * pow2(bits as nat),
{
    n << bits
}

/// `+` on two `&BigUint`: the sum of the values.
#[verifier::external_body]
fn big_add(a: &BigUint, b: &BigUint) -> (r: BigUint)
    ensures
        big_value(r) == big_value(*a) + big_value(*b),
{
    a + b
}

/// `-` on a `BigUint` and a `&BigUint`: the difference of the values. It
/// panics where the second is larger than the first, which the precondition
/// leaves out.
#[verifier::external_body]
fn big_sub(a: BigUint, b: &BigUint) -> (r: BigUint)
    requires
        big_value(a) >= big_value(*b),
    ensures
        big_value(r) == big_value(a) - big_value(*b),
{
    a - b
}

/// `%` on a `BigUint` and a `&BigUint`: the remainder of the division of the
/// values. It panics on a zero divisor, which the precondition leaves out.
#[verifier::external_body]
fn big_rem(a: BigUint, m: &BigUint) -> (r: BigUint)
    requires
        big_value(*m) > 0,
    ensures
        big_value(r) == big_value(a) % big_value(*m),
{
    a % m
}

/// The lower-case hexadecimal formatting of a `BigUint` behind the text
/// `0x`: the digits of the value without leading zeros, and `0` for zero.
#[verifier::external_body]
fn big_hex(n: &BigUint) -> (r: String)
    ensures
        r@ == seq!['0', 'x'] + hex_minimal(big_value(*n)),
{
    format!("0x{:x}", n)
}

/// An unsigned 256-bit integer held in an arbitrary-precision integer that
/// is always below `2^256`.
#[derive(Debug, Eq)]
pub struct U256(BigUint);

impl PartialEq for U256 {
    /// Whether the two words have the same value.
    fn eq(&self, other: &U256) -> (r: bool) {
        self.0 == other.0
    }
}

impl vstd::std_specs::cmp::PartialEqSpecImpl for U256 {
    open spec fn obeys_eq_spec() -> bool {
        true
    }

    open spec fn eq_spec(&self, other: &U256) -> bool {
        self@ == other@
    }
}

impl Clone for U256 {
    /// A word with the same value.
    fn clone(&self) -> (r: U256)
        ensures
            r@ == self@,
    {
        proof {
            use_type_invariant(self);
        }
        U256(self.0.clone())
    }
}

impl View for U256 {
    type V = nat;

    /// The number that the word stands for.
    closed spec fn view(&self) -> nat {
        big_value(self.0)
    }
}

/// The modulus of the arithmetic, `2^256`.
fn __modulo() -> (r: BigUint)
    ensures
        big_value(r) == pow2_256(),
{
    proof {
        lemma_pow2_limbs();
    }
    let one = big_from_u128(1);
    let r = big_shl(one, 256);
    assert(1 * pow2(256) == pow2(256));
    r
}

impl U256 {
    /// The held integer is below `2^256`.
    #[verifier::type_invariant]
    pub closed spec fn in_range(self) -> bool {
        big_value(self.0) < pow2_256()
    }

    /// The largest word, `2^256 - 1`.
    pub fn max() -> (r: U256)
        ensures
            r@ == pow2_256() - 1,
    {
        let one = big_from_u128(1);
        U256(big_sub(__modulo(), &one))
    }

    /// The word zero.
    pub fn zero() -> (r: U256)
        ensures
            r@ == 0,
    {
        U256(big_from_u128(0))
    }

    /// The hexadecimal text of the word: `0x` and the digits of the value
    /// without leading zeros.
    pub fn to_string(&self) -> (text: String)
        ensures
            text@ == seq!['0', 'x'] + hex_minimal(self@),
    {
        big_hex(&self.0)
    }
}

/// Appending a byte multiplies the value by 256 and adds the byte.
pub proof fn lemma_be_value_push(bytes: Seq<u8>, b: u8)
    ensures
        be_value(bytes.push(b)) == be_value(bytes) * 256 + b as nat,
{
    assert(bytes.push(b).drop_last() =~= bytes);
}

/// Appends the sixteen bytes of `x` to `bytes`, the most significant first.
pub fn push_be_bytes(bytes: &mut Vec<u8>, x: u128)
    ensures
        final(bytes)@.len() == old(bytes)@.len() + 16,
        be_value(final(bytes)@) == be_value(old(bytes)@) * pow2_128() + x as nat,
{
    let ghost before = bytes@;
    proof {
        lemma_pow2_limbs();
        assert(x as nat / pow2_128() == 0);
        assert(be_value(before) * 1 == be_value(before));
    }
    let mut i: u8 = 0;
    while i < 16
        invariant
            i <= 16,
            bytes@.len() == before.len() + i,
            be_value(bytes@) == be_value(before) * pow2(8 * i as nat) + x as nat / pow2(
                (128 - 8 * i) as nat,
            ),
        decreases 16 - i,
    {
        let shift: u8 = 8 * (15 - i);
        let shifted = x >> shift;
        let byte = (shifted & 0xFF) as u8;
        proof {
            let upper = pow2(shift as nat);
            lemma_shr_limb(x, shift);
            assert(shifted & 0xFF == shifted % 256) by (bit_vector);
            lemma_be_value_push(bytes@, byte);
            lemma_pow2_pos(shift as nat);
            lemma_pow2_adds(shift as nat, 8);
            lemma_pow2_adds(8 * i as nat, 8);
            lemma2_to64();
            lemma_div_denominator(x as int, upper as int, 256);
            assert(be_value(before) * (pow2(8 * i as nat) * 256) == (be_value(before) * pow2(
                8 * i as nat,
            )) * 256) by (nonlinear_arith);
        }
        bytes.push(byte);
        i = i + 1;
    }
    proof {
        assert(x as nat / 1 == x as nat);
    }
}

/// Conversion into a word, from a single native unsigned integer or from a
/// pair of them that gives the upper and the lower 128 bits.
pub trait Initialize {
    /// The number that the value converts to.
    spec fn value(self) -> nat;

    /// Converts the value into a word.
    fn to_u256(self) -> (r: U256)
        ensures
            r@ == self.value(),
    ;
}

impl<T: UPrimitive> FromSpecImpl<T> for U256 {
    open spec fn obeys_from_spec() -> bool {
        false
    }

    open spec fn from_spec(v: T) -> U256 {
        arbitrary()
    }
}

impl<T: UPrimitive> From<T> for U256 {
    /// The word with the value of a native unsigned integer.
    fn from(from: T) -> (r: U256)
        ensures
            r@ == from.widened(),
    {
        U256(big_from_u128(from.widen()))
    }
}

impl FromSpecImpl<BigUint> for U256 {
    open spec fn obeys_from_spec() -> bool {
        false
    }

    open spec fn from_spec(v: BigUint) -> U256 {
        arbitrary()
    }
}

impl From<BigUint> for U256 {
    /// The word for an arbitrary-precision integer reduced modulo `2^256`.
    fn from(from: BigUint) -> (r: U256)
        ensures
            r@ == big_value(from) % pow2_256(),
    {
        let m = __modulo();
        U256(big_rem(from, &m))
    }
}

impl<T: UPrimitive, U: UPrimitive> Initialize for (T, U) {
    open spec fn value(self) -> nat {
        self.0.widened() as nat * pow2_128() + self.1.widened() as nat
    }

    /// Packs the two integers into 32 bytes, the upper one first, and reads
    /// the bytes back as one integer.
    fn to_u256(self) -> (r: U256) {
        let mut bytes: Vec<u8> = Vec::with_capacity(32);
        push_be_bytes(&mut bytes, self.0.widen());
        push_be_bytes(&mut bytes, self.1.widen());
        assert(be_value(Seq::<u8>::empty()) == 0);
        assert(0 * pow2_128() == 0);
        U256(big_from_bytes_be(&bytes))
    }
}

impl<T: UPrimitive> Initialize for T {
    open spec fn value(self) -> nat {
        self.widened() as nat
    }

    fn to_u256(self) -> (r: U256) {
        U256::from(self)
    }
}

impl AddSpecImpl<U256> for U256 {
    open spec fn obeys_add_spec() -> bool {
        false
    }

    open spec fn add_req(self, rhs: U256) -> bool {
        true
    }

    open spec fn add_spec(self, rhs: U256) -> U256 {
        arbitrary()
    }
}

impl core::ops::Add<U256> for U256 {
    type Output = U256;

    /// Adds the held integers and reduces the sum modulo `2^256`.
    fn add(self, rhs: U256) -> (r: U256)
        ensures
            r@ == (self@ + rhs@) % pow2_256(),
    {
        U256::from(big_add(&self.0, &rhs.0))
    }
}

impl<'a> AddSpecImpl<&'a U256> for U256 {
    open spec fn obeys_add_spec() -> bool {
        false
    }

    open spec fn add_req(self, rhs: &'a U256) -> bool {
        true
    }

    open spec fn add_spec(self, rhs: &'a U256) -> U256 {
        arbitrary()
    }
}

impl<'a> core::ops::Add<&'a U256> for U256 {
    type Output = U256;

    fn add(self, rhs: &'a U256) -> (r: U256)
        ensures
            r@ == (self@ + rhs@) % pow2_256(),
    {
        U256::from(big_add(&self.0, &rhs.0))
    }
}

impl<'a> AddSpecImpl<U256> for &'a U256 {
    open spec fn obeys_add_spec() -> bool {
        false
    }

    open spec fn add_req(self, rhs: U256) -> bool {
        true
    }

    open spec fn add_spec(self, rhs: U256) -> U256 {
        arbitrary()
    }
}

impl<'a> core::ops::Add<U256> for &'a U256 {
    type Output = U256;

    fn add(self, rhs: U256) -> (r: U256)
        ensures
            r@ == (self@ + rhs@) % pow2_256(),
    {
        U256::from(big_add(&self.0, &rhs.0))
    }
}

impl<'a, 'b> AddSpecImpl<&'b U256> for &'a U256 {
    open spec fn obeys_add_spec() -> bool {
        false
    }

    open spec fn add_req(self, rhs: &'b U256) -> bool {
        true
    }

    open spec fn add_spec(self, rhs: &'b U256) -> U256 {
        arbitrary()
    }
}

impl<'a, 'b> core::ops::Add<&'b U256> for &'a U256 {
    type Output = U256;

    fn add(self, rhs: &'b U256) -> (r: U256)
        ensures
            r@ == (self@ + rhs@) % pow2_256(),
    {
        U256::from(big_add(&self.0, &rhs.0))
    }
}

impl SubSpecImpl<U256> for U256 {
    open spec fn obeys_sub_spec() -> bool {
        false
    }

    open spec fn sub_req(self, rhs: U256) -> bool {
        true
    }

    open spec fn sub_spec(self, rhs: U256) -> U256 {
        arbitrary()
    }
}

impl core::ops::Sub<U256> for U256 {
    type Output = U256;

    /// Adds `2^256` to the first integer, subtracts the second, and reduces
    /// the difference modulo `2^256`.
    fn sub(self, rhs: U256) -> (r: U256)
        ensures
            r@ == (self@ - rhs@) % (pow2_256() as int),
    {
        proof {
            use_type_invariant(&self);
            use_type_invariant(&rhs);
        }
        let m = __modulo();
        let lifted = big_add(&m, &self.0);
        proof {
            lemma_mod_multiples_vanish(1, self@ - rhs@, pow2_256() as int);
        }
        U256::from(big_sub(lifted, &rhs.0))
    }
}

impl<'a> SubSpecImpl<&'a U256> for U256 {
    open spec fn obeys_sub_spec() -> bool {
        false
    }

    open spec fn sub_req(self, rhs: &'a U256) -> bool {
        true
    }

    open spec fn sub_spec(self, rhs: &'a U256) -> U256 {
        arbitrary()
    }
}

impl<'a> core::ops::Sub<&'a U256> for U256 {
    type Output = U256;

    fn sub(self, rhs: &'a U256) -> (r: U256)
        ensures
            r@ == (self@ - rhs@) % (pow2_256() as int),
    {
        proof {
            use_type_invariant(&self);
            use_type_invariant(rhs);
        }
        let m = __modulo();
        let lifted = big_add(&m, &self.0);
        proof {
            lemma_mod_multiples_vanish(1, self@ - rhs@, pow2_256() as int);
        }
        U256::from(big_sub(lifted, &rhs.0))
    }
}

impl<'a> SubSpecImpl<U256> for &'a U256 {
    open spec fn obeys_sub_spec() -> bool {
        false
    }

    open spec fn sub_req(self, rhs: U256) -> bool {
        true
    }

    open spec fn sub_spec(self, rhs: U256) -> U256 {
        arbitrary()
    }
}

impl<'a> core::ops::Sub<U256> for &'a U256 {
    type Output = U256;

    fn sub(self, rhs: U256) -> (r: U256)
        ensures
            r@ == (self@ - rhs@) % (pow2_256() as int),
    {
        proof {
            use_type_invariant(self);
            use_type_invariant(&rhs);
        }
        let m = __modulo();
        let lifted = big_add(&m, &self.0);
        proof {
            lemma_mod_multiples_vanish(1, self@ - rhs@, pow2_256() as int);
        }
        U256::from(big_sub(lifted, &rhs.0))
    }
}

impl<'a, 'b> SubSpecImpl<&'b U256> for &'a U256 {
    open spec fn obeys_sub_spec() -> bool {
        false
    }

    open spec fn sub_req(self, rhs: &'b U256) -> bool {
        true
    }

    open spec fn sub_spec(self, rhs: &'b U256) -> U256 {
        arbitrary()
    }
}

impl<'a, 'b> core::ops::Sub<&'b U256> for &'a U256 {
    type Output = U256;

    fn sub(self, rhs: &'b U256) -> (r: U256)
        ensures
            r@ == (self@ - rhs@) % (pow2_256() as int),
    {
        proof {
            use_type_invariant(self);
            use_type_invariant(rhs);
        }
        let m = __modulo();
        let lifted = big_add(&m, &self.0);
        proof {
            lemma_mod_multiples_vanish(1, self@ - rhs@, pow2_256() as int);
        }
        U256::from(big_sub(lifted, &rhs.0))
    }
}

impl NegSpecImpl for U256 {
    open spec fn obeys_neg_spec() -> bool {
        false
    }

    open spec fn neg_req(self) -> bool {
        true
    }

    open spec fn neg_spec(self) -> U256 {
        arbitrary()
    }
}

impl core::ops::Neg for U256 {
    type Output = U256;

    /// Subtracts the held integer from `2^256` and reduces the difference
    /// modulo `2^256`, so that the negation of zero is zero.
    fn neg(self) -> (r: U256)
        ensures
            r@ == (-self@) % (pow2_256() as int),
    {
        proof {
            use_type_invariant(&self);
            lemma_mod_multiples_vanish(1, -self@, pow2_256() as int);
        }
        U256::from(big_sub(__modulo(), &self.0))
    }
}

impl<'a> NegSpecImpl for &'a U256 {
    open spec fn obeys_neg_spec() -> bool {
        false
    }

    open spec fn neg_req(self) -> bool {
        true
    }

    open spec fn neg_spec(self) -> U256 {
        arbitrary()
    }
}

impl<'a> core::ops::Neg for &'a U256 {
    type Output = U256;

    fn neg(self) -> (r: U256)
        ensures
            r@ == (-self@) % (pow2_256() as int),
    {
        proof {
            use_type_invariant(self);
            lemma_mod_multiples_vanish(1, -self@, pow2_256() as int);
        }
        U256::from(big_sub(__modulo(), &self.0))
    }
}

} // verus!
