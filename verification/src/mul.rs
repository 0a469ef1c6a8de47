//! Double-width multiplication of 128-bit limbs and truncated multiplication
//! of 256-bit words.

use vstd::prelude::*;
use vstd::arithmetic::div_mod::{
    lemma_add_mod_noop,
    lemma_add_mod_noop_right,
    lemma_mod_multiples_vanish,
};
use vstd::std_specs::ops::MulSpecImpl;
use crate::limb::{bit, overflowing_add, overflowing_sub};
use crate::shift::lemma_pow2_limbs;
use crate::word::{pow2_128, pow2_256, pow2_64, U256};

verus! {

/// The low 64 bits of a limb.
pub open spec fn low_half(x: u128) -> nat {
    x as nat % pow2_64()
}

/// The bits of a limb above the low 64.
pub open spec fn high_half(x: u128) -> nat {
    x as nat / pow2_64()
}

/// Masking with `2^64 - 1` and shifting by 64 split a limb into its halves,
/// and shifting left by 64 keeps the low half in the upper position.
pub proof fn lemma_halves(x: u128)
    ensures
        (x & 0xFFFF_FFFF_FFFF_FFFF) == low_half(x),
        (x >> 64) == high_half(x),
        (x << 64) == low_half(x) * pow2_64(),
        x == high_half(x) * pow2_64() + low_half(x),
        low_half(x) < pow2_64(),
        high_half(x) < pow2_64(),
{
    assert((x & 0xFFFF_FFFF_FFFF_FFFF) == x % 0x1_0000_0000_0000_0000) by (bit_vector);
    assert((x >> 64) == x / 0x1_0000_0000_0000_0000) by (bit_vector);
    assert((x << 64) == (x % 0x1_0000_0000_0000_0000) * 0x1_0000_0000_0000_0000) by (bit_vector);
}

/// The product of two numbers below `2^64` is at most `(2^64 - 1)^2`.
pub proof fn lemma_half_product_bound(a: nat, b: nat)
    requires
        a < pow2_64(),
        b < pow2_64(),
    ensures
        a * b <= 0xFFFF_FFFF_FFFF_FFFE_0000_0000_0000_0001,
{
    assert(a * b <= 0xFFFF_FFFF_FFFF_FFFFnat * 0xFFFF_FFFF_FFFF_FFFFnat) by (nonlinear_arith)
        requires
            a <= 0xFFFF_FFFF_FFFF_FFFFnat,
            b <= 0xFFFF_FFFF_FFFF_FFFFnat,
    ;
}

/// The product of two sums, term by term.
pub proof fn lemma_binomial_product(a: int, b: int, c: int, d: int)
    ensures
        (a + b) * (c + d) == a * c + a * d + b * c + b * d,
{
    assert((a + b) * (c + d) == a * (c + d) + b * (c + d)) by (nonlinear_arith);
    assert(a * (c + d) == a * c + a * d) by (nonlinear_arith);
    assert(b * (c + d) == b * c + b * d) by (nonlinear_arith);
}

/// The product of two two-digit numbers in base `k`, digit by digit.
pub proof fn lemma_two_digit_product(xh: nat, xl: nat, yh: nat, yl: nat, k: nat)
    ensures
        (xh * k + xl) * (yh * k + yl) == (xh * yh) * (k * k) + (xh * yl + xl * yh) * k + xl * yl,
        (xh * k + xl) * (yh * k + yl) == xl * yl + (xl * yh) * k + (xh * yl) * k + (xh * yh) * (k
            * k),
{
    lemma_binomial_product((xh * k) as int, xl as int, (yh * k) as int, yl as int);
    assert((xh * k) * (yh * k) == (xh * yh) * (k * k)) by (nonlinear_arith);
    assert((xh * k) * yl == (xh * yl) * k) by (nonlinear_arith);
    assert(xl * (yh * k) == (xl * yh) * k) by (nonlinear_arith);
    assert((xh * yl + xl * yh) * k == (xh * yl) * k + (xl * yh) * k) by (nonlinear_arith);
}

/// The Karatsuba identity on halves: with `x = xh * 2^64 + xl` and
/// `y = yh * 2^64 + yl`, the product of the sums of the halves holds the two
/// outer products and the cross term.
pub proof fn lemma_karatsuba(xh: nat, xl: nat, yh: nat, yl: nat)
    ensures
        (xh + xl) * (yh + yl) == xh * yh + xl * yl + (xh * yl + xl * yh),
        (xh * pow2_64() + xl) * (yh * pow2_64() + yl) == (xh * yh) * pow2_128() + (xh * yl + xl
            * yh) * pow2_64() + xl * yl,
{
    lemma_binomial_product(xh as int, xl as int, yh as int, yl as int);
    lemma_two_digit_product(xh, xl, yh, yl, pow2_64());
    assert(pow2_64() * pow2_64() == pow2_128()) by (nonlinear_arith);
}

/// The exact 256-bit product of two 128-bit limbs.
///
/// Operands that both fit in 64 bits are multiplied natively. Otherwise each
/// operand is split into 64-bit halves, the two outer products are native
/// multiplications, and the cross term is recovered from one product of the
/// sums of the halves, which are at most one bit wider than a half.
pub fn mul_karatsuba_u128(x: u128, y: u128) -> (r: U256)
    ensures
        r@ == x as nat * y as nat,
    decreases x as nat + y as nat,
{
    proof {
        lemma_halves(x);
        lemma_halves(y);
    }
    if x <= 0xFFFF_FFFF_FFFF_FFFF && y <= 0xFFFF_FFFF_FFFF_FFFF {
        proof {
            lemma_half_product_bound(x as nat, y as nat);
        }
        return U256 { higher: 0, lower: x * y };
    }
    let x_lower = x & 0xFFFF_FFFF_FFFF_FFFF;
    let x_higher = x >> 64;
    let y_lower = y & 0xFFFF_FFFF_FFFF_FFFF;
    let y_higher = y >> 64;

    proof {
        lemma_half_product_bound(x_lower as nat, y_lower as nat);
        lemma_half_product_bound(x_higher as nat, y_higher as nat);
        lemma_half_product_bound(x_higher as nat, y_lower as nat);
        lemma_half_product_bound(x_lower as nat, y_higher as nat);
        lemma_karatsuba(x_higher as nat, x_lower as nat, y_higher as nat, y_lower as nat);
    }
    let lower = x_lower * y_lower;
    let higher = x_higher * y_higher;
    let x_comb = x_higher + x_lower;
    let y_comb = y_higher + y_lower;
    let mid = mul_karatsuba_u128(x_comb, y_comb);

    // cross = mid - lower - higher, a number below 2^129
    let ghost cross: nat = x_higher as nat * y_lower as nat + x_lower as nat * y_higher as nat;
    assert(mid@ == higher as nat + lower as nat + cross);
    let (cross_lower, borrow_1) = overflowing_sub(mid.lower, lower);
    let (cross_lower, borrow_2) = overflowing_sub(cross_lower, higher);
    let cross_higher = mid.higher - (bit(borrow_1) + bit(borrow_2));
    assert(cross == cross_higher as nat * pow2_128() + cross_lower as nat);

    proof {
        lemma_halves(cross_lower);
        lemma_halves(cross_higher);
    }
    let (lower, carry) = overflowing_add(lower, cross_lower << 64);
    let higher = higher + (cross_lower >> 64) + (cross_higher << 64) + bit(carry);
    U256 { higher, lower }
}

/// The sum of the two 64-bit halves of a limb.
pub open spec fn half_sum(x: u128) -> nat {
    high_half(x) + low_half(x)
}

/// The half sums of two sums of 64-bit halves multiply without leaving a
/// limb: the operands that the three-multiplication scheme hands on are
/// within what [`mul_safe_karatsuba_u128`] takes.
pub proof fn lemma_sums_of_halves_are_safe(x: u128, y: u128)
    requires
        x <= 2 * (pow2_64() - 1),
        y <= 2 * (pow2_64() - 1),
    ensures
        half_sum(x) * half_sum(y) <= u128::MAX,
{
    lemma_halves(x);
    lemma_halves(y);
    assert(high_half(x) <= 1 && high_half(y) <= 1);
    lemma_half_product_bound(half_sum(x), half_sum(y));
}

/// The exact 256-bit product of two limbs whose half sums multiply without
/// leaving a limb.
///
/// One level of the three-multiplication scheme with no recursion: the cross
/// term comes from one native multiplication of the half sums, and the
/// precondition is that this multiplication fits. It holds whenever both
/// operands are themselves sums of two 64-bit halves.
pub fn mul_safe_karatsuba_u128(x: u128, y: u128) -> (r: U256)
    requires
        half_sum(x) * half_sum(y) <= u128::MAX,
    ensures
        r@ == x as nat * y as nat,
{
    proof {
        lemma_halves(x);
        lemma_halves(y);
    }
    let x_lower = x & 0xFFFF_FFFF_FFFF_FFFF;
    let x_higher = x >> 64;
    let y_lower = y & 0xFFFF_FFFF_FFFF_FFFF;
    let y_higher = y >> 64;

    proof {
        lemma_half_product_bound(x_lower as nat, y_lower as nat);
        lemma_half_product_bound(x_higher as nat, y_higher as nat);
        lemma_karatsuba(x_higher as nat, x_lower as nat, y_higher as nat, y_lower as nat);
    }
    let higher = x_higher * y_higher;
    let lower = x_lower * y_lower;
    let x_comb = x_higher + x_lower;
    let y_comb = y_higher + y_lower;

    let cross = x_comb * y_comb - higher - lower;
    proof {
        lemma_halves(cross);
    }
    let (lower, carr_1) = overflowing_add(lower, cross << 64);
    let higher = higher + (cross >> 64) + bit(carr_1);
    U256 { higher, lower }
}

/// The exact 256-bit product of two limbs by the schoolbook scheme: four
/// native products of 64-bit halves, summed column by column.
pub fn mul_u128(x: u128, y: u128) -> (r: U256)
    ensures
        r@ == x as nat * y as nat,
{
    proof {
        lemma_halves(x);
        lemma_halves(y);
    }
    let x_lower = x & 0xFFFF_FFFF_FFFF_FFFF;
    let x_higher = x >> 64;
    let y_lower = y & 0xFFFF_FFFF_FFFF_FFFF;
    let y_higher = y >> 64;

    proof {
        lemma_half_product_bound(x_lower as nat, y_lower as nat);
        lemma_half_product_bound(x_lower as nat, y_higher as nat);
        lemma_half_product_bound(x_higher as nat, y_lower as nat);
        lemma_half_product_bound(x_higher as nat, y_higher as nat);
        lemma_karatsuba(x_higher as nat, x_lower as nat, y_higher as nat, y_lower as nat);
    }
    let lower_l = x_lower * y_lower;
    let lower_h = x_lower * y_higher;
    let higher_l = x_higher * y_lower;
    let higher_h = x_higher * y_higher;

    proof {
        lemma_halves(lower_l);
        lemma_halves(lower_h);
        lemma_halves(higher_l);
    }
    let mid_lower = (lower_l >> 64) + (lower_h & 0xFFFF_FFFF_FFFF_FFFF) + (higher_l
        & 0xFFFF_FFFF_FFFF_FFFF);
    proof {
        lemma_halves(mid_lower);
    }
    let mid_higher = (mid_lower >> 64) + (higher_l >> 64) + (lower_h >> 64);
    let lower = (lower_l & 0xFFFF_FFFF_FFFF_FFFF) + (mid_lower << 64);
    let higher = higher_h + mid_higher;
    U256 { higher, lower }
}

impl U256 {
    /// The product of two words modulo `2^256`.
    pub open spec fn wrapping_product(self, rhs: U256) -> U256 {
        U256::wrap((self@ * rhs@) as int)
    }
}

/// The product of two words, limb by limb: the product of the higher limbs
/// only adds a multiple of `2^256`.
pub proof fn lemma_limb_products(a: U256, b: U256)
    ensures
        a@ * b@ == a.lower as nat * b.lower as nat + (a.lower as nat * b.higher as nat)
            * pow2_128() + (a.higher as nat * b.lower as nat) * pow2_128() + (a.higher as nat
            * b.higher as nat) * pow2_256(),
{
    lemma_two_digit_product(
        a.higher as nat,
        a.lower as nat,
        b.higher as nat,
        b.lower as nat,
        pow2_128(),
    );
    assert(pow2_128() * pow2_128() == pow2_256()) by (nonlinear_arith);
}

impl MulSpecImpl<U256> for U256 {
    open spec fn obeys_mul_spec() -> bool {
        true
    }

    open spec fn mul_req(self, rhs: U256) -> bool {
        true
    }

    open spec fn mul_spec(self, rhs: U256) -> U256 {
        self.wrapping_product(rhs)
    }
}

impl core::ops::Mul<U256> for U256 {
    type Output = U256;

    /// Multiplies modulo `2^256`: the full product of the lower limbs, plus
    /// the two mixed products moved up by one limb. The product of the two
    /// higher limbs lies wholly above the word and is never computed.
    fn mul(self, rhs: U256) -> (r: U256)
        ensures
            r@ == (self@ * rhs@) % pow2_256(),
    {
        let low_part = mul_karatsuba_u128(self.lower, rhs.lower);
        let cross_1 = mul_karatsuba_u128(self.lower, rhs.higher) << 128;
        let cross_2 = mul_karatsuba_u128(self.higher, rhs.lower) << 128;
        proof {
            let n = pow2_256() as int;
            let x_1 = (self.lower as nat * rhs.higher as nat) * pow2_128();
            let x_2 = (self.higher as nat * rhs.lower as nat) * pow2_128();
            let k = self.higher as nat * rhs.higher as nat;
            lemma_pow2_limbs();
            lemma_limb_products(self, rhs);
            lemma_add_mod_noop_right(low_part@ as int, x_1 as int, n);
            lemma_add_mod_noop((low_part@ + x_1) as int, x_2 as int, n);
            lemma_mod_multiples_vanish(k as int, (low_part@ + x_1 + x_2) as int, n);
            assert(k * pow2_256() == n * k) by (nonlinear_arith)
                requires
                    n == pow2_256(),
            ;
        }
        low_part + cross_1 + cross_2
    }
}

} // verus!
