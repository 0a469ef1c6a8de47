//! The same three-multiplication scheme one size down: bytes split into
//! 4-bit nibbles, with a 16-bit product.

use vstd::prelude::*;

verus! {

/// The sum of the two nibbles of a byte.
pub open spec fn nibble_sum(x: u8) -> nat {
    x as nat / 16 + x as nat % 16
}

/// Masking with `0xF` and shifting by 4 split a byte into its nibbles, and
/// shifting left by 4 keeps the low nibble in the upper position.
pub proof fn lemma_nibbles(x: u8)
    ensures
        (x & 0xF) == x % 16,
        (x >> 4) == x / 16,
        (x << 4) == (x % 16) * 16,
{
    assert((x & 0xF) == x % 16) by (bit_vector);
    assert((x >> 4) == x / 16) by (bit_vector);
    assert((x << 4) == (x % 16) * 16) by (bit_vector);
}

/// With `x = xh * 16 + xl` and `y = yh * 16 + yl`: what the product of the
/// nibble sums holds, and how the product of the bytes is assembled from it.
pub proof fn lemma_nibble_karatsuba(xh: nat, xl: nat, yh: nat, yl: nat)
    ensures
        (xh + xl) * (yh + yl) == xh * yh + xl * yl + (xh * yl + xl * yh),
        (xh * 16 + xl) * (yh * 16 + yl) == (xh * yh) * 256 + (xh * yl + xl * yh) * 16 + xl * yl,
{
    assert((xh + xl) * (yh + yl) == xh * yh + xl * yl + (xh * yl + xl * yh))
        by (nonlinear_arith);
    assert((xh * 16 + xl) * (yh * 16 + yl) == (xh * yh) * 256 + (xh * yl + xl * yh) * 16 + xl
        * yl) by (nonlinear_arith);
}

/// The product of two numbers that are at most `a_max` and `b_max`.
pub proof fn lemma_product_bound(a: nat, b: nat, a_max: nat, b_max: nat)
    requires
        a <= a_max,
        b <= b_max,
    ensures
        a * b <= a_max * b_max,
{
    assert(a * b <= a_max * b_max) by (nonlinear_arith)
        requires
            a <= a_max,
            b <= b_max,
    ;
}

/// The exact product of two bytes whose nibble sums multiply without leaving
/// a byte, as a pair of a high and a low byte.
///
/// The cross term is computed by one native multiplication of the nibble
/// sums; the precondition is that this multiplication fits.
pub fn nibble_mul(x: u8, y: u8) -> (r: (u8, u8))
    requires
        nibble_sum(x) * nibble_sum(y) <= u8::MAX,
    ensures
        r.0 as nat * 256 + r.1 as nat == x as nat * y as nat,
{
    proof {
        lemma_nibbles(x);
        lemma_nibbles(y);
    }
    let x_lower = x & 0xF;
    let x_higher = x >> 4;
    let y_lower = y & 0xF;
    let y_higher = y >> 4;

    proof {
        lemma_product_bound(x_higher as nat, y_higher as nat, 15, 15);
        lemma_product_bound(x_lower as nat, y_lower as nat, 15, 15);
        lemma_nibble_karatsuba(x_higher as nat, x_lower as nat, y_higher as nat, y_lower as nat);
    }
    let ghost cross_term: nat = x_higher as nat * y_lower as nat + x_lower as nat * y_higher as nat;
    let higher = x_higher * y_higher;
    let lower = x_lower * y_lower;
    let x_comb = x_higher + x_lower;
    let y_comb = y_higher + y_lower;

    let cross = x_comb * y_comb - higher - lower;
    assert(cross == cross_term);
    proof {
        lemma_nibbles(cross);
    }
    let shifted = cross << 4;
    let sum = lower.wrapping_add(shifted);
    let carr_1 = sum < lower;
    let lower = sum;
    let higher = higher + (cross >> 4) + (if carr_1 { 1 } else { 0 });
    (higher, lower)
}

/// The exact 16-bit product of two bytes.
///
/// Each byte is split into nibbles; the outer products are native, and the
/// cross term comes from [`nibble_mul`] on the nibble sums, which are at most
/// one bit wider than a nibble.
pub fn mul_karatsuba_u8(x: u8, y: u8) -> (r: u16)
    ensures
        r == x as nat * y as nat,
{
    proof {
        lemma_nibbles(x);
        lemma_nibbles(y);
    }
    let x_lower = x & 0xF;
    let x_higher = x >> 4;
    let y_lower = y & 0xF;
    let y_higher = y >> 4;

    proof {
        lemma_product_bound(x_higher as nat, y_higher as nat, 15, 15);
        lemma_product_bound(x_lower as nat, y_lower as nat, 15, 15);
        lemma_product_bound(x_higher as nat, y_lower as nat, 15, 15);
        lemma_product_bound(x_lower as nat, y_higher as nat, 15, 15);
        lemma_nibble_karatsuba(x_higher as nat, x_lower as nat, y_higher as nat, y_lower as nat);
    }
    let ghost cross_term: nat = x_higher as nat * y_lower as nat + x_lower as nat * y_higher as nat;
    let lower = x_lower * y_lower;
    let higher = x_higher * y_higher;
    let x_comb = x_higher + x_lower;
    let y_comb = y_higher + y_lower;
    proof {
        lemma_product_bound(nibble_sum(x_comb), nibble_sum(y_comb), 15, 15);
    }
    let (xy_c_hi, xy_c_lo) = nibble_mul(x_comb, y_comb);
    assert(xy_c_hi as nat * 256 + xy_c_lo as nat == higher as nat + lower as nat + cross_term);

    let diff_1 = xy_c_lo.wrapping_sub(lower);
    let carr_1 = xy_c_lo < lower;
    let cross = diff_1.wrapping_sub(higher);
    let carr_2 = diff_1 < higher;
    let xy_c_hi = xy_c_hi - ((if carr_1 { 1u8 } else { 0u8 }) + (if carr_2 { 1u8 } else { 0u8 }));
    assert(cross_term == xy_c_hi as nat * 256 + cross as nat);

    proof {
        lemma_nibbles(cross);
        lemma_nibbles(xy_c_hi);
    }
    let sum = lower.wrapping_add(cross << 4);
    let carry = sum < lower;
    let lower = sum;
    let higher = higher + (cross >> 4) + (xy_c_hi << 4) + (if carry { 1 } else { 0 });
    assert(((higher as u16) << 8) | (lower as u16) == (higher as u16) * 256 + (lower as u16))
        by (bit_vector);
    let result: u16 = ((higher as u16) << 8) | lower as u16;
    result
}

} // verus!
