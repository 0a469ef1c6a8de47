//! Logical shifts of 256-bit words by an 8-bit count.

use vstd::prelude::*;
use vstd::arithmetic::div_mod::{
    lemma_div_denominator,
    lemma_div_nonincreasing,
    lemma_fundamental_div_mod,
    lemma_fundamental_div_mod_converse,
    lemma_mul_mod_noop_left,
};
use vstd::arithmetic::power2::{lemma2_to64, lemma_pow2_adds, lemma_pow2_pos, pow2};
use vstd::bits::lemma_u128_shr_is_div;
use vstd::std_specs::ops::{ShlSpecImpl, ShrSpecImpl};
use crate::word::{pow2_128, pow2_256, pow2_64, U256};

verus! {

impl U256 {
    /// The word shifted left by `n` bits: multiplied by `2^n` modulo `2^256`.
    pub open spec fn shifted_left(self, n: u8) -> U256 {
        U256::wrap((self@ * pow2(n as nat)) as int)
    }

    /// The word shifted right by `n` bits: divided by `2^n`, rounding down.
    pub open spec fn shifted_right(self, n: u8) -> U256 {
        U256::wrap((self@ / pow2(n as nat)) as int)
    }
}

/// The named powers of two are the powers of two.
pub proof fn lemma_pow2_limbs()
    ensures
        pow2(0) == 1,
        pow2(64) == pow2_64(),
        pow2(128) == pow2_128(),
        pow2(256) == pow2_256(),
{
    lemma2_to64();
    lemma_pow2_adds(64, 64);
    assert(pow2_64() * pow2_64() == pow2_128()) by (nonlinear_arith);
    lemma_pow2_adds(128, 128);
    assert(pow2_128() * pow2_128() == pow2_256()) by (nonlinear_arith);
}

/// For `n` up to 128, `2^n * 2^(128 - n)` is the limb weight.
pub proof fn lemma_pow2_complement(n: nat)
    requires
        n <= 128,
    ensures
        pow2(n) * pow2((128 - n) as nat) == pow2_128(),
        pow2(n) > 0,
        pow2((128 - n) as nat) > 0,
{
    lemma_pow2_limbs();
    lemma_pow2_adds(n, (128 - n) as nat);
    lemma_pow2_pos(n);
    lemma_pow2_pos((128 - n) as nat);
}

/// Scaling a number and the divisor by the same `p` scales the remainder and
/// keeps the quotient.
pub proof fn lemma_scale_split(x: nat, q: nat, p: nat)
    requires
        q > 0,
        p > 0,
    ensures
        (x * p) % (q * p) == (x % q) * p,
        (x * p) / (q * p) == x / q,
        (x % q) * p <= q * p - p,
{
    let d = x / q;
    let r = x % q;
    lemma_fundamental_div_mod(x as int, q as int);
    assert(x * p == d * (q * p) + r * p && r * p <= q * p - p && q * p > 0) by (nonlinear_arith)
        requires
            x == q * d + r,
            r < q,
            q > 0,
            p > 0,
    ;
    lemma_fundamental_div_mod_converse((x * p) as int, (q * p) as int, d as int, (r * p) as int);
}

/// Shifting a limb left multiplies it by a power of two modulo `2^128`.
pub proof fn lemma_shl_limb(x: u128, n: u8)
    requires
        n < 128,
    ensures
        (x << n) == (x as nat * pow2(n as nat)) % pow2_128(),
    decreases n,
{
    lemma_pow2_limbs();
    if n == 0 {
        assert(x << 0u8 == x) by (bit_vector);
    } else {
        let m = (n - 1) as u8;
        assert(x << n == ((x << ((n - 1) as u8)) * 2) % 0x1_0000_0000_0000_0000_0000_0000_0000_0000int)
            by (bit_vector)
            requires
                0 < n < 128,
        ;
        lemma_shl_limb(x, m);
        let t = x as nat * pow2(m as nat);
        lemma_pow2_adds(m as nat, 1);
        lemma2_to64();
        assert(x as nat * pow2(n as nat) == t * 2) by (nonlinear_arith)
            requires
                pow2(n as nat) == pow2(m as nat) * 2,
                t == x as nat * pow2(m as nat),
        ;
        lemma_mul_mod_noop_left(t as int, 2, pow2_128() as int);
    }
}

/// Shifting a limb right divides it by a power of two.
pub proof fn lemma_shr_limb(x: u128, n: u8)
    requires
        n < 128,
    ensures
        (x >> n) == x as nat / pow2(n as nat),
{
    lemma_u128_shr_is_div(x, n as u128);
    assert(x >> n == x >> (n as u128)) by (bit_vector);
}

/// For a shift inside one limb, the bits that a left shift moves out of a
/// limb and the bits that stay do not overlap.
pub proof fn lemma_or_is_sum(a: u128, b: u128, n: u8)
    requires
        0 < n < 128,
    ensures
        (a << n) | (b >> ((128 - n) as u8)) == (a << n) + (b >> ((128 - n) as u8)),
        (a << ((128 - n) as u8)) | (b >> n) == (a << ((128 - n) as u8)) + (b >> n),
{
    assert((a << n) | (b >> ((128 - n) as u8)) == (a << n) + (b >> ((128 - n) as u8)))
        by (bit_vector)
        requires
            0 < n < 128,
    ;
    assert((a << ((128 - n) as u8)) | (b >> n) == (a << ((128 - n) as u8)) + (b >> n))
        by (bit_vector)
        requires
            0 < n < 128,
    ;
}

/// The value of a left shift that stays below the limb width: the higher
/// limb takes the bits that leave the lower one.
pub proof fn lemma_shl_within(a: U256, n: u8)
    requires
        0 < n < 128,
    ensures
        (U256 {
            higher: (a.higher << n) | (a.lower >> ((128 - n) as u8)),
            lower: a.lower << n,
        }) == a.shifted_left(n),
{
    let p = pow2(n as nat);
    let q = pow2((128 - n) as nat);
    let m = pow2_128();
    let h = a.higher as nat;
    let l = a.lower as nat;
    lemma_pow2_complement(n as nat);
    lemma_shl_limb(a.higher, n);
    lemma_shl_limb(a.lower, n);
    lemma_shr_limb(a.lower, (128 - n) as u8);
    lemma_or_is_sum(a.higher, a.lower, n);
    lemma_scale_split(h, q, p);
    lemma_scale_split(l, q, p);
    assert(q * p == m) by (nonlinear_arith)
        requires
            p * q == m,
    ;
    let hs = (h * p) % m;
    let hq = (h * p) / m;
    let ls = (l * p) % m;
    let lc = (l * p) / m;
    lemma_fundamental_div_mod((h * p) as int, m as int);
    lemma_fundamental_div_mod((l * p) as int, m as int);
    assert(lc < p) by (nonlinear_arith)
        requires
            l * p == m * lc + ls,
            l < m,
            p > 0,
    ;
    let r = (hs + lc) * m + ls;
    assert((h * m + l) * p == hq * (m * m) + r) by (nonlinear_arith)
        requires
            h * p == m * hq + hs,
            l * p == m * lc + ls,
            r == (hs + lc) * m + ls,
    ;
    assert(m * m == pow2_256());
    lemma_fundamental_div_mod_converse((a@ * p) as int, pow2_256() as int, hq as int, r as int);
}

/// The value of a left shift by the limb width or more: the lower limb moves
/// into the higher one and the lower limb is cleared.
pub proof fn lemma_shl_across(a: U256, n: u8)
    requires
        n >= 128,
    ensures
        (U256 { higher: a.lower << ((n - 128) as u8), lower: 0 }) == a.shifted_left(n),
{
    let k = (n - 128) as u8;
    let p = pow2(k as nat);
    let m = pow2_128();
    let h = a.higher as nat;
    let l = a.lower as nat;
    lemma_pow2_limbs();
    lemma_pow2_adds(128, k as nat);
    lemma_shl_limb(a.lower, k);
    let ls = (l * p) % m;
    let lq = (l * p) / m;
    lemma_fundamental_div_mod((l * p) as int, m as int);
    assert((h * m + l) * (m * p) == (h * p + lq) * (m * m) + ls * m) by (nonlinear_arith)
        requires
            l * p == m * lq + ls,
    ;
    assert(m * m == pow2_256());
    lemma_fundamental_div_mod_converse(
        (a@ * pow2(n as nat)) as int,
        pow2_256() as int,
        (h * p + lq) as int,
        (ls * m) as int,
    );
}

/// The value of a right shift that stays below the limb width: the lower
/// limb takes the bits that leave the higher one.
pub proof fn lemma_shr_within(a: U256, n: u8)
    requires
        0 < n < 128,
    ensures
        (U256 {
            higher: a.higher >> n,
            lower: (a.higher << ((128 - n) as u8)) | (a.lower >> n),
        }) == a.shifted_right(n),
{
    let p = pow2(n as nat);
    let q = pow2((128 - n) as nat);
    let m = pow2_128();
    let h = a.higher as nat;
    let l = a.lower as nat;
    lemma_pow2_complement(n as nat);
    lemma_shl_limb(a.higher, (128 - n) as u8);
    lemma_shr_limb(a.higher, n);
    lemma_shr_limb(a.lower, n);
    lemma_or_is_sum(a.higher, a.lower, n);
    lemma_scale_split(h, p, q);
    lemma_fundamental_div_mod(h as int, p as int);
    lemma_fundamental_div_mod(l as int, p as int);
    let hd = h / p;
    let hr = h % p;
    let ld = l / p;
    let lr = l % p;
    assert(ld < q) by (nonlinear_arith)
        requires
            l == p * ld + lr,
            l < p * q,
            p > 0,
    ;
    let v = hd * m + hr * q + ld;
    assert(h * m + l == v * p + lr) by (nonlinear_arith)
        requires
            h == p * hd + hr,
            l == p * ld + lr,
            m == p * q,
            v == hd * m + hr * q + ld,
    ;
    lemma_fundamental_div_mod_converse(a@ as int, p as int, v as int, lr as int);
    assert(hr * q + ld < m);
}

/// The value of a right shift by the limb width or more: the higher limb
/// moves into the lower one and the higher limb is cleared.
pub proof fn lemma_shr_across(a: U256, n: u8)
    requires
        n >= 128,
    ensures
        (U256 { higher: 0, lower: a.higher >> ((n - 128) as u8) }) == a.shifted_right(n),
{
    let k = (n - 128) as u8;
    let p = pow2(k as nat);
    let m = pow2_128();
    lemma_pow2_limbs();
    lemma_pow2_adds(128, k as nat);
    lemma_pow2_pos(k as nat);
    lemma_shr_limb(a.higher, k);
    lemma_div_denominator(a@ as int, m as int, p as int);
}

impl ShlSpecImpl<u8> for U256 {
    open spec fn obeys_shl_spec() -> bool {
        true
    }

    open spec fn shl_req(self, rhs: u8) -> bool {
        true
    }

    open spec fn shl_spec(self, rhs: u8) -> U256 {
        self.shifted_left(rhs)
    }
}

impl core::ops::Shl<u8> for U256 {
    type Output = U256;

    /// Shifts left by `rhs` bits. Bits that leave the word at the top are
    /// dropped, and a shift by zero returns the word unchanged.
    fn shl(self, rhs: u8) -> (r: U256)
        ensures
            r@ == (self@ * pow2(rhs as nat)) % pow2_256(),
    {
        proof {
            lemma_pow2_limbs();
        }
        if rhs == 0 {
            self
        } else if rhs < 128 {
            proof {
                lemma_shl_within(self, rhs);
            }
            U256 {
                higher: (self.higher << rhs) | (self.lower >> (128 - rhs)),
                lower: self.lower << rhs,
            }
        } else {
            proof {
                lemma_shl_across(self, rhs);
            }
            U256 { higher: self.lower << (rhs - 128), lower: 0 }
        }
    }
}

impl ShrSpecImpl<u8> for U256 {
    open spec fn obeys_shr_spec() -> bool {
        true
    }

    open spec fn shr_req(self, rhs: u8) -> bool {
        true
    }

    open spec fn shr_spec(self, rhs: u8) -> U256 {
        self.shifted_right(rhs)
    }
}

impl core::ops::Shr<u8> for U256 {
    type Output = U256;

    /// Shifts right by `rhs` bits. Bits that leave the word at the bottom are
    /// dropped, and a shift by zero returns the word unchanged.
    fn shr(self, rhs: u8) -> (r: U256)
        ensures
            r@ == self@ / pow2(rhs as nat),
    {
        proof {
            lemma_pow2_limbs();
            lemma_pow2_pos(rhs as nat);
            lemma_div_nonincreasing(self@ as int, pow2(rhs as nat) as int);
        }
        if rhs == 0 {
            assert(self@ / 1 == self@);
            self
        } else if rhs < 128 {
            proof {
                lemma_shr_within(self, rhs);
            }
            U256 {
                higher: self.higher >> rhs,
                lower: (self.higher << (128 - rhs)) | (self.lower >> rhs),
            }
        } else {
            proof {
                lemma_shr_across(self, rhs);
            }
            U256 { higher: 0, lower: self.higher >> (rhs - 128) }
        }
    }
}

} // verus!
