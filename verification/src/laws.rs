//! The algebra of 256-bit words: what holds of the arithmetic for all words.
//!
//! Every statement is over the specification functions that the operators'
//! contracts use, so it holds of what the operators return.

use vstd::prelude::*;
use vstd::arithmetic::div_mod::{
    lemma_add_mod_noop,
    lemma_add_mod_noop_right,
    lemma_div_nonincreasing,
    lemma_mod_multiples_vanish,
    lemma_mul_mod_noop_left,
    lemma_mul_mod_noop_right,
    lemma_sub_mod_noop_right,
};
use vstd::arithmetic::mul::{lemma_mul_is_associative, lemma_mul_is_commutative};
use vstd::arithmetic::power2::{lemma_pow2_adds, lemma_pow2_pos, pow2};
use crate::shift::{lemma_pow2_limbs, lemma_scale_split};
use crate::word::{pow2_256, Initialize, UPrimitive, U256};

verus! {

/// The word one.
pub open spec fn one() -> U256 {
    U256 { higher: 0, lower: 1 }
}

/// Numbers that are congruent modulo `2^256` wrap to the same word.
pub proof fn lemma_wrap_congruent(m: int, n: int)
    requires
        m % (pow2_256() as int) == n % (pow2_256() as int),
    ensures
        U256::wrap(m) == U256::wrap(n),
{
}

/// The value of each result: the arithmetic is that of the integers, reduced
/// modulo `2^256`.
pub proof fn lemma_values(a: U256, b: U256, n: u8)
    ensures
        a.wrapping_sum(b)@ == (a@ + b@) % pow2_256(),
        a.wrapping_difference(b)@ == (a@ - b@) % (pow2_256() as int),
        a.negation()@ == (-a@) % (pow2_256() as int),
        a.wrapping_product(b)@ == (a@ * b@) % pow2_256(),
        a.shifted_left(n)@ == (a@ * pow2(n as nat)) % pow2_256(),
        a.shifted_right(n)@ == a@ / pow2(n as nat),
{
    U256::lemma_wrap_view((a@ * b@) as int);
    U256::lemma_wrap_view((a@ * pow2(n as nat)) as int);
    U256::lemma_wrap_view((a@ / pow2(n as nat)) as int);
    lemma_pow2_pos(n as nat);
    lemma_div_nonincreasing(a@ as int, pow2(n as nat) as int);
}

/// Addition is commutative: `a + b == b + a`.
pub proof fn lemma_add_commutative(a: U256, b: U256)
    ensures
        a.wrapping_sum(b) == b.wrapping_sum(a),
{
}

/// Addition is associative: `(a + b) + c == a + (b + c)`.
pub proof fn lemma_add_associative(a: U256, b: U256, c: U256)
    ensures
        a.wrapping_sum(b).wrapping_sum(c) == a.wrapping_sum(b.wrapping_sum(c)),
{
    let n = pow2_256() as int;
    U256::lemma_wrap_view((a@ + b@) as int);
    U256::lemma_wrap_view((b@ + c@) as int);
    lemma_add_mod_noop_right(c@ as int, (a@ + b@) as int, n);
    lemma_add_mod_noop_right(a@ as int, (b@ + c@) as int, n);
    lemma_wrap_congruent(
        (a.wrapping_sum(b)@ + c@) as int,
        (a@ + b.wrapping_sum(c)@) as int,
    );
}

/// Zero is the identity of addition: `a + 0 == a`.
pub proof fn lemma_add_identity(a: U256)
    ensures
        a.wrapping_sum(U256::zero_value()) == a,
        U256::zero_value().wrapping_sum(a) == a,
{
    a.lemma_view_wrap();
}

/// Negation gives the additive inverse: `a + (-a) == 0`.
pub proof fn lemma_add_inverse(a: U256)
    ensures
        a.wrapping_sum(a.negation()) == U256::zero_value(),
        a.negation().wrapping_sum(a) == U256::zero_value(),
{
    let n = pow2_256() as int;
    U256::lemma_wrap_view(-(a@ as int));
    lemma_add_mod_noop_right(a@ as int, -(a@ as int), n);
    lemma_wrap_congruent((a@ + a.negation()@) as int, 0);
    lemma_add_commutative(a, a.negation());
}

/// Subtraction is addition of the negation: `a - b == a + (-b)`.
pub proof fn lemma_sub_is_add_negation(a: U256, b: U256)
    ensures
        a.wrapping_difference(b) == a.wrapping_sum(b.negation()),
{
    let n = pow2_256() as int;
    U256::lemma_wrap_view(-(b@ as int));
    lemma_add_mod_noop_right(a@ as int, -(b@ as int), n);
    lemma_wrap_congruent(a@ - b@, (a@ + b.negation()@) as int);
}

/// A word minus itself is zero: `a - a == 0`.
pub proof fn lemma_sub_self(a: U256)
    ensures
        a.wrapping_difference(a) == U256::zero_value(),
{
}

/// Negation is the largest word minus the operand, plus one, and it is
/// `2^256 - a` for every `a` but zero.
pub proof fn lemma_negation_by_complement(a: U256)
    ensures
        a.negation() == U256::max_value().wrapping_difference(a).wrapping_sum(one()),
        a.negation()@ == (if a@ == 0 { 0 } else { pow2_256() - a@ }),
{
    let n = pow2_256() as int;
    let m = U256::max_value();
    U256::lemma_wrap_view(m@ - a@);
    lemma_add_mod_noop_right(1, m@ - a@, n);
    lemma_mod_multiples_vanish(1, -(a@ as int), n);
    lemma_wrap_congruent((m.wrapping_difference(a)@ + one()@) as int, -(a@ as int));
    U256::lemma_wrap_view(-(a@ as int));
}

/// The negation of zero is zero, and negating twice gives the word back.
pub proof fn lemma_negation_involution(a: U256)
    ensures
        U256::zero_value().negation() == U256::zero_value(),
        a.negation().negation() == a,
{
    lemma_negation_by_complement(a);
    lemma_negation_by_complement(a.negation());
    U256::lemma_view_injective(a.negation().negation(), a);
}

/// Multiplication is commutative: `a * b == b * a`.
pub proof fn lemma_mul_commutative(a: U256, b: U256)
    ensures
        a.wrapping_product(b) == b.wrapping_product(a),
{
    lemma_mul_is_commutative(a@ as int, b@ as int);
}

/// Multiplication is associative: `(a * b) * c == a * (b * c)`.
pub proof fn lemma_mul_associative(a: U256, b: U256, c: U256)
    ensures
        a.wrapping_product(b).wrapping_product(c) == a.wrapping_product(b.wrapping_product(c)),
{
    let n = pow2_256() as int;
    U256::lemma_wrap_view((a@ * b@) as int);
    U256::lemma_wrap_view((b@ * c@) as int);
    lemma_mul_mod_noop_left((a@ * b@) as int, c@ as int, n);
    lemma_mul_mod_noop_right(a@ as int, (b@ * c@) as int, n);
    lemma_mul_is_associative(a@ as int, b@ as int, c@ as int);
    lemma_wrap_congruent(
        (a.wrapping_product(b)@ * c@) as int,
        (a@ * b.wrapping_product(c)@) as int,
    );
}

/// Zero absorbs: `a * 0 == 0`.
pub proof fn lemma_mul_zero(a: U256)
    ensures
        a.wrapping_product(U256::zero_value()) == U256::zero_value(),
        U256::zero_value().wrapping_product(a) == U256::zero_value(),
{
    assert(a@ * 0 == 0);
    assert(0 * a@ == 0);
}

/// One is the identity of multiplication: `a * 1 == a`.
pub proof fn lemma_mul_identity(a: U256)
    ensures
        a.wrapping_product(one()) == a,
        one().wrapping_product(a) == a,
{
    assert(a@ * 1 == a@);
    assert(1 * a@ == a@);
    a.lemma_view_wrap();
}

/// The largest word is its own inverse: `MAX * MAX == 1`.
pub proof fn lemma_mul_max_max()
    ensures
        U256::max_value().wrapping_product(U256::max_value()) == one(),
{
    let n = pow2_256() as int;
    let m = U256::max_value()@ as int;
    assert(m == n - 1);
    assert(m * m == n * (n - 2) + 1) by (nonlinear_arith)
        requires
            m == n - 1,
    ;
    lemma_mod_multiples_vanish(n - 2, 1, n);
    lemma_wrap_congruent(m * m, 1);
}

/// Multiplication distributes over addition: `a * (b + c) == a * b + a * c`.
pub proof fn lemma_mul_distributive(a: U256, b: U256, c: U256)
    ensures
        a.wrapping_product(b.wrapping_sum(c)) == a.wrapping_product(b).wrapping_sum(
            a.wrapping_product(c),
        ),
{
    let n = pow2_256() as int;
    U256::lemma_wrap_view((b@ + c@) as int);
    U256::lemma_wrap_view((a@ * b@) as int);
    U256::lemma_wrap_view((a@ * c@) as int);
    lemma_mul_mod_noop_right(a@ as int, (b@ + c@) as int, n);
    lemma_add_mod_noop((a@ * b@) as int, (a@ * c@) as int, n);
    assert(a@ * (b@ + c@) == a@ * b@ + a@ * c@) by (nonlinear_arith);
    lemma_wrap_congruent(
        (a@ * b.wrapping_sum(c)@) as int,
        (a.wrapping_product(b)@ + a.wrapping_product(c)@) as int,
    );
}

/// A shift by zero bits changes nothing.
pub proof fn lemma_shift_zero(a: U256)
    ensures
        a.shifted_left(0) == a,
        a.shifted_right(0) == a,
{
    lemma_pow2_limbs();
    assert(a@ * 1 == a@);
    assert(a@ / 1 == a@);
    a.lemma_view_wrap();
}

/// Shifting left and then right by `n` bits keeps the low `256 - n` bits of
/// the word and clears the rest: the result is `a mod 2^(256 - n)`.
pub proof fn lemma_shift_round_trip(a: U256, n: u8)
    ensures
        a.shifted_left(n).shifted_right(n)@ == a@ % pow2((256 - n) as nat),
{
    let p = pow2(n as nat);
    let q = pow2((256 - n) as nat);
    lemma_pow2_limbs();
    lemma_pow2_adds((256 - n) as nat, n as nat);
    lemma_pow2_pos(n as nat);
    lemma_pow2_pos((256 - n) as nat);
    lemma_scale_split(a@, q, p);
    U256::lemma_wrap_view((a@ * p) as int);
    let kept = a@ % q;
    assert((kept * p) / p == kept) by (nonlinear_arith)
        requires
            p > 0,
    ;
    assert(kept < pow2_256()) by (nonlinear_arith)
        requires
            kept < q,
            q * p == pow2_256(),
            p >= 1,
    ;
    U256::lemma_wrap_view(kept as int);
}

/// The same number converts to the same word from each of the five native
/// widths, and the word has that number as its value.
pub proof fn lemma_construction_widths(a: u8, b: u16, c: u32, d: u64, e: u128)
    requires
        a == b,
        b == c,
        c == d,
        d == e,
    ensures
        a.word() == e.word(),
        b.word() == e.word(),
        c.word() == e.word(),
        d.word() == e.word(),
        e.word()@ == a,
{
}

/// A native unsigned integer converts to the same word whatever its width,
/// and by either conversion: only its value counts.
pub proof fn lemma_construction_consistent<T: UPrimitive, U: UPrimitive>(x: T, y: U)
    requires
        x.widened() == y.widened(),
    ensures
        x.word() == y.word(),
        x.word() == U256::wrap(x.widened() as int),
        x.word()@ == x.widened(),
        (y, x).word() == (x, y).word(),
{
}

} // verus!
