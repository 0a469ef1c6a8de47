//! The extended Euclidean algorithm on 128-bit signed integers.

use vstd::prelude::*;
use vstd::arithmetic::div_mod::{lemma_fundamental_div_mod, lemma_fundamental_div_mod_converse};

verus! {

/// The absolute value of an integer.
pub open spec fn magnitude(x: int) -> nat {
    if x < 0 {
        (-x) as nat
    } else {
        x as nat
    }
}

/// `d` divides `n`: `n` is a multiple of `d`. Zero divides only zero.
pub open spec fn divides(d: nat, n: int) -> bool {
    if d == 0 {
        n == 0
    } else {
        n % (d as int) == 0
    }
}

/// `g` is the greatest common divisor of `a` and `b`: it divides both, and
/// every common divisor of the two divides it. The greatest common divisor
/// of zero and zero is zero.
pub open spec fn is_gcd(g: nat, a: int, b: int) -> bool {
    &&& divides(g, a)
    &&& divides(g, b)
    &&& forall|d: nat| divides(d, a) && divides(d, b) ==> divides(d, g as int)
}

/// Both numbers are at least zero, or both are at most zero.
pub open spec fn agree(u: int, v: int) -> bool {
    (u >= 0 && v >= 0) || (u <= 0 && v <= 0)
}

/// One number is at least zero and the other is at most zero.
pub open spec fn oppose(u: int, v: int) -> bool {
    (u >= 0 && v <= 0) || (u <= 0 && v >= 0)
}

/// The quotient of a division that rounds toward zero, as the machine
/// division on signed integers does.
pub open spec fn truncated_quotient(a: int, b: int) -> int {
    if a >= 0 {
        a / b
    } else {
        -((-a) / b)
    }
}

/// Division of a number that is not negative by any nonzero number.
proof fn lemma_euclid_nonnegative(a: int, b: int)
    by (nonlinear_arith)
    requires
        b != 0,
        a >= 0,
    ensures
        a == b * (a / b) + a % b,
        0 <= a % b,
        a % b < b || a % b < -b,
        b * (a / b) >= 0,
{
}

/// The magnitude of a product is the product of the magnitudes.
pub proof fn lemma_magnitude_product(u: int, v: int)
    by (nonlinear_arith)
    ensures
        magnitude(u * v) == magnitude(u) * magnitude(v),
{
}

/// What rounding toward zero means: the remainder is smaller in magnitude
/// than the divisor and has the sign of the dividend, the magnitudes add up,
/// and the quotient has the sign of the exact quotient.
pub proof fn lemma_truncated_division(a: int, b: int)
    requires
        b != 0,
    ensures
        ({
            let q = truncated_quotient(a, b);
            let r = a - q * b;
            &&& magnitude(r) < magnitude(b)
            &&& a >= 0 ==> r >= 0
            &&& a <= 0 ==> r <= 0
            &&& magnitude(a) == magnitude(q) * magnitude(b) + magnitude(r)
            &&& magnitude(q * b) <= magnitude(a)
            &&& magnitude(q) <= magnitude(a)
            &&& agree(a, b) ==> q >= 0
            &&& oppose(a, b) ==> q <= 0
        }),
{
    let q = truncated_quotient(a, b);
    let r = a - q * b;
    let n = magnitude(a) as int;
    let e = n / b;
    lemma_euclid_nonnegative(n, b);
    assert(q * b == (if a >= 0 { b * e } else { -(b * e) })) by (nonlinear_arith)
        requires
            q == (if a >= 0 { e } else { -e }),
    ;
    assert(r == (if a >= 0 { n % b } else { -(n % b) }));
    lemma_magnitude_product(q, b);
    assert(magnitude(q * b) + magnitude(r) == magnitude(a));
    assert(magnitude(q) <= magnitude(q) * magnitude(b)) by (nonlinear_arith)
        requires
            magnitude(b) >= 1,
    ;
    assert((b > 0 ==> e >= 0) && (b < 0 ==> e <= 0)) by (nonlinear_arith)
        requires
            b * e >= 0,
            b != 0,
    ;
}

/// The sign of a product of two numbers that agree or oppose in sign.
pub proof fn lemma_product_sign(u: int, v: int)
    by (nonlinear_arith)
    ensures
        agree(u, v) ==> u * v >= 0,
        oppose(u, v) ==> u * v <= 0,
{
}

/// One step of the algorithm keeps a linear combination a linear
/// combination.
pub proof fn lemma_combination_step(a0: int, b0: int, x1: int, x2: int, y1: int, y2: int, q: int)
    ensures
        a0 * (x1 - q * x2) + b0 * (y1 - q * y2) == (a0 * x1 + b0 * y1) - q * (a0 * x2 + b0 * y2),
{
    assert(a0 * (x1 - q * x2) == a0 * x1 - q * (a0 * x2)) by (nonlinear_arith);
    assert(b0 * (y1 - q * y2) == b0 * y1 - q * (b0 * y2)) by (nonlinear_arith);
    assert(q * (a0 * x2 + b0 * y2) == q * (a0 * x2) + q * (b0 * y2)) by (nonlinear_arith);
}

/// One step of the algorithm keeps the weighted sum of the magnitudes of the
/// two cofactors.
pub proof fn lemma_weight_step(a: int, b: int, q: int, x1: int, x2: int)
    ensures
        b * (x1 + q * x2) + (a - q * b) * x2 == a * x2 + b * x1,
{
    assert(b * (x1 + q * x2) == b * x1 + (q * b) * x2) by (nonlinear_arith);
    assert((a - q * b) * x2 == a * x2 - (q * b) * x2) by (nonlinear_arith);
}

/// What holds between the inputs `a0`, `b0` and the state of the algorithm
/// before and after every step.
///
/// The pairs `(x1, y1)` and `(x2, y2)` write `a` and `b` as combinations of
/// the inputs. `same` says whether the inputs agree in sign: if they do, the
/// two remainders agree and successive cofactors oppose, and the other way
/// round if they do not. The magnitudes of the cofactors, weighted crosswise
/// by the magnitudes of the remainders, add up to the magnitudes of the
/// inputs.
pub open spec fn egcd_state(
    a0: int,
    b0: int,
    same: bool,
    a: int,
    b: int,
    x1: int,
    x2: int,
    y1: int,
    y2: int,
) -> bool {
    &&& a == a0 * x1 + b0 * y1
    &&& b == a0 * x2 + b0 * y2
    &&& same ==> agree(a, b) && oppose(x1, x2) && oppose(y1, y2)
    &&& !same ==> oppose(a, b) && agree(x1, x2) && agree(y1, y2)
    &&& magnitude(a) * magnitude(y2) + magnitude(b) * magnitude(y1) == magnitude(a0)
    &&& magnitude(a) * magnitude(x2) + magnitude(b) * magnitude(x1) == magnitude(b0)
}

/// The next cofactor `x1 - q * x2`, where `x1` and `q * x2` oppose in sign:
/// its magnitude is the sum of the two magnitudes, its sign relates to that
/// of `x2` as the invariant asks, and the new weighted sum is the old one.
proof fn lemma_cofactor_step(
    same: bool,
    a: int,
    b: int,
    q: int,
    x1: int,
    x2: int,
    total: nat,
)
    requires
        b != 0,
        q == truncated_quotient(a, b),
        same ==> agree(a, b) && oppose(x1, x2),
        !same ==> oppose(a, b) && agree(x1, x2),
        magnitude(a) * magnitude(x2) + magnitude(b) * magnitude(x1) == total,
    ensures
        same ==> oppose(x2, x1 - q * x2),
        !same ==> agree(x2, x1 - q * x2),
        magnitude(b) * magnitude(x1 - q * x2) + magnitude(a - q * b) * magnitude(x2) == total,
        magnitude(q * x2) <= magnitude(x1 - q * x2),
        magnitude(x1 - q * x2) <= magnitude(b) * magnitude(x1 - q * x2) <= total,
{
    lemma_truncated_division(a, b);
    lemma_product_sign(q, x2);
    lemma_magnitude_product(q, x2);
    let x3 = x1 - q * x2;
    assert(magnitude(x3) == magnitude(x1) + magnitude(q) * magnitude(x2));
    lemma_weight_step(
        magnitude(a) as int,
        magnitude(b) as int,
        magnitude(q) as int,
        magnitude(x1) as int,
        magnitude(x2) as int,
    );
    assert(magnitude(x3) <= magnitude(b) * magnitude(x3)) by (nonlinear_arith)
        requires
            magnitude(b) >= 1,
    ;
    assert(magnitude(a - q * b) * magnitude(x2) >= 0) by (nonlinear_arith);
}

/// One step of the algorithm keeps the invariant. The quotient and its
/// product with the divisor are within the dividend in magnitude, the new
/// remainder is smaller than the divisor, and each new cofactor, weighted by
/// the divisor, is within the other input.
pub proof fn lemma_egcd_step(
    a0: int,
    b0: int,
    same: bool,
    a: int,
    b: int,
    x1: int,
    x2: int,
    y1: int,
    y2: int,
)
    requires
        b != 0,
        egcd_state(a0, b0, same, a, b, x1, x2, y1, y2),
    ensures
        ({
            let q = truncated_quotient(a, b);
            &&& egcd_state(a0, b0, same, b, a - q * b, x2, x1 - q * x2, y2, y1 - q * y2)
            &&& magnitude(q) <= magnitude(a)
            &&& magnitude(q * b) <= magnitude(a)
            &&& magnitude(a - q * b) < magnitude(b)
            &&& magnitude(q * x2) <= magnitude(x1 - q * x2)
            &&& magnitude(b) * magnitude(x1 - q * x2) <= magnitude(b0)
            &&& magnitude(q * y2) <= magnitude(y1 - q * y2)
            &&& magnitude(b) * magnitude(y1 - q * y2) <= magnitude(a0)
        }),
{
    let q = truncated_quotient(a, b);
    lemma_truncated_division(a, b);
    lemma_combination_step(a0, b0, x1, x2, y1, y2, q);
    lemma_cofactor_step(same, a, b, q, x1, x2, magnitude(b0));
    lemma_cofactor_step(same, a, b, q, y1, y2, magnitude(a0));
}

/// A number whose multiple by a cofactor has the magnitude of `n` divides `n`.
pub proof fn lemma_divides_by_magnitude(g: nat, k: nat, n: int)
    requires
        g * k == magnitude(n),
    ensures
        divides(g, n),
{
    if g == 0 {
        assert(g * k == 0) by (nonlinear_arith)
            requires
                g == 0,
        ;
    } else {
        let c: int = if n < 0 {
            -(k as int)
        } else {
            k as int
        };
        assert(n == c * g + 0) by (nonlinear_arith)
            requires
                g * k == magnitude(n),
                c == (if n < 0 { -(k as int) } else { k as int }),
        ;
        lemma_fundamental_div_mod_converse(n, g as int, c, 0);
    }
}

/// A common divisor of two numbers divides every combination of them.
pub proof fn lemma_divides_combination(d: nat, a: int, b: int, x: int, y: int)
    requires
        divides(d, a),
        divides(d, b),
    ensures
        divides(d, a * x + b * y),
{
    if d == 0 {
        assert(a * x + b * y == 0) by (nonlinear_arith)
            requires
                a == 0,
                b == 0,
        ;
    } else {
        let m = d as int;
        lemma_fundamental_div_mod(a, m);
        lemma_fundamental_div_mod(b, m);
        let c = (a / m) * x + (b / m) * y;
        assert(a * x + b * y == c * m + 0) by (nonlinear_arith)
            requires
                a == m * (a / m),
                b == m * (b / m),
                c == (a / m) * x + (b / m) * y,
        ;
        lemma_fundamental_div_mod_converse(a * x + b * y, m, c, 0);
    }
}

/// A divisor of both numbers that is a combination of them is their greatest
/// common divisor.
pub proof fn lemma_combination_is_gcd(g: nat, a: int, b: int, x: int, y: int)
    requires
        divides(g, a),
        divides(g, b),
        g == a * x + b * y,
    ensures
        is_gcd(g, a, b),
{
    assert forall|d: nat| divides(d, a) && divides(d, b) implies divides(d, g as int) by {
        lemma_divides_combination(d, a, b, x, y);
    }
}

/// The greatest common divisor of two numbers is unique.
pub proof fn lemma_gcd_unique(g: nat, h: nat, a: int, b: int)
    requires
        is_gcd(g, a, b),
        is_gcd(h, a, b),
    ensures
        g == h,
{
    assert(divides(g, h as int));
    assert(divides(h, g as int));
    if g != 0 && h != 0 {
        lemma_fundamental_div_mod(h as int, g as int);
        lemma_fundamental_div_mod(g as int, h as int);
        let u = h as int / g as int;
        let v = g as int / h as int;
        assert(g == h) by (nonlinear_arith)
            requires
                h == g * u,
                g == h * v,
                g > 0,
                h > 0,
        ;
    }
}

/// Some greatest common divisor of `a` and `b`, found by Euclid's algorithm
/// on `b` and the remainder of `a`.
proof fn lemma_gcd_witness(a: int, b: int) -> (g: nat)
    ensures
        is_gcd(g, a, b),
    decreases magnitude(b),
{
    if b == 0 {
        let g = magnitude(a);
        let s: int = if a < 0 {
            -1
        } else {
            1
        };
        assert(g * 1 == magnitude(a));
        lemma_divides_by_magnitude(g, 1, a);
        assert forall|d: nat| divides(d, a) && divides(d, b) implies divides(d, g as int) by {
            lemma_divides_combination(d, a, b, s, 0);
            assert(a * s + b * 0 == g) by (nonlinear_arith)
                requires
                    b == 0,
                    g == magnitude(a),
                    s == (if a < 0 { -1int } else { 1int }),
            ;
        }
        g
    } else {
        let n = magnitude(b) as int;
        let s: int = if b < 0 {
            -1
        } else {
            1
        };
        let q = a / n;
        let r = a % n;
        lemma_fundamental_div_mod(a, n);
        let g = lemma_gcd_witness(b, r);
        assert(a == b * (s * q) + r * 1 && r == a * 1 + b * (-(s * q))) by (nonlinear_arith)
            requires
                a == n * q + r,
                n == (if b < 0 { -b } else { b }),
                s == (if b < 0 { -1int } else { 1int }),
        ;
        lemma_divides_combination(g, b, r, s * q, 1);
        assert forall|d: nat| divides(d, a) && divides(d, b) implies divides(d, g as int) by {
            lemma_divides_combination(d, a, b, 1, -(s * q));
        }
        g
    }
}

/// The greatest common divisor of two integers; that of zero and zero is
/// zero.
pub open spec fn gcd(a: int, b: int) -> nat {
    choose|g: nat| is_gcd(g, a, b)
}

/// Every two integers have a greatest common divisor, and `gcd` is it.
pub proof fn lemma_gcd_exists(a: int, b: int)
    ensures
        is_gcd(gcd(a, b), a, b),
{
    let g = lemma_gcd_witness(a, b);
}

/// A divisor of a number other than zero is not zero and not larger than the
/// number's magnitude.
pub proof fn lemma_divisor_bound(d: nat, n: int)
    requires
        divides(d, n),
        n != 0,
    ensures
        0 < d <= magnitude(n),
{
    let m = d as int;
    lemma_fundamental_div_mod(n, m);
    let k = n / m;
    assert(d <= magnitude(n)) by (nonlinear_arith)
        requires
            n == m * k,
            m == d,
            d > 0,
            n != 0,
    ;
}

/// The number lies in the range of a 128-bit signed integer.
pub open spec fn fits(v: int) -> bool {
    i128::MIN <= v <= i128::MAX
}

/// Whether the algorithm can run on `a` and `b` with 128-bit integers.
///
/// It can where neither input is the smallest 128-bit integer, whose
/// magnitude does not fit the type. Where one is, it still can if the
/// greatest common divisor is neither one nor `2^127`: the cofactors are then
/// at most `2^126` in magnitude.
pub open spec fn egcd_in_range(a: int, b: int) -> bool {
    a == i128::MIN || b == i128::MIN ==> 1 < gcd(a, b) <= i128::MAX
}

/// A cofactor whose magnitude, weighted by a remainder that the greatest
/// common divisor divides, stays within the magnitude of an input fits the
/// type, and so does its negation.
proof fn lemma_cofactor_fits(x: int, b: int, g: nat, n: int)
    requires
        b != 0,
        divides(g, b),
        magnitude(b) * magnitude(x) <= magnitude(n),
        fits(n),
        n == i128::MIN ==> 1 < g,
    ensures
        magnitude(x) <= magnitude(n),
        magnitude(x) <= i128::MAX,
{
    lemma_divisor_bound(g, b);
    assert(magnitude(x) <= magnitude(n) && (magnitude(b) >= 2 ==> 2 * magnitude(x) <= magnitude(
        n,
    ))) by (nonlinear_arith)
        requires
            magnitude(b) * magnitude(x) <= magnitude(n),
            magnitude(b) >= 1,
    ;
}

/// In one step of the algorithm on inputs in range, every number that is
/// computed fits the type, and the greatest common divisor of the inputs
/// divides the new remainder.
pub proof fn lemma_egcd_step_fits(
    a0: int,
    b0: int,
    same: bool,
    a: int,
    b: int,
    x1: int,
    x2: int,
    y1: int,
    y2: int,
)
    requires
        b != 0,
        egcd_state(a0, b0, same, a, b, x1, x2, y1, y2),
        fits(a0),
        fits(b0),
        fits(a),
        fits(b),
        egcd_in_range(a0, b0),
        divides(gcd(a0, b0), a),
        divides(gcd(a0, b0), b),
        a0 != i128::MIN && b0 != i128::MIN ==> a != i128::MIN && b != i128::MIN,
    ensures
        ({
            let q = truncated_quotient(a, b);
            &&& !(a == i128::MIN && b == -1)
            &&& fits(q)
            &&& fits(q * b)
            &&& fits(a - q * b)
            &&& a - q * b != i128::MIN
            &&& fits(q * x2)
            &&& fits(q * y2)
            &&& magnitude(x1 - q * x2) <= i128::MAX
            &&& magnitude(y1 - q * y2) <= i128::MAX
            &&& magnitude(x1 - q * x2) <= magnitude(b0)
            &&& magnitude(y1 - q * y2) <= magnitude(a0)
            &&& divides(gcd(a0, b0), a - q * b)
        }),
{
    let q = truncated_quotient(a, b);
    let g = gcd(a0, b0);
    lemma_egcd_step(a0, b0, same, a, b, x1, x2, y1, y2);
    lemma_truncated_division(a, b);
    lemma_divisor_bound(g, b);
    lemma_magnitude_product(q, b);
    assert(magnitude(b) >= 2 ==> 2 * magnitude(q) <= magnitude(a)) by (nonlinear_arith)
        requires
            magnitude(q) * magnitude(b) <= magnitude(a),
    ;
    lemma_cofactor_fits(x1 - q * x2, b, g, b0);
    lemma_cofactor_fits(y1 - q * y2, b, g, a0);
    lemma_divides_combination(g, a, b, 1, -q);
    assert(a * 1 + b * (-q) == a - q * b) by (nonlinear_arith);
}

/// The greatest common divisor of `a` and `b`, with cofactors that write it
/// as a combination of the two.
///
/// Returns `(g, x, y)` with `g = a * x + b * y`. For `a = b = 0` the result
/// is `(0, 1, 0)`. The inputs must be in range: see [`egcd_in_range`], which
/// holds whenever neither input is the smallest 128-bit integer.
pub fn egcd128b(a: i128, b: i128) -> (r: (i128, i128, i128))
    requires
        egcd_in_range(a as int, b as int),
    ensures
        r.0 == gcd(a as int, b as int),
        a * r.1 + b * r.2 == r.0,
        magnitude(r.1 as int) <= magnitude(b as int) || magnitude(r.1 as int) <= 1,
        magnitude(r.2 as int) <= magnitude(a as int) || magnitude(r.2 as int) <= 1,
{
    let ghost a0 = a as int;
    let ghost b0 = b as int;
    let ghost same = agree(a0, b0);
    let mut a = a;
    let mut b = b;
    let mut x1: i128 = 1;
    let mut x2: i128 = 0;
    let mut y1: i128 = 0;
    let mut y2: i128 = 1;
    proof {
        lemma_gcd_exists(a0, b0);
        assert(magnitude(1) == 1 && magnitude(0) == 0);
        assert(a0 * 1 + b0 * 0 == a0);
        assert(a0 * 0 + b0 * 1 == b0);
        assert(magnitude(a0) * 1 + magnitude(b0) * 0 == magnitude(a0));
        assert(magnitude(a0) * 0 + magnitude(b0) * 1 == magnitude(b0));
    }
    while b != 0
        invariant
            egcd_state(a0, b0, same, a as int, b as int, x1 as int, x2 as int, y1 as int, y2 as int),
            fits(a0),
            fits(b0),
            egcd_in_range(a0, b0),
            is_gcd(gcd(a0, b0), a0, b0),
            divides(gcd(a0, b0), a as int),
            divides(gcd(a0, b0), b as int),
            a0 != i128::MIN && b0 != i128::MIN ==> a != i128::MIN && b != i128::MIN,
            x1 != i128::MIN,
            x2 != i128::MIN,
            y1 != i128::MIN,
            y2 != i128::MIN,
            magnitude(x1 as int) <= magnitude(b0) || magnitude(x1 as int) <= 1,
            magnitude(x2 as int) <= magnitude(b0) || magnitude(x2 as int) <= 1,
            magnitude(y1 as int) <= magnitude(a0) || magnitude(y1 as int) <= 1,
            magnitude(y2 as int) <= magnitude(a0) || magnitude(y2 as int) <= 1,
        decreases magnitude(b as int),
    {
        proof {
            lemma_egcd_step(
                a0,
                b0,
                same,
                a as int,
                b as int,
                x1 as int,
                x2 as int,
                y1 as int,
                y2 as int,
            );
            lemma_egcd_step_fits(
                a0,
                b0,
                same,
                a as int,
                b as int,
                x1 as int,
                x2 as int,
                y1 as int,
                y2 as int,
            );
        }
        let q: i128 = a / b;
        assert(q == truncated_quotient(a as int, b as int));
        let next_b = a - q * b;
        let next_x = x1 - q * x2;
        let next_y = y1 - q * y2;
        a = b;
        x1 = x2;
        y1 = y2;
        b = next_b;
        x2 = next_x;
        y2 = next_y;
    }
    proof {
        let g = magnitude(a as int);
        let s: int = if a < 0 {
            -1
        } else {
            1
        };
        assert(magnitude(b as int) * magnitude(y1 as int) == 0) by (nonlinear_arith)
            requires
                b == 0,
        ;
        assert(magnitude(b as int) * magnitude(x1 as int) == 0) by (nonlinear_arith)
            requires
                b == 0,
        ;
        lemma_divides_by_magnitude(g, magnitude(y2 as int), a0);
        lemma_divides_by_magnitude(g, magnitude(x2 as int), b0);
        assert(g == a0 * (s * x1) + b0 * (s * y1)) by (nonlinear_arith)
            requires
                a == a0 * x1 + b0 * y1,
                g == (if a < 0 { -(a as int) } else { a as int }),
                s == (if a < 0 { -1int } else { 1int }),
        ;
        lemma_combination_is_gcd(g, a0, b0, s * x1, s * y1);
        lemma_gcd_unique(g, gcd(a0, b0), a0, b0);
        if a0 != 0 {
            lemma_divisor_bound(g, a0);
        } else if b0 != 0 {
            lemma_divisor_bound(g, b0);
        }
    }
    if a < 0 {
        a = -a;
        x1 = -x1;
        y1 = -y1;
    }
    (a, x1, y1)
}

} // verus!
