use crylib::egcd128b;

fn gcd(a: u128, b: u128) -> u128 {
    if b == 0 {
        a
    } else {
        gcd(b, a % b)
    }
}

#[test]
fn exact_results() {
    assert_eq!(egcd128b(240, 46), (2, -9, 47));
    assert_eq!(egcd128b(12, 18), (6, -1, 1));
    assert_eq!(egcd128b(-12, 18), (6, 1, 1));
    assert_eq!(egcd128b(12, -18), (6, -1, -1));
    assert_eq!(egcd128b(-12, -18), (6, 1, -1));
    assert_eq!(egcd128b(17, 5), (1, -2, 7));
    assert_eq!(egcd128b(1, 1), (1, 0, 1));
}

#[test]
fn zero_inputs() {
    assert_eq!(egcd128b(0, 0), (0, 1, 0));
    assert_eq!(egcd128b(5, 0), (5, 1, 0));
    assert_eq!(egcd128b(-5, 0), (5, -1, 0));
    assert_eq!(egcd128b(0, 7), (7, 0, 1));
    assert_eq!(egcd128b(0, -7), (7, 0, -1));
}

#[test]
fn largest_magnitudes() {
    assert_eq!(egcd128b(i128::MAX, i128::MAX), (i128::MAX, 0, 1));
    assert_eq!(egcd128b(i128::MAX, 0), (i128::MAX, 1, 0));
    assert_eq!(egcd128b(-i128::MAX, 0), (i128::MAX, -1, 0));
    assert_eq!(egcd128b(i128::MAX, 1), (1, 0, 1));
    let (g, x, y) = egcd128b(i128::MAX, i128::MAX - 1);
    assert_eq!((g, x, y), (1, 1, -1));
    let (g, x, y) = egcd128b(-i128::MAX, i128::MAX - 2);
    assert_eq!(g, 1);
    assert_eq!(
        (-i128::MAX).wrapping_mul(x).wrapping_add((i128::MAX - 2).wrapping_mul(y)),
        1
    );
}

#[test]
fn combination_and_divisor_on_a_grid() {
    for a in -60i128..=60 {
        for b in -60i128..=60 {
            let (g, x, y) = egcd128b(a, b);
            assert!(g >= 0);
            assert_eq!(a * x + b * y, g, "a = {}, b = {}", a, b);
            assert_eq!(g as u128, gcd(a.unsigned_abs(), b.unsigned_abs()));
            assert!(x.unsigned_abs() <= b.unsigned_abs().max(1));
            assert!(y.unsigned_abs() <= a.unsigned_abs().max(1));
        }
    }
}

#[test]
fn combination_on_large_inputs() {
    let samples: [i128; 8] = [
        i128::MAX,
        -i128::MAX,
        i128::MAX - 1,
        0x0123_4567_89AB_CDEF_0123_4567_89AB_CDEF,
        -0x0FED_CBA9_8765_4321_0FED_CBA9_8765_4321,
        1 << 126,
        -(1 << 126),
        3 * (1 << 100),
    ];
    for &a in samples.iter() {
        for &b in samples.iter() {
            let (g, x, y) = egcd128b(a, b);
            assert_eq!(g as u128, gcd(a.unsigned_abs(), b.unsigned_abs()));
            assert_eq!(a.wrapping_mul(x).wrapping_add(b.wrapping_mul(y)), g);
            assert_eq!(a % g, 0);
            assert_eq!(b % g, 0);
        }
    }
}

#[test]
fn smallest_integer_with_an_even_partner() {
    assert_eq!(egcd128b(i128::MIN, 2), (2, 0, 1));
    assert_eq!(egcd128b(2, i128::MIN), (2, 1, 0));
    assert_eq!(egcd128b(i128::MIN, -2), (2, 0, -1));
    let partners: [i128; 6] = [6, -6, 1 << 126, -(1 << 126), 3 << 100, i128::MAX - 1];
    for &b in partners.iter() {
        for (a, b) in [(i128::MIN, b), (b, i128::MIN)] {
            let (g, x, y) = egcd128b(a, b);
            assert_eq!(g as u128, gcd(a.unsigned_abs(), b.unsigned_abs()));
            assert!(g > 1);
            assert_eq!(a.wrapping_mul(x).wrapping_add(b.wrapping_mul(y)), g);
            assert!(x.unsigned_abs() <= 1 << 126);
            assert!(y.unsigned_abs() <= 1 << 126);
        }
    }
}
