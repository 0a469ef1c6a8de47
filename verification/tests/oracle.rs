use crylib::{mul_karatsuba_u128, mul_safe_karatsuba_u128, mul_u128, Initialize, U256};
use num_bigint::BigUint;

fn value(w: U256) -> BigUint {
    (BigUint::from(w.higher) << 128) + w.lower
}

fn modulus() -> BigUint {
    BigUint::from(1u8) << 256
}

fn samples() -> Vec<U256> {
    let limbs: [u128; 10] = [
        0,
        1,
        0xFFFF_FFFF_FFFF_FFFF,
        1 << 64,
        (1 << 65) - 1,
        0x0123_4567_89AB_CDEF_FEDC_BA98_7654_3210,
        0x8000_0000_0000_0000_0000_0000_0000_0001,
        (1 << 127) - 1,
        u128::MAX - 1,
        u128::MAX,
    ];
    let mut words = Vec::new();
    for &hi in limbs.iter() {
        for &lo in limbs.iter() {
            words.push((hi, lo).to_u256());
        }
    }
    words
}

#[test]
fn limb_products_against_the_oracle() {
    for a in samples() {
        for b in samples() {
            let exact = BigUint::from(a.lower) * BigUint::from(b.higher);
            assert_eq!(value(mul_karatsuba_u128(a.lower, b.higher)), exact);
            assert_eq!(value(mul_u128(a.lower, b.higher)), exact);
        }
    }
}

#[test]
fn one_level_product_against_the_oracle() {
    let halves: [u128; 6] = [
        0,
        1,
        0x1234_5678_9ABC_DEF0,
        1 << 63,
        0xFFFF_FFFF_FFFF_FFFE,
        0xFFFF_FFFF_FFFF_FFFF,
    ];
    for &p in halves.iter() {
        for &q in halves.iter() {
            for &r in halves.iter() {
                for &s in halves.iter() {
                    let x = p + q;
                    let y = r + s;
                    assert_eq!(
                        value(mul_safe_karatsuba_u128(x, y)),
                        BigUint::from(x) * BigUint::from(y)
                    );
                }
            }
        }
    }
}

#[test]
fn arithmetic_against_the_oracle() {
    let m = modulus();
    for a in samples() {
        assert_eq!(value(-a), (&m - value(a)) % &m);
        for b in samples() {
            assert_eq!(value(a + b), (value(a) + value(b)) % &m);
            assert_eq!(value(a - b), (&m + value(a) - value(b)) % &m);
            assert_eq!(value(a * b), (value(a) * value(b)) % &m);
            assert_eq!(a < b, value(a) < value(b));
        }
    }
}

#[test]
fn shifts_against_the_oracle() {
    let m = modulus();
    for a in samples() {
        for n in 0..=255u8 {
            assert_eq!(value(a << n), (value(a) << n) % &m);
            assert_eq!(value(a >> n), value(a) >> n);
        }
    }
}
