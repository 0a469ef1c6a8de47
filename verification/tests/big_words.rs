use crylib::big_uint::{Initialize, U256};
use num_bigint::BigUint;

fn two_to_256() -> BigUint {
    BigUint::from(1u8) << 256
}

fn samples() -> Vec<(u128, u128)> {
    vec![
        (0, 0),
        (0, 1),
        (0, 20),
        (0, u128::MAX),
        (1, 0),
        (1, 1),
        (u128::MAX, 0),
        (0x0123_4567_89AB_CDEF, 0xFEDC_BA98_7654_3210),
        (1 << 127, 1 << 127),
        (u128::MAX, u128::MAX - 1),
        (u128::MAX, u128::MAX),
    ]
}

#[test]
fn big_init() {
    let u_zero: u8 = 0;
    assert_eq!((u_zero as u128).to_u256(), (u_zero as u64).to_u256());
    assert_eq!((u_zero as u64).to_u256(), (u_zero as u32).to_u256());
    assert_eq!((u_zero as u32).to_u256(), (u_zero as u16).to_u256());
    assert_eq!((u_zero as u16).to_u256(), (u_zero).to_u256());

    assert_eq!(U256::from(u_zero), U256::from(u_zero as u16));
    assert_eq!(U256::from(u_zero as u16), U256::from(u_zero as u32));
    assert_eq!(U256::from(u_zero as u32), U256::from(u_zero as u64));
    assert_eq!(U256::from(u_zero as u64), U256::from(u_zero as u128));
    assert_ne!(U256::from(7u8), U256::from(8u8));
    assert_eq!(U256::from(7u8), U256::from(BigUint::from(7u8)));
}

#[test]
fn big_add() {
    let u_zero: u8 = 0;
    let u_one: u8 = 1;
    let u_max = u128::MAX;
    let zero_256 = U256::from(u_zero);
    let one_256 = U256::from(u_one);
    let max_rhs_256 = U256::from(u_max);
    let max_lhs_256 = (u_max, u_zero).to_u256();

    assert_ne!(zero_256, one_256);
    assert_ne!(max_rhs_256, max_lhs_256);
    assert_eq!(&max_lhs_256 + &max_rhs_256, U256::max());
    assert_eq!(&one_256 + &one_256, U256::from(2 as u8));

    assert_eq!(one_256, &one_256 + &zero_256);
    assert_eq!(one_256, &zero_256 + &one_256);
    assert_eq!(
        (&one_256 + &max_rhs_256) + &max_lhs_256,
        &one_256 + (&max_rhs_256 + &max_lhs_256)
    );
    assert_eq!(
        one_256,
        &U256::from(2 * u_one) + (&max_rhs_256 + &max_lhs_256)
    );

    assert_eq!((u_one, u_zero).to_u256(), &one_256 + &max_rhs_256);
    assert_eq!((u_max, u_max).to_u256(), &max_rhs_256 + &max_lhs_256);
    assert_eq!((u_max, u_one).to_u256(), &max_lhs_256 + &one_256);
    assert_eq!(
        zero_256,
        (max_lhs_256.clone() + max_rhs_256.clone()) + one_256.clone()
    );
    assert_eq!(
        U256::from(20 as u8),
        (u_max, u_max).to_u256() + U256::from(21 as u8)
    );
}

#[test]
fn big_sub() {
    let u_zero: u8 = 0;
    let u_one: u8 = 1;
    let zero_256 = U256::from(u_zero);
    let one_256 = U256::from(u_one);
    let max_rhs_256 = U256::from(u128::MAX);
    let max_lhs_256 = (u128::MAX, u_zero).to_u256();

    assert_eq!(one_256, &one_256 - &zero_256);
    assert_eq!(zero_256, &zero_256 - &zero_256);

    assert_eq!(&max_lhs_256 + &max_rhs_256, &zero_256 - &one_256);
    assert_eq!(max_rhs_256, (u_one, u_zero).to_u256() - &one_256);
    assert_eq!(one_256, &zero_256 - (&max_lhs_256 + &max_rhs_256));
    assert_eq!(U256::max(), -U256::from(1 as u8));
    assert_eq!(zero_256, -U256::from(1 as u8) + &one_256);
    assert_eq!(zero_256, -&max_rhs_256 + max_rhs_256);
}

#[test]
fn big_negation_of_zero_is_zero() {
    assert_eq!(-U256::zero(), U256::zero());
    assert_eq!(-&U256::zero(), U256::zero());
    assert_eq!(-(-U256::from(5u8)), U256::from(5u8));
}

#[test]
fn big_from_an_integer_reduces_modulo_two_to_256() {
    assert_eq!(U256::from(two_to_256()), U256::zero());
    assert_eq!(U256::from(two_to_256() + 20u8), U256::from(20u8));
    assert_eq!(U256::from(two_to_256() - 1u8), U256::max());
    assert_eq!(
        U256::from((two_to_256() << 3) + (BigUint::from(9u8) << 128)),
        (9u8, 0u8).to_u256()
    );
}

#[test]
fn big_pair_puts_the_first_integer_on_top() {
    assert_eq!(
        (1u8, 2u8).to_u256(),
        U256::from((BigUint::from(1u8) << 128) + 2u8)
    );
    assert_eq!(
        (0x0102u16, 0x0304_0506u32).to_u256(),
        U256::from((BigUint::from(0x0102u16) << 128) + 0x0304_0506u32)
    );
    for (hi, lo) in samples() {
        assert_eq!(
            (hi, lo).to_u256(),
            U256::from((BigUint::from(hi) << 128) + lo)
        );
    }
    assert_ne!((1u8, 2u8).to_u256(), (2u8, 1u8).to_u256());
}

#[test]
fn big_constants() {
    assert_eq!(U256::max(), U256::from(two_to_256() - 1u8));
    assert_eq!(U256::max(), (u128::MAX, u128::MAX).to_u256());
    assert_eq!(U256::zero(), U256::from(0u8));
    assert_ne!(U256::max(), U256::zero());
}

#[test]
fn big_clone_and_equality() {
    let a = (3u8, 4u8).to_u256();
    let b = a.clone();
    assert_eq!(a, b);
    assert_ne!(a, (3u8, 5u8).to_u256());
    assert_ne!(a, (4u8, 4u8).to_u256());
}

#[test]
fn big_text() {
    assert_eq!(U256::zero().to_string(), "0x0");
    assert_eq!(U256::from(0xABCu16).to_string(), "0xabc");
    assert_eq!(U256::from(16u8).to_string(), "0x10");
    assert_eq!(
        (1u8, 0u8).to_u256().to_string(),
        "0x100000000000000000000000000000000"
    );
    assert_eq!(
        U256::max().to_string(),
        "0xffffffffffffffffffffffffffffffffffffffffffffffffffffffffffffffff"
    );
}

#[test]
fn the_two_kinds_of_word_agree() {
    let limbs = |p: (u128, u128)| {
        let w = crylib::Initialize::to_u256(p);
        (w.higher, w.lower)
    };
    let as_big = |p: (u128, u128)| p.to_u256();
    let from_limbs = |w: crylib::U256| (w.higher, w.lower).to_u256();
    for a in samples() {
        assert_eq!(limbs(a), a);
        let x = crylib::Initialize::to_u256(a);
        assert_eq!(from_limbs(-x), -as_big(a));
        for b in samples() {
            let y = crylib::Initialize::to_u256(b);
            assert_eq!(from_limbs(x + y), as_big(a) + as_big(b));
            assert_eq!(from_limbs(x - y), as_big(a) - as_big(b));
        }
    }
}
