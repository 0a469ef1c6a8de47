use crylib::{Initialize, U256};
use std::time::Instant;

#[test]
fn lib_test_u256_init() {
    let u_zero: u8 = 0;
    assert_eq!((u_zero as u128).to_u256(), (u_zero as u64).to_u256());
    assert_eq!((u_zero as u64).to_u256(), (u_zero as u32).to_u256());
    assert_eq!((u_zero as u32).to_u256(), (u_zero as u16).to_u256());
    assert_eq!((u_zero as u16).to_u256(), (u_zero).to_u256());

    assert_eq!(U256::from(u_zero), U256::from(u_zero as u16));
    assert_eq!(U256::from(u_zero as u16), U256::from(u_zero as u32));
    assert_eq!(U256::from(u_zero as u32), U256::from(u_zero as u64));
    assert_eq!(U256::from(u_zero as u64), U256::from(u_zero as u128));
}

#[test]
fn lib_test_u256_add() {
    let u_zero: u8 = 0;
    let u_one: u8 = 1;
    let zero_256 = U256::from(u_zero);
    let one_256 = U256::from(u_one);
    let u_max = u128::MAX;
    let max_rhs_256 = U256::from(u_max);
    let max_lhs_256 = (u_max, u_zero).to_u256();

    // sanity check
    assert_ne!(zero_256, one_256);
    assert_ne!(max_rhs_256, max_lhs_256);
    assert_eq!(U256::from(2 as u8), one_256 + one_256);

    // abelian group properties: associative, identity, inverse, commutative
    assert_eq!(one_256, one_256 + zero_256);
    assert_eq!(one_256, zero_256 + one_256);
    assert_eq!(
        (one_256 + max_rhs_256) + max_lhs_256,
        one_256 + (max_rhs_256 + max_lhs_256)
    );
    assert_eq!(one_256, U256::from(2 * u_one) + max_rhs_256 + max_lhs_256);

    // modularity, edge cases, closure
    assert_eq!((u_one, u_zero).to_u256(), one_256 + max_rhs_256);
    assert_eq!((u_max, u_max).to_u256(), max_rhs_256 + max_lhs_256);
    assert_eq!((u_max, u_one).to_u256(), max_lhs_256 + one_256);
    assert_eq!(zero_256, (max_lhs_256 + max_rhs_256) + one_256);
    assert_eq!(
        U256::from(20 as u8),
        (u_max, u_max).to_u256() + U256::from(21 as u8)
    );
}

#[test]
fn lib_test_u256_sub() {
    let u_zero: u8 = 0;
    let u_one: u8 = 1;
    let zero_256 = U256::from(u_zero);
    let one_256 = U256::from(u_one);
    let max_rhs_256 = U256::from(u128::MAX);
    let max_lhs_256 = (u128::MAX, u_zero).to_u256();

    // rhs neutral element
    assert_eq!(one_256, one_256 - zero_256);
    assert_eq!(zero_256, zero_256 - zero_256);

    // modularity, edge cases, closure
    assert_eq!(max_lhs_256 + max_rhs_256, zero_256 - one_256);
    assert_eq!(max_rhs_256, (u_one, u_zero).to_u256() - one_256);
    assert_eq!(one_256, zero_256 - (max_lhs_256 + max_rhs_256));
    assert_eq!((max_lhs_256 + max_rhs_256), -U256::from(1 as u8));
    assert_eq!(zero_256, -U256::from(1 as u8) + one_256);
    assert_eq!(zero_256, -max_rhs_256 + max_rhs_256);
}

#[test]
fn time_it() {
    let start = Instant::now();
    let base: i128 = 2;
    let runs = u64::pow(base as u64, 34) - 1;
    let res = U256::from(0 as u8);
    let x = U256::from(4 as u8);
    assert_eq!(runs, 17179869183);
    assert_eq!(res + x, x);

    let _end = Instant::now();
    let duration = start.elapsed();
    println!("Time elapsed: {:?}", duration);
}

#[test]
fn mod_test_u256_init() {
    let u_zero: u8 = 0;
    assert_eq!((u_zero as u128).to_u256(), (u_zero as u64).to_u256());
    assert_eq!((u_zero as u64).to_u256(), (u_zero as u32).to_u256());
    assert_eq!((u_zero as u32).to_u256(), (u_zero as u16).to_u256());
    assert_eq!((u_zero as u16).to_u256(), (u_zero).to_u256());

    assert_eq!(U256::from(u_zero), U256::from(u_zero as u16));
    assert_eq!(U256::from(u_zero as u16), U256::from(u_zero as u32));
    assert_eq!(U256::from(u_zero as u32), U256::from(u_zero as u64));
    assert_eq!(U256::from(u_zero as u64), U256::from(u_zero as u128));
}

#[test]
fn mod_test_u256_add() {
    let u_zero: u8 = 0;
    let u_one: u8 = 1;
    let u_max = u128::MAX;
    let zero_256 = U256::from(u_zero);
    let one_256 = U256::from(u_one);
    let max_rhs_256 = U256::from(u_max);
    let max_lhs_256 = (u_max, u_zero).to_u256();

    // sanity check
    assert_ne!(zero_256, one_256);
    assert_ne!(max_rhs_256, max_lhs_256);
    assert_eq!(&max_lhs_256 + &max_rhs_256, U256::max());
    assert_eq!(&one_256 + &one_256, U256::from(2 as u8));

    // abelian group properties: associative, identity, inverse, commutative
    assert_eq!(one_256, &one_256 + &zero_256);
    assert_eq!(one_256, &zero_256 + &one_256);
    assert_eq!(
        (&one_256 + &max_rhs_256) + &max_lhs_256,
        &one_256 + (&max_rhs_256 + &max_lhs_256)
    );
    assert_eq!(
        one_256,
        &U256::from(2 * u_one) + (&max_rhs_256 + &max_lhs_256)
    );

    // modularity, edge cases, closure
    assert_eq!((u_one, u_zero).to_u256(), &one_256 + &max_rhs_256);
    assert_eq!((u_max, u_max).to_u256(), &max_rhs_256 + &max_lhs_256);
    assert_eq!((u_max, u_one).to_u256(), &max_lhs_256 + &one_256);
    assert_eq!(zero_256, (max_lhs_256 + max_rhs_256) + one_256);
    assert_eq!(
        U256::from(20 as u8),
        (u_max, u_max).to_u256() + U256::from(21 as u8)
    );
}

#[test]
fn mod_test_u256_sub() {
    let u_zero: u8 = 0;
    let u_one: u8 = 1;
    let zero_256 = U256::from(u_zero);
    let one_256 = U256::from(u_one);
    let max_rhs_256 = U256::from(u128::MAX);
    let max_lhs_256 = (u128::MAX, u_zero).to_u256();

    // rhs neutral element
    assert_eq!(one_256, &one_256 - &zero_256);
    assert_eq!(zero_256, &zero_256 - &zero_256);

    // modularity, edge cases, closure
    assert_eq!(&max_lhs_256 + &max_rhs_256, &zero_256 - &one_256);
    assert_eq!(max_rhs_256, (u_one, u_zero).to_u256() - &one_256);
    assert_eq!(one_256, &zero_256 - (&max_lhs_256 + &max_rhs_256));
    assert_eq!(U256::max(), -U256::from(1 as u8));
    assert_eq!(zero_256, -U256::from(1 as u8) + &one_256);
    assert_eq!(zero_256, -&max_rhs_256 + max_rhs_256);
}

#[test]
#[allow(non_snake_case)]
fn test_u256_MUL() {
    let zero_256 = U256::from(0u8);
    let one_256 = U256::from(1u8);

    // sanity checks
    assert_ne!(one_256 * one_256, zero_256 * zero_256);
    assert_eq!(zero_256, one_256 * zero_256);
    assert_eq!(zero_256, zero_256 * zero_256);
    // associativity
    assert_eq!(
        (U256::from(2u8) * U256::from(3u8)) * U256::from(4u8),
        U256::from(2u8) * (U256::from(3u8) * U256::from(4u8))
    );

    // identity
    let t_1 = (123456789u32, 987654321u32).to_u256();
    assert_eq!(t_1, t_1 * one_256);
    assert_eq!(t_1, one_256 * t_1);
}
