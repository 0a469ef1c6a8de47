use crylib::{Initialize, U256};

const A_HI: u128 = 0x0123_4567_89AB_CDEF_0011_2233_4455_6677;
const A_LO: u128 = 0x8899_AABB_CCDD_EEFF_FEDC_BA98_7654_3210;

#[test]
fn shift_by_zero_is_the_identity() {
    let a = (A_HI, A_LO).to_u256();
    assert_eq!(a << 0, a);
    assert_eq!(a >> 0, a);
    assert_eq!(U256::max() << 0, U256::max());
    assert_eq!(U256::max() >> 0, U256::max());
}

#[test]
fn shift_left_inside_a_limb() {
    let a = (A_HI, A_LO).to_u256();
    assert_eq!(
        a << 4,
        (
            0x1234_5678_9ABC_DEF0_0112_2334_4556_6778u128,
            0x899A_ABBC_CDDE_EFFF_EDCB_A987_6543_2100u128
        )
            .to_u256()
    );
    assert_eq!(U256::from(1u8) << 1, U256::from(2u8));
    assert_eq!(U256::from(1u8) << 127, U256::from(1u128 << 127));
    assert_eq!(U256::from(u128::MAX) << 127, (u128::MAX >> 1, 1u128 << 127).to_u256());
}

#[test]
fn shift_left_across_the_limb_boundary() {
    let a = (A_HI, A_LO).to_u256();
    assert_eq!(a << 128, (A_LO, 0u8).to_u256());
    assert_eq!(a << 132, (A_LO << 4, 0u8).to_u256());
    assert_eq!(U256::from(1u8) << 128, (1u8, 0u8).to_u256());
    assert_eq!(U256::from(1u8) << 255, (1u128 << 127, 0u8).to_u256());
    assert_eq!(U256::from(3u8) << 255, (1u128 << 127, 0u8).to_u256());
    assert_eq!(U256::from(2u8) << 255, U256::zero());
}

#[test]
fn shift_right_inside_a_limb() {
    let a = (A_HI, A_LO).to_u256();
    assert_eq!(
        a >> 4,
        (
            0x0012_3456_789A_BCDE_F001_1223_3445_5667u128,
            0x7889_9AAB_BCCD_DEEF_FFED_CBA9_8765_4321u128
        )
            .to_u256()
    );
    assert_eq!(U256::from(2u8) >> 1, U256::from(1u8));
    assert_eq!(U256::from(1u8) >> 1, U256::zero());
    assert_eq!((1u8, 0u8).to_u256() >> 1, U256::from(1u128 << 127));
    assert_eq!(U256::max() >> 127, (0u8, u128::MAX).to_u256() + ((1u8, 0u8).to_u256()));
}

#[test]
fn shift_right_across_the_limb_boundary() {
    let a = (A_HI, A_LO).to_u256();
    assert_eq!(a >> 128, U256::from(A_HI));
    assert_eq!(a >> 132, U256::from(A_HI >> 4));
    assert_eq!(U256::max() >> 255, U256::from(1u8));
    assert_eq!((1u128 << 127, 0u8).to_u256() >> 255, U256::from(1u8));
    assert_eq!((u128::MAX >> 1, u128::MAX).to_u256() >> 255, U256::zero());
}

#[test]
fn shift_left_then_right_keeps_the_low_bits() {
    let a = (A_HI, A_LO).to_u256();
    for n in 0..=255u8 {
        let kept = (a << n) >> n;
        // the low 256 - n bits of a
        let expected = if n == 0 {
            a
        } else if n < 128 {
            (A_HI & (u128::MAX >> n), A_LO).to_u256()
        } else if n == 128 {
            U256::from(A_LO)
        } else {
            U256::from(A_LO & (u128::MAX >> (n - 128)))
        };
        assert_eq!(kept, expected, "n = {}", n);
    }
}

#[test]
fn shift_left_doubles() {
    let mut power = U256::from(1u8);
    for n in 0..=255u8 {
        assert_eq!(U256::from(1u8) << n, power, "n = {}", n);
        power = power + power;
    }
    assert_eq!(power, U256::zero());
}
