use eigenlayer_compute::{ArithmeticError, U256};

const MAX: U256 = U256([u64::MAX, u64::MAX, u64::MAX, u64::MAX]);

fn u(value: u64) -> U256 {
    U256::from(value)
}

#[test]
fn from_puts_the_value_in_the_low_limb() {
    assert_eq!(U256::from(7).0, [7, 0, 0, 0]);
    assert_eq!(U256::from(u64::MAX).0, [u64::MAX, 0, 0, 0]);
}

#[test]
fn zero_is_zero() {
    assert!(U256::zero().is_zero());
    assert!(u(0).is_zero());
    assert!(!u(1).is_zero());
    assert!(!U256([0, 0, 0, 1]).is_zero());
    assert!(!U256([0, 1, 0, 0]).is_zero());
}

#[test]
fn as_u64_gives_the_low_64_bits() {
    assert_eq!(u(123).as_u64(), 123);
    assert_eq!(U256([5, 9, 9, 9]).as_u64(), 5);
}

#[test]
fn add_small_values() {
    assert_eq!(u(2).add(u(3)), Ok(u(5)));
}

#[test]
fn add_carries_across_limbs() {
    assert_eq!(u(u64::MAX).add(u(1)), Ok(U256([0, 1, 0, 0])));
    assert_eq!(
        U256([u64::MAX, u64::MAX, u64::MAX, 0]).add(u(1)),
        Ok(U256([0, 0, 0, 1]))
    );
}

#[test]
fn add_beyond_the_range_is_an_overflow() {
    assert_eq!(MAX.add(u(1)), Err(ArithmeticError::ArithmeticOverflow));
    assert_eq!(MAX.add(MAX), Err(ArithmeticError::ArithmeticOverflow));
    assert_eq!(MAX.add(u(0)), Ok(MAX));
}

#[test]
fn add_then_sub_gives_the_first_value_back() {
    let a = U256([u64::MAX, 17, 0, 3]);
    let b = U256([1, u64::MAX, 5, 0]);
    let sum = a.add(b).unwrap();
    assert_eq!(sum.sub(b), a);
    assert_eq!(sum.sub(a), b);
}

#[test]
fn overflowing_add_wraps_and_flags() {
    assert_eq!(MAX.overflowing_add(u(2)), (u(1), true));
    assert_eq!(u(1).overflowing_add(u(2)), (u(3), false));
    assert_eq!(MAX.carrying_add(u(0), true), (u(0), true));
}

#[test]
fn sub_saturates_at_zero() {
    assert_eq!(u(5).sub(u(7)), u(0));
    assert_eq!(u(7).sub(u(5)), u(2));
    assert_eq!(u(5).sub(u(5)), u(0));
    assert_eq!(u(0).sub(MAX), u(0));
}

#[test]
fn sub_borrows_across_limbs() {
    assert_eq!(U256([0, 1, 0, 0]).sub(u(1)), u(u64::MAX));
    assert_eq!(
        U256([0, 0, 0, 1]).sub(u(1)),
        U256([u64::MAX, u64::MAX, u64::MAX, 0])
    );
}

#[test]
fn overflowing_sub_wraps_and_flags() {
    assert_eq!(u(0).overflowing_sub(u(1)), (MAX, true));
    assert_eq!(u(3).overflowing_sub(u(1)), (u(2), false));
}

#[test]
fn mul_small_values() {
    assert_eq!(u(6).mul(u(7)), Ok(u(42)));
    assert_eq!(u(0).mul(MAX), Ok(u(0)));
    assert_eq!(MAX.mul(u(1)), Ok(MAX));
}

#[test]
fn mul_fills_the_upper_limbs() {
    assert_eq!(
        u(u64::MAX).mul(u(u64::MAX)),
        Ok(U256([1, 0xffff_ffff_ffff_fffe, 0, 0]))
    );
    let two_pow_128 = U256([0, 0, 1, 0]);
    let below = U256([u64::MAX, u64::MAX, 0, 0]);
    assert_eq!(two_pow_128.mul(below), Ok(U256([0, 0, u64::MAX, u64::MAX])));
    assert_eq!(below.mul(two_pow_128), Ok(U256([0, 0, u64::MAX, u64::MAX])));
    assert_eq!(
        U256([3, 0, 0, 0]).mul(U256([0, 5, 0, 7])),
        Ok(U256([0, 15, 0, 21]))
    );
}

#[test]
fn mul_beyond_the_range_is_an_overflow() {
    let two_pow_128 = U256([0, 0, 1, 0]);
    assert_eq!(two_pow_128.mul(two_pow_128), Err(ArithmeticError::ArithmeticOverflow));
    let two_pow_255 = U256([0, 0, 0, 1 << 63]);
    assert_eq!(two_pow_255.mul(u(2)), Err(ArithmeticError::ArithmeticOverflow));
    assert_eq!(u(2).mul(two_pow_255), Err(ArithmeticError::ArithmeticOverflow));
    assert_eq!(MAX.mul(MAX), Err(ArithmeticError::ArithmeticOverflow));
    assert_eq!(U256([0, 0, 0, 1]).mul(U256([0, 1, 0, 0])), Err(ArithmeticError::ArithmeticOverflow));
}

#[test]
fn widening_mul_limb_keeps_the_high_limb() {
    assert_eq!(MAX.widening_mul_limb(2), (U256([u64::MAX - 1, u64::MAX, u64::MAX, u64::MAX]), 1));
    assert_eq!(u(10).widening_mul_limb(10), (u(100), 0));
}

#[test]
fn div_small_values() {
    assert_eq!(u(100).div(u(7)), Ok(u(14)));
    assert_eq!(u(7).div(u(100)), Ok(u(0)));
    assert_eq!(u(0).div(u(5)), Ok(u(0)));
}

#[test]
fn div_by_zero_is_a_fault() {
    assert_eq!(u(1).div(u(0)), Err(ArithmeticError::DivisionByZero));
    assert_eq!(u(0).div(u(0)), Err(ArithmeticError::DivisionByZero));
    assert_eq!(MAX.div(U256::zero()), Err(ArithmeticError::DivisionByZero));
}

#[test]
fn div_of_large_values() {
    // (2^128 + 1) * (2^128 - 1) = 2^256 - 1
    assert_eq!(MAX.div(U256([1, 0, 1, 0])), Ok(U256([u64::MAX, u64::MAX, 0, 0])));
    assert_eq!(MAX.div(U256([u64::MAX, u64::MAX, 0, 0])), Ok(U256([1, 0, 1, 0])));
    assert_eq!(MAX.div(MAX), Ok(u(1)));
    assert_eq!(MAX.div(u(1)), Ok(MAX));
    let third = 0x5555_5555_5555_5555u64;
    assert_eq!(MAX.div(u(3)), Ok(U256([third, third, third, third])));
    // 2^200 / 2^100 = 2^100
    assert_eq!(U256([0, 0, 0, 1 << 8]).div(U256([0, 1 << 36, 0, 0])), Ok(U256([0, 1 << 36, 0, 0])));
    // (2^192 + 5) / 2^192 = 1
    assert_eq!(U256([5, 0, 0, 1]).div(U256([0, 0, 0, 1])), Ok(u(1)));
    assert_eq!(U256([5, 0, 0, 1]).div(U256([6, 0, 0, 1])), Ok(u(0)));
}

#[test]
fn div_undoes_mul() {
    let a = U256([0x1234_5678_9abc_def0, 0x0fed_cba9_8765_4321, 0, 0]);
    let b = U256([0xdead_beef, 0x42, 0, 0]);
    let product = a.mul(b).unwrap();
    assert_eq!(product.div(b), Ok(a));
    assert_eq!(product.div(a), Ok(b));
    assert_eq!(product.add(u(1)).unwrap().div(b), Ok(a));
}

#[test]
fn halve_and_is_odd() {
    assert_eq!(u(7).halve(), u(3));
    assert!(u(7).is_odd());
    assert!(!u(8).is_odd());
    assert_eq!(U256([0, 1, 0, 0]).halve(), u(1 << 63));
    assert_eq!(MAX.halve(), U256([u64::MAX, u64::MAX, u64::MAX, u64::MAX >> 1]));
}

#[test]
fn order_is_that_of_the_numbers() {
    assert!(u(1) < u(2));
    assert!(u(2) > u(1));
    assert!(u(2) <= u(2));
    assert!(u(2) >= u(2));
    assert!(U256([u64::MAX, 0, 0, 0]) < U256([0, 1, 0, 0]));
    assert!(U256([0, 0, 0, 1]) > U256([u64::MAX, u64::MAX, u64::MAX, 0]));
    assert!(U256([5, 0, 7, 0]) < U256([4, 1, 7, 0]));
    assert!(!(u(3) < u(3)));
    assert_eq!(u(3).partial_cmp(&u(4)), Some(std::cmp::Ordering::Less));
    assert_eq!(u(4).partial_cmp(&u(4)), Some(std::cmp::Ordering::Equal));
    assert_eq!(MAX.partial_cmp(&u(4)), Some(std::cmp::Ordering::Greater));
}

#[test]
fn equality_is_that_of_the_numbers() {
    assert!(u(3) == U256([3, 0, 0, 0]));
    assert!(u(3) != U256([3, 0, 0, 1]));
    assert!(u(3) != U256([3, 1, 0, 0]));
    assert!(u(3) != u(4));
}

#[test]
fn from_be_bytes_reads_the_most_significant_byte_first() {
    let mut bytes = [0u8; 32];
    bytes[31] = 1;
    assert_eq!(U256::from_be_bytes(bytes), u(1));
    bytes[0] = 0x80;
    assert_eq!(U256::from_be_bytes(bytes), U256([1, 0, 0, 1 << 63]));
    let mut counting = [0u8; 32];
    for (i, byte) in counting.iter_mut().enumerate() {
        *byte = i as u8;
    }
    assert_eq!(
        U256::from_be_bytes(counting),
        U256([
            0x1819_1a1b_1c1d_1e1f,
            0x1011_1213_1415_1617,
            0x0809_0a0b_0c0d_0e0f,
            0x0001_0203_0405_0607,
        ])
    );
    assert_eq!(U256::from_be_bytes([0xff; 32]), MAX);
}
