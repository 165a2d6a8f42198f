use liquidity_pool::error::PoolError;
use liquidity_pool::pricing::{
    calculate_equivalent_and_minted_tokens, calculate_reclaim_output, calculate_swap_to_amount,
    initial_liquidity_tokens, u128_division_ceil, u128_sqrt,
};

#[test]
pub fn test_u128_division_ceil() {
    // Division by 0 cases is guarded against by u128 type and the source code

    let div1 = u128_division_ceil(10, 2);
    let div2 = u128_division_ceil(999, 66);
    let div3 = u128_division_ceil(15, 4);

    assert_eq!(div1, Ok(5));
    assert_eq!(div2, Ok(16));
    assert_eq!(div3, Ok(4));
    assert_eq!(u128_division_ceil(15, 0), Err("Division by zero"));
}

#[test]
pub fn test_u128_division_ceil_2() {
    let a: u128 = 0xDEADBEEF;
    let b: u128 = 0xC0FFEE;
    let k: u128 = a * b;
    assert_eq!(u128_division_ceil(k, a), Ok(b));
    assert_eq!(u128_division_ceil(k, b), Ok(a));
}

#[test]
fn division_ceil_at_the_top_of_the_range() {
    assert_eq!(u128_division_ceil(u128::MAX, 1), Ok(u128::MAX));
    assert_eq!(u128_division_ceil(u128::MAX, 2), Ok(u128::MAX / 2 + 1));
    assert_eq!(u128_division_ceil(0, 7), Ok(0));
}

#[test]
fn square_roots_round_down() {
    assert_eq!(u128_sqrt(0), 0);
    assert_eq!(u128_sqrt(1), 1);
    assert_eq!(u128_sqrt(15), 3);
    assert_eq!(u128_sqrt(16), 4);
    assert_eq!(u128_sqrt(17), 4);
    assert_eq!(u128_sqrt(4_000_000), 2000);
    assert_eq!(u128_sqrt(u128::MAX), u64::MAX as u128);
}

#[test]
fn initial_liquidity_of_1000_and_4000_is_2000() {
    assert_eq!(initial_liquidity_tokens(1000, 4000), Ok(2000));
}

#[test]
fn initial_liquidity_rounds_down_and_can_be_zero() {
    assert_eq!(initial_liquidity_tokens(2, 5), Ok(3));
    assert_eq!(initial_liquidity_tokens(0, 5000), Ok(0));
}

#[test]
fn initial_liquidity_overflow() {
    assert_eq!(initial_liquidity_tokens(u128::MAX, 2), Err(PoolError::Overflow));
}

#[test]
fn swap_of_100_against_balanced_pool_with_fee_3_gives_90() {
    assert_eq!(calculate_swap_to_amount(1000, 1000, 100, 3), Ok(90));
}

#[test]
fn swap_without_fee() {
    // 1000 * 100 * 1000 / (1000 * 1000 + 1000 * 100) = 100000000 / 1100000 = 90
    assert_eq!(calculate_swap_to_amount(1000, 1000, 100, 0), Ok(90));
    // 1000 * 1000 * 2000 / (1000 * 1000 + 1000 * 1000) = 1000
    assert_eq!(calculate_swap_to_amount(1000, 2000, 1000, 0), Ok(1000));
}

#[test]
fn full_fee_yields_nothing() {
    assert_eq!(calculate_swap_to_amount(1000, 1000, 100, 1000), Ok(0));
    assert_eq!(calculate_swap_to_amount(1, 5_000_000, 4_000_000, 1000), Ok(0));
}

#[test]
fn swap_overflow() {
    assert_eq!(calculate_swap_to_amount(1000, u128::MAX, 100, 3), Err(PoolError::Overflow));
    assert_eq!(calculate_swap_to_amount(u128::MAX, 10, 1, 3), Err(PoolError::Overflow));
}

#[test]
fn equivalent_and_minted_tokens() {
    // 100 * 2000 / 1000 + 1 = 201, and 100 * 500 / 1000 = 50
    assert_eq!(calculate_equivalent_and_minted_tokens(100, 1000, 2000, 500), Ok((201, 50)));
    // nothing for nothing
    assert_eq!(calculate_equivalent_and_minted_tokens(0, 1000, 2000, 500), Ok((0, 0)));
    // rounding: 3 * 1000 / 7 = 428, plus one; 3 * 10 / 7 = 4
    assert_eq!(calculate_equivalent_and_minted_tokens(3, 7, 1000, 10), Ok((429, 4)));
}

#[test]
fn equivalent_overflow() {
    assert_eq!(
        calculate_equivalent_and_minted_tokens(u128::MAX, 1, 1, 0),
        Err(PoolError::Overflow)
    );
    assert_eq!(
        calculate_equivalent_and_minted_tokens(2, 1, 1, u128::MAX),
        Err(PoolError::Overflow)
    );
}

#[test]
fn redeemable_amounts_of_half_the_shares() {
    assert_eq!(calculate_reclaim_output(500, 1000, 2000, 1000), Ok((500, 1000)));
}

#[test]
fn redeemable_amounts_round_down() {
    // 1000 * 1 / 3 = 333, 2000 * 1 / 3 = 666
    assert_eq!(calculate_reclaim_output(1, 1000, 2000, 3), Ok((333, 666)));
    assert_eq!(calculate_reclaim_output(2, u128::MAX, 1, 4), Err(PoolError::Overflow));
}
