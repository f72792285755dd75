use hodor_program::math::{
    calculate_deposit_amounts, calculate_fee_amount, calculate_swap_amounts, calculate_withdraw_amounts,
};

#[test]
fn test_calculate_deposit_amounts() {
    assert_eq!(Some((69, 420, 10_000_000_000)), calculate_deposit_amounts(0, 0, 0, 69, 420));

    assert_eq!(Some((100, 100, 10_000)), calculate_deposit_amounts(100, 100, 10_000, 100, 100));
    assert_eq!(Some((100, 100, 10_000)), calculate_deposit_amounts(100, 100, 10_000, 110, 100));
    assert_eq!(Some((100, 100, 10_000)), calculate_deposit_amounts(100, 100, 10_000, 100, 110));
}

#[test]
fn test_calculate_swap_amounts_with_fees() {
    // 1% for every fee type
    assert_eq!(
        Some((88_342, 1_000, 1_000, 1_000)),
        calculate_swap_amounts(1_000_000, 1_000_000, 100_000, 1_000_000, 1_000_000, 1_000_000)
    );

    // 90.99% fee
    assert_eq!(
        Some((8920, 90000, 990, 0)),
        calculate_swap_amounts(1_000_000, 1_000_000, 100_000, 90_000_000, 990_000, 0)
    );

    // 90.99% fee
    assert_eq!(
        Some((8198, 990, 90000, 0)),
        calculate_swap_amounts(1_000_000, 1_000_000, 100_000, 990_000, 90_000_000, 0)
    );

    // over 100% total fee
    assert_eq!(None, calculate_swap_amounts(1_000_000, 1_000_000, 100_000, 50_000_000, 50_000_000, 1_000_000));
}

#[test]
fn test_calculate_swap_amounts_without_fees() {
    assert_eq!(Some((0, 0, 0, 0)), calculate_swap_amounts(1, 100, 0, 0, 0, 0));
    assert_eq!(Some((0, 0, 0, 0)), calculate_swap_amounts(100, 10, 11, 0, 0, 0));
    assert_eq!(Some((1, 0, 0, 0)), calculate_swap_amounts(100_000_000, 100, 1_011_000, 0, 0, 0));
    assert_eq!(Some((4, 0, 0, 0)), calculate_swap_amounts(100, 100, 5, 0, 0, 0));
    assert_eq!(
        Some((49_950_049, 0, 0, 0)),
        calculate_swap_amounts(100_000_000_000, 50_000_000_000, 100_000_000, 0, 0, 0)
    );
    assert_eq!(
        Some((372_208_436, 0, 0, 0)),
        calculate_swap_amounts(100_000_000_000, 50_000_000_000, 750_000_000, 0, 0, 0)
    );
    assert_eq!(Some((3_333_333, 0, 0, 0)), calculate_swap_amounts(10_000_000, 10_000_000, 5_000_000, 0, 0, 0));
    assert_eq!(Some((6_666_666, 0, 0, 0)), calculate_swap_amounts(10_000_000, 10_000_000, 20_000_000, 0, 0, 0));
    assert_eq!(Some((8_000_000, 0, 0, 0)), calculate_swap_amounts(10_000_000, 10_000_000, 40_000_000, 0, 0, 0));
    assert_eq!(
        Some((12_990_906, 0, 0, 0)),
        calculate_swap_amounts(70_000_000, 13_000_000, 100_000_000_000, 0, 0, 0)
    );
}

#[test]
fn test_calculate_withdraw_amounts() {
    assert_eq!(Some((10, 10)), calculate_withdraw_amounts(10, 10, 100, 100));
    assert_eq!(Some((4_999, 4_999)), calculate_withdraw_amounts(10_000, 10_000, 100_000, 50_000));
    assert_eq!(
        Some((4_999_999_999, 4_999_999_999)),
        calculate_withdraw_amounts(10_000_000_000, 10_000_000_000, 100_000_000_000, 50_000_000_000)
    );
    assert_eq!(Some((5_000, 5_000)), calculate_withdraw_amounts(10_000, 10_000, 100_000, 50_001));
    assert_eq!(Some((5_000, 2_500)), calculate_withdraw_amounts(10_000, 5_000, 100_000, 50_001));
    assert_eq!(Some((2_500, 5_000)), calculate_withdraw_amounts(5_000, 10_000, 100_000, 50_001));
    assert_eq!(Some((0, 0)), calculate_withdraw_amounts(5_000, 10_000, 100_000, 1));
    assert_eq!(Some((49, 29)), calculate_withdraw_amounts(5_000_000, 3_000_000, 100_000, 1));
    assert_eq!(Some((0, 0)), calculate_withdraw_amounts(10, 10, 100, 9));
}

#[test]
fn deposit_proportional_branches() {
    // the caller offers more B than the pool ratio asks for: all of A is taken
    assert_eq!(Some((100, 200, 10_000)), calculate_deposit_amounts(100, 200, 10_000, 100, 500));
    // the caller offers more A: all of B is taken, and A is rounded down
    assert_eq!(Some((99, 200, 9_899)), calculate_deposit_amounts(100, 200, 10_000, 700, 200));
    // a deposit never exceeds either maximum
    assert_eq!(Some((25, 60, 8_333)), calculate_deposit_amounts(3, 7, 1_000, 50, 60));
}

#[test]
fn deposit_without_result() {
    assert_eq!(None, calculate_deposit_amounts(100, 0, 10, 1, 1));
    assert_eq!(None, calculate_deposit_amounts(100, 100, 10, 1, 0));
    assert_eq!(None, calculate_deposit_amounts(0, 100, 10, 1, 1));
    // the minted amount overflows
    assert_eq!(None, calculate_deposit_amounts(1, 1, u64::MAX, u64::MAX, u64::MAX));
}

#[test]
fn fee_amount_formula() {
    assert_eq!(Some(0), calculate_fee_amount(12_345, 0));
    assert_eq!(Some(5), calculate_fee_amount(10_000, 50_000));
    assert_eq!(Some(1_000), calculate_fee_amount(100_000, 1_000_000));
    assert_eq!(Some(0), calculate_fee_amount(1_999, 50_000));
    assert_eq!(None, calculate_fee_amount(u128::MAX, 2));
}

#[test]
fn swap_on_empty_pool_has_no_result() {
    assert_eq!(None, calculate_swap_amounts(0, 0, 0, 0, 0, 0));
    assert_eq!(Some((0, 0, 0, 0)), calculate_swap_amounts(0, 0, 10, 0, 0, 0));
}

#[test]
fn full_withdrawal_is_exact() {
    assert_eq!(Some((7, 13)), calculate_withdraw_amounts(7, 13, 3, 3));
    assert_eq!(Some((u64::MAX, 1)), calculate_withdraw_amounts(u64::MAX, 1, 999, 999));
    assert_eq!(None, calculate_withdraw_amounts(7, 13, 0, 1));
}

#[test]
fn split_withdrawals_never_pay_more() {
    let (pool_a, pool_b, supply) = (10_000u64, 7_777u64, 100_000u64);
    for (x1, x2) in [(1u64, 1u64), (33_333, 33_333), (50_000, 50_000), (12_345, 87_655), (99_999, 1)] {
        let (a1, b1) = calculate_withdraw_amounts(pool_a, pool_b, supply, x1).unwrap();
        let (a2, b2) = calculate_withdraw_amounts(pool_a, pool_b, supply, x2).unwrap();
        let (a, b) = calculate_withdraw_amounts(pool_a, pool_b, supply, x1 + x2).unwrap();
        assert!(a1 + a2 <= a && b1 + b2 <= b);
        // each partial payout rounds down
        assert!((a1 as u128) * (supply as u128) <= (pool_a as u128) * (x1 as u128));
    }
}

#[test]
fn swap_and_back_never_profits() {
    let (pool_in, pool_out, amount) = (1_000_000u64, 1_000_000u64, 100_000u64);
    let rates = (1_000_000u32, 1_000_000u32, 1_000_000u32);
    let (out, dao, lp, creator) = calculate_swap_amounts(pool_in, pool_out, amount, rates.0, rates.1, rates.2).unwrap();
    let ledger_in = pool_in + amount - dao - creator;
    let (back, _, _, _) = calculate_swap_amounts(pool_out - out, ledger_in, out, rates.0, rates.1, rates.2).unwrap();
    assert!(back + dao + lp + creator <= amount);
    assert!(back < amount);
    assert!(ledger_in - back >= pool_in);

    let (out, _, _, _) = calculate_swap_amounts(pool_in, pool_out, amount, 0, 0, 0).unwrap();
    let (back, _, _, _) = calculate_swap_amounts(pool_out - out, pool_in + amount, out, 0, 0, 0).unwrap();
    assert!(back <= amount);
    assert!(amount - back <= 1);
}
