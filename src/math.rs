use vstd::prelude::*;

verus! {

/// The fixed-point scale used for ratios: `u64::MAX`.
pub const SCALE: u128 = 18446744073709551615;

/// LP tokens minted by the first deposit into an empty pool.
pub const BOOTSTRAP_LP_AMOUNT: u64 = 10_000_000_000;

/// Fee rates are parts of this divider (100,000,000 is 100%).
pub const FEE_RATE_BASE_DIVIDER: u128 = 100_000_000;

pub open spec fn scale() -> int {
    SCALE as int
}

pub open spec fn fits_u128(x: int) -> bool {
    0 <= x <= u128::MAX
}

pub open spec fn fits_u64(x: int) -> bool {
    0 <= x <= u64::MAX
}

/// What a proportional deposit takes and mints, or `None` where a step has no
/// result (a zero divisor or an overflow).
pub open spec fn deposit_amounts(pool_a: u64, pool_b: u64, lp_supply: u64, max_a: u64, max_b: u64)
    -> Option<(u64, u64, u64)> {
    if lp_supply == 0 {
        Some((max_a, max_b, BOOTSTRAP_LP_AMOUNT))
    } else if pool_a == 0 || pool_b == 0 || max_b == 0 {
        None
    } else {
        let pool_ratio = pool_a * scale() / pool_b as int;
        let deposit_ratio = max_a * scale() / max_b as int;
        let deposit_a = if deposit_ratio >= pool_ratio {
            max_b * pool_ratio / scale()
        } else {
            max_a as int
        };
        let deposit_b = if deposit_ratio >= pool_ratio {
            max_b as int
        } else {
            max_a * scale() / pool_ratio
        };
        let share = deposit_a * scale() / pool_a as int;
        if !fits_u128(share * lp_supply) || !fits_u64(share * lp_supply / scale()) {
            None
        } else {
            Some((deposit_a as u64, deposit_b as u64, (share * lp_supply / scale()) as u64))
        }
    }
}

/// The fee taken out of `amount` at `rate` parts per 100,000,000, rounded down.
pub open spec fn fee_amount(amount: int, rate: int) -> int {
    amount * rate / FEE_RATE_BASE_DIVIDER as int
}

/// The input that reaches the constant-product curve once the three fees are
/// taken out.
pub open spec fn input_after_fees(amount_in: u64, dao_rate: u32, lp_rate: u32, creator_rate: u32) -> int {
    amount_in - fee_amount(amount_in as int, dao_rate as int) - fee_amount(
        amount_in as int,
        lp_rate as int,
    ) - fee_amount(amount_in as int, creator_rate as int)
}

/// The output of a constant-product swap and its three fees, or `None` when
/// the fees exceed the input or the pool is empty on both sides of the curve.
pub open spec fn swap_amounts(
    pool_in: u64,
    pool_out: u64,
    amount_in: u64,
    dao_rate: u32,
    lp_rate: u32,
    creator_rate: u32,
) -> Option<(u64, u64, u64, u64)> {
    let lp_fee = fee_amount(amount_in as int, lp_rate as int);
    let net = input_after_fees(amount_in, dao_rate, lp_rate, creator_rate);
    if net < 0 || pool_in + lp_fee + net == 0 {
        None
    } else {
        Some(
            (
                (pool_out * net / (pool_in + lp_fee + net)) as u64,
                fee_amount(amount_in as int, dao_rate as int) as u64,
                lp_fee as u64,
                fee_amount(amount_in as int, creator_rate as int) as u64,
            ),
        )
    }
}

/// What burning `lp_amount` of `lp_supply` pays out of each side, or `None`
/// where a step has no result.
pub open spec fn withdraw_amounts(pool_a: u64, pool_b: u64, lp_supply: u64, lp_amount: u64) -> Option<
    (u64, u64),
> {
    if lp_amount == lp_supply {
        Some((pool_a, pool_b))
    } else if lp_supply == 0 {
        None
    } else {
        let ratio = lp_amount * scale() / lp_supply as int;
        if !fits_u128(pool_a * ratio) || !fits_u128(pool_b * ratio) || !fits_u64(
            pool_a * ratio / scale(),
        ) || !fits_u64(pool_b * ratio / scale()) {
            None
        } else {
            Some(((pool_a * ratio / scale()) as u64, (pool_b * ratio / scale()) as u64))
        }
    }
}

/// Splits a deposit of at most `deposit_max_a` and `deposit_max_b` so that it
/// matches the pool's current ratio, and computes the LP tokens it earns.
/// An empty pool (`lp_supply == 0`) takes both maxima and mints the fixed
/// bootstrap amount.
pub fn calculate_deposit_amounts(
    pool_a_amount: u64,
    pool_b_amount: u64,
    lp_supply: u64,
    deposit_max_a: u64,
    deposit_max_b: u64,
) -> (r: Option<(u64, u64, u64)>)
    ensures
        r == deposit_amounts(pool_a_amount, pool_b_amount, lp_supply, deposit_max_a, deposit_max_b),
        lp_supply > 0 && r is Some ==> r.unwrap().0 <= deposit_max_a && r.unwrap().1 <= deposit_max_b,
{
    if lp_supply == 0 {
        return Some((deposit_max_a, deposit_max_b, BOOTSTRAP_LP_AMOUNT));
    }
    proof {
        lemma_product_fits(pool_a_amount, scale());
        lemma_product_fits(deposit_max_a, scale());
    }
    let pool_ratio = (pool_a_amount as u128).checked_mul(SCALE)?.checked_div(pool_b_amount as u128)?;
    let deposit_ratio = (deposit_max_a as u128).checked_mul(SCALE)?.checked_div(
        deposit_max_b as u128,
    )?;
    let ghost pa = pool_a_amount as int;
    let ghost ma = deposit_max_a as int;
    let ghost mb = deposit_max_b as int;
    let ghost pr = pool_ratio as int;
    let ghost dr = deposit_ratio as int;
    proof {
        lemma_floor(ma * scale(), mb);
        if pa > 0 {
            lemma_floor(pa * scale(), pool_b_amount as int);
            assert(pa * scale() >= scale()) by (nonlinear_arith)
                requires
                    pa >= 1,
                    scale() > 0,
            ;
            assert(pr >= 1) by (nonlinear_arith)
                requires
                    pr * pool_b_amount + pool_b_amount > pa * scale(),
                    pa * scale() >= scale(),
                    scale() >= pool_b_amount,
                    pool_b_amount > 0,
                    pr >= 0,
            ;
        }
    }
    let (deposit_a, deposit_b): (u64, u64) = if deposit_ratio >= pool_ratio {
        proof {
            assert(mb * pr <= ma * scale()) by (nonlinear_arith)
                requires
                    dr * mb <= ma * scale(),
                    pr <= dr,
                    mb >= 0,
                    pr >= 0,
            ;
            assert(0 <= mb * pr) by (nonlinear_arith)
                requires
                    mb >= 0,
                    pr >= 0,
            ;
            lemma_floor(mb * pr, scale());
            let q = mb * pr / scale();
            assert(q <= ma) by (nonlinear_arith)
                requires
                    q * scale() <= mb * pr,
                    mb * pr <= ma * scale(),
                    scale() > 0,
            ;
        }
        let a128 = (deposit_max_b as u128).checked_mul(pool_ratio)?.checked_div(SCALE)?;
        if a128 > 18446744073709551615u128 {
            return None;
        }
        (a128 as u64, deposit_max_b)
    } else {
        proof {
            if pa > 0 {
                lemma_floor(ma * scale(), pr);
                let q = ma * scale() / pr;
                assert((dr + 1) * mb <= pr * mb) by (nonlinear_arith)
                    requires
                        dr + 1 <= pr,
                        mb > 0,
                ;
                assert(q * pr < mb * pr) by (nonlinear_arith)
                    requires
                        q * pr <= ma * scale(),
                        ma * scale() < dr * mb + mb,
                        (dr + 1) * mb <= pr * mb,
                ;
                assert(q < mb) by (nonlinear_arith)
                    requires
                        q * pr < mb * pr,
                        pr > 0,
                ;
            }
        }
        let b128 = (deposit_max_a as u128).checked_mul(SCALE)?.checked_div(pool_ratio)?;
        if b128 > 18446744073709551615u128 {
            return None;
        }
        (deposit_max_a, b128 as u64)
    };
    proof {
        lemma_product_fits(deposit_a, scale());
    }
    let share = (deposit_a as u128).checked_mul(SCALE)?.checked_div(pool_a_amount as u128)?;
    let minted = share.checked_mul(lp_supply as u128)?.checked_div(SCALE)?;
    if minted > 18446744073709551615u128 {
        return None;
    }
    Some((deposit_a, deposit_b, minted as u64))
}

/// The fee taken out of `amount` at `fee_rate`; `None` if the product
/// overflows. A zero rate takes nothing.
pub fn calculate_fee_amount(amount: u128, fee_rate: u32) -> (r: Option<u128>)
    ensures
        r == (if fee_rate != 0 && !fits_u128(amount * fee_rate) {
            None::<u128>
        } else {
            Some(fee_amount(amount as int, fee_rate as int) as u128)
        }),
        r is Some ==> r.unwrap() == fee_amount(amount as int, fee_rate as int),
{
    if fee_rate == 0 {
        assert(fee_amount(amount as int, 0) == 0);
        Some(0)
    } else {
        let product = amount.checked_mul(fee_rate as u128)?;
        proof {
            lemma_floor(product as int, FEE_RATE_BASE_DIVIDER as int);
        }
        product.checked_div(FEE_RATE_BASE_DIVIDER)
    }
}

/// Swaps `swap_in_amount` against a constant-product pool after taking the
/// protocol, LP and creator fees out of the input. The LP fee stays in the
/// pool and counts as input-side liquidity. Returns the output and the three
/// fee amounts.
pub fn calculate_swap_amounts(
    pool_balance_in_token: u64,
    pool_balance_out_token: u64,
    swap_in_amount: u64,
    dao_fee_rate: u32,
    lp_fee_rate: u32,
    creator_fee_rate: u32,
) -> (r: Option<(u64, u64, u64, u64)>)
    ensures
        r == swap_amounts(
            pool_balance_in_token,
            pool_balance_out_token,
            swap_in_amount,
            dao_fee_rate,
            lp_fee_rate,
            creator_fee_rate,
        ),
        r is Some ==> r.unwrap().0 <= pool_balance_out_token,
{
    let ghost amount = swap_in_amount as int;
    proof {
        lemma_product_fits(swap_in_amount, dao_fee_rate as int);
        lemma_product_fits(swap_in_amount, lp_fee_rate as int);
        lemma_product_fits(swap_in_amount, creator_fee_rate as int);
        lemma_floor(amount * dao_fee_rate, FEE_RATE_BASE_DIVIDER as int);
        lemma_floor(amount * lp_fee_rate, FEE_RATE_BASE_DIVIDER as int);
        lemma_floor(amount * creator_fee_rate, FEE_RATE_BASE_DIVIDER as int);
        assert(amount * lp_fee_rate <= u64::MAX * u32::MAX) by (nonlinear_arith)
            requires
                0 <= amount <= u64::MAX,
                0 <= lp_fee_rate <= u32::MAX,
        ;
    }
    let amount_in = swap_in_amount as u128;
    let dao_fee_amount = calculate_fee_amount(amount_in, dao_fee_rate)?;
    let lp_fee_amount = calculate_fee_amount(amount_in, lp_fee_rate)?;
    let creator_fee_amount = calculate_fee_amount(amount_in, creator_fee_rate)?;

    let pool_in_after_fees = (pool_balance_in_token as u128).checked_add(lp_fee_amount)?;
    let in_after_fees = amount_in.checked_sub(dao_fee_amount)?.checked_sub(lp_fee_amount)?.checked_sub(
        creator_fee_amount,
    )?;

    // x * y = k
    // (x + a)(y - b) = k
    // b = y * a / (x + a)
    proof {
        lemma_product_fits(pool_balance_out_token, in_after_fees as int);
    }
    let denominator = pool_in_after_fees.checked_add(in_after_fees)?;
    let out = (pool_balance_out_token as u128).checked_mul(in_after_fees)?.checked_div(denominator)?;
    proof {
        let y = pool_balance_out_token as int;
        let a = in_after_fees as int;
        let d = denominator as int;
        lemma_floor(y * a, d);
        assert(out <= y) by (nonlinear_arith)
            requires
                out * d <= y * a,
                a <= d,
                0 <= y,
                0 <= a,
                0 < d,
                0 <= out,
        ;
    }
    Some((out as u64, dao_fee_amount as u64, lp_fee_amount as u64, creator_fee_amount as u64))
}

/// Pays out the share of both sides that `withdraw_lp_amount` of `lp_supply`
/// stands for, rounded down. Burning the whole supply pays out both balances
/// exactly.
pub fn calculate_withdraw_amounts(
    pool_a_amount: u64,
    pool_b_amount: u64,
    lp_supply: u64,
    withdraw_lp_amount: u64,
) -> (r: Option<(u64, u64)>)
    ensures
        r == withdraw_amounts(pool_a_amount, pool_b_amount, lp_supply, withdraw_lp_amount),
        withdraw_lp_amount == lp_supply ==> r == Some((pool_a_amount, pool_b_amount)),
        r is Some ==> r.unwrap().0 * lp_supply <= pool_a_amount * withdraw_lp_amount,
        r is Some ==> r.unwrap().1 * lp_supply <= pool_b_amount * withdraw_lp_amount,
{
    if withdraw_lp_amount == lp_supply {
        assert(pool_a_amount * lp_supply == pool_a_amount * withdraw_lp_amount);
        assert(pool_b_amount * lp_supply == pool_b_amount * withdraw_lp_amount);
        return Some((pool_a_amount, pool_b_amount));
    }
    proof {
        lemma_product_fits(withdraw_lp_amount, scale());
    }
    let withdraw_ratio = (withdraw_lp_amount as u128).checked_mul(SCALE)?.checked_div(
        lp_supply as u128,
    )?;
    let a128 = (pool_a_amount as u128).checked_mul(withdraw_ratio)?.checked_div(SCALE)?;
    if a128 > 18446744073709551615u128 {
        return None;
    }
    let b128 = (pool_b_amount as u128).checked_mul(withdraw_ratio)?.checked_div(SCALE)?;
    if b128 > 18446744073709551615u128 {
        return None;
    }
    proof {
        lemma_share_rounds_down(pool_a_amount, lp_supply, withdraw_lp_amount);
        lemma_share_rounds_down(pool_b_amount, lp_supply, withdraw_lp_amount);
    }
    Some((a128 as u64, b128 as u64))
}

/// A partial share of `balance` never exceeds its exact proportion.
pub proof fn lemma_share_rounds_down(balance: u64, lp_supply: u64, lp_amount: u64)
    requires
        lp_supply > 0,
    ensures
        ({
            let ratio = lp_amount * scale() / lp_supply as int;
            (balance * ratio / scale()) * lp_supply <= balance * lp_amount
        }),
{
    let s = scale();
    let w = lp_amount as int;
    let n = lp_supply as int;
    let p = balance as int;
    lemma_product_fits(lp_amount, s);
    lemma_floor(w * s, n);
    let ratio = w * s / n;
    assert(0 <= p * ratio) by (nonlinear_arith)
        requires
            0 <= p,
            0 <= ratio,
    ;
    lemma_floor(p * ratio, s);
    let q = p * ratio / s;
    assert(q * s * n <= p * ratio * n) by (nonlinear_arith)
        requires
            q * s <= p * ratio,
            n > 0,
    ;
    assert(p * ratio * n <= p * w * s) by (nonlinear_arith)
        requires
            ratio * n <= w * s,
            p >= 0,
    ;
    assert(q * n <= p * w) by (nonlinear_arith)
        requires
            q * s * n <= p * w * s,
            s > 0,
    ;
}

/// Rounding down two parts separately never gives more than rounding down
/// their sum.
pub proof fn lemma_floor_sum(u1: int, u2: int, d: int)
    requires
        0 <= u1,
        0 <= u2,
        0 < d,
    ensures
        u1 / d + u2 / d <= (u1 + u2) / d,
{
    lemma_floor(u1, d);
    lemma_floor(u2, d);
    lemma_floor(u1 + u2, d);
    let q1 = u1 / d;
    let q2 = u2 / d;
    let q = (u1 + u2) / d;
    assert((q1 + q2) * d < (q + 1) * d) by (nonlinear_arith)
        requires
            q1 * d <= u1,
            q2 * d <= u2,
            u1 + u2 < q * d + d,
    ;
    assert(q1 + q2 < q + 1) by (nonlinear_arith)
        requires
            (q1 + q2) * d < (q + 1) * d,
            d > 0,
    ;
}

/// A partial withdrawal (`lp_amount < lp_supply`) always has a result, and
/// pays out no more than the balance.
pub proof fn lemma_partial_share(balance: u64, lp_supply: u64, lp_amount: u64)
    requires
        lp_amount < lp_supply,
    ensures
        ({
            let ratio = lp_amount * scale() / lp_supply as int;
            &&& 0 <= ratio <= scale()
            &&& fits_u128(balance * ratio)
            &&& 0 <= balance * ratio / scale() <= balance
        }),
{
    let s = scale();
    let w = lp_amount as int;
    let n = lp_supply as int;
    let p = balance as int;
    lemma_product_fits(lp_amount, s);
    lemma_floor(w * s, n);
    let ratio = w * s / n;
    assert(w * s < n * s) by (nonlinear_arith)
        requires
            w < n,
            s > 0,
    ;
    assert(ratio < s) by (nonlinear_arith)
        requires
            ratio * n <= w * s,
            w * s < n * s,
            n > 0,
    ;
    lemma_product_fits(balance, ratio);
    assert(p * ratio <= p * s) by (nonlinear_arith)
        requires
            ratio <= s,
            p >= 0,
    ;
    lemma_floor(p * ratio, s);
    let q = p * ratio / s;
    assert(q <= p) by (nonlinear_arith)
        requires
            q * s <= p * ratio,
            p * ratio <= p * s,
            s > 0,
    ;
}

/// Two withdrawals of `lp_1` and `lp_2` from the same pool never pay out more,
/// on either side, than one withdrawal of `lp_1 + lp_2`: rounding always
/// favours the pool.
pub proof fn lemma_split_withdrawal_never_pays_more(
    pool_a: u64,
    pool_b: u64,
    lp_supply: u64,
    lp_1: u64,
    lp_2: u64,
)
    requires
        lp_supply > 0,
        lp_1 + lp_2 <= lp_supply,
    ensures
        ({
            let first = withdraw_amounts(pool_a, pool_b, lp_supply, lp_1);
            let second = withdraw_amounts(pool_a, pool_b, lp_supply, lp_2);
            let whole = withdraw_amounts(pool_a, pool_b, lp_supply, (lp_1 + lp_2) as u64);
            &&& first is Some
            &&& second is Some
            &&& whole is Some
            &&& first.unwrap().0 + second.unwrap().0 <= whole.unwrap().0
            &&& first.unwrap().1 + second.unwrap().1 <= whole.unwrap().1
        }),
{
    let total = (lp_1 + lp_2) as u64;
    lemma_withdraw_payouts(pool_a, pool_b, lp_supply, lp_1);
    lemma_withdraw_payouts(pool_a, pool_b, lp_supply, lp_2);
    lemma_withdraw_payouts(pool_a, pool_b, lp_supply, total);
    lemma_split_side(pool_a, lp_supply, lp_1, lp_2);
    lemma_split_side(pool_b, lp_supply, lp_1, lp_2);
}

/// What one side pays out for `lp_amount`, in full or in part.
pub open spec fn payout(balance: u64, lp_supply: u64, lp_amount: u64) -> int {
    if lp_amount == lp_supply {
        balance as int
    } else {
        share_of(balance, lp_supply, lp_amount)
    }
}

/// A withdrawal of at most the supply always has a result, and pays out the
/// payout of each side.
proof fn lemma_withdraw_payouts(pool_a: u64, pool_b: u64, lp_supply: u64, lp_amount: u64)
    requires
        lp_supply > 0,
        lp_amount <= lp_supply,
    ensures
        withdraw_amounts(pool_a, pool_b, lp_supply, lp_amount) is Some,
        withdraw_amounts(pool_a, pool_b, lp_supply, lp_amount).unwrap().0 == payout(
            pool_a,
            lp_supply,
            lp_amount,
        ),
        withdraw_amounts(pool_a, pool_b, lp_supply, lp_amount).unwrap().1 == payout(
            pool_b,
            lp_supply,
            lp_amount,
        ),
{
    if lp_amount < lp_supply {
        lemma_partial_share(pool_a, lp_supply, lp_amount);
        lemma_partial_share(pool_b, lp_supply, lp_amount);
    }
}

/// One side of the split-withdrawal law.
proof fn lemma_split_side(balance: u64, lp_supply: u64, lp_1: u64, lp_2: u64)
    requires
        lp_supply > 0,
        lp_1 + lp_2 <= lp_supply,
    ensures
        payout(balance, lp_supply, lp_1) + payout(balance, lp_supply, lp_2) <= payout(
            balance,
            lp_supply,
            (lp_1 + lp_2) as u64,
        ),
{
    let s = scale();
    let n = lp_supply as int;
    let p = balance as int;
    if lp_1 == lp_supply || lp_2 == lp_supply {
        assert(0 * s == 0);
        assert(0int / n == 0);
        assert(p * 0 == 0);
        assert(0int / s == 0);
        assert(share_of(balance, lp_supply, 0) == 0);
    } else {
        let a1 = share_of(balance, lp_supply, lp_1);
        let a2 = share_of(balance, lp_supply, lp_2);
        if lp_1 + lp_2 == lp_supply {
            lemma_share_rounds_down(balance, lp_supply, lp_1);
            lemma_share_rounds_down(balance, lp_supply, lp_2);
            assert((a1 + a2) * n <= p * n) by (nonlinear_arith)
                requires
                    a1 * n <= p * lp_1,
                    a2 * n <= p * lp_2,
                    lp_1 + lp_2 == n,
            ;
            assert(a1 + a2 <= p) by (nonlinear_arith)
                requires
                    (a1 + a2) * n <= p * n,
                    n > 0,
            ;
        } else {
            let w = (lp_1 + lp_2) as int;
            lemma_product_fits(lp_1, s);
            lemma_product_fits(lp_2, s);
            let r1 = lp_1 * s / n;
            let r2 = lp_2 * s / n;
            let r = w * s / n;
            lemma_floor(lp_1 * s, n);
            lemma_floor(lp_2 * s, n);
            assert(lp_1 * s + lp_2 * s == w * s) by (nonlinear_arith)
                requires
                    w == lp_1 + lp_2,
            ;
            lemma_floor_sum(lp_1 * s, lp_2 * s, n);
            assert(0 <= p * r1 && 0 <= p * r2) by (nonlinear_arith)
                requires
                    p >= 0,
                    r1 >= 0,
                    r2 >= 0,
            ;
            lemma_floor_sum(p * r1, p * r2, s);
            assert(p * r1 + p * r2 <= p * r) by (nonlinear_arith)
                requires
                    r1 + r2 <= r,
                    p >= 0,
            ;
            vstd::arithmetic::div_mod::lemma_div_is_ordered(p * r1 + p * r2, p * r, s);
        }
    }
}

/// The payout of one side for a partial withdrawal.
pub open spec fn share_of(balance: u64, lp_supply: u64, lp_amount: u64) -> int {
    balance * (lp_amount * scale() / lp_supply as int) / scale()
}

/// Swapping `amount_in` one way and the whole output straight back never
/// returns more than the input less the first swap's fees. With any fee
/// taken the trader ends strictly poorer; with none, never richer. The pool's
/// ledger on the input side ends no lower than it started.
pub proof fn lemma_swap_round_trip_never_pays_more(
    pool_in: u64,
    pool_out: u64,
    amount_in: u64,
    dao_rate: u32,
    lp_rate: u32,
    creator_rate: u32,
)
    ensures
        ({
            match swap_amounts(pool_in, pool_out, amount_in, dao_rate, lp_rate, creator_rate) {
                Some((out, dao_fee, lp_fee, creator_fee)) => {
                    let ledger_in = pool_in + amount_in - dao_fee - creator_fee;
                    ledger_in <= u64::MAX ==> match swap_amounts(
                        (pool_out - out) as u64,
                        ledger_in as u64,
                        out,
                        dao_rate,
                        lp_rate,
                        creator_rate,
                    ) {
                        Some((back, _, _, _)) => {
                            &&& back + dao_fee + lp_fee + creator_fee <= amount_in
                            &&& ledger_in - back >= pool_in
                        },
                        None => true,
                    }
                },
                None => true,
            }
        }),
{
    let first = swap_amounts(pool_in, pool_out, amount_in, dao_rate, lp_rate, creator_rate);
    if first is Some {
        let (out, dao_fee, lp_fee, creator_fee) = first.unwrap();
        let ledger_in = pool_in + amount_in - dao_fee - creator_fee;
        if ledger_in <= u64::MAX {
            let second = swap_amounts(
                (pool_out - out) as u64,
                ledger_in as u64,
                out,
                dao_rate,
                lp_rate,
                creator_rate,
            );
            if second is Some {
                let back = second.unwrap().0 as int;
                let po = pool_out as int;
                let e1 = input_after_fees(amount_in, dao_rate, lp_rate, creator_rate);
                let d1 = pool_in + lp_fee + e1;
                let l1 = fee_amount(amount_in as int, lp_rate as int);
                lemma_fee_bounds(amount_in, dao_rate, lp_rate, creator_rate);
                lemma_fee_bounds(out, dao_rate, lp_rate, creator_rate);
                lemma_floor(po * e1, d1);
                assert(0 <= po * e1) by (nonlinear_arith)
                    requires
                        po >= 0,
                        e1 >= 0,
                ;
                let o = po * e1 / d1;
                assert(o <= po) by (nonlinear_arith)
                    requires
                        o * d1 <= po * e1,
                        e1 <= d1,
                        0 <= po,
                        0 <= e1,
                        0 < d1,
                        0 <= o,
                ;
                assert(out as int == o);
                let e2 = input_after_fees(out, dao_rate, lp_rate, creator_rate);
                let l2 = fee_amount(o, lp_rate as int);
                let d2 = (po - o) + l2 + e2;
                assert(ledger_in == d1);
                if e2 == 0 {
                    assert(ledger_in * 0 == 0);
                    assert(back == 0);
                } else {
                    assert(0 <= d1 * e2) by (nonlinear_arith)
                        requires
                            d1 >= 0,
                            e2 >= 0,
                    ;
                    lemma_floor(d1 * e2, d2);
                    let bq = d1 * e2 / d2;
                    assert(bq <= d1) by (nonlinear_arith)
                        requires
                            bq * d2 <= d1 * e2,
                            e2 <= d2,
                            0 <= d1,
                            0 < d2,
                            0 <= bq,
                    ;
                    assert(back == bq);
                    assert(back * d2 <= d1 * e2);
                    let m = po - o + e2;
                    assert(back * m <= back * d2) by (nonlinear_arith)
                        requires
                            m <= d2,
                            back >= 0,
                    ;
                    assert(d1 * e2 * po <= d1 * o * m) by (nonlinear_arith)
                        requires
                            e2 <= o,
                            o <= po,
                            d1 >= 0,
                            m == po - o + e2,
                    ;
                    assert(back * po * m <= d1 * o * m) by (nonlinear_arith)
                        requires
                            back * m <= d1 * e2,
                            d1 * e2 * po <= d1 * o * m,
                            po >= 0,
                    ;
                    assert(back * po <= d1 * o) by (nonlinear_arith)
                        requires
                            back * po * m <= d1 * o * m,
                            m > 0,
                    ;
                    assert(back * po <= e1 * po) by (nonlinear_arith)
                        requires
                            back * po <= d1 * o,
                            o * d1 <= po * e1,
                    ;
                    assert(back <= e1) by (nonlinear_arith)
                        requires
                            back * po <= e1 * po,
                            po > 0,
                    ;
                }
            }
        }
    }
}

/// Each fee is non-negative and bounded by the product it is taken from.
proof fn lemma_fee_bounds(amount: u64, dao_rate: u32, lp_rate: u32, creator_rate: u32)
    ensures
        0 <= fee_amount(amount as int, dao_rate as int),
        0 <= fee_amount(amount as int, lp_rate as int),
        0 <= fee_amount(amount as int, creator_rate as int),
{
    lemma_product_fits(amount, dao_rate as int);
    lemma_product_fits(amount, lp_rate as int);
    lemma_product_fits(amount, creator_rate as int);
    lemma_floor(amount * dao_rate, FEE_RATE_BASE_DIVIDER as int);
    lemma_floor(amount * lp_rate, FEE_RATE_BASE_DIVIDER as int);
    lemma_floor(amount * creator_rate, FEE_RATE_BASE_DIVIDER as int);
}

/// Floor division, stated as the two bounds that define it.
pub proof fn lemma_floor(x: int, d: int)
    requires
        0 <= x,
        0 < d,
    ensures
        0 <= x / d,
        (x / d) * d <= x,
        x < (x / d) * d + d,
{
    vstd::arithmetic::div_mod::lemma_fundamental_div_mod(x, d);
    vstd::arithmetic::div_mod::lemma_mod_pos_bound(x, d);
    vstd::arithmetic::div_mod::lemma_div_pos_is_pos(x, d);
    assert((x / d) * d == d * (x / d)) by (nonlinear_arith);
}

/// A product of two values that fit in 64 bits fits in 128 bits.
pub proof fn lemma_product_fits(x: u64, y: int)
    requires
        0 <= y <= u64::MAX,
    ensures
        fits_u128(x * y),
{
    assert(0 <= x * y <= u64::MAX * u64::MAX) by (nonlinear_arith)
        requires
            0 <= x <= u64::MAX,
            0 <= y <= u64::MAX,
    ;
}

} // verus!
