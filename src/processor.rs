use vstd::prelude::*;
use crate::bytes::keys_equal;
use crate::error::SwapError;
use crate::math::{
    calculate_deposit_amounts, calculate_swap_amounts, calculate_withdraw_amounts, deposit_amounts,
    swap_amounts, withdraw_amounts,
};
use crate::state::{decode_pool, encode_pool, encoded_size, CreatorFee, CreatorFeeModel, PoolModel, SwapPool};
use crate::token::{
    check_token_account, derived_address, find_derived_address, mint_supply, mint_supply_result,
    token_account_result,
};

verus! {

/// The protocol fee rate charged on every swap (0.05%).
pub const DAO_FEE_RATE: u32 = 50_000;

/// Seed tag of the pool's LP mint, derived from the pool's address.
pub const LP_MINT_TAG: [u8; 2] = [76u8, 80u8];

/// Who authorises a token operation.
#[derive(Debug, PartialEq, Eq, Clone, Copy)]
pub enum Authority {
    /// The caller's own signature.
    Owner { key: [u8; 32] },
    /// The pool's derived authority, re-derived from its stored seed.
    Pool { address: [u8; 32], seed: [u8; 32] },
}

/// A call into the token program that an accepted instruction asks for.
#[derive(Debug, PartialEq, Eq, Clone, Copy)]
pub enum TokenOperation {
    Transfer { source: [u8; 32], destination: [u8; 32], authority: Authority, amount: u64 },
    MintTo { mint: [u8; 32], destination: [u8; 32], authority: Authority, amount: u64 },
    Burn { source: [u8; 32], mint: [u8; 32], authority: Authority, amount: u64 },
}

/// The mathematical value of an `Authority`.
pub enum AuthorityModel {
    Owner { key: Seq<u8> },
    Pool { address: Seq<u8>, seed: Seq<u8> },
}

/// The mathematical value of a `TokenOperation`.
pub enum OperationModel {
    Transfer { source: Seq<u8>, destination: Seq<u8>, authority: AuthorityModel, amount: u64 },
    MintTo { mint: Seq<u8>, destination: Seq<u8>, authority: AuthorityModel, amount: u64 },
    Burn { source: Seq<u8>, mint: Seq<u8>, authority: AuthorityModel, amount: u64 },
}

impl View for Authority {
    type V = AuthorityModel;

    open spec fn view(&self) -> AuthorityModel {
        match *self {
            Authority::Owner { key } => AuthorityModel::Owner { key: key@ },
            Authority::Pool { address, seed } => AuthorityModel::Pool {
                address: address@,
                seed: seed@,
            },
        }
    }
}

impl View for TokenOperation {
    type V = OperationModel;

    open spec fn view(&self) -> OperationModel {
        match *self {
            TokenOperation::Transfer { source, destination, authority, amount } => {
                OperationModel::Transfer {
                    source: source@,
                    destination: destination@,
                    authority: authority@,
                    amount,
                }
            },
            TokenOperation::MintTo { mint, destination, authority, amount } => {
                OperationModel::MintTo {
                    mint: mint@,
                    destination: destination@,
                    authority: authority@,
                    amount,
                }
            },
            TokenOperation::Burn { source, mint, authority, amount } => OperationModel::Burn {
                source: source@,
                mint: mint@,
                authority: authority@,
                amount,
            },
        }
    }
}

/// The values of a list of operations.
pub open spec fn operations_view(ops: Seq<TokenOperation>) -> Seq<OperationModel> {
    ops.map_values(|o: TokenOperation| o@)
}

/// The accounts of a CreatePool instruction that its logic reads.
#[derive(Debug, Clone, Copy)]
pub struct CreatePoolAccounts {
    pub fee_payer: [u8; 32],
    pub fee_payer_is_signer: bool,
    pub pool: [u8; 32],
    pub mint_a: [u8; 32],
    pub token_account_a: [u8; 32],
    pub mint_b: [u8; 32],
    pub token_account_b: [u8; 32],
}

/// The accounts of a Deposit instruction that its logic reads.
#[derive(Debug, Clone, Copy)]
pub struct DepositAccounts {
    pub owner: [u8; 32],
    pub owner_is_signer: bool,
    pub pool: [u8; 32],
    pub pool_owner: [u8; 32],
    pub source_a: [u8; 32],
    pub destination_a: [u8; 32],
    pub source_b: [u8; 32],
    pub destination_b: [u8; 32],
    pub lp_mint: [u8; 32],
    pub destination_lp: [u8; 32],
}

/// The accounts of a Swap instruction that its logic reads.
#[derive(Debug, Clone, Copy)]
pub struct SwapAccounts {
    pub owner: [u8; 32],
    pub owner_is_signer: bool,
    pub pool: [u8; 32],
    pub pool_owner: [u8; 32],
    pub input_source: [u8; 32],
    pub input_destination: [u8; 32],
    pub output_source: [u8; 32],
    pub output_destination: [u8; 32],
}

/// The accounts of a Withdraw instruction that its logic reads.
#[derive(Debug, Clone, Copy)]
pub struct WithdrawAccounts {
    pub owner: [u8; 32],
    pub owner_is_signer: bool,
    pub pool: [u8; 32],
    pub pool_owner: [u8; 32],
    pub source_a: [u8; 32],
    pub destination_a: [u8; 32],
    pub source_b: [u8; 32],
    pub destination_b: [u8; 32],
    pub lp_mint: [u8; 32],
    pub source_lp: [u8; 32],
}

// ---------------------------------------------------------------------------
// Pool transitions

/// A deposit against pool `p` with LP supply `lp_supply`: the new pool and the
/// amounts taken and minted.
pub open spec fn deposit_step(
    p: PoolModel,
    lp_supply: u64,
    min_a: u64,
    max_a: u64,
    min_b: u64,
    max_b: u64,
) -> Result<(PoolModel, u64, u64, u64), SwapError> {
    match deposit_amounts(p.balance_a, p.balance_b, lp_supply, max_a, max_b) {
        None => Err(SwapError::InvalidInstructionData),
        Some((a, b, lp)) => {
            if a < min_a || b < min_b || p.balance_a + a > u64::MAX || p.balance_b + b > u64::MAX {
                Err(SwapError::InvalidInstructionData)
            } else {
                Ok(
                    (
                        PoolModel {
                            balance_a: (p.balance_a + a) as u64,
                            balance_b: (p.balance_b + b) as u64,
                            ..p
                        },
                        a,
                        b,
                        lp,
                    ),
                )
            }
        },
    }
}

/// The creator fee rate of a pool, zero when it has none.
pub open spec fn creator_rate_of(p: PoolModel) -> u32 {
    match p.creator_fee {
        Some(cf) => cf.rate,
        None => 0,
    }
}

/// A swap of `in_amount` against pool `p`, from side A to side B when
/// `a_to_b`: the new pool and the output. The input side keeps the input
/// less the protocol and creator fees; the creator's fee is set aside in its
/// own balance.
pub open spec fn swap_step(p: PoolModel, a_to_b: bool, in_amount: u64, min_out_amount: u64) -> Result<
    (PoolModel, u64),
    SwapError,
> {
    let pool_in = if a_to_b {
        p.balance_a
    } else {
        p.balance_b
    };
    let pool_out = if a_to_b {
        p.balance_b
    } else {
        p.balance_a
    };
    match swap_amounts(pool_in, pool_out, in_amount, DAO_FEE_RATE, p.lp_fee_rate, creator_rate_of(p)) {
        None => Err(SwapError::InvalidInstructionData),
        Some((out, dao_fee, _lp_fee, creator_fee)) => {
            let kept = in_amount - dao_fee - creator_fee;
            let creator_side = match p.creator_fee {
                Some(cf) => if a_to_b {
                    cf.balance_a as int
                } else {
                    cf.balance_b as int
                },
                None => 0,
            };
            if out < min_out_amount || kept < 0 || pool_in + kept > u64::MAX || pool_out < out || (
            p.creator_fee is Some && creator_side + creator_fee > u64::MAX) {
                Err(SwapError::InvalidInstructionData)
            } else {
                let new_in = (pool_in + kept) as u64;
                let new_out = (pool_out - out) as u64;
                Ok(
                    (
                        PoolModel {
                            balance_a: if a_to_b {
                                new_in
                            } else {
                                new_out
                            },
                            balance_b: if a_to_b {
                                new_out
                            } else {
                                new_in
                            },
                            creator_fee: match p.creator_fee {
                                Some(cf) => Some(
                                    CreatorFeeModel {
                                        balance_a: if a_to_b {
                                            (cf.balance_a + creator_fee) as u64
                                        } else {
                                            cf.balance_a
                                        },
                                        balance_b: if a_to_b {
                                            cf.balance_b
                                        } else {
                                            (cf.balance_b + creator_fee) as u64
                                        },
                                        ..cf
                                    },
                                ),
                                None => None,
                            },
                            ..p
                        },
                        out,
                    ),
                )
            }
        },
    }
}

/// A withdrawal of `lp_amount` LP tokens against pool `p` with LP supply
/// `lp_supply`: the new pool and the amounts paid out.
pub open spec fn withdraw_step(
    p: PoolModel,
    lp_supply: u64,
    lp_amount: u64,
    min_a: u64,
    min_b: u64,
) -> Result<(PoolModel, u64, u64), SwapError> {
    match withdraw_amounts(p.balance_a, p.balance_b, lp_supply, lp_amount) {
        None => Err(SwapError::InvalidInstructionData),
        Some((a, b)) => {
            if a < min_a || b < min_b || a > p.balance_a || b > p.balance_b {
                Err(SwapError::InvalidInstructionData)
            } else {
                Ok(
                    (
                        PoolModel {
                            balance_a: (p.balance_a - a) as u64,
                            balance_b: (p.balance_b - b) as u64,
                            ..p
                        },
                        a,
                        b,
                    ),
                )
            }
        },
    }
}

/// Applies a deposit to `pool`, given the LP mint's current supply. On
/// failure the pool is unchanged.
pub fn apply_deposit(
    pool: &mut SwapPool,
    lp_supply: u64,
    min_a: u64,
    max_a: u64,
    min_b: u64,
    max_b: u64,
) -> (r: Result<(u64, u64, u64), SwapError>)
    ensures
        match deposit_step(old(pool)@, lp_supply, min_a, max_a, min_b, max_b) {
            Ok((q, a, b, lp)) => r == Ok::<(u64, u64, u64), SwapError>((a, b, lp)) && final(pool)@ == q,
            Err(e) => r == Err::<(u64, u64, u64), SwapError>(e) && *final(pool) == *old(pool),
        },
{
    let (a, b, lp) = match calculate_deposit_amounts(
        pool.balance_a,
        pool.balance_b,
        lp_supply,
        max_a,
        max_b,
    ) {
        Some(t) => t,
        None => return Err(SwapError::InvalidInstructionData),
    };
    if a < min_a || b < min_b {
        return Err(SwapError::InvalidInstructionData);
    }
    let new_a = match pool.balance_a.checked_add(a) {
        Some(v) => v,
        None => return Err(SwapError::InvalidInstructionData),
    };
    let new_b = match pool.balance_b.checked_add(b) {
        Some(v) => v,
        None => return Err(SwapError::InvalidInstructionData),
    };
    pool.balance_a = new_a;
    pool.balance_b = new_b;
    Ok((a, b, lp))
}

/// Applies a swap to `pool`, from side A to side B when `a_to_b`. On failure
/// the pool is unchanged.
pub fn apply_swap(pool: &mut SwapPool, a_to_b: bool, in_amount: u64, min_out_amount: u64) -> (r:
    Result<u64, SwapError>)
    ensures
        match swap_step(old(pool)@, a_to_b, in_amount, min_out_amount) {
            Ok((q, out)) => r == Ok::<u64, SwapError>(out) && final(pool)@ == q,
            Err(e) => r == Err::<u64, SwapError>(e) && *final(pool) == *old(pool),
        },
{
    let (pool_in, pool_out) = if a_to_b {
        (pool.balance_a, pool.balance_b)
    } else {
        (pool.balance_b, pool.balance_a)
    };
    let creator_rate = match &pool.creator_fee {
        Some(cf) => cf.rate,
        None => 0,
    };
    let (out, dao_fee, _lp_fee, creator_fee) = match calculate_swap_amounts(
        pool_in,
        pool_out,
        in_amount,
        DAO_FEE_RATE,
        pool.lp_fee_rate,
        creator_rate,
    ) {
        Some(t) => t,
        None => return Err(SwapError::InvalidInstructionData),
    };
    if out < min_out_amount {
        return Err(SwapError::InvalidInstructionData);
    }
    let kept = match in_amount.checked_sub(dao_fee) {
        Some(v) => match v.checked_sub(creator_fee) {
            Some(w) => w,
            None => return Err(SwapError::InvalidInstructionData),
        },
        None => return Err(SwapError::InvalidInstructionData),
    };
    let new_in = match pool_in.checked_add(kept) {
        Some(v) => v,
        None => return Err(SwapError::InvalidInstructionData),
    };
    let new_out = match pool_out.checked_sub(out) {
        Some(v) => v,
        None => return Err(SwapError::InvalidInstructionData),
    };
    let new_creator_fee = match &pool.creator_fee {
        Some(cf) => {
            if a_to_b {
                match cf.balance_a.checked_add(creator_fee) {
                    Some(v) => Some(
                        CreatorFee {
                            rate: cf.rate,
                            balance_a: v,
                            balance_b: cf.balance_b,
                            withdraw_authority: cf.withdraw_authority,
                        },
                    ),
                    None => return Err(SwapError::InvalidInstructionData),
                }
            } else {
                match cf.balance_b.checked_add(creator_fee) {
                    Some(v) => Some(
                        CreatorFee {
                            rate: cf.rate,
                            balance_a: cf.balance_a,
                            balance_b: v,
                            withdraw_authority: cf.withdraw_authority,
                        },
                    ),
                    None => return Err(SwapError::InvalidInstructionData),
                }
            }
        },
        None => None,
    };
    if a_to_b {
        pool.balance_a = new_in;
        pool.balance_b = new_out;
    } else {
        pool.balance_b = new_in;
        pool.balance_a = new_out;
    }
    pool.creator_fee = new_creator_fee;
    Ok(out)
}

/// Applies a withdrawal to `pool`, given the LP mint's current supply. On
/// failure the pool is unchanged.
pub fn apply_withdraw(pool: &mut SwapPool, lp_supply: u64, lp_amount: u64, min_a: u64, min_b: u64) -> (r:
    Result<(u64, u64), SwapError>)
    ensures
        match withdraw_step(old(pool)@, lp_supply, lp_amount, min_a, min_b) {
            Ok((q, a, b)) => r == Ok::<(u64, u64), SwapError>((a, b)) && final(pool)@ == q,
            Err(e) => r == Err::<(u64, u64), SwapError>(e) && *final(pool) == *old(pool),
        },
{
    let (a, b) = match calculate_withdraw_amounts(pool.balance_a, pool.balance_b, lp_supply, lp_amount) {
        Some(t) => t,
        None => return Err(SwapError::InvalidInstructionData),
    };
    if a < min_a || b < min_b {
        return Err(SwapError::InvalidInstructionData);
    }
    let new_a = match pool.balance_a.checked_sub(a) {
        Some(v) => v,
        None => return Err(SwapError::InvalidInstructionData),
    };
    let new_b = match pool.balance_b.checked_sub(b) {
        Some(v) => v,
        None => return Err(SwapError::InvalidInstructionData),
    };
    pool.balance_a = new_a;
    pool.balance_b = new_b;
    Ok((a, b))
}

/// Whether `q` keeps every binding of `p`: the seed, both pool token
/// accounts, the LP mint, the LP fee rate, and whether there is a creator fee
/// (hence the record's size).
pub open spec fn keeps_bindings(p: PoolModel, q: PoolModel) -> bool {
    &&& q.seed == p.seed
    &&& q.token_account_a == p.token_account_a
    &&& q.token_account_b == p.token_account_b
    &&& q.lp_mint == p.lp_mint
    &&& q.lp_fee_rate == p.lp_fee_rate
    &&& q.creator_fee is Some == p.creator_fee is Some
    &&& encoded_size(q) == encoded_size(p)
}

/// Deposits, swaps and withdrawals change balances only: no accepted
/// instruction rebinds a pool to other accounts or resizes its record.
pub proof fn lemma_transitions_keep_bindings(
    p: PoolModel,
    lp_supply: u64,
    a_to_b: bool,
    in_amount: u64,
    min_out_amount: u64,
    lp_amount: u64,
    min_a: u64,
    max_a: u64,
    min_b: u64,
    max_b: u64,
)
    ensures
        deposit_step(p, lp_supply, min_a, max_a, min_b, max_b) is Ok ==> keeps_bindings(
            p,
            deposit_step(p, lp_supply, min_a, max_a, min_b, max_b)->Ok_0.0,
        ),
        swap_step(p, a_to_b, in_amount, min_out_amount) is Ok ==> keeps_bindings(
            p,
            swap_step(p, a_to_b, in_amount, min_out_amount)->Ok_0.0,
        ),
        withdraw_step(p, lp_supply, lp_amount, min_a, min_b) is Ok ==> keeps_bindings(
            p,
            withdraw_step(p, lp_supply, lp_amount, min_a, min_b)->Ok_0.0,
        ),
{
}

// ---------------------------------------------------------------------------
// Instructions

/// The record of a freshly created pool: empty balances, and a creator fee
/// section only when `creator_fee_rate` is not zero.
pub open spec fn initial_pool(
    seed: Seq<u8>,
    token_account_a: Seq<u8>,
    token_account_b: Seq<u8>,
    lp_mint: Seq<u8>,
    lp_fee_rate: u32,
    creator_fee_rate: u32,
    creator: Seq<u8>,
) -> PoolModel {
    PoolModel {
        seed,
        token_account_a,
        token_account_b,
        balance_a: 0,
        balance_b: 0,
        lp_mint,
        lp_fee_rate,
        creator_fee: if creator_fee_rate > 0 {
            Some(
                CreatorFeeModel {
                    rate: creator_fee_rate,
                    balance_a: 0,
                    balance_b: 0,
                    withdraw_authority: creator,
                },
            )
        } else {
            None
        },
    }
}

/// What CreatePool decides: the record to store, or why it is refused.
pub open spec fn create_pool_outcome(
    program_id: Seq<u8>,
    accounts: CreatePoolAccounts,
    seed: Seq<u8>,
    lp_fee_rate: u32,
    creator_fee_rate: u32,
) -> Result<PoolModel, SwapError> {
    if !accounts.fee_payer_is_signer {
        Err(SwapError::MissingRequiredSignature)
    } else if accounts.mint_a@ == accounts.mint_b@ {
        Err(SwapError::InvalidAccountData)
    } else {
        match derived_address(accounts.pool@, LP_MINT_TAG@, program_id) {
            None => Err(SwapError::InvalidSeeds),
            Some(lp_mint) => Ok(
                initial_pool(
                    seed,
                    accounts.token_account_a@,
                    accounts.token_account_b@,
                    lp_mint,
                    lp_fee_rate,
                    creator_fee_rate,
                    accounts.fee_payer@,
                ),
            ),
        }
    }
}

/// Whether the accounts of a deposit are the ones pool `p` is bound to.
pub open spec fn deposit_accounts_bound(p: PoolModel, accounts: DepositAccounts) -> bool {
    &&& p.token_account_a == accounts.destination_a@
    &&& p.token_account_b == accounts.destination_b@
    &&& p.lp_mint == accounts.lp_mint@
}

/// What Deposit decides: the new pool and the token operations to perform,
/// or why it is refused.
pub open spec fn deposit_outcome(
    program_id: Seq<u8>,
    accounts: DepositAccounts,
    record: Seq<u8>,
    lp_mint_data: Seq<u8>,
    min_a: u64,
    max_a: u64,
    min_b: u64,
    max_b: u64,
) -> Result<(PoolModel, Seq<OperationModel>), SwapError> {
    if !accounts.owner_is_signer {
        Err(SwapError::MissingRequiredSignature)
    } else if accounts.pool_owner@ != program_id {
        Err(SwapError::IllegalOwner)
    } else {
        match decode_pool(record) {
            None => Err(SwapError::InvalidAccountData),
            Some(p) => if !deposit_accounts_bound(p, accounts) {
                Err(SwapError::InvalidAccountData)
            } else {
                match mint_supply_result(lp_mint_data) {
                    Err(e) => Err(e),
                    Ok(lp_supply) => match deposit_step(p, lp_supply, min_a, max_a, min_b, max_b) {
                        Err(e) => Err(e),
                        Ok((q, a, b, lp)) => Ok(
                            (
                                q,
                                seq![
                                    OperationModel::Transfer {
                                        source: accounts.source_a@,
                                        destination: accounts.destination_a@,
                                        authority: AuthorityModel::Owner { key: accounts.owner@ },
                                        amount: a,
                                    },
                                    OperationModel::Transfer {
                                        source: accounts.source_b@,
                                        destination: accounts.destination_b@,
                                        authority: AuthorityModel::Owner { key: accounts.owner@ },
                                        amount: b,
                                    },
                                    OperationModel::MintTo {
                                        mint: p.lp_mint,
                                        destination: accounts.destination_lp@,
                                        authority: AuthorityModel::Pool {
                                            address: accounts.pool@,
                                            seed: p.seed,
                                        },
                                        amount: lp,
                                    },
                                ],
                            ),
                        ),
                    },
                }
            },
        }
    }
}

/// The direction of a swap: `Some(true)` from A to B, `Some(false)` from B to
/// A, `None` when the pool accounts named are not the pool's pair.
pub open spec fn swap_direction(p: PoolModel, accounts: SwapAccounts) -> Option<bool> {
    if accounts.input_destination@ == p.token_account_a && accounts.output_source@
        == p.token_account_b {
        Some(true)
    } else if accounts.input_destination@ == p.token_account_b && accounts.output_source@
        == p.token_account_a {
        Some(false)
    } else {
        None
    }
}

/// What Swap decides: the new pool and the token operations to perform, or
/// why it is refused.
pub open spec fn swap_outcome(
    program_id: Seq<u8>,
    accounts: SwapAccounts,
    record: Seq<u8>,
    input_destination_data: Seq<u8>,
    output_source_data: Seq<u8>,
    in_amount: u64,
    min_out_amount: u64,
) -> Result<(PoolModel, Seq<OperationModel>), SwapError> {
    if !accounts.owner_is_signer {
        Err(SwapError::MissingRequiredSignature)
    } else if accounts.pool_owner@ != program_id {
        Err(SwapError::IllegalOwner)
    } else {
        match decode_pool(record) {
            None => Err(SwapError::InvalidAccountData),
            Some(p) => match swap_direction(p, accounts) {
                None => Err(SwapError::InvalidAccountData),
                Some(a_to_b) => match token_account_result(input_destination_data) {
                    Err(e) => Err(e),
                    Ok(_) => match token_account_result(output_source_data) {
                        Err(e) => Err(e),
                        Ok(_) => match swap_step(p, a_to_b, in_amount, min_out_amount) {
                            Err(e) => Err(e),
                            Ok((q, out)) => Ok(
                                (
                                    q,
                                    seq![
                                        OperationModel::Transfer {
                                            source: accounts.input_source@,
                                            destination: accounts.input_destination@,
                                            authority: AuthorityModel::Owner {
                                                key: accounts.owner@,
                                            },
                                            amount: in_amount,
                                        },
                                        OperationModel::Transfer {
                                            source: accounts.output_source@,
                                            destination: accounts.output_destination@,
                                            authority: AuthorityModel::Pool {
                                                address: accounts.pool@,
                                                seed: p.seed,
                                            },
                                            amount: out,
                                        },
                                    ],
                                ),
                            ),
                        },
                    },
                },
            },
        }
    }
}

/// Whether the accounts of a withdrawal are the ones pool `p` is bound to.
pub open spec fn withdraw_accounts_bound(p: PoolModel, accounts: WithdrawAccounts) -> bool {
    &&& p.token_account_a == accounts.source_a@
    &&& p.token_account_b == accounts.source_b@
    &&& p.lp_mint == accounts.lp_mint@
}

/// What Withdraw decides: the new pool and the token operations to perform,
/// or why it is refused.
pub open spec fn withdraw_outcome(
    program_id: Seq<u8>,
    accounts: WithdrawAccounts,
    record: Seq<u8>,
    lp_mint_data: Seq<u8>,
    lp_amount: u64,
    min_a: u64,
    min_b: u64,
) -> Result<(PoolModel, Seq<OperationModel>), SwapError> {
    if !accounts.owner_is_signer {
        Err(SwapError::MissingRequiredSignature)
    } else if accounts.pool_owner@ != program_id {
        Err(SwapError::IllegalOwner)
    } else {
        match decode_pool(record) {
            None => Err(SwapError::InvalidAccountData),
            Some(p) => if !withdraw_accounts_bound(p, accounts) {
                Err(SwapError::InvalidAccountData)
            } else {
                match mint_supply_result(lp_mint_data) {
                    Err(e) => Err(e),
                    Ok(lp_supply) => match withdraw_step(p, lp_supply, lp_amount, min_a, min_b) {
                        Err(e) => Err(e),
                        Ok((q, a, b)) => Ok(
                            (
                                q,
                                seq![
                                    OperationModel::Burn {
                                        source: accounts.source_lp@,
                                        mint: p.lp_mint,
                                        authority: AuthorityModel::Owner { key: accounts.owner@ },
                                        amount: lp_amount,
                                    },
                                    OperationModel::Transfer {
                                        source: p.token_account_a,
                                        destination: accounts.destination_a@,
                                        authority: AuthorityModel::Pool {
                                            address: accounts.pool@,
                                            seed: p.seed,
                                        },
                                        amount: a,
                                    },
                                    OperationModel::Transfer {
                                        source: p.token_account_b,
                                        destination: accounts.destination_b@,
                                        authority: AuthorityModel::Pool {
                                            address: accounts.pool@,
                                            seed: p.seed,
                                        },
                                        amount: b,
                                    },
                                ],
                            ),
                        ),
                    },
                }
            },
        }
    }
}

/// Builds the record of a new pool whose LP mint is `lp_mint`.
pub fn new_pool(
    seed: [u8; 32],
    token_account_a: [u8; 32],
    token_account_b: [u8; 32],
    lp_mint: [u8; 32],
    lp_fee_rate: u32,
    creator_fee_rate: u32,
    creator: [u8; 32],
) -> (r: SwapPool)
    ensures
        r@ == initial_pool(
            seed@,
            token_account_a@,
            token_account_b@,
            lp_mint@,
            lp_fee_rate,
            creator_fee_rate,
            creator@,
        ),
{
    let creator_fee = if creator_fee_rate > 0 {
        Some(CreatorFee { rate: creator_fee_rate, balance_a: 0, balance_b: 0, withdraw_authority: creator })
    } else {
        None
    };
    SwapPool {
        seed,
        token_account_a,
        token_account_b,
        balance_a: 0,
        balance_b: 0,
        lp_mint,
        lp_fee_rate,
        creator_fee,
    }
}

/// Decides a CreatePool instruction: checks the signer and that the two
/// mints differ, derives the LP mint from the pool's address, and returns the
/// record to store.
pub fn process_create_pool(
    program_id: &[u8; 32],
    accounts: &CreatePoolAccounts,
    seed: [u8; 32],
    lp_fee_rate: u32,
    creator_fee_rate: u32,
) -> (r: Result<SwapPool, SwapError>)
    ensures
        match create_pool_outcome(program_id@, *accounts, seed@, lp_fee_rate, creator_fee_rate) {
            Ok(p) => r is Ok && r.unwrap()@ == p,
            Err(e) => r == Err::<SwapPool, SwapError>(e),
        },
{
    if !accounts.fee_payer_is_signer {
        return Err(SwapError::MissingRequiredSignature);
    }
    if keys_equal(&accounts.mint_a, &accounts.mint_b) {
        return Err(SwapError::InvalidAccountData);
    }
    let lp_mint = match find_derived_address(&accounts.pool, LP_MINT_TAG.as_slice(), program_id) {
        Some(k) => k,
        None => return Err(SwapError::InvalidSeeds),
    };
    Ok(
        new_pool(
            seed,
            accounts.token_account_a,
            accounts.token_account_b,
            lp_mint,
            lp_fee_rate,
            creator_fee_rate,
            accounts.fee_payer,
        ),
    )
}

/// Decides a Deposit instruction against the pool record `pool_data` and the
/// LP mint's account data. On success `pool_data` holds the updated record
/// and the result lists the transfers and the mint to perform; on failure
/// `pool_data` is unchanged. A missing signature is refused before anything
/// else is read.
pub fn process_deposit(
    program_id: &[u8; 32],
    accounts: &DepositAccounts,
    pool_data: &mut [u8],
    lp_mint_data: &[u8],
    min_a: u64,
    max_a: u64,
    min_b: u64,
    max_b: u64,
) -> (r: Result<Vec<TokenOperation>, SwapError>)
    ensures
        !accounts.owner_is_signer ==> r == Err::<Vec<TokenOperation>, SwapError>(
            SwapError::MissingRequiredSignature,
        ) && final(pool_data)@ == old(pool_data)@,
        (decode_pool(old(pool_data)@) is Some && !deposit_accounts_bound(decode_pool(old(pool_data)@).unwrap(), *accounts)) ==> r is Err && final(pool_data)@
            == old(pool_data)@,
        match deposit_outcome(
            program_id@,
            *accounts,
            old(pool_data)@,
            lp_mint_data@,
            min_a,
            max_a,
            min_b,
            max_b,
        ) {
            Ok((q, ops)) => r is Ok && operations_view(r.unwrap()@) == ops && final(pool_data)@
                == encode_pool(q),
            Err(e) => r == Err::<Vec<TokenOperation>, SwapError>(e) && final(pool_data)@ == old(
                pool_data,
            )@,
        },
{
    if !accounts.owner_is_signer {
        return Err(SwapError::MissingRequiredSignature);
    }
    if !keys_equal(&accounts.pool_owner, program_id) {
        return Err(SwapError::IllegalOwner);
    }
    let mut pool = match SwapPool::unpack(pool_data) {
        Ok(p) => p,
        Err(e) => return Err(e),
    };
    if !keys_equal(&pool.token_account_a, &accounts.destination_a) || !keys_equal(
        &pool.token_account_b,
        &accounts.destination_b,
    ) || !keys_equal(&pool.lp_mint, &accounts.lp_mint) {
        return Err(SwapError::InvalidAccountData);
    }
    let lp_supply = match mint_supply(lp_mint_data) {
        Ok(s) => s,
        Err(e) => return Err(e),
    };
    let (a, b, lp) = match apply_deposit(&mut pool, lp_supply, min_a, max_a, min_b, max_b) {
        Ok(t) => t,
        Err(e) => return Err(e),
    };
    let mut ops: Vec<TokenOperation> = Vec::new();
    ops.push(
        TokenOperation::Transfer {
            source: accounts.source_a,
            destination: accounts.destination_a,
            authority: Authority::Owner { key: accounts.owner },
            amount: a,
        },
    );
    ops.push(
        TokenOperation::Transfer {
            source: accounts.source_b,
            destination: accounts.destination_b,
            authority: Authority::Owner { key: accounts.owner },
            amount: b,
        },
    );
    ops.push(
        TokenOperation::MintTo {
            mint: pool.lp_mint,
            destination: accounts.destination_lp,
            authority: Authority::Pool { address: accounts.pool, seed: pool.seed },
            amount: lp,
        },
    );
    match pool.pack(pool_data) {
        Ok(()) => {},
        Err(e) => return Err(e),
    }
    assert(operations_view(ops@) =~= deposit_outcome(
        program_id@,
        *accounts,
        old(pool_data)@,
        lp_mint_data@,
        min_a,
        max_a,
        min_b,
        max_b,
    )->Ok_0.1);
    Ok(ops)
}

/// Decides a Swap instruction against the pool record `pool_data` and the
/// data of the two pool token accounts named. The direction follows from
/// which pool account receives the input; any other pairing is refused. On
/// success `pool_data` holds the updated record and the result lists the two
/// transfers to perform; on failure `pool_data` is unchanged.
pub fn process_swap(
    program_id: &[u8; 32],
    accounts: &SwapAccounts,
    pool_data: &mut [u8],
    input_destination_data: &[u8],
    output_source_data: &[u8],
    in_amount: u64,
    min_out_amount: u64,
) -> (r: Result<Vec<TokenOperation>, SwapError>)
    ensures
        !accounts.owner_is_signer ==> r == Err::<Vec<TokenOperation>, SwapError>(
            SwapError::MissingRequiredSignature,
        ) && final(pool_data)@ == old(pool_data)@,
        (decode_pool(old(pool_data)@) is Some && swap_direction(decode_pool(old(pool_data)@).unwrap(), *accounts) is None) ==> r is Err && final(pool_data)@
            == old(pool_data)@,
        match swap_outcome(
            program_id@,
            *accounts,
            old(pool_data)@,
            input_destination_data@,
            output_source_data@,
            in_amount,
            min_out_amount,
        ) {
            Ok((q, ops)) => r is Ok && operations_view(r.unwrap()@) == ops && final(pool_data)@
                == encode_pool(q),
            Err(e) => r == Err::<Vec<TokenOperation>, SwapError>(e) && final(pool_data)@ == old(
                pool_data,
            )@,
        },
{
    if !accounts.owner_is_signer {
        return Err(SwapError::MissingRequiredSignature);
    }
    if !keys_equal(&accounts.pool_owner, program_id) {
        return Err(SwapError::IllegalOwner);
    }
    let mut pool = match SwapPool::unpack(pool_data) {
        Ok(p) => p,
        Err(e) => return Err(e),
    };
    let a_to_b = if keys_equal(&accounts.input_destination, &pool.token_account_a) && keys_equal(
        &accounts.output_source,
        &pool.token_account_b,
    ) {
        true
    } else if keys_equal(&accounts.input_destination, &pool.token_account_b) && keys_equal(
        &accounts.output_source,
        &pool.token_account_a,
    ) {
        false
    } else {
        return Err(SwapError::InvalidAccountData);
    };
    match check_token_account(input_destination_data) {
        Ok(()) => {},
        Err(e) => return Err(e),
    }
    match check_token_account(output_source_data) {
        Ok(()) => {},
        Err(e) => return Err(e),
    }
    let out = match apply_swap(&mut pool, a_to_b, in_amount, min_out_amount) {
        Ok(v) => v,
        Err(e) => return Err(e),
    };
    let mut ops: Vec<TokenOperation> = Vec::new();
    ops.push(
        TokenOperation::Transfer {
            source: accounts.input_source,
            destination: accounts.input_destination,
            authority: Authority::Owner { key: accounts.owner },
            amount: in_amount,
        },
    );
    ops.push(
        TokenOperation::Transfer {
            source: accounts.output_source,
            destination: accounts.output_destination,
            authority: Authority::Pool { address: accounts.pool, seed: pool.seed },
            amount: out,
        },
    );
    match pool.pack(pool_data) {
        Ok(()) => {},
        Err(e) => return Err(e),
    }
    assert(operations_view(ops@) =~= swap_outcome(
        program_id@,
        *accounts,
        old(pool_data)@,
        input_destination_data@,
        output_source_data@,
        in_amount,
        min_out_amount,
    )->Ok_0.1);
    Ok(ops)
}

/// Decides a Withdraw instruction against the pool record `pool_data` and
/// the LP mint's account data. On success `pool_data` holds the updated
/// record and the result lists the burn and the two transfers to perform; on
/// failure `pool_data` is unchanged.
pub fn process_withdraw(
    program_id: &[u8; 32],
    accounts: &WithdrawAccounts,
    pool_data: &mut [u8],
    lp_mint_data: &[u8],
    lp_amount: u64,
    min_a: u64,
    min_b: u64,
) -> (r: Result<Vec<TokenOperation>, SwapError>)
    ensures
        !accounts.owner_is_signer ==> r == Err::<Vec<TokenOperation>, SwapError>(
            SwapError::MissingRequiredSignature,
        ) && final(pool_data)@ == old(pool_data)@,
        (decode_pool(old(pool_data)@) is Some && !withdraw_accounts_bound(decode_pool(old(pool_data)@).unwrap(), *accounts)) ==> r is Err && final(pool_data)@
            == old(pool_data)@,
        match withdraw_outcome(
            program_id@,
            *accounts,
            old(pool_data)@,
            lp_mint_data@,
            lp_amount,
            min_a,
            min_b,
        ) {
            Ok((q, ops)) => r is Ok && operations_view(r.unwrap()@) == ops && final(pool_data)@
                == encode_pool(q),
            Err(e) => r == Err::<Vec<TokenOperation>, SwapError>(e) && final(pool_data)@ == old(
                pool_data,
            )@,
        },
{
    if !accounts.owner_is_signer {
        return Err(SwapError::MissingRequiredSignature);
    }
    if !keys_equal(&accounts.pool_owner, program_id) {
        return Err(SwapError::IllegalOwner);
    }
    let mut pool = match SwapPool::unpack(pool_data) {
        Ok(p) => p,
        Err(e) => return Err(e),
    };
    if !keys_equal(&pool.token_account_a, &accounts.source_a) || !keys_equal(
        &pool.token_account_b,
        &accounts.source_b,
    ) || !keys_equal(&pool.lp_mint, &accounts.lp_mint) {
        return Err(SwapError::InvalidAccountData);
    }
    let lp_supply = match mint_supply(lp_mint_data) {
        Ok(s) => s,
        Err(e) => return Err(e),
    };
    let (a, b) = match apply_withdraw(&mut pool, lp_supply, lp_amount, min_a, min_b) {
        Ok(t) => t,
        Err(e) => return Err(e),
    };
    let mut ops: Vec<TokenOperation> = Vec::new();
    ops.push(
        TokenOperation::Burn {
            source: accounts.source_lp,
            mint: pool.lp_mint,
            authority: Authority::Owner { key: accounts.owner },
            amount: lp_amount,
        },
    );
    ops.push(
        TokenOperation::Transfer {
            source: pool.token_account_a,
            destination: accounts.destination_a,
            authority: Authority::Pool { address: accounts.pool, seed: pool.seed },
            amount: a,
        },
    );
    ops.push(
        TokenOperation::Transfer {
            source: pool.token_account_b,
            destination: accounts.destination_b,
            authority: Authority::Pool { address: accounts.pool, seed: pool.seed },
            amount: b,
        },
    );
    match pool.pack(pool_data) {
        Ok(()) => {},
        Err(e) => return Err(e),
    }
    assert(operations_view(ops@) =~= withdraw_outcome(
        program_id@,
        *accounts,
        old(pool_data)@,
        lp_mint_data@,
        lp_amount,
        min_a,
        min_b,
    )->Ok_0.1);
    Ok(ops)
}

} // verus!
