use hodor_program::error::SwapError;
use hodor_program::processor::{
    apply_deposit, apply_swap, apply_withdraw, new_pool, process_create_pool, process_deposit, process_swap,
    process_withdraw, Authority, CreatePoolAccounts, DepositAccounts, SwapAccounts, TokenOperation,
    WithdrawAccounts, LP_MINT_TAG,
};
use hodor_program::state::{CreatorFee, SwapPool};
use solana_program::program_option::COption;
use solana_program::program_pack::Pack;
use solana_program::pubkey::Pubkey;
use spl_token::state::{Account, AccountState, Mint};

const PROGRAM_ID: [u8; 32] = [7; 32];
const POOL: [u8; 32] = [10; 32];
const OWNER: [u8; 32] = [11; 32];
const SEED: [u8; 32] = [12; 32];
const POOL_A: [u8; 32] = [13; 32];
const POOL_B: [u8; 32] = [14; 32];
const LP_MINT: [u8; 32] = [15; 32];
const USER_A: [u8; 32] = [16; 32];
const USER_B: [u8; 32] = [17; 32];
const USER_LP: [u8; 32] = [18; 32];

fn mint_data(supply: u64, is_initialized: bool) -> Vec<u8> {
    let mint = Mint {
        mint_authority: COption::Some(Pubkey::new_from_array(POOL)),
        supply,
        decimals: 6,
        is_initialized,
        freeze_authority: COption::None,
    };
    let mut data = vec![0u8; Mint::LEN];
    mint.pack_into_slice(&mut data);
    data
}

fn token_account_data(state: AccountState) -> Vec<u8> {
    let account = Account {
        mint: Pubkey::new_unique(),
        owner: Pubkey::new_from_array(POOL),
        amount: 5,
        state,
        ..Account::default()
    };
    let mut data = vec![0u8; Account::LEN];
    account.pack_into_slice(&mut data);
    data
}

fn pool_with(balance_a: u64, balance_b: u64, lp_fee_rate: u32, creator_fee: Option<CreatorFee>) -> SwapPool {
    SwapPool {
        seed: SEED,
        token_account_a: POOL_A,
        token_account_b: POOL_B,
        balance_a,
        balance_b,
        lp_mint: LP_MINT,
        lp_fee_rate,
        creator_fee,
    }
}

fn deposit_accounts() -> DepositAccounts {
    DepositAccounts {
        owner: OWNER,
        owner_is_signer: true,
        pool: POOL,
        pool_owner: PROGRAM_ID,
        source_a: USER_A,
        destination_a: POOL_A,
        source_b: USER_B,
        destination_b: POOL_B,
        lp_mint: LP_MINT,
        destination_lp: USER_LP,
    }
}

fn swap_accounts(a_to_b: bool) -> SwapAccounts {
    let (input_destination, output_source, input_source, output_destination) =
        if a_to_b { (POOL_A, POOL_B, USER_A, USER_B) } else { (POOL_B, POOL_A, USER_B, USER_A) };
    SwapAccounts {
        owner: OWNER,
        owner_is_signer: true,
        pool: POOL,
        pool_owner: PROGRAM_ID,
        input_source,
        input_destination,
        output_source,
        output_destination,
    }
}

fn withdraw_accounts() -> WithdrawAccounts {
    WithdrawAccounts {
        owner: OWNER,
        owner_is_signer: true,
        pool: POOL,
        pool_owner: PROGRAM_ID,
        source_a: POOL_A,
        destination_a: USER_A,
        source_b: POOL_B,
        destination_b: USER_B,
        lp_mint: LP_MINT,
        source_lp: USER_LP,
    }
}

fn pool_authority() -> Authority {
    Authority::Pool { address: POOL, seed: SEED }
}

fn create_accounts() -> CreatePoolAccounts {
    CreatePoolAccounts {
        fee_payer: OWNER,
        fee_payer_is_signer: true,
        pool: POOL,
        mint_a: [20; 32],
        token_account_a: POOL_A,
        mint_b: [21; 32],
        token_account_b: POOL_B,
    }
}

#[test]
fn create_pool_derives_lp_mint_and_sizes_record() {
    let pool = process_create_pool(&PROGRAM_ID, &create_accounts(), SEED, 3_000, 1_000).unwrap();
    let (expected_mint, _) = Pubkey::find_program_address(
        &[POOL.as_ref(), LP_MINT_TAG.as_ref()],
        &Pubkey::new_from_array(PROGRAM_ID),
    );
    assert_eq!(pool.lp_mint, expected_mint.to_bytes());
    assert_ne!(pool.lp_mint, POOL);
    assert_eq!(pool.seed, SEED);
    assert_eq!((pool.token_account_a, pool.token_account_b), (POOL_A, POOL_B));
    assert_eq!((pool.balance_a, pool.balance_b, pool.lp_fee_rate), (0, 0, 3_000));
    assert_eq!(
        pool.creator_fee,
        Some(CreatorFee { rate: 1_000, balance_a: 0, balance_b: 0, withdraw_authority: OWNER })
    );
    assert_eq!(pool.packed_len(), SwapPool::WITH_CREATOR_FEE_SIZE);

    let without_fee = process_create_pool(&PROGRAM_ID, &create_accounts(), SEED, 3_000, 0).unwrap();
    assert_eq!(without_fee.creator_fee, None);
    assert_eq!(without_fee.packed_len(), SwapPool::BASE_SIZE);
}

#[test]
fn create_pool_rejections() {
    let mut unsigned = create_accounts();
    unsigned.fee_payer_is_signer = false;
    assert_eq!(process_create_pool(&PROGRAM_ID, &unsigned, SEED, 0, 0), Err(SwapError::MissingRequiredSignature));

    let mut same_mints = create_accounts();
    same_mints.mint_b = same_mints.mint_a;
    assert_eq!(process_create_pool(&PROGRAM_ID, &same_mints, SEED, 0, 0), Err(SwapError::InvalidAccountData));
}

#[test]
fn new_pool_starts_empty() {
    let pool = new_pool(SEED, POOL_A, POOL_B, LP_MINT, 5, 0, OWNER);
    assert_eq!(pool, pool_with(0, 0, 5, None));
}

#[test]
fn deposit_into_empty_pool() {
    let mut record = pool_with(0, 0, 0, None).to_bytes();
    let ops = process_deposit(&PROGRAM_ID, &deposit_accounts(), &mut record, &mint_data(0, true), 69, 69, 420, 420)
        .unwrap();
    assert_eq!(
        ops,
        vec![
            TokenOperation::Transfer {
                source: USER_A,
                destination: POOL_A,
                authority: Authority::Owner { key: OWNER },
                amount: 69
            },
            TokenOperation::Transfer {
                source: USER_B,
                destination: POOL_B,
                authority: Authority::Owner { key: OWNER },
                amount: 420
            },
            TokenOperation::MintTo {
                mint: LP_MINT,
                destination: USER_LP,
                authority: pool_authority(),
                amount: 10_000_000_000
            },
        ]
    );
    assert_eq!(SwapPool::unpack(&record).unwrap(), pool_with(69, 420, 0, None));
}

#[test]
fn deposit_proportional_reads_mint_supply() {
    let mut record = pool_with(100, 100, 0, None).to_bytes();
    let ops =
        process_deposit(&PROGRAM_ID, &deposit_accounts(), &mut record, &mint_data(10_000, true), 0, 110, 0, 100)
            .unwrap();
    assert_eq!(ops.len(), 3);
    assert!(matches!(ops[2], TokenOperation::MintTo { amount: 10_000, .. }));
    assert_eq!(SwapPool::unpack(&record).unwrap(), pool_with(200, 200, 0, None));
}

#[test]
fn unauthorized_deposit_leaves_record_untouched() {
    let stored = pool_with(100, 100, 0, None).to_bytes();

    let mut unsigned = deposit_accounts();
    unsigned.owner_is_signer = false;
    let mut record = stored.clone();
    assert_eq!(
        process_deposit(&PROGRAM_ID, &unsigned, &mut record, &mint_data(10_000, true), 0, 10, 0, 10),
        Err(SwapError::MissingRequiredSignature)
    );
    assert_eq!(record, stored);

    let mut wrong_account = deposit_accounts();
    wrong_account.destination_a = USER_A;
    let mut record = stored.clone();
    assert_eq!(
        process_deposit(&PROGRAM_ID, &wrong_account, &mut record, &mint_data(10_000, true), 0, 10, 0, 10),
        Err(SwapError::InvalidAccountData)
    );
    assert_eq!(record, stored);

    let mut wrong_mint = deposit_accounts();
    wrong_mint.lp_mint = USER_LP;
    let mut record = stored.clone();
    assert_eq!(
        process_deposit(&PROGRAM_ID, &wrong_mint, &mut record, &mint_data(10_000, true), 0, 10, 0, 10),
        Err(SwapError::InvalidAccountData)
    );
    assert_eq!(record, stored);

    let mut foreign_owner = deposit_accounts();
    foreign_owner.pool_owner = OWNER;
    let mut record = stored.clone();
    assert_eq!(
        process_deposit(&PROGRAM_ID, &foreign_owner, &mut record, &mint_data(10_000, true), 0, 10, 0, 10),
        Err(SwapError::IllegalOwner)
    );
    assert_eq!(record, stored);
}

#[test]
fn deposit_error_variants() {
    let stored = pool_with(100, 100, 0, None).to_bytes();

    let mut record = stored.clone();
    assert_eq!(
        process_deposit(&PROGRAM_ID, &deposit_accounts(), &mut record, &mint_data(10_000, false), 0, 10, 0, 10),
        Err(SwapError::UninitializedAccount)
    );
    assert_eq!(record, stored);

    let mut record = stored.clone();
    assert_eq!(
        process_deposit(&PROGRAM_ID, &deposit_accounts(), &mut record, &[0u8; 10], 0, 10, 0, 10),
        Err(SwapError::InvalidAccountData)
    );

    let mut record = stored.clone();
    assert_eq!(
        process_deposit(&PROGRAM_ID, &deposit_accounts(), &mut record, &mint_data(10_000, true), 11, 10, 0, 10),
        Err(SwapError::InvalidInstructionData)
    );
    assert_eq!(record, stored);

    let mut corrupt = stored.clone();
    corrupt[0] = 0;
    let copy = corrupt.clone();
    assert_eq!(
        process_deposit(&PROGRAM_ID, &deposit_accounts(), &mut corrupt, &mint_data(10_000, true), 0, 10, 0, 10),
        Err(SwapError::InvalidAccountData)
    );
    assert_eq!(corrupt, copy);
}

#[test]
fn swap_a_to_b_with_creator_fee() {
    let creator = CreatorFee { rate: 1_000_000, balance_a: 7, balance_b: 8, withdraw_authority: OWNER };
    let mut record = pool_with(1_000_000, 1_000_000, 1_000_000, Some(creator)).to_bytes();
    let data = token_account_data(AccountState::Initialized);
    let ops = process_swap(&PROGRAM_ID, &swap_accounts(true), &mut record, &data, &data, 100_000, 89_130).unwrap();
    assert_eq!(
        ops,
        vec![
            TokenOperation::Transfer {
                source: USER_A,
                destination: POOL_A,
                authority: Authority::Owner { key: OWNER },
                amount: 100_000
            },
            TokenOperation::Transfer { source: POOL_B, destination: USER_B, authority: pool_authority(), amount: 89_130 },
        ]
    );
    let expected_creator = CreatorFee { rate: 1_000_000, balance_a: 1_007, balance_b: 8, withdraw_authority: OWNER };
    assert_eq!(SwapPool::unpack(&record).unwrap(), pool_with(1_098_950, 910_870, 1_000_000, Some(expected_creator)));
}

#[test]
fn swap_b_to_a() {
    let mut record = pool_with(2_000_000, 500_000, 3_000_000, None).to_bytes();
    let data = token_account_data(AccountState::Frozen);
    let ops = process_swap(&PROGRAM_ID, &swap_accounts(false), &mut record, &data, &data, 100_000, 0).unwrap();
    assert_eq!(
        ops[1],
        TokenOperation::Transfer { source: POOL_A, destination: USER_A, authority: pool_authority(), amount: 323_193 }
    );
    assert_eq!(SwapPool::unpack(&record).unwrap(), pool_with(1_676_807, 599_950, 3_000_000, None));
}

#[test]
fn swap_rejections_leave_record_untouched() {
    let stored = pool_with(1_000_000, 1_000_000, 0, None).to_bytes();
    let data = token_account_data(AccountState::Initialized);

    let mut mismatched = swap_accounts(true);
    mismatched.output_source = POOL_A;
    let mut record = stored.clone();
    assert_eq!(
        process_swap(&PROGRAM_ID, &mismatched, &mut record, &data, &data, 10, 0),
        Err(SwapError::InvalidAccountData)
    );
    assert_eq!(record, stored);

    let mut unsigned = swap_accounts(true);
    unsigned.owner_is_signer = false;
    let mut record = stored.clone();
    assert_eq!(
        process_swap(&PROGRAM_ID, &unsigned, &mut record, &data, &data, 10, 0),
        Err(SwapError::MissingRequiredSignature)
    );
    assert_eq!(record, stored);

    let uninitialized = token_account_data(AccountState::Uninitialized);
    let mut record = stored.clone();
    assert_eq!(
        process_swap(&PROGRAM_ID, &swap_accounts(true), &mut record, &uninitialized, &data, 10, 0),
        Err(SwapError::UninitializedAccount)
    );
    assert_eq!(record, stored);

    let mut record = stored.clone();
    assert_eq!(
        process_swap(&PROGRAM_ID, &swap_accounts(true), &mut record, &data, &data[..100], 10, 0),
        Err(SwapError::InvalidAccountData)
    );

    let mut record = stored.clone();
    assert_eq!(
        process_swap(&PROGRAM_ID, &swap_accounts(true), &mut record, &data, &data, 100_000, 100_000),
        Err(SwapError::InvalidInstructionData)
    );
    assert_eq!(record, stored);
}

#[test]
fn withdraw_full_supply_empties_pool() {
    let mut record = pool_with(69, 420, 0, None).to_bytes();
    let ops = process_withdraw(
        &PROGRAM_ID,
        &withdraw_accounts(),
        &mut record,
        &mint_data(10_000_000_000, true),
        10_000_000_000,
        69,
        420,
    )
    .unwrap();
    assert_eq!(
        ops,
        vec![
            TokenOperation::Burn {
                source: USER_LP,
                mint: LP_MINT,
                authority: Authority::Owner { key: OWNER },
                amount: 10_000_000_000
            },
            TokenOperation::Transfer { source: POOL_A, destination: USER_A, authority: pool_authority(), amount: 69 },
            TokenOperation::Transfer { source: POOL_B, destination: USER_B, authority: pool_authority(), amount: 420 },
        ]
    );
    assert_eq!(SwapPool::unpack(&record).unwrap(), pool_with(0, 0, 0, None));
}

#[test]
fn withdraw_rejections_leave_record_untouched() {
    let stored = pool_with(10_000, 10_000, 0, None).to_bytes();

    let mut wrong_source = withdraw_accounts();
    wrong_source.source_b = USER_B;
    let mut record = stored.clone();
    assert_eq!(
        process_withdraw(&PROGRAM_ID, &wrong_source, &mut record, &mint_data(100_000, true), 10, 0, 0),
        Err(SwapError::InvalidAccountData)
    );
    assert_eq!(record, stored);

    let mut record = stored.clone();
    assert_eq!(
        process_withdraw(&PROGRAM_ID, &withdraw_accounts(), &mut record, &mint_data(100_000, true), 50_000, 5_000, 0),
        Err(SwapError::InvalidInstructionData)
    );
    assert_eq!(record, stored);

    let mut record = stored.clone();
    let ops =
        process_withdraw(&PROGRAM_ID, &withdraw_accounts(), &mut record, &mint_data(100_000, true), 50_000, 4_999, 0)
            .unwrap();
    assert_eq!(ops.len(), 3);
    assert_eq!(SwapPool::unpack(&record).unwrap(), pool_with(5_001, 5_001, 0, None));
}

#[test]
fn transitions_on_pool_values() {
    let mut pool = pool_with(0, 0, 0, None);
    assert_eq!(apply_deposit(&mut pool, 0, 0, 69, 0, 420), Ok((69, 420, 10_000_000_000)));
    assert_eq!((pool.balance_a, pool.balance_b), (69, 420));

    let before = pool.clone();
    assert_eq!(apply_deposit(&mut pool, 0, 70, 69, 0, 420), Err(SwapError::InvalidInstructionData));
    assert_eq!(pool, before);

    let mut full = pool_with(u64::MAX, 1, 0, None);
    assert_eq!(apply_deposit(&mut full, 0, 0, 1, 0, 1), Err(SwapError::InvalidInstructionData));

    let mut pool = pool_with(1_000_000, 1_000_000, 0, None);
    assert_eq!(apply_swap(&mut pool, true, 100_000, 0), Ok(90_867));
    assert_eq!((pool.balance_a, pool.balance_b), (1_099_950, 909_133));

    let mut pool = pool_with(10, 20, 0, None);
    assert_eq!(apply_withdraw(&mut pool, 100, 100, 10, 20), Ok((10, 20)));
    assert_eq!((pool.balance_a, pool.balance_b), (0, 0));
    let mut pool = pool_with(10, 20, 0, None);
    assert_eq!(apply_withdraw(&mut pool, 100, 100, 11, 20), Err(SwapError::InvalidInstructionData));
    assert_eq!(pool, pool_with(10, 20, 0, None));
}
