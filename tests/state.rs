use hodor_program::error::SwapError;
use hodor_program::state::{CreatorFee, SwapPool};
use solana_program::pubkey::Pubkey;

#[test]
fn test_swap_pool_pack_unpack() {
    let pool_without_creator_fee = SwapPool {
        seed: Pubkey::new_unique().to_bytes(),
        token_account_a: Pubkey::new_unique().to_bytes(),
        token_account_b: Pubkey::new_unique().to_bytes(),
        balance_a: 100,
        balance_b: 150,
        lp_mint: Pubkey::new_unique().to_bytes(),
        lp_fee_rate: 5_000,
        creator_fee: None,
    };
    let mut state_array = [0u8; SwapPool::BASE_SIZE];
    pool_without_creator_fee.pack(&mut state_array).unwrap();
    assert_eq!(pool_without_creator_fee, SwapPool::unpack(&state_array).unwrap());
    assert!(pool_without_creator_fee.pack(&mut [0u8; SwapPool::WITH_CREATOR_FEE_SIZE]).is_err());

    let pool_with_creator_fee = SwapPool {
        seed: Pubkey::new_unique().to_bytes(),
        token_account_a: Pubkey::new_unique().to_bytes(),
        token_account_b: Pubkey::new_unique().to_bytes(),
        balance_a: 0,
        balance_b: 120,
        lp_mint: Pubkey::new_unique().to_bytes(),
        lp_fee_rate: 5_000,
        creator_fee: Some(CreatorFee {
            rate: 10_000,
            balance_a: 5_000,
            balance_b: 6_000,
            withdraw_authority: Default::default(),
        }),
    };
    let mut state_array = [0u8; SwapPool::WITH_CREATOR_FEE_SIZE];
    pool_with_creator_fee.pack(&mut state_array).unwrap();
    assert_eq!(pool_with_creator_fee, SwapPool::unpack(&state_array).unwrap());
    assert!(pool_with_creator_fee.pack(&mut [0u8; SwapPool::BASE_SIZE]).is_err());
}

fn sample_pool() -> SwapPool {
    SwapPool {
        seed: [1; 32],
        token_account_a: [2; 32],
        token_account_b: [3; 32],
        balance_a: 0x0102030405060708,
        balance_b: 9,
        lp_mint: [4; 32],
        lp_fee_rate: 0x0a0b0c0d,
        creator_fee: None,
    }
}

#[test]
fn pool_record_layout() {
    assert_eq!(SwapPool::BASE_SIZE, 149);
    assert_eq!(SwapPool::CREATOR_FEE_SIZE, 52);
    assert_eq!(SwapPool::WITH_CREATOR_FEE_SIZE, SwapPool::BASE_SIZE + SwapPool::CREATOR_FEE_SIZE);

    let pool = sample_pool();
    let bytes = pool.to_bytes();
    assert_eq!(bytes.len(), 149);
    assert_eq!(pool.packed_len(), 149);
    assert_eq!(bytes[0], SwapPool::TYPE_MARKER);
    assert_eq!(&bytes[1..33], &[1; 32]);
    assert_eq!(&bytes[33..65], &[2; 32]);
    assert_eq!(&bytes[65..97], &[3; 32]);
    assert_eq!(&bytes[97..105], &[8, 7, 6, 5, 4, 3, 2, 1]);
    assert_eq!(&bytes[105..113], &[9, 0, 0, 0, 0, 0, 0, 0]);
    assert_eq!(&bytes[113..145], &[4; 32]);
    assert_eq!(&bytes[145..149], &[0x0d, 0x0c, 0x0b, 0x0a]);

    let with_fee = SwapPool {
        creator_fee: Some(CreatorFee { rate: 7, balance_a: 1, balance_b: 2, withdraw_authority: [5; 32] }),
        ..sample_pool()
    };
    let bytes = with_fee.to_bytes();
    assert_eq!(bytes.len(), 201);
    assert_eq!(&bytes[149..153], &[7, 0, 0, 0]);
    assert_eq!(&bytes[153..161], &[1, 0, 0, 0, 0, 0, 0, 0]);
    assert_eq!(&bytes[161..169], &[2, 0, 0, 0, 0, 0, 0, 0]);
    assert_eq!(&bytes[169..201], &[5; 32]);
}

#[test]
fn pack_into_wrong_size_leaves_buffer_untouched() {
    let pool = sample_pool();
    let mut too_long = [0xaau8; SwapPool::WITH_CREATOR_FEE_SIZE];
    assert_eq!(pool.pack(&mut too_long), Err(SwapError::InvalidAccountData));
    assert!(too_long.iter().all(|b| *b == 0xaa));

    let with_fee = SwapPool {
        creator_fee: Some(CreatorFee { rate: 1, balance_a: 0, balance_b: 0, withdraw_authority: [0; 32] }),
        ..sample_pool()
    };
    let mut too_short = [0x55u8; SwapPool::BASE_SIZE];
    assert_eq!(with_fee.pack(&mut too_short), Err(SwapError::InvalidAccountData));
    assert!(too_short.iter().all(|b| *b == 0x55));
    assert!(with_fee.pack(&mut []).is_err());
}

#[test]
fn unpack_rejects_bad_marker_and_length() {
    let mut bytes = sample_pool().to_bytes();
    bytes[0] = 2;
    assert_eq!(SwapPool::unpack(&bytes), Err(SwapError::InvalidAccountData));

    let mut bytes = sample_pool().to_bytes();
    bytes.push(0);
    assert_eq!(SwapPool::unpack(&bytes), Err(SwapError::InvalidAccountData));
    assert_eq!(SwapPool::unpack(&[]), Err(SwapError::InvalidAccountData));
    assert_eq!(SwapPool::unpack(&[SwapPool::TYPE_MARKER; 148]), Err(SwapError::InvalidAccountData));
}
