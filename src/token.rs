use vstd::prelude::*;
use solana_program::program_error::ProgramError;
use solana_program::program_pack::Pack;
use solana_program::pubkey::Pubkey;
use crate::bytes::u64_at;
use crate::error::SwapError;

verus! {

/// Length of an spl-token mint account.
pub const MINT_LEN: usize = 82;

/// Length of an spl-token token account.
pub const TOKEN_ACCOUNT_LEN: usize = 165;

/// Whether the four bytes at `off` are a valid `COption` tag (`0` or `1`,
/// little-endian).
pub open spec fn coption_tag_ok(s: Seq<u8>, off: int) -> bool {
    (s[off] == 0 || s[off] == 1) && s[off + 1] == 0 && s[off + 2] == 0 && s[off + 3] == 0
}

/// What reading the supply of an spl-token mint out of its account data
/// gives: the data must be a well-formed, initialised mint.
pub open spec fn mint_supply_result(s: Seq<u8>) -> Result<u64, SwapError> {
    if s.len() != MINT_LEN || !coption_tag_ok(s, 0) || s[45] > 1 || !coption_tag_ok(s, 46) {
        Err(SwapError::InvalidAccountData)
    } else if s[45] == 0 {
        Err(SwapError::UninitializedAccount)
    } else {
        Ok(u64_at(s, 36))
    }
}

/// What checking that account data holds an spl-token account gives: the
/// data must be well formed and the account initialised (or frozen).
pub open spec fn token_account_result(s: Seq<u8>) -> Result<(), SwapError> {
    if s.len() != TOKEN_ACCOUNT_LEN || !coption_tag_ok(s, 72) || s[108] > 2 || !coption_tag_ok(
        s,
        109,
    ) || !coption_tag_ok(s, 129) {
        Err(SwapError::InvalidAccountData)
    } else if s[108] == 0 {
        Err(SwapError::UninitializedAccount)
    } else {
        Ok(())
    }
}

/// The program-derived address for the seeds `base` and `tag` under
/// `program_id`, if one exists.
pub uninterp spec fn derived_address(base: Seq<u8>, tag: Seq<u8>, program_id: Seq<u8>) -> Option<
    Seq<u8>,
>;

/// Relies on spl_token's `Mint::unpack` (through `Pack::unpack`): the length
/// must be 82, both `COption` tags and the initialised flag must be valid,
/// an uninitialised mint is refused, and the supply is the little-endian
/// `u64` at offset 36.
#[verifier::external_body]
pub(crate) fn mint_supply(data: &[u8]) -> (r: Result<u64, SwapError>)
    ensures
        r == mint_supply_result(data@),
{
    match spl_token::state::Mint::unpack(data) {
        Ok(mint) => Ok(mint.supply),
        Err(ProgramError::UninitializedAccount) => Err(SwapError::UninitializedAccount),
        Err(_) => Err(SwapError::InvalidAccountData),
    }
}

/// Relies on spl_token's `Account::unpack` (through `Pack::unpack`): the
/// length must be 165, the three `COption` tags and the state byte must be
/// valid, and an uninitialised account is refused.
#[verifier::external_body]
pub(crate) fn check_token_account(data: &[u8]) -> (r: Result<(), SwapError>)
    ensures
        r == token_account_result(data@),
{
    match spl_token::state::Account::unpack(data) {
        Ok(_) => Ok(()),
        Err(ProgramError::UninitializedAccount) => Err(SwapError::UninitializedAccount),
        Err(_) => Err(SwapError::InvalidAccountData),
    }
}

/// Relies on solana_program's `Pubkey::try_find_program_address` with the
/// seeds `[base, tag]`: the address depends on the seeds and the program id
/// alone.
#[verifier::external_body]
pub(crate) fn find_derived_address(base: &[u8; 32], tag: &[u8], program_id: &[u8; 32]) -> (r:
    Option<[u8; 32]>)
    ensures
        match r {
            Some(k) => derived_address(base@, tag@, program_id@) == Some(k@),
            None => derived_address(base@, tag@, program_id@) is None,
        },
{
    Pubkey::try_find_program_address(&[base.as_ref(), tag], &Pubkey::new_from_array(*program_id)).map(
        |(key, _)| key.to_bytes(),
    )
}

} // verus!
