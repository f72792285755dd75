use vstd::prelude::*;
use crate::bytes::{
    le_bytes_u32, le_bytes_u64, lemma_u32_bytes_round_trip, lemma_u32_round_trip,
    lemma_u64_bytes_round_trip, lemma_u64_round_trip, push_bytes, push_u32_le,
    push_u64_le, read_key, read_u32_le, read_u64_le, u32_at, u64_at,
};
use crate::error::SwapError;

verus! {

/// The pool creator's share of swap fees.
#[derive(Debug, PartialEq, Eq, Clone)]
pub struct CreatorFee {
    pub rate: u32,
    pub balance_a: u64,
    pub balance_b: u64,
    pub withdraw_authority: [u8; 32],
}

/// The persistent record of one pool.
#[derive(Debug, PartialEq, Eq, Clone)]
pub struct SwapPool {
    pub seed: [u8; 32],
    pub token_account_a: [u8; 32],
    pub token_account_b: [u8; 32],
    pub balance_a: u64,
    pub balance_b: u64,
    pub lp_mint: [u8; 32],
    pub lp_fee_rate: u32,
    pub creator_fee: Option<CreatorFee>,
}

/// The mathematical value of a `CreatorFee`.
pub struct CreatorFeeModel {
    pub rate: u32,
    pub balance_a: u64,
    pub balance_b: u64,
    pub withdraw_authority: Seq<u8>,
}

/// The mathematical value of a `SwapPool`.
pub struct PoolModel {
    pub seed: Seq<u8>,
    pub token_account_a: Seq<u8>,
    pub token_account_b: Seq<u8>,
    pub balance_a: u64,
    pub balance_b: u64,
    pub lp_mint: Seq<u8>,
    pub lp_fee_rate: u32,
    pub creator_fee: Option<CreatorFeeModel>,
}

impl View for CreatorFee {
    type V = CreatorFeeModel;

    open spec fn view(&self) -> CreatorFeeModel {
        CreatorFeeModel {
            rate: self.rate,
            balance_a: self.balance_a,
            balance_b: self.balance_b,
            withdraw_authority: self.withdraw_authority@,
        }
    }
}

impl View for SwapPool {
    type V = PoolModel;

    open spec fn view(&self) -> PoolModel {
        PoolModel {
            seed: self.seed@,
            token_account_a: self.token_account_a@,
            token_account_b: self.token_account_b@,
            balance_a: self.balance_a,
            balance_b: self.balance_b,
            lp_mint: self.lp_mint@,
            lp_fee_rate: self.lp_fee_rate,
            creator_fee: match self.creator_fee {
                Some(cf) => Some(cf@),
                None => None,
            },
        }
    }
}

/// A pool value that has an encoding: every key is 32 bytes.
pub open spec fn pool_wf(p: PoolModel) -> bool {
    &&& p.seed.len() == 32
    &&& p.token_account_a.len() == 32
    &&& p.token_account_b.len() == 32
    &&& p.lp_mint.len() == 32
    &&& match p.creator_fee {
        Some(cf) => cf.withdraw_authority.len() == 32,
        None => true,
    }
}

/// The length of a pool's encoding.
pub open spec fn encoded_size(p: PoolModel) -> int {
    if p.creator_fee is Some {
        SwapPool::WITH_CREATOR_FEE_SIZE as int
    } else {
        SwapPool::BASE_SIZE as int
    }
}

/// The bytes of a creator fee section.
pub open spec fn encode_creator_fee(cf: CreatorFeeModel) -> Seq<u8> {
    le_bytes_u32(cf.rate) + le_bytes_u64(cf.balance_a) + le_bytes_u64(cf.balance_b)
        + cf.withdraw_authority
}

/// The bytes of a pool record: the type marker, the fixed fields, then the
/// creator fee section when there is one.
pub open spec fn encode_pool(p: PoolModel) -> Seq<u8> {
    seq![SwapPool::TYPE_MARKER] + p.seed + p.token_account_a + p.token_account_b + le_bytes_u64(
        p.balance_a,
    ) + le_bytes_u64(p.balance_b) + p.lp_mint + le_bytes_u32(p.lp_fee_rate) + match p.creator_fee {
        Some(cf) => encode_creator_fee(cf),
        None => Seq::empty(),
    }
}

/// The pool record that `s` holds, if any: the marker must match and the
/// length must be one of the two record sizes.
pub open spec fn decode_pool(s: Seq<u8>) -> Option<PoolModel> {
    if (s.len() != SwapPool::BASE_SIZE && s.len() != SwapPool::WITH_CREATOR_FEE_SIZE) || s[0]
        != SwapPool::TYPE_MARKER {
        None
    } else {
        Some(
            PoolModel {
                seed: s.subrange(1, 33),
                token_account_a: s.subrange(33, 65),
                token_account_b: s.subrange(65, 97),
                balance_a: u64_at(s, 97),
                balance_b: u64_at(s, 105),
                lp_mint: s.subrange(113, 145),
                lp_fee_rate: u32_at(s, 145),
                creator_fee: if s.len() == SwapPool::WITH_CREATOR_FEE_SIZE {
                    Some(
                        CreatorFeeModel {
                            rate: u32_at(s, 149),
                            balance_a: u64_at(s, 153),
                            balance_b: u64_at(s, 161),
                            withdraw_authority: s.subrange(169, 201),
                        },
                    )
                } else {
                    None
                },
            },
        )
    }
}

impl SwapPool {
    /// Length of a record without a creator fee.
    pub const BASE_SIZE: usize = 1 + 32 + 32 + 32 + 8 + 8 + 32 + 4;

    /// Length of the creator fee section.
    pub const CREATOR_FEE_SIZE: usize = 4 + 8 + 8 + 32;

    /// Length of a record with a creator fee.
    pub const WITH_CREATOR_FEE_SIZE: usize = 1 + 32 + 32 + 32 + 8 + 8 + 32 + 4 + 4 + 8 + 8 + 32;

    /// First byte of every pool record.
    pub const TYPE_MARKER: u8 = 1;

    /// The length this record encodes to.
    pub fn packed_len(&self) -> (r: usize)
        ensures
            r == encoded_size(self@),
    {
        if self.creator_fee.is_some() {
            SwapPool::WITH_CREATOR_FEE_SIZE
        } else {
            SwapPool::BASE_SIZE
        }
    }

    /// The encoding of this record.
    pub fn to_bytes(&self) -> (r: Vec<u8>)
        ensures
            r@ == encode_pool(self@),
            r@.len() == encoded_size(self@),
    {
        let mut buffer: Vec<u8> = Vec::new();
        buffer.push(SwapPool::TYPE_MARKER);
        push_bytes(&mut buffer, self.seed.as_slice());
        push_bytes(&mut buffer, self.token_account_a.as_slice());
        push_bytes(&mut buffer, self.token_account_b.as_slice());
        push_u64_le(&mut buffer, self.balance_a);
        push_u64_le(&mut buffer, self.balance_b);
        push_bytes(&mut buffer, self.lp_mint.as_slice());
        push_u32_le(&mut buffer, self.lp_fee_rate);
        let ghost base = buffer@;
        match &self.creator_fee {
            Some(cf) => {
                push_u32_le(&mut buffer, cf.rate);
                push_u64_le(&mut buffer, cf.balance_a);
                push_u64_le(&mut buffer, cf.balance_b);
                push_bytes(&mut buffer, cf.withdraw_authority.as_slice());
                assert(buffer@ =~= base + encode_creator_fee(cf@));
            },
            None => {
                assert(buffer@ =~= base + Seq::<u8>::empty());
            },
        }
        assert(buffer@ =~= encode_pool(self@));
        buffer
    }

    /// Writes the record into `dst`, which must be exactly as long as the
    /// encoding: a record without a creator fee into a record-with-fee
    /// buffer, or the reverse, fails with `InvalidAccountData` and leaves
    /// `dst` as it was.
    pub fn pack(&self, dst: &mut [u8]) -> (r: Result<(), SwapError>)
        ensures
            old(dst)@.len() == encoded_size(self@) ==> r is Ok && final(dst)@ == encode_pool(self@),
            old(dst)@.len() != encoded_size(self@) ==> r == Err::<(), SwapError>(
                SwapError::InvalidAccountData,
            ) && final(dst)@ == old(dst)@,
    {
        if dst.len() != self.packed_len() {
            return Err(SwapError::InvalidAccountData);
        }
        let bytes = self.to_bytes();
        let n: usize = bytes.len();
        let mut i: usize = 0;
        while i < n
            invariant
                n == bytes@.len(),
                i <= n,
                dst@.len() == n,
                forall|j: int| 0 <= j < i ==> dst@[j] == bytes@[j],
            decreases n - i,
        {
            dst[i] = bytes[i];
            i = i + 1;
        }
        assert(dst@ =~= bytes@);
        Ok(())
    }

    /// Decodes a pool record. Fails with `InvalidAccountData` when the
    /// length is neither record size or the type marker differs.
    pub fn unpack(src: &[u8]) -> (r: Result<SwapPool, SwapError>)
        ensures
            match decode_pool(src@) {
                Some(m) => r is Ok && r.unwrap()@ == m,
                None => r == Err::<SwapPool, SwapError>(SwapError::InvalidAccountData),
            },
    {
        let len = src.len();
        if len != SwapPool::BASE_SIZE && len != SwapPool::WITH_CREATOR_FEE_SIZE {
            return Err(SwapError::InvalidAccountData);
        }
        if src[0] != SwapPool::TYPE_MARKER {
            return Err(SwapError::InvalidAccountData);
        }
        let creator_fee = if len == SwapPool::WITH_CREATOR_FEE_SIZE {
            Some(
                CreatorFee {
                    rate: read_u32_le(src, 149),
                    balance_a: read_u64_le(src, 153),
                    balance_b: read_u64_le(src, 161),
                    withdraw_authority: read_key(src, 169),
                },
            )
        } else {
            None
        };
        Ok(
            SwapPool {
                seed: read_key(src, 1),
                token_account_a: read_key(src, 33),
                token_account_b: read_key(src, 65),
                balance_a: read_u64_le(src, 97),
                balance_b: read_u64_le(src, 105),
                lp_mint: read_key(src, 113),
                lp_fee_rate: read_u32_le(src, 145),
                creator_fee,
            },
        )
    }
}

/// Decoding the encoding of a pool record, with or without a creator fee,
/// gives the record back.
pub proof fn lemma_pool_round_trip(p: PoolModel)
    requires
        pool_wf(p),
    ensures
        decode_pool(encode_pool(p)) == Some(p),
{
    let s = encode_pool(p);
    assert(s.len() == encoded_size(p));
    assert(s.subrange(1, 33) =~= p.seed);
    assert(s.subrange(33, 65) =~= p.token_account_a);
    assert(s.subrange(65, 97) =~= p.token_account_b);
    assert(s.subrange(97, 105) =~= le_bytes_u64(p.balance_a));
    assert(s.subrange(105, 113) =~= le_bytes_u64(p.balance_b));
    assert(s.subrange(113, 145) =~= p.lp_mint);
    assert(s.subrange(145, 149) =~= le_bytes_u32(p.lp_fee_rate));
    lemma_u64_round_trip(p.balance_a, s, 97);
    lemma_u64_round_trip(p.balance_b, s, 105);
    lemma_u32_round_trip(p.lp_fee_rate, s, 145);
    match p.creator_fee {
        Some(cf) => {
            assert(s.subrange(149, 153) =~= le_bytes_u32(cf.rate));
            assert(s.subrange(153, 161) =~= le_bytes_u64(cf.balance_a));
            assert(s.subrange(161, 169) =~= le_bytes_u64(cf.balance_b));
            assert(s.subrange(169, 201) =~= cf.withdraw_authority);
            lemma_u32_round_trip(cf.rate, s, 149);
            lemma_u64_round_trip(cf.balance_a, s, 153);
            lemma_u64_round_trip(cf.balance_b, s, 161);
        },
        None => {},
    }
    let d = decode_pool(s).unwrap();
    assert(d.creator_fee == p.creator_fee);
}

/// Encoding a decoded pool record gives back the very bytes it came from.
pub proof fn lemma_pool_bytes_round_trip(s: Seq<u8>)
    requires
        decode_pool(s) is Some,
    ensures
        encode_pool(decode_pool(s).unwrap()) == s,
        pool_wf(decode_pool(s).unwrap()),
{
    let p = decode_pool(s).unwrap();
    lemma_u64_bytes_round_trip(s, 97);
    lemma_u64_bytes_round_trip(s, 105);
    lemma_u32_bytes_round_trip(s, 145);
    let base = s.subrange(0, 149);
    assert(base =~= seq![SwapPool::TYPE_MARKER] + s.subrange(1, 33) + s.subrange(33, 65)
        + s.subrange(65, 97) + s.subrange(97, 105) + s.subrange(105, 113) + s.subrange(113, 145)
        + s.subrange(145, 149));
    if s.len() == SwapPool::WITH_CREATOR_FEE_SIZE {
        lemma_u32_bytes_round_trip(s, 149);
        lemma_u64_bytes_round_trip(s, 153);
        lemma_u64_bytes_round_trip(s, 161);
        let cf = p.creator_fee.unwrap();
        assert(encode_creator_fee(cf) =~= s.subrange(149, 201));
        assert(s =~= base + s.subrange(149, 201));
    } else {
        assert(s =~= base + Seq::<u8>::empty());
    }
}

} // verus!
