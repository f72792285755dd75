use vstd::prelude::*;
use crate::bytes::{
    le_bytes_u32, le_bytes_u64, lemma_u32_bytes_round_trip, lemma_u32_round_trip,
    lemma_u64_bytes_round_trip, lemma_u64_round_trip, push_bytes, push_u32_le,
    push_u64_le, read_key, read_u32_le, read_u64_le, u32_at, u64_at,
};
use crate::error::SwapError;

verus! {

/// The first byte of every instruction of the swap module.
pub const MODULE_TAG: u8 = 1;

/// An operation on a swap pool, as carried in instruction data.
#[derive(Debug, PartialEq, Eq, Clone)]
pub enum SwapInstruction {
    /// Create a pool. Accounts: signer fee payer, pool record, mint A, pool
    /// token account A, mint B, pool token account B, LP mint, token program,
    /// system program.
    CreatePool { seed: [u8; 32], lp_fee_rate: u32, creator_fee_rate: u32 },
    /// Swap one token for the other. Accounts: signer owner, pool record,
    /// input source, input destination (a pool side), output source (the
    /// other pool side), output destination, token program.
    Swap { in_amount: u64, min_out_amount: u64 },
    /// Deposit both tokens for LP tokens. Accounts: signer owner, pool record,
    /// source A, pool side A, source B, pool side B, LP mint, LP destination,
    /// token program.
    Deposit { min_a: u64, max_a: u64, min_b: u64, max_b: u64 },
    /// Burn LP tokens for both tokens. Accounts: signer owner, pool record,
    /// pool side A, destination A, pool side B, destination B, LP mint, LP
    /// source, token program.
    Withdraw { lp_amount: u64, min_a: u64, min_b: u64 },
}

/// The mathematical value of an instruction.
pub enum InstructionModel {
    CreatePool { seed: Seq<u8>, lp_fee_rate: u32, creator_fee_rate: u32 },
    Swap { in_amount: u64, min_out_amount: u64 },
    Deposit { min_a: u64, max_a: u64, min_b: u64, max_b: u64 },
    Withdraw { lp_amount: u64, min_a: u64, min_b: u64 },
}

impl View for SwapInstruction {
    type V = InstructionModel;

    open spec fn view(&self) -> InstructionModel {
        match *self {
            SwapInstruction::CreatePool { seed, lp_fee_rate, creator_fee_rate } => {
                InstructionModel::CreatePool { seed: seed@, lp_fee_rate, creator_fee_rate }
            },
            SwapInstruction::Swap { in_amount, min_out_amount } => InstructionModel::Swap {
                in_amount,
                min_out_amount,
            },
            SwapInstruction::Deposit { min_a, max_a, min_b, max_b } => InstructionModel::Deposit {
                min_a,
                max_a,
                min_b,
                max_b,
            },
            SwapInstruction::Withdraw { lp_amount, min_a, min_b } => InstructionModel::Withdraw {
                lp_amount,
                min_a,
                min_b,
            },
        }
    }
}

/// An instruction value that has an encoding: the seed is 32 bytes.
pub open spec fn instruction_wf(i: InstructionModel) -> bool {
    match i {
        InstructionModel::CreatePool { seed, .. } => seed.len() == 32,
        _ => true,
    }
}

/// The bytes of an instruction: module tag, operation tag, then the fields in
/// little-endian order.
pub open spec fn encode_instruction(i: InstructionModel) -> Seq<u8> {
    match i {
        InstructionModel::CreatePool { seed, lp_fee_rate, creator_fee_rate } => seq![
            MODULE_TAG,
            0u8,
        ] + seed + le_bytes_u32(lp_fee_rate) + le_bytes_u32(creator_fee_rate),
        InstructionModel::Swap { in_amount, min_out_amount } => seq![MODULE_TAG, 1u8]
            + le_bytes_u64(in_amount) + le_bytes_u64(min_out_amount),
        InstructionModel::Deposit { min_a, max_a, min_b, max_b } => seq![MODULE_TAG, 2u8]
            + le_bytes_u64(min_a) + le_bytes_u64(max_a) + le_bytes_u64(min_b) + le_bytes_u64(max_b),
        InstructionModel::Withdraw { lp_amount, min_a, min_b } => seq![MODULE_TAG, 3u8]
            + le_bytes_u64(lp_amount) + le_bytes_u64(min_a) + le_bytes_u64(min_b),
    }
}

/// The instruction that `s` holds, if any. Bytes past the payload are
/// ignored.
pub open spec fn decode_instruction(s: Seq<u8>) -> Option<InstructionModel> {
    if s.len() < 2 || s[0] != MODULE_TAG {
        None
    } else if s[1] == 0 {
        if s.len() < 42 {
            None
        } else {
            Some(
                InstructionModel::CreatePool {
                    seed: s.subrange(2, 34),
                    lp_fee_rate: u32_at(s, 34),
                    creator_fee_rate: u32_at(s, 38),
                },
            )
        }
    } else if s[1] == 1 {
        if s.len() < 18 {
            None
        } else {
            Some(InstructionModel::Swap { in_amount: u64_at(s, 2), min_out_amount: u64_at(s, 10) })
        }
    } else if s[1] == 2 {
        if s.len() < 34 {
            None
        } else {
            Some(
                InstructionModel::Deposit {
                    min_a: u64_at(s, 2),
                    max_a: u64_at(s, 10),
                    min_b: u64_at(s, 18),
                    max_b: u64_at(s, 26),
                },
            )
        }
    } else if s[1] == 3 {
        if s.len() < 26 {
            None
        } else {
            Some(
                InstructionModel::Withdraw {
                    lp_amount: u64_at(s, 2),
                    min_a: u64_at(s, 10),
                    min_b: u64_at(s, 18),
                },
            )
        }
    } else {
        None
    }
}

impl SwapInstruction {
    /// Encodes the instruction.
    pub fn pack(&self) -> (r: Vec<u8>)
        ensures
            r@ == encode_instruction(self@),
    {
        let mut buffer: Vec<u8> = Vec::new();
        buffer.push(MODULE_TAG);
        match self {
            SwapInstruction::CreatePool { seed, lp_fee_rate, creator_fee_rate } => {
                buffer.push(0u8);
                push_bytes(&mut buffer, seed.as_slice());
                push_u32_le(&mut buffer, *lp_fee_rate);
                push_u32_le(&mut buffer, *creator_fee_rate);
            },
            SwapInstruction::Swap { in_amount, min_out_amount } => {
                buffer.push(1u8);
                push_u64_le(&mut buffer, *in_amount);
                push_u64_le(&mut buffer, *min_out_amount);
            },
            SwapInstruction::Deposit { min_a, max_a, min_b, max_b } => {
                buffer.push(2u8);
                push_u64_le(&mut buffer, *min_a);
                push_u64_le(&mut buffer, *max_a);
                push_u64_le(&mut buffer, *min_b);
                push_u64_le(&mut buffer, *max_b);
            },
            SwapInstruction::Withdraw { lp_amount, min_a, min_b } => {
                buffer.push(3u8);
                push_u64_le(&mut buffer, *lp_amount);
                push_u64_le(&mut buffer, *min_a);
                push_u64_le(&mut buffer, *min_b);
            },
        }
        assert(buffer@ =~= encode_instruction(self@));
        buffer
    }

    /// Decodes instruction data. Fails with `InvalidInstructionData` on a
    /// foreign module tag, an unknown operation tag, or a payload that is too
    /// short.
    pub fn unpack(input: &[u8]) -> (r: Result<SwapInstruction, SwapError>)
        ensures
            match decode_instruction(input@) {
                Some(m) => r is Ok && r.unwrap()@ == m,
                None => r == Err::<SwapInstruction, SwapError>(SwapError::InvalidInstructionData),
            },
    {
        let len = input.len();
        if len < 2 || input[0] != MODULE_TAG {
            return Err(SwapError::InvalidInstructionData);
        }
        let tag = input[1];
        if tag == 0 {
            if len < 42 {
                return Err(SwapError::InvalidInstructionData);
            }
            let seed = read_key(input, 2);
            let lp_fee_rate = read_u32_le(input, 34);
            let creator_fee_rate = read_u32_le(input, 38);
            Ok(SwapInstruction::CreatePool { seed, lp_fee_rate, creator_fee_rate })
        } else if tag == 1 {
            if len < 18 {
                return Err(SwapError::InvalidInstructionData);
            }
            let in_amount = read_u64_le(input, 2);
            let min_out_amount = read_u64_le(input, 10);
            Ok(SwapInstruction::Swap { in_amount, min_out_amount })
        } else if tag == 2 {
            if len < 34 {
                return Err(SwapError::InvalidInstructionData);
            }
            let min_a = read_u64_le(input, 2);
            let max_a = read_u64_le(input, 10);
            let min_b = read_u64_le(input, 18);
            let max_b = read_u64_le(input, 26);
            Ok(SwapInstruction::Deposit { min_a, max_a, min_b, max_b })
        } else if tag == 3 {
            if len < 26 {
                return Err(SwapError::InvalidInstructionData);
            }
            let lp_amount = read_u64_le(input, 2);
            let min_a = read_u64_le(input, 10);
            let min_b = read_u64_le(input, 18);
            Ok(SwapInstruction::Withdraw { lp_amount, min_a, min_b })
        } else {
            Err(SwapError::InvalidInstructionData)
        }
    }
}

/// Decoding the encoding of an instruction gives the instruction back.
pub proof fn lemma_instruction_round_trip(i: InstructionModel)
    requires
        instruction_wf(i),
    ensures
        decode_instruction(encode_instruction(i)) == Some(i),
{
    let s = encode_instruction(i);
    match i {
        InstructionModel::CreatePool { seed, lp_fee_rate, creator_fee_rate } => {
            assert(s.subrange(2, 34) =~= seed);
            assert(s.subrange(34, 38) =~= le_bytes_u32(lp_fee_rate));
            assert(s.subrange(38, 42) =~= le_bytes_u32(creator_fee_rate));
            lemma_u32_round_trip(lp_fee_rate, s, 34);
            lemma_u32_round_trip(creator_fee_rate, s, 38);
        },
        InstructionModel::Swap { in_amount, min_out_amount } => {
            assert(s.subrange(2, 10) =~= le_bytes_u64(in_amount));
            assert(s.subrange(10, 18) =~= le_bytes_u64(min_out_amount));
            lemma_u64_round_trip(in_amount, s, 2);
            lemma_u64_round_trip(min_out_amount, s, 10);
        },
        InstructionModel::Deposit { min_a, max_a, min_b, max_b } => {
            assert(s.subrange(2, 10) =~= le_bytes_u64(min_a));
            assert(s.subrange(10, 18) =~= le_bytes_u64(max_a));
            assert(s.subrange(18, 26) =~= le_bytes_u64(min_b));
            assert(s.subrange(26, 34) =~= le_bytes_u64(max_b));
            lemma_u64_round_trip(min_a, s, 2);
            lemma_u64_round_trip(max_a, s, 10);
            lemma_u64_round_trip(min_b, s, 18);
            lemma_u64_round_trip(max_b, s, 26);
        },
        InstructionModel::Withdraw { lp_amount, min_a, min_b } => {
            assert(s.subrange(2, 10) =~= le_bytes_u64(lp_amount));
            assert(s.subrange(10, 18) =~= le_bytes_u64(min_a));
            assert(s.subrange(18, 26) =~= le_bytes_u64(min_b));
            lemma_u64_round_trip(lp_amount, s, 2);
            lemma_u64_round_trip(min_a, s, 10);
            lemma_u64_round_trip(min_b, s, 18);
        },
    }
}

/// Encoding a decoded instruction gives back the bytes it was decoded from,
/// up to the end of its payload.
pub proof fn lemma_instruction_bytes_round_trip(s: Seq<u8>)
    requires
        decode_instruction(s) is Some,
    ensures
        instruction_wf(decode_instruction(s).unwrap()),
        encode_instruction(decode_instruction(s).unwrap()) == s.subrange(
            0,
            encode_instruction(decode_instruction(s).unwrap()).len() as int,
        ),
{
    let i = decode_instruction(s).unwrap();
    let head = seq![s[0], s[1]];
    match i {
        InstructionModel::CreatePool { .. } => {
            lemma_u32_bytes_round_trip(s, 34);
            lemma_u32_bytes_round_trip(s, 38);
            assert(s.subrange(0, 42) =~= head + s.subrange(2, 34) + s.subrange(34, 38) + s.subrange(
                38,
                42,
            ));
        },
        InstructionModel::Swap { .. } => {
            lemma_u64_bytes_round_trip(s, 2);
            lemma_u64_bytes_round_trip(s, 10);
            assert(s.subrange(0, 18) =~= head + s.subrange(2, 10) + s.subrange(10, 18));
        },
        InstructionModel::Deposit { .. } => {
            lemma_u64_bytes_round_trip(s, 2);
            lemma_u64_bytes_round_trip(s, 10);
            lemma_u64_bytes_round_trip(s, 18);
            lemma_u64_bytes_round_trip(s, 26);
            assert(s.subrange(0, 34) =~= head + s.subrange(2, 10) + s.subrange(10, 18) + s.subrange(
                18,
                26,
            ) + s.subrange(26, 34));
        },
        InstructionModel::Withdraw { .. } => {
            lemma_u64_bytes_round_trip(s, 2);
            lemma_u64_bytes_round_trip(s, 10);
            lemma_u64_bytes_round_trip(s, 18);
            assert(s.subrange(0, 26) =~= head + s.subrange(2, 10) + s.subrange(10, 18) + s.subrange(
                18,
                26,
            ));
        },
    }
}

} // verus!
