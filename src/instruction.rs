//! The instructions the engine accepts and their byte format: a one-byte tag
//! followed by the fields, little-endian, with nothing after them.
use vstd::prelude::*;
use crate::codec::{u16_le, u16_of_le, u64_le, u64_of_le, read_u16, read_u64, push_u16, push_u64,
    lemma_u16_round_trip, lemma_u64_round_trip};
use crate::error::TokenError;

verus! {

/// One instruction of the token engine.
#[derive(Debug, Clone, Copy, PartialEq, Eq, Structural)]
pub enum CodoxTokenInstruction {
    /// Write the pool configuration with the given rates, in basis points.
    InitializeCodoxToken { tax_rate: u16, reflection_rate: u16, staking_rate: u16, lottery_rate: u16 },
    /// Transfer `amount`, less tax, and split the tax over the pools.
    Transfer { amount: u64 },
    /// Move `amount` into the staking pool and record it for the staker.
    Stake { amount: u64 },
    /// Pay the holder's time-weighted reflection reward.
    ClaimReflection,
    /// Enter the lottery (a placeholder that records nothing).
    ParticipateInLottery,
    /// Draw the lottery (a placeholder that pays nothing).
    DrawLottery,
}

impl CodoxTokenInstruction {
    /// The bytes of the instruction.
    pub open spec fn encoding(self) -> Seq<u8> {
        match self {
            CodoxTokenInstruction::InitializeCodoxToken { tax_rate, reflection_rate, staking_rate, lottery_rate } =>
                seq![0u8] + u16_le(tax_rate) + u16_le(reflection_rate) + u16_le(staking_rate) + u16_le(lottery_rate),
            CodoxTokenInstruction::Transfer { amount } => seq![1u8] + u64_le(amount),
            CodoxTokenInstruction::Stake { amount } => seq![2u8] + u64_le(amount),
            CodoxTokenInstruction::ClaimReflection => seq![3u8],
            CodoxTokenInstruction::ParticipateInLottery => seq![4u8],
            CodoxTokenInstruction::DrawLottery => seq![5u8],
        }
    }

    /// The instruction whose bytes are exactly `s`, if there is one.
    pub open spec fn decode(s: Seq<u8>) -> Option<CodoxTokenInstruction> {
        if s.len() == 0 {
            None
        } else if s[0] == 0 && s.len() == 9 {
            Some(CodoxTokenInstruction::InitializeCodoxToken {
                tax_rate: u16_of_le(s.subrange(1, 3)),
                reflection_rate: u16_of_le(s.subrange(3, 5)),
                staking_rate: u16_of_le(s.subrange(5, 7)),
                lottery_rate: u16_of_le(s.subrange(7, 9)),
            })
        } else if s[0] == 1 && s.len() == 9 {
            Some(CodoxTokenInstruction::Transfer { amount: u64_of_le(s.subrange(1, 9)) })
        } else if s[0] == 2 && s.len() == 9 {
            Some(CodoxTokenInstruction::Stake { amount: u64_of_le(s.subrange(1, 9)) })
        } else if s[0] == 3 && s.len() == 1 {
            Some(CodoxTokenInstruction::ClaimReflection)
        } else if s[0] == 4 && s.len() == 1 {
            Some(CodoxTokenInstruction::ParticipateInLottery)
        } else if s[0] == 5 && s.len() == 1 {
            Some(CodoxTokenInstruction::DrawLottery)
        } else {
            None
        }
    }

    /// Reads an instruction from `data`, which must hold it and nothing more.
    pub fn unpack(data: &[u8]) -> (r: Result<CodoxTokenInstruction, TokenError>)
        ensures
            match CodoxTokenInstruction::decode(data@) {
                Some(i) => r == Ok::<CodoxTokenInstruction, TokenError>(i),
                None => r == Err::<CodoxTokenInstruction, TokenError>(TokenError::InvalidInstruction),
            },
    {
        let n = data.len();
        if n == 0 {
            return Err(TokenError::InvalidInstruction);
        }
        let tag = data[0];
        if tag == 0 && n == 9 {
            Ok(CodoxTokenInstruction::InitializeCodoxToken {
                tax_rate: read_u16(data, 1),
                reflection_rate: read_u16(data, 3),
                staking_rate: read_u16(data, 5),
                lottery_rate: read_u16(data, 7),
            })
        } else if tag == 1 && n == 9 {
            Ok(CodoxTokenInstruction::Transfer { amount: read_u64(data, 1) })
        } else if tag == 2 && n == 9 {
            Ok(CodoxTokenInstruction::Stake { amount: read_u64(data, 1) })
        } else if tag == 3 && n == 1 {
            Ok(CodoxTokenInstruction::ClaimReflection)
        } else if tag == 4 && n == 1 {
            Ok(CodoxTokenInstruction::ParticipateInLottery)
        } else if tag == 5 && n == 1 {
            Ok(CodoxTokenInstruction::DrawLottery)
        } else {
            Err(TokenError::InvalidInstruction)
        }
    }

    /// The bytes of the instruction.
    pub fn pack(&self) -> (r: Vec<u8>)
        ensures
            r@ == self.encoding(),
    {
        let mut r: Vec<u8> = Vec::new();
        match *self {
            CodoxTokenInstruction::InitializeCodoxToken { tax_rate, reflection_rate, staking_rate, lottery_rate } => {
                r.push(0u8);
                assert(r@ =~= seq![0u8]);
                push_u16(&mut r, tax_rate);
                push_u16(&mut r, reflection_rate);
                push_u16(&mut r, staking_rate);
                push_u16(&mut r, lottery_rate);
            },
            CodoxTokenInstruction::Transfer { amount } => {
                r.push(1u8);
                assert(r@ =~= seq![1u8]);
                push_u64(&mut r, amount);
            },
            CodoxTokenInstruction::Stake { amount } => {
                r.push(2u8);
                assert(r@ =~= seq![2u8]);
                push_u64(&mut r, amount);
            },
            CodoxTokenInstruction::ClaimReflection => {
                r.push(3u8);
                assert(r@ =~= seq![3u8]);
            },
            CodoxTokenInstruction::ParticipateInLottery => {
                r.push(4u8);
                assert(r@ =~= seq![4u8]);
            },
            CodoxTokenInstruction::DrawLottery => {
                r.push(5u8);
                assert(r@ =~= seq![5u8]);
            },
        }
        r
    }
}

/// Reading the bytes of an instruction gives the instruction back.
pub proof fn lemma_instruction_round_trip(i: CodoxTokenInstruction)
    ensures
        CodoxTokenInstruction::decode(i.encoding()) == Some(i),
{
    let e = i.encoding();
    match i {
        CodoxTokenInstruction::InitializeCodoxToken { tax_rate, reflection_rate, staking_rate, lottery_rate } => {
            assert(e.subrange(1, 3) =~= u16_le(tax_rate));
            assert(e.subrange(3, 5) =~= u16_le(reflection_rate));
            assert(e.subrange(5, 7) =~= u16_le(staking_rate));
            assert(e.subrange(7, 9) =~= u16_le(lottery_rate));
            lemma_u16_round_trip(tax_rate);
            lemma_u16_round_trip(reflection_rate);
            lemma_u16_round_trip(staking_rate);
            lemma_u16_round_trip(lottery_rate);
        },
        CodoxTokenInstruction::Transfer { amount } => {
            assert(e.subrange(1, 9) =~= u64_le(amount));
            lemma_u64_round_trip(amount);
        },
        CodoxTokenInstruction::Stake { amount } => {
            assert(e.subrange(1, 9) =~= u64_le(amount));
            lemma_u64_round_trip(amount);
        },
        _ => {},
    }
}

} // verus!
