use codox_token::lottery::LotteryState;
use codox_token::account::AccountId;
use codox_token::error::CodecError;
use codox_token::instruction::CodoxTokenInstruction;
use codox_token::error::TokenError;
use codox_token::state::{CodoxTokenState, HolderState};

fn sample_config() -> CodoxTokenState {
    CodoxTokenState {
        is_initialized: true,
        authority: AccountId { w0: 1, w1: 2, w2: 3, w3: 4 },
        token_mint: AccountId { w0: 5, w1: 6, w2: 7, w3: 8 },
        tax_vault: AccountId { w0: 9, w1: 10, w2: 11, w3: 12 },
        reflection_pool: AccountId { w0: 13, w1: 14, w2: 15, w3: 16 },
        staking_pool: AccountId { w0: 17, w1: 18, w2: 19, w3: 20 },
        lottery_pool: AccountId { w0: u64::MAX, w1: 0, w2: 1 << 63, w3: 0x0102030405060708 },
        tax_rate: 300,
        reflection_rate: 150,
        staking_rate: 100,
        lottery_rate: 50,
        total_staked: 123456789,
        total_reflection_distributed: u64::MAX,
        last_lottery_draw: -1,
        lottery_interval: 86400,
    }
}

#[test]
fn config_round_trip() {
    let c = sample_config();
    let bytes = c.pack();
    assert_eq!(bytes.len(), 233);
    assert_eq!(CodoxTokenState::unpack_from_slice(&bytes), Ok(c));
}

#[test]
fn config_layout_offsets() {
    let bytes = sample_config().pack();
    assert_eq!(bytes[0], 1);
    assert_eq!(bytes[1], 1);
    assert_eq!(&bytes[193..195], &[0x2c, 0x01]);
    assert_eq!(&bytes[217..225], &[0xff; 8]);
    assert_eq!(&bytes[225..233], &[0x80, 0x51, 0x01, 0, 0, 0, 0, 0]);
    assert_eq!(&bytes[161..169], &[0xff; 8]);
    assert_eq!(&bytes[185..193], &[8, 7, 6, 5, 4, 3, 2, 1]);
}

#[test]
fn config_too_short() {
    assert_eq!(CodoxTokenState::unpack_from_slice(&[0u8; 232]), Err(CodecError::TooShort));
}

#[test]
fn config_pack_into_longer_slice() {
    let c = sample_config();
    let mut buf = vec![0xaau8; 240];
    c.pack_into_slice(&mut buf);
    assert_eq!(&buf[..233], &c.pack()[..]);
    assert_eq!(&buf[233..], &[0xaa; 7]);
    assert_eq!(CodoxTokenState::unpack_from_slice(&buf), Ok(c));
}

#[test]
fn holder_round_trip() {
    let h = HolderState {
        holder: AccountId { w0: 1, w1: 2, w2: 3, w3: 4 },
        last_reflection_claim: i64::MIN,
        staked_amount: 800,
        stake_time: 1_700_000_000,
        total_claimed: 7,
        holding_multiplier: 500,
    };
    let bytes = h.pack();
    assert_eq!(bytes.len(), 66);
    assert_eq!(&bytes[64..66], &[0xf4, 0x01]);
    assert_eq!(HolderState::unpack_from_slice(&bytes), Ok(h));
    assert!(h.is_initialized());
    let mut buf = vec![0u8; 66];
    h.pack_into_slice(&mut buf);
    assert_eq!(buf, bytes);
}

#[test]
fn holder_too_short() {
    assert_eq!(HolderState::unpack_from_slice(&[0u8; 65]), Err(CodecError::TooShort));
    let zero = HolderState::unpack_from_slice(&[0u8; 66]).unwrap();
    assert!(!zero.is_initialized());
}

#[test]
fn account_id_bytes() {
    let b: Vec<u8> = (0u8..32).collect();
    let a = AccountId::from_bytes(&b).unwrap();
    assert_eq!(a.w0, 0x0706050403020100);
    assert_eq!(a.to_bytes(), b);
    assert_eq!(AccountId::from_bytes(&b[..31]), None);
}

#[test]
fn instruction_round_trip() {
    let all = [
        CodoxTokenInstruction::InitializeCodoxToken { tax_rate: 300, reflection_rate: 150, staking_rate: 100, lottery_rate: 50 },
        CodoxTokenInstruction::Transfer { amount: 10000 },
        CodoxTokenInstruction::Stake { amount: u64::MAX },
        CodoxTokenInstruction::ClaimReflection,
        CodoxTokenInstruction::ParticipateInLottery,
        CodoxTokenInstruction::DrawLottery,
    ];
    for i in all {
        assert_eq!(CodoxTokenInstruction::unpack(&i.pack()), Ok(i));
    }
    assert_eq!(CodoxTokenInstruction::Transfer { amount: 10000 }.pack(), vec![1, 0x10, 0x27, 0, 0, 0, 0, 0, 0]);
}

#[test]
fn instruction_rejects_bad_bytes() {
    assert_eq!(CodoxTokenInstruction::unpack(&[]), Err(TokenError::InvalidInstruction));
    assert_eq!(CodoxTokenInstruction::unpack(&[6]), Err(TokenError::InvalidInstruction));
    assert_eq!(CodoxTokenInstruction::unpack(&[1, 0, 0]), Err(TokenError::InvalidInstruction));
    assert_eq!(CodoxTokenInstruction::unpack(&[3, 0]), Err(TokenError::InvalidInstruction));
}

#[test]
fn lottery_round_trip() {
    let l = LotteryState {
        participants: vec![
            AccountId { w0: 1, w1: 2, w2: 3, w3: 4 },
            AccountId { w0: 5, w1: 6, w2: 7, w3: 8 },
            AccountId { w0: 1, w1: 2, w2: 3, w3: 4 },
        ],
        current_prize: 777,
        last_winner: AccountId { w0: 9, w1: 9, w2: 9, w3: 9 },
        total_draws: 2,
    };
    let bytes = l.pack();
    assert_eq!(bytes.len(), 4 + 3 * 32 + 48);
    assert_eq!(&bytes[0..4], &[3, 0, 0, 0]);
    let back = LotteryState::unpack_from_slice(&bytes).unwrap();
    assert_eq!(back.participants, l.participants);
    assert_eq!(back.current_prize, 777);
    assert_eq!(back.last_winner, l.last_winner);
    assert_eq!(back.total_draws, 2);
}

#[test]
fn lottery_too_short() {
    assert_eq!(LotteryState::unpack_from_slice(&[1, 0]).map(|_| ()), Err(CodecError::TooShort));
    let mut bytes = vec![1u8, 0, 0, 0];
    bytes.extend_from_slice(&[0u8; 32 + 47]);
    assert_eq!(LotteryState::unpack_from_slice(&bytes).map(|_| ()), Err(CodecError::TooShort));
    bytes.push(0);
    let empty = LotteryState::unpack_from_slice(&bytes[..]).unwrap();
    assert_eq!(empty.participants.len(), 1);
    let none = LotteryState::unpack_from_slice(&[0u8; 52]).unwrap();
    assert!(none.participants.is_empty());
}
