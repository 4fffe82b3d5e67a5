use codox_token::account::{AccountId, TransferOp};
use codox_token::error::{CodecError, TokenError};
use codox_token::processor::{
    compute_reward, compute_tax_split, process_claim_reflection, process_initialize_codox_token,
    process_stake, process_transfer, time_multiplier,
};
use codox_token::state::{CodoxTokenState, HolderState};

fn id(n: u64) -> AccountId {
    AccountId { w0: n, w1: n + 1, w2: n + 2, w3: n + 3 }
}

fn init(tax: u16, refl: u16, stak: u16, lott: u16) -> Result<CodoxTokenState, TokenError> {
    process_initialize_codox_token(id(1), id(2), id(3), id(4), id(5), id(6), tax, refl, stak, lott)
}

#[test]
fn initialize_rejects_tax_over_cap() {
    assert_eq!(init(1001, 500, 300, 201), Err(TokenError::InvalidConfiguration));
}

#[test]
fn initialize_rejects_inconsistent_sum() {
    assert_eq!(init(300, 100, 100, 50), Err(TokenError::InvalidConfiguration));
}

#[test]
fn initialize_accepts_consistent_rates() {
    let c = init(300, 100, 100, 100).unwrap();
    assert!(c.is_initialized());
    assert_eq!(c.tax_rate, 300);
    assert_eq!(c.reflection_pool, id(4));
    assert_eq!(c.lottery_pool, id(6));
    assert_eq!(c.total_staked, 0);
    assert_eq!(c.lottery_interval, 86400);
}

#[test]
fn initialize_rejects_sum_that_wraps_u16() {
    assert_eq!(init(0, 65535, 1, 0), Err(TokenError::InvalidConfiguration));
}

#[test]
fn zero_tax_makes_one_transfer() {
    let c = init(0, 0, 0, 0).unwrap();
    let ops = process_transfer(&c, id(10), id(20), id(30), 1000).unwrap();
    assert_eq!(ops.len(), 1);
    assert_eq!(ops[0], TransferOp { source: id(10), destination: id(20), authority: id(30), amount: 1000 });
}

#[test]
fn end_to_end_split() {
    let c = init(300, 150, 100, 50).unwrap();
    let s = compute_tax_split(10000, 300, 150, 100).unwrap();
    assert_eq!(s.tax_amount, 300);
    assert_eq!(s.reflection_tax, 150);
    assert_eq!(s.staking_tax, 100);
    assert_eq!(s.lottery_tax, 50);
    assert_eq!(s.net_amount, 9700);
    assert_eq!(s.net_amount + s.reflection_tax + s.staking_tax + s.lottery_tax, 10000);
    let ops = process_transfer(&c, id(10), id(20), id(30), 10000).unwrap();
    let amounts: Vec<u64> = ops.iter().map(|o| o.amount).collect();
    assert_eq!(amounts, vec![9700, 150, 100, 50]);
    assert_eq!(ops[1].destination, id(4));
    assert_eq!(ops[2].destination, id(5));
    assert_eq!(ops[3].destination, id(6));
}

#[test]
fn conservation_with_rounding_remainder() {
    let s = compute_tax_split(999, 300, 100, 100).unwrap();
    assert_eq!(s.tax_amount, 29);
    assert_eq!(s.reflection_tax, 9);
    assert_eq!(s.staking_tax, 9);
    assert_eq!(s.lottery_tax, 11);
    assert_eq!(s.net_amount, 970);
    let s = compute_tax_split(u64::MAX, 1000, 400, 300).unwrap();
    assert_eq!(s.net_amount + s.reflection_tax + s.staking_tax + s.lottery_tax, u64::MAX);
}

#[test]
fn zero_shares_are_not_transferred() {
    let c = init(300, 150, 100, 50).unwrap();
    let ops = process_transfer(&c, id(10), id(20), id(30), 10).unwrap();
    assert_eq!(ops.len(), 1);
    assert_eq!(ops[0].amount, 10);
}

#[test]
fn broken_rates_overflow() {
    assert_eq!(compute_tax_split(10000, 100, 100, 100), Err(TokenError::ArithmeticOverflow));
    assert_eq!(compute_tax_split(10000, 20000, 20000, 0), Err(TokenError::ArithmeticOverflow));
}

#[test]
fn staking_accumulates_from_first_stake() {
    let first = process_stake(id(1), id(2), id(3), &[], 500, 1_000).unwrap();
    assert_eq!(first.transfer, TransferOp { source: id(2), destination: id(3), authority: id(1), amount: 500 });
    assert_eq!(first.holder_state.staked_amount, 500);
    assert_eq!(first.holder_state.holding_multiplier, 100);
    let bytes = first.holder_state.pack();
    let second = process_stake(id(1), id(2), id(3), &bytes, 300, 5_000).unwrap();
    assert_eq!(second.holder_state.staked_amount, 800);
    assert_eq!(second.holder_state.stake_time, 1_000);
    assert_eq!(second.transfer.amount, 300);
}

#[test]
fn staking_short_record_fails() {
    assert_eq!(process_stake(id(1), id(2), id(3), &[1, 2, 3], 5, 0).map(|_| ()), Err(TokenError::Codec(CodecError::TooShort)));
}

#[test]
fn staking_overflow_fails() {
    let first = process_stake(id(1), id(2), id(3), &[], u64::MAX, 0).unwrap();
    let bytes = first.holder_state.pack();
    assert_eq!(process_stake(id(1), id(2), id(3), &bytes, 1, 0).map(|_| ()), Err(TokenError::ArithmeticOverflow));
}

#[test]
fn multiplier_is_capped() {
    assert_eq!(time_multiplier(400 * 86400), 500);
    assert_eq!(time_multiplier(10 * 86400 + 5), 120);
    assert_eq!(time_multiplier(86399), 100);
    assert_eq!(time_multiplier(199 * 86400), 498);
    assert_eq!(time_multiplier(-5), 100);
}

#[test]
fn reward_formula() {
    assert_eq!(compute_reward(1_000_000, 50_000, 120), Ok(600_000));
    assert_eq!(compute_reward(10, 10, 100), Ok(0));
    assert_eq!(compute_reward(u64::MAX, u64::MAX, 500), Err(TokenError::ArithmeticOverflow));
}

fn holder(last_claim: i64, total: u64, mult: u16) -> HolderState {
    HolderState {
        holder: id(7),
        last_reflection_claim: last_claim,
        staked_amount: 42,
        stake_time: 3,
        total_claimed: total,
        holding_multiplier: mult,
    }
}

#[test]
fn zero_reward_claim_changes_nothing() {
    let h = holder(100, 9, 140);
    let out = process_claim_reflection(&h.pack(), id(8), id(9), id(0), 10, 10, 100 + 3 * 86400).unwrap();
    assert_eq!(out.reward, 0);
    assert_eq!(out.transfer, None);
    assert_eq!(out.holder_state, h);
}

#[test]
fn positive_reward_claim_records_it() {
    let h = holder(0, 9, 100);
    let now = 400 * 86400;
    let out = process_claim_reflection(&h.pack(), id(8), id(9), id(0), 50_000, 1_000_000, now).unwrap();
    assert_eq!(out.time_multiplier, 500);
    assert_eq!(out.reward, 2_500_000);
    assert_eq!(out.transfer, Some(TransferOp { source: id(9), destination: id(8), authority: id(0), amount: 2_500_000 }));
    assert_eq!(out.holder_state.last_reflection_claim, now);
    assert_eq!(out.holder_state.total_claimed, 2_500_009);
    assert_eq!(out.holder_state.holding_multiplier, 500);
    assert_eq!(out.holder_state.staked_amount, 42);
}

#[test]
fn claim_errors() {
    assert_eq!(process_claim_reflection(&[0u8; 10], id(8), id(9), id(0), 1, 1, 0).map(|_| ()), Err(TokenError::Codec(CodecError::TooShort)));
    let h = holder(i64::MIN, 0, 100);
    assert_eq!(process_claim_reflection(&h.pack(), id(8), id(9), id(0), 1, 1, 1).map(|_| ()), Err(TokenError::ArithmeticOverflow));
    let h = holder(0, u64::MAX, 100);
    assert_eq!(process_claim_reflection(&h.pack(), id(8), id(9), id(0), 1_000_000, 1_000_000, 0).map(|_| ()), Err(TokenError::ArithmeticOverflow));
}

#[test]
fn transfer_refuses_uninitialized_config() {
    let c = CodoxTokenState::unpack_from_slice(&[0u8; 233]).unwrap();
    assert_eq!(process_transfer(&c, id(10), id(20), id(30), 1000), Err(TokenError::UninitializedAccount));
}

#[test]
fn claim_refuses_uninitialized_record() {
    let out = process_claim_reflection(&[0u8; 66], id(8), id(9), id(0), 50_000, 1_000_000, 300 * 86400);
    assert_eq!(out.map(|_| ()), Err(TokenError::UninitializedAccount));
}

#[test]
fn stake_refuses_uninitialized_record() {
    let out = process_stake(id(1), id(2), id(3), &[0u8; 66], 500, 1_000);
    assert_eq!(out.map(|_| ()), Err(TokenError::UninitializedAccount));
}
