//! The instruction handlers: configuration, taxed transfer, staking and reflection claims.
//!
//! Each handler is a pure function of the stored records, the instruction's
//! arguments and the values the ledger supplies (balances, the current time).
//! It returns the records to store and the token movements the ledger must make;
//! an instruction whose handler fails makes no movement and stores nothing.
use vstd::prelude::*;
use crate::account::{AccountId, TransferOp};
use crate::error::{CodecError, TokenError};
use crate::state::{CodoxTokenState, HolderState, HOLDER_LEN, lemma_holder_round_trip};

verus! {

/// Basis points in a whole.
pub const BASIS_POINTS: u64 = 10000;

/// Largest tax rate the initializer accepts, in basis points.
pub const MAX_TAX_RATE: u16 = 1000;

/// Seconds in a day, the unit in which holding time earns multiplier.
pub const SECONDS_PER_DAY: i64 = 86400;

/// Interval between lottery draws written by the initializer, in seconds.
pub const DEFAULT_LOTTERY_INTERVAL: i64 = 86400;

/// Multiplier of a holder who has just claimed or staked (1.0x).
pub const BASE_MULTIPLIER: u16 = 100;

/// Largest multiplier (5.0x).
pub const MAX_MULTIPLIER: u16 = 500;

/// Divisor that turns pool balance times holder balance times multiplier into a reward.
pub const REWARD_DIVISOR: u128 = 10000000;

/// How one transfer's amount is divided.
#[derive(Debug, Clone, Copy, PartialEq, Eq, Structural)]
pub struct TaxSplit {
    pub tax_amount: u64,
    pub reflection_tax: u64,
    pub staking_tax: u64,
    pub lottery_tax: u64,
    pub net_amount: u64,
}

/// The split of `amount` under the given rates, or `None` where a share would
/// fall below zero (rates that break the rate invariant).
pub open spec fn tax_split(amount: u64, tax_rate: u16, reflection_rate: u16, staking_rate: u16) -> Option<TaxSplit> {
    if tax_rate == 0 {
        Some(TaxSplit { tax_amount: 0, reflection_tax: 0, staking_tax: 0, lottery_tax: 0, net_amount: amount })
    } else {
        let t = amount as int * tax_rate as int / 10000;
        let rt = t * reflection_rate as int / tax_rate as int;
        let st = t * staking_rate as int / tax_rate as int;
        if t > amount || rt + st > t {
            None
        } else {
            Some(TaxSplit {
                tax_amount: t as u64,
                reflection_tax: rt as u64,
                staking_tax: st as u64,
                lottery_tax: (t - rt - st) as u64,
                net_amount: (amount - t) as u64,
            })
        }
    }
}

/// The rate invariant of a configuration: the three shares make up the tax,
/// and the tax is at most ten percent.
pub open spec fn valid_rates(tax_rate: u16, reflection_rate: u16, staking_rate: u16, lottery_rate: u16) -> bool {
    &&& tax_rate <= MAX_TAX_RATE
    &&& reflection_rate + staking_rate + lottery_rate == tax_rate as int
}

/// Divides `amount` into the net amount and the three tax shares.
///
/// Tax is `amount * tax_rate / 10000`; the reflection and staking shares are
/// the tax scaled by their rates over the tax rate, and the lottery share takes
/// what rounding leaves. A tax rate of zero takes no tax at all.
pub fn compute_tax_split(amount: u64, tax_rate: u16, reflection_rate: u16, staking_rate: u16) -> (r: Result<TaxSplit, TokenError>)
    ensures
        match tax_split(amount, tax_rate, reflection_rate, staking_rate) {
            Some(s) => r == Ok::<TaxSplit, TokenError>(s),
            None => r == Err::<TaxSplit, TokenError>(TokenError::ArithmeticOverflow),
        },
{
    if tax_rate == 0 {
        return Ok(TaxSplit { tax_amount: 0, reflection_tax: 0, staking_tax: 0, lottery_tax: 0, net_amount: amount });
    }
    let a = amount as u128;
    assert(a * (tax_rate as u128) <= 0xffff_ffff_ffff_ffff * 0xffff) by (nonlinear_arith)
        requires a <= 0xffff_ffff_ffff_ffff, tax_rate <= 0xffff;
    let t = a * (tax_rate as u128) / (BASIS_POINTS as u128);
    if t > a {
        return Err(TokenError::ArithmeticOverflow);
    }
    assert(t * (reflection_rate as u128) <= 0xffff_ffff_ffff_ffff * 0xffff) by (nonlinear_arith)
        requires t <= 0xffff_ffff_ffff_ffff, reflection_rate <= 0xffff;
    assert(t * (staking_rate as u128) <= 0xffff_ffff_ffff_ffff * 0xffff) by (nonlinear_arith)
        requires t <= 0xffff_ffff_ffff_ffff, staking_rate <= 0xffff;
    let rt = t * (reflection_rate as u128) / (tax_rate as u128);
    let st = t * (staking_rate as u128) / (tax_rate as u128);
    if rt + st > t {
        return Err(TokenError::ArithmeticOverflow);
    }
    Ok(TaxSplit {
        tax_amount: t as u64,
        reflection_tax: rt as u64,
        staking_tax: st as u64,
        lottery_tax: (t - rt - st) as u64,
        net_amount: (a - t) as u64,
    })
}

/// Under rates that keep the rate invariant the split always exists, and the
/// net amount and the three shares add up to the amount transferred.
pub proof fn lemma_tax_split_conserves(amount: u64, tax_rate: u16, reflection_rate: u16, staking_rate: u16, lottery_rate: u16)
    requires
        valid_rates(tax_rate, reflection_rate, staking_rate, lottery_rate),
    ensures
        tax_split(amount, tax_rate, reflection_rate, staking_rate) is Some,
        ({
            let s = tax_split(amount, tax_rate, reflection_rate, staking_rate).unwrap();
            s.net_amount + s.reflection_tax + s.staking_tax + s.lottery_tax == amount
        }),
{
    if tax_rate != 0 {
        let a = amount as int;
        let tr = tax_rate as int;
        let rr = reflection_rate as int;
        let sr = staking_rate as int;
        let t = a * tr / 10000;
        assert(t <= a) by (nonlinear_arith)
            requires t == a * tr / 10000, 0 <= a, 0 < tr <= 1000;
        assert(0 <= t) by (nonlinear_arith)
            requires t == a * tr / 10000, 0 <= a, 0 < tr;
        let rt = t * rr / tr;
        let st = t * sr / tr;
        assert(rt * tr <= t * rr) by (nonlinear_arith)
            requires rt == t * rr / tr, 0 < tr, 0 <= t, 0 <= rr;
        assert(st * tr <= t * sr) by (nonlinear_arith)
            requires st == t * sr / tr, 0 < tr, 0 <= t, 0 <= sr;
        assert(rt + st <= t) by (nonlinear_arith)
            requires rt * tr <= t * rr, st * tr <= t * sr, rr + sr <= tr, 0 < tr, 0 <= t;
        assert(0 <= rt && 0 <= st) by (nonlinear_arith)
            requires rt == t * rr / tr, st == t * sr / tr, 0 < tr, 0 <= t, 0 <= rr, 0 <= sr;
    }
}

/// The configuration the initializer writes for the given accounts and rates.
pub open spec fn initial_config(
    authority: AccountId,
    token_mint: AccountId,
    tax_vault: AccountId,
    reflection_pool: AccountId,
    staking_pool: AccountId,
    lottery_pool: AccountId,
    tax_rate: u16,
    reflection_rate: u16,
    staking_rate: u16,
    lottery_rate: u16,
) -> CodoxTokenState {
    CodoxTokenState {
        is_initialized: true,
        authority,
        token_mint,
        tax_vault,
        reflection_pool,
        staking_pool,
        lottery_pool,
        tax_rate,
        reflection_rate,
        staking_rate,
        lottery_rate,
        total_staked: 0,
        total_reflection_distributed: 0,
        last_lottery_draw: 0,
        lottery_interval: DEFAULT_LOTTERY_INTERVAL,
    }
}

/// Builds the pool configuration, checking the caller's rates against the rate
/// invariant. Whatever was stored before is overwritten: an initialized record
/// is not guarded against a second initialization.
pub fn process_initialize_codox_token(
    authority: AccountId,
    token_mint: AccountId,
    tax_vault: AccountId,
    reflection_pool: AccountId,
    staking_pool: AccountId,
    lottery_pool: AccountId,
    tax_rate: u16,
    reflection_rate: u16,
    staking_rate: u16,
    lottery_rate: u16,
) -> (r: Result<CodoxTokenState, TokenError>)
    ensures
        valid_rates(tax_rate, reflection_rate, staking_rate, lottery_rate) ==> r == Ok::<CodoxTokenState, TokenError>(
            initial_config(authority, token_mint, tax_vault, reflection_pool, staking_pool, lottery_pool,
                tax_rate, reflection_rate, staking_rate, lottery_rate)),
        !valid_rates(tax_rate, reflection_rate, staking_rate, lottery_rate) ==> r == Err::<CodoxTokenState, TokenError>(
            TokenError::InvalidConfiguration),
{
    let sum = reflection_rate as u32 + staking_rate as u32 + lottery_rate as u32;
    if tax_rate > MAX_TAX_RATE || sum != tax_rate as u32 {
        return Err(TokenError::InvalidConfiguration);
    }
    Ok(CodoxTokenState {
        is_initialized: true,
        authority,
        token_mint,
        tax_vault,
        reflection_pool,
        staking_pool,
        lottery_pool,
        tax_rate,
        reflection_rate,
        staking_rate,
        lottery_rate,
        total_staked: 0,
        total_reflection_distributed: 0,
        last_lottery_draw: 0,
        lottery_interval: DEFAULT_LOTTERY_INTERVAL,
    })
}

/// The movements of a taxed transfer with split `s`: the net amount to the
/// destination always, then each nonzero share to its pool, in the order
/// reflection, staking, lottery.
pub open spec fn transfer_ops(
    config: CodoxTokenState,
    source: AccountId,
    destination: AccountId,
    owner: AccountId,
    s: TaxSplit,
) -> Seq<TransferOp> {
    let op = |to: AccountId, amount: u64| TransferOp { source, destination: to, authority: owner, amount };
    seq![op(destination, s.net_amount)]
        + (if s.reflection_tax > 0 { seq![op(config.reflection_pool, s.reflection_tax)] } else { Seq::empty() })
        + (if s.staking_tax > 0 { seq![op(config.staking_pool, s.staking_tax)] } else { Seq::empty() })
        + (if s.lottery_tax > 0 { seq![op(config.lottery_pool, s.lottery_tax)] } else { Seq::empty() })
}

/// Plans a taxed transfer of `amount` from `source`, owned by `owner`, to
/// `destination`, under the stored configuration, which must have been
/// initialized.
pub fn process_transfer(
    config: &CodoxTokenState,
    source: AccountId,
    destination: AccountId,
    owner: AccountId,
    amount: u64,
) -> (r: Result<Vec<TransferOp>, TokenError>)
    ensures
        !config.is_initialized ==> r == Err::<Vec<TransferOp>, TokenError>(TokenError::UninitializedAccount),
        config.is_initialized ==> match tax_split(amount, config.tax_rate, config.reflection_rate, config.staking_rate) {
            Some(s) => r is Ok && r.unwrap()@ == transfer_ops(*config, source, destination, owner, s),
            None => r == Err::<Vec<TransferOp>, TokenError>(TokenError::ArithmeticOverflow),
        },
{
    if !config.is_initialized() {
        return Err(TokenError::UninitializedAccount);
    }
    let s = match compute_tax_split(amount, config.tax_rate, config.reflection_rate, config.staking_rate) {
        Ok(s) => s,
        Err(e) => {
            return Err(e);
        },
    };
    let mut ops: Vec<TransferOp> = Vec::new();
    ops.push(TransferOp { source, destination, authority: owner, amount: s.net_amount });
    if s.reflection_tax > 0 {
        ops.push(TransferOp { source, destination: config.reflection_pool, authority: owner, amount: s.reflection_tax });
    }
    if s.staking_tax > 0 {
        ops.push(TransferOp { source, destination: config.staking_pool, authority: owner, amount: s.staking_tax });
    }
    if s.lottery_tax > 0 {
        ops.push(TransferOp { source, destination: config.lottery_pool, authority: owner, amount: s.lottery_tax });
    }
    assert(ops@ =~= transfer_ops(*config, source, destination, owner, s));
    Ok(ops)
}

/// What a stake instruction does: one movement and the holder record to store.
#[derive(Debug, Clone, Copy, PartialEq, Eq, Structural)]
pub struct StakeOutcome {
    pub transfer: TransferOp,
    pub holder_state: HolderState,
}

/// The record of a holder's first stake.
pub open spec fn first_stake(staker: AccountId, amount: u64, now: i64) -> HolderState {
    HolderState {
        holder: staker,
        last_reflection_claim: 0,
        staked_amount: amount,
        stake_time: now,
        total_claimed: 0,
        holding_multiplier: BASE_MULTIPLIER,
    }
}

/// Stakes `amount` from `staker_token`, owned by `staker`, into the staking
/// pool. `state_data` is the holder record's stored bytes, empty before the
/// first stake: then a new record is made at time `now`; otherwise the stored
/// record's staked amount grows by `amount` and its stake time is kept. A
/// stored record that names no holder (the zero identity) is refused with
/// `UninitializedAccount`: only empty data counts as a missing record.
pub fn process_stake(
    staker: AccountId,
    staker_token: AccountId,
    staking_pool: AccountId,
    state_data: &[u8],
    amount: u64,
    now: i64,
) -> (r: Result<StakeOutcome, TokenError>)
    ensures
        r is Ok ==> r.unwrap().transfer == (TransferOp {
            source: staker_token,
            destination: staking_pool,
            authority: staker,
            amount,
        }),
        state_data@.len() == 0 ==> r is Ok && r.unwrap().holder_state == first_stake(staker, amount, now),
        0 < state_data@.len() < HOLDER_LEN ==> r == Err::<StakeOutcome, TokenError>(TokenError::Codec(CodecError::TooShort)),
        state_data@.len() >= HOLDER_LEN ==> ({
            let h = HolderState::decode(state_data@);
            if h.holder == (AccountId { w0: 0, w1: 0, w2: 0, w3: 0 }) {
                r == Err::<StakeOutcome, TokenError>(TokenError::UninitializedAccount)
            } else if h.staked_amount + amount > u64::MAX {
                r == Err::<StakeOutcome, TokenError>(TokenError::ArithmeticOverflow)
            } else {
                r is Ok && r.unwrap().holder_state == (HolderState {
                    staked_amount: (h.staked_amount + amount) as u64,
                    ..h
                })
            }
        }),
{
    let transfer = TransferOp { source: staker_token, destination: staking_pool, authority: staker, amount };
    let holder_state = if state_data.len() == 0 {
        HolderState {
            holder: staker,
            last_reflection_claim: 0,
            staked_amount: amount,
            stake_time: now,
            total_claimed: 0,
            holding_multiplier: BASE_MULTIPLIER,
        }
    } else {
        let mut h = match HolderState::unpack_from_slice(state_data) {
            Ok(h) => h,
            Err(e) => {
                return Err(TokenError::Codec(e));
            },
        };
        if !h.is_initialized() {
            return Err(TokenError::UninitializedAccount);
        }
        if amount > u64::MAX - h.staked_amount {
            return Err(TokenError::ArithmeticOverflow);
        }
        h.staked_amount = h.staked_amount + amount;
        h
    };
    Ok(StakeOutcome { transfer, holder_state })
}

/// Staking twice accumulates: a record made by a first stake of `first` at
/// time `t`, stored and read back, holds `first` and the time `t`, so that a
/// second stake of `second` on its bytes leaves `first + second` staked and the
/// stake time of the first stake.
pub proof fn lemma_stake_twice(staker: AccountId, first: u64, t: i64, second: u64)
    requires
        first + second <= u64::MAX,
    ensures
        ({
            let stored = first_stake(staker, first, t).encoding();
            let h = HolderState::decode(stored);
            &&& stored.len() == HOLDER_LEN
            &&& h.staked_amount + second <= u64::MAX
            &&& (HolderState { staked_amount: (h.staked_amount + second) as u64, ..h })
                == (HolderState { staked_amount: (first + second) as u64, ..first_stake(staker, first, t) })
        }),
{
    lemma_holder_round_trip(first_stake(staker, first, t));
}

/// Reward multiplier after `holding_time` seconds: 1.0x plus 0.02x for each
/// whole day, capped at 5.0x. A negative holding time (a clock that went back)
/// earns the base multiplier.
pub open spec fn time_multiplier_of(holding_time: int) -> int {
    if holding_time < 0 {
        BASE_MULTIPLIER as int
    } else {
        let m = BASE_MULTIPLIER as int + 2 * (holding_time / SECONDS_PER_DAY as int);
        if m > MAX_MULTIPLIER as int { MAX_MULTIPLIER as int } else { m }
    }
}

/// The reward multiplier after `holding_time` seconds.
pub fn time_multiplier(holding_time: i64) -> (r: u16)
    ensures
        r as int == time_multiplier_of(holding_time as int),
{
    if holding_time < 0 {
        return BASE_MULTIPLIER;
    }
    let days = holding_time / SECONDS_PER_DAY;
    if days >= 200 {
        MAX_MULTIPLIER
    } else {
        (100 + 2 * days) as u16
    }
}

/// Reward before range checks: pool balance times holder balance times
/// multiplier, over ten million.
pub open spec fn reward_of(pool_balance: u64, holder_balance: u64, multiplier: int) -> int {
    pool_balance as int * holder_balance as int * multiplier / REWARD_DIVISOR as int
}

/// The reflection reward for the given balances and multiplier, or
/// `ArithmeticOverflow` where it does not fit in a `u64`.
pub fn compute_reward(pool_balance: u64, holder_balance: u64, multiplier: u16) -> (r: Result<u64, TokenError>)
    ensures
        reward_of(pool_balance, holder_balance, multiplier as int) <= u64::MAX ==> r == Ok::<u64, TokenError>(
            reward_of(pool_balance, holder_balance, multiplier as int) as u64),
        reward_of(pool_balance, holder_balance, multiplier as int) > u64::MAX ==> r == Err::<u64, TokenError>(
            TokenError::ArithmeticOverflow),
{
    let p = pool_balance as u128;
    let h = holder_balance as u128;
    assert(p * h <= 0xffff_ffff_ffff_ffff * 0xffff_ffff_ffff_ffff) by (nonlinear_arith)
        requires p <= 0xffff_ffff_ffff_ffff, h <= 0xffff_ffff_ffff_ffff;
    let ph = p * h;
    match ph.checked_mul(multiplier as u128) {
        Some(x) => {
            let q = x / REWARD_DIVISOR;
            if q > u64::MAX as u128 {
                Err(TokenError::ArithmeticOverflow)
            } else {
                Ok(q as u64)
            }
        },
        None => {
            let ghost full = ph as int * multiplier as int;
            assert(full / 10000000 > 0xffff_ffff_ffff_ffff) by (nonlinear_arith)
                requires full > 0xffff_ffff_ffff_ffff_ffff_ffff_ffff_ffff;
            Err(TokenError::ArithmeticOverflow)
        },
    }
}

/// What a claim instruction does: the reward, the multiplier it was earned at,
/// the movement that pays it (none for a zero reward) and the record to store.
#[derive(Debug, Clone, Copy, PartialEq, Eq, Structural)]
pub struct ClaimOutcome {
    pub reward: u64,
    pub time_multiplier: u16,
    pub transfer: Option<TransferOp>,
    pub holder_state: HolderState,
}

/// Claims the reflection reward of the holder whose record's stored bytes are
/// `state_data`, at time `now`, given the holder's token balance and the
/// reflection pool's balance. A positive reward is paid from the reflection
/// pool, under `pool_authority`, to `holder_token`, and the record notes the
/// claim; a zero reward changes nothing. A record that names no holder (the
/// zero identity) is refused with `UninitializedAccount`.
pub fn process_claim_reflection(
    state_data: &[u8],
    holder_token: AccountId,
    reflection_pool: AccountId,
    pool_authority: AccountId,
    holder_balance: u64,
    pool_balance: u64,
    now: i64,
) -> (r: Result<ClaimOutcome, TokenError>)
    ensures
        state_data@.len() < HOLDER_LEN ==> r == Err::<ClaimOutcome, TokenError>(TokenError::Codec(CodecError::TooShort)),
        state_data@.len() >= HOLDER_LEN ==> ({
            let h = HolderState::decode(state_data@);
            let held = now - h.last_reflection_claim;
            let m = time_multiplier_of(held);
            let reward = reward_of(pool_balance, holder_balance, m);
            if h.holder == (AccountId { w0: 0, w1: 0, w2: 0, w3: 0 }) {
                r == Err::<ClaimOutcome, TokenError>(TokenError::UninitializedAccount)
            } else if held < i64::MIN || held > i64::MAX || reward > u64::MAX {
                r == Err::<ClaimOutcome, TokenError>(TokenError::ArithmeticOverflow)
            } else if reward == 0 {
                r == Ok::<ClaimOutcome, TokenError>(ClaimOutcome {
                    reward: 0,
                    time_multiplier: m as u16,
                    transfer: None,
                    holder_state: h,
                })
            } else if h.total_claimed + reward > u64::MAX {
                r == Err::<ClaimOutcome, TokenError>(TokenError::ArithmeticOverflow)
            } else {
                r == Ok::<ClaimOutcome, TokenError>(ClaimOutcome {
                    reward: reward as u64,
                    time_multiplier: m as u16,
                    transfer: Some(TransferOp {
                        source: reflection_pool,
                        destination: holder_token,
                        authority: pool_authority,
                        amount: reward as u64,
                    }),
                    holder_state: HolderState {
                        last_reflection_claim: now,
                        total_claimed: (h.total_claimed + reward) as u64,
                        holding_multiplier: m as u16,
                        ..h
                    },
                })
            }
        }),
{
    let mut h = match HolderState::unpack_from_slice(state_data) {
        Ok(h) => h,
        Err(e) => {
            return Err(TokenError::Codec(e));
        },
    };
    if !h.is_initialized() {
        return Err(TokenError::UninitializedAccount);
    }
    let held = match now.checked_sub(h.last_reflection_claim) {
        Some(t) => t,
        None => {
            return Err(TokenError::ArithmeticOverflow);
        },
    };
    let m = time_multiplier(held);
    let reward = match compute_reward(pool_balance, holder_balance, m) {
        Ok(x) => x,
        Err(e) => {
            return Err(e);
        },
    };
    if reward == 0 {
        return Ok(ClaimOutcome { reward: 0, time_multiplier: m, transfer: None, holder_state: h });
    }
    if reward > u64::MAX - h.total_claimed {
        return Err(TokenError::ArithmeticOverflow);
    }
    let transfer = TransferOp { source: reflection_pool, destination: holder_token, authority: pool_authority, amount: reward };
    h.last_reflection_claim = now;
    h.total_claimed = h.total_claimed + reward;
    h.holding_multiplier = m;
    Ok(ClaimOutcome { reward, time_multiplier: m, transfer: Some(transfer), holder_state: h })
}

} // verus!
