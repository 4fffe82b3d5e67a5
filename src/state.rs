//! The persisted records and their fixed-width binary layout.
use vstd::prelude::*;
use crate::account::{AccountId, lemma_account_id_round_trip};
use crate::codec::{
    u16_le, u16_of_le, u64_le, u64_of_le, i64_le, i64_of_le, read_u16, read_u64, read_i64,
    push_u16, push_u64, push_i64, lemma_u16_round_trip, lemma_u64_round_trip,
    lemma_i64_round_trip,
};
use crate::error::CodecError;

verus! {

/// Byte length of a stored pool configuration.
pub const CONFIG_LEN: usize = 233;

/// Byte length of a stored holder record.
pub const HOLDER_LEN: usize = 66;

/// The pool configuration: where taxes go and how they are split.
#[derive(Debug, Clone, Copy, PartialEq, Eq, Structural)]
pub struct CodoxTokenState {
    pub is_initialized: bool,
    pub authority: AccountId,
    pub token_mint: AccountId,
    pub tax_vault: AccountId,
    pub reflection_pool: AccountId,
    pub staking_pool: AccountId,
    pub lottery_pool: AccountId,
    pub tax_rate: u16,
    pub reflection_rate: u16,
    pub staking_rate: u16,
    pub lottery_rate: u16,
    pub total_staked: u64,
    pub total_reflection_distributed: u64,
    pub last_lottery_draw: i64,
    pub lottery_interval: i64,
}

pub open spec fn bool_byte(b: bool) -> u8 {
    if b { 1u8 } else { 0u8 }
}

impl CodoxTokenState {
    /// The stored bytes of the configuration.
    pub open spec fn encoding(self) -> Seq<u8> {
        seq![bool_byte(self.is_initialized)] + self.authority.encoding()
            + self.token_mint.encoding() + self.tax_vault.encoding()
            + self.reflection_pool.encoding() + self.staking_pool.encoding()
            + self.lottery_pool.encoding() + u16_le(self.tax_rate) + u16_le(self.reflection_rate)
            + u16_le(self.staking_rate) + u16_le(self.lottery_rate) + u64_le(self.total_staked)
            + u64_le(self.total_reflection_distributed) + i64_le(self.last_lottery_draw)
            + i64_le(self.lottery_interval)
    }

    /// The configuration stored in the first `CONFIG_LEN` bytes of `s`.
    pub open spec fn decode(s: Seq<u8>) -> CodoxTokenState {
        CodoxTokenState {
            is_initialized: s[0] != 0,
            authority: AccountId::decode(s.subrange(1, 33)),
            token_mint: AccountId::decode(s.subrange(33, 65)),
            tax_vault: AccountId::decode(s.subrange(65, 97)),
            reflection_pool: AccountId::decode(s.subrange(97, 129)),
            staking_pool: AccountId::decode(s.subrange(129, 161)),
            lottery_pool: AccountId::decode(s.subrange(161, 193)),
            tax_rate: u16_of_le(s.subrange(193, 195)),
            reflection_rate: u16_of_le(s.subrange(195, 197)),
            staking_rate: u16_of_le(s.subrange(197, 199)),
            lottery_rate: u16_of_le(s.subrange(199, 201)),
            total_staked: u64_of_le(s.subrange(201, 209)),
            total_reflection_distributed: u64_of_le(s.subrange(209, 217)),
            last_lottery_draw: i64_of_le(s.subrange(217, 225)),
            lottery_interval: i64_of_le(s.subrange(225, 233)),
        }
    }

    /// Whether the record has been written by the initializer.
    pub fn is_initialized(&self) -> (r: bool)
        ensures
            r == self.is_initialized,
    {
        self.is_initialized
    }

    /// Reads a configuration from the start of `src`.
    pub fn unpack_from_slice(src: &[u8]) -> (r: Result<CodoxTokenState, CodecError>)
        ensures
            src@.len() < CONFIG_LEN <==> r == Err::<CodoxTokenState, CodecError>(CodecError::TooShort),
            src@.len() >= CONFIG_LEN ==> r == Ok::<CodoxTokenState, CodecError>(CodoxTokenState::decode(src@)),
    {
        if src.len() < CONFIG_LEN {
            return Err(CodecError::TooShort);
        }
        let s = CodoxTokenState {
            is_initialized: src[0] != 0,
            authority: AccountId::read(src, 1),
            token_mint: AccountId::read(src, 33),
            tax_vault: AccountId::read(src, 65),
            reflection_pool: AccountId::read(src, 97),
            staking_pool: AccountId::read(src, 129),
            lottery_pool: AccountId::read(src, 161),
            tax_rate: read_u16(src, 193),
            reflection_rate: read_u16(src, 195),
            staking_rate: read_u16(src, 197),
            lottery_rate: read_u16(src, 199),
            total_staked: read_u64(src, 201),
            total_reflection_distributed: read_u64(src, 209),
            last_lottery_draw: read_i64(src, 217),
            lottery_interval: read_i64(src, 225),
        };
        Ok(s)
    }

    /// The stored bytes of the configuration.
    #[verifier::rlimit(50)]
    pub fn pack(&self) -> (r: Vec<u8>)
        ensures
            r@ == self.encoding(),
            r@.len() == CONFIG_LEN,
    {
        let mut r: Vec<u8> = Vec::new();
        r.push(if self.is_initialized { 1u8 } else { 0u8 });
        assert(r@ =~= seq![bool_byte(self.is_initialized)]);
        self.authority.push_to(&mut r);
        self.token_mint.push_to(&mut r);
        self.tax_vault.push_to(&mut r);
        self.reflection_pool.push_to(&mut r);
        self.staking_pool.push_to(&mut r);
        self.lottery_pool.push_to(&mut r);
        push_u16(&mut r, self.tax_rate);
        push_u16(&mut r, self.reflection_rate);
        push_u16(&mut r, self.staking_rate);
        push_u16(&mut r, self.lottery_rate);
        push_u64(&mut r, self.total_staked);
        push_u64(&mut r, self.total_reflection_distributed);
        push_i64(&mut r, self.last_lottery_draw);
        push_i64(&mut r, self.lottery_interval);
        proof {
            lemma_config_round_trip(*self);
        }
        r
    }

    /// Writes the configuration over the first `CONFIG_LEN` bytes of `dst`.
    pub fn pack_into_slice(&self, dst: &mut [u8])
        requires
            old(dst)@.len() >= CONFIG_LEN,
        ensures
            final(dst)@ == self.encoding() + old(dst)@.subrange(CONFIG_LEN as int, old(dst)@.len() as int),
    {
        let bytes = self.pack();
        copy_prefix(dst, &bytes);
    }
}

/// Overwrites the first `src.len()` bytes of `dst` with `src`.
fn copy_prefix(dst: &mut [u8], src: &Vec<u8>)
    requires
        src@.len() <= old(dst)@.len(),
    ensures
        final(dst)@ == src@ + old(dst)@.subrange(src@.len() as int, old(dst)@.len() as int),
{
    let n = src.len();
    let mut i: usize = 0;
    while i < n
        invariant
            n == src@.len(),
            i <= n,
            n <= dst@.len(),
            dst@.len() == old(dst)@.len(),
            forall|k: int| 0 <= k < i ==> dst@[k] == src@[k],
            forall|k: int| i <= k < dst@.len() ==> dst@[k] == old(dst)@[k],
        decreases n - i,
    {
        dst[i] = src[i];
        i = i + 1;
    }
    assert(dst@ =~= src@ + old(dst)@.subrange(src@.len() as int, old(dst)@.len() as int));
}

/// Decoding the stored bytes of a configuration gives the configuration back.
#[verifier::rlimit(100)]
#[verifier::spinoff_prover]
pub proof fn lemma_config_round_trip(c: CodoxTokenState)
    ensures
        c.encoding().len() == CONFIG_LEN,
        CodoxTokenState::decode(c.encoding()) == c,
{
    let e = c.encoding();
    assert(e.len() == CONFIG_LEN);
    lemma_account_id_round_trip(c.authority);
    lemma_account_id_round_trip(c.token_mint);
    lemma_account_id_round_trip(c.tax_vault);
    lemma_account_id_round_trip(c.reflection_pool);
    lemma_account_id_round_trip(c.staking_pool);
    lemma_account_id_round_trip(c.lottery_pool);
    assert(e.subrange(1, 33) =~= c.authority.encoding());
    assert(e.subrange(33, 65) =~= c.token_mint.encoding());
    assert(e.subrange(65, 97) =~= c.tax_vault.encoding());
    assert(e.subrange(97, 129) =~= c.reflection_pool.encoding());
    assert(e.subrange(129, 161) =~= c.staking_pool.encoding());
    assert(e.subrange(161, 193) =~= c.lottery_pool.encoding());
    assert(e.subrange(193, 195) =~= u16_le(c.tax_rate));
    assert(e.subrange(195, 197) =~= u16_le(c.reflection_rate));
    assert(e.subrange(197, 199) =~= u16_le(c.staking_rate));
    assert(e.subrange(199, 201) =~= u16_le(c.lottery_rate));
    assert(e.subrange(201, 209) =~= u64_le(c.total_staked));
    assert(e.subrange(209, 217) =~= u64_le(c.total_reflection_distributed));
    assert(e.subrange(217, 225) =~= i64_le(c.last_lottery_draw));
    assert(e.subrange(225, 233) =~= i64_le(c.lottery_interval));
    lemma_u16_round_trip(c.tax_rate);
    lemma_u16_round_trip(c.reflection_rate);
    lemma_u16_round_trip(c.staking_rate);
    lemma_u16_round_trip(c.lottery_rate);
    lemma_u64_round_trip(c.total_staked);
    lemma_u64_round_trip(c.total_reflection_distributed);
    lemma_i64_round_trip(c.last_lottery_draw);
    lemma_i64_round_trip(c.lottery_interval);
}

/// Per-holder staking and reward bookkeeping.
#[derive(Debug, Clone, Copy, PartialEq, Eq, Structural)]
pub struct HolderState {
    pub holder: AccountId,
    pub last_reflection_claim: i64,
    pub staked_amount: u64,
    pub stake_time: i64,
    pub total_claimed: u64,
    pub holding_multiplier: u16,
}

impl HolderState {
    /// The stored bytes of the holder record.
    pub open spec fn encoding(self) -> Seq<u8> {
        self.holder.encoding() + i64_le(self.last_reflection_claim) + u64_le(self.staked_amount)
            + i64_le(self.stake_time) + u64_le(self.total_claimed) + u16_le(self.holding_multiplier)
    }

    /// The holder record stored in the first `HOLDER_LEN` bytes of `s`.
    pub open spec fn decode(s: Seq<u8>) -> HolderState {
        HolderState {
            holder: AccountId::decode(s.subrange(0, 32)),
            last_reflection_claim: i64_of_le(s.subrange(32, 40)),
            staked_amount: u64_of_le(s.subrange(40, 48)),
            stake_time: i64_of_le(s.subrange(48, 56)),
            total_claimed: u64_of_le(s.subrange(56, 64)),
            holding_multiplier: u16_of_le(s.subrange(64, 66)),
        }
    }

    /// A record is in use once it names a holder other than the zero identity.
    pub fn is_initialized(&self) -> (r: bool)
        ensures
            r == (self.holder != AccountId { w0: 0, w1: 0, w2: 0, w3: 0 }),
    {
        self.holder != AccountId::zero()
    }

    /// Reads a holder record from the start of `src`.
    pub fn unpack_from_slice(src: &[u8]) -> (r: Result<HolderState, CodecError>)
        ensures
            src@.len() < HOLDER_LEN <==> r == Err::<HolderState, CodecError>(CodecError::TooShort),
            src@.len() >= HOLDER_LEN ==> r == Ok::<HolderState, CodecError>(HolderState::decode(src@)),
    {
        if src.len() < HOLDER_LEN {
            return Err(CodecError::TooShort);
        }
        let h = HolderState {
            holder: AccountId::read(src, 0),
            last_reflection_claim: read_i64(src, 32),
            staked_amount: read_u64(src, 40),
            stake_time: read_i64(src, 48),
            total_claimed: read_u64(src, 56),
            holding_multiplier: read_u16(src, 64),
        };
        Ok(h)
    }

    /// The stored bytes of the holder record.
    pub fn pack(&self) -> (r: Vec<u8>)
        ensures
            r@ == self.encoding(),
            r@.len() == HOLDER_LEN,
    {
        let mut r: Vec<u8> = Vec::new();
        self.holder.push_to(&mut r);
        assert(r@ =~= self.holder.encoding());
        push_i64(&mut r, self.last_reflection_claim);
        push_u64(&mut r, self.staked_amount);
        push_i64(&mut r, self.stake_time);
        push_u64(&mut r, self.total_claimed);
        push_u16(&mut r, self.holding_multiplier);
        proof {
            lemma_holder_round_trip(*self);
        }
        r
    }

    /// Writes the holder record over the first `HOLDER_LEN` bytes of `dst`.
    pub fn pack_into_slice(&self, dst: &mut [u8])
        requires
            old(dst)@.len() >= HOLDER_LEN,
        ensures
            final(dst)@ == self.encoding() + old(dst)@.subrange(HOLDER_LEN as int, old(dst)@.len() as int),
    {
        let bytes = self.pack();
        copy_prefix(dst, &bytes);
    }
}

/// Decoding the stored bytes of a holder record gives the record back.
pub proof fn lemma_holder_round_trip(h: HolderState)
    ensures
        h.encoding().len() == HOLDER_LEN,
        HolderState::decode(h.encoding()) == h,
{
    let e = h.encoding();
    lemma_account_id_round_trip(h.holder);
    assert(e.len() == HOLDER_LEN);
    assert(e.subrange(0, 32) =~= h.holder.encoding());
    assert(e.subrange(32, 40) =~= i64_le(h.last_reflection_claim));
    assert(e.subrange(40, 48) =~= u64_le(h.staked_amount));
    assert(e.subrange(48, 56) =~= i64_le(h.stake_time));
    assert(e.subrange(56, 64) =~= u64_le(h.total_claimed));
    assert(e.subrange(64, 66) =~= u16_le(h.holding_multiplier));
    lemma_i64_round_trip(h.last_reflection_claim);
    lemma_u64_round_trip(h.staked_amount);
    lemma_i64_round_trip(h.stake_time);
    lemma_u64_round_trip(h.total_claimed);
    lemma_u16_round_trip(h.holding_multiplier);
}

} // verus!
