//! The lottery record. Entering and drawing are placeholders that change
//! nothing; the record's shape and stored layout are fixed here so that they
//! can be built on: a little-endian `u32` count, the participants' identities
//! in entry order, the current prize, the last winner and the number of draws.
use vstd::prelude::*;
use crate::account::{AccountId, lemma_account_id_round_trip};
use crate::codec::{u32_le, u32_of_le, u64_le, u64_of_le, read_u32, read_u64, push_u32, push_u64,
    lemma_u32_round_trip, lemma_u64_round_trip};
use crate::error::CodecError;

verus! {

/// Participants, in entry order, and the prize being collected.
#[derive(Debug, Clone)]
pub struct LotteryState {
    pub participants: Vec<AccountId>,
    pub current_prize: u64,
    pub last_winner: AccountId,
    pub total_draws: u64,
}

/// The identities of `ids`, 32 bytes each, one after the other.
pub open spec fn ids_encoding(ids: Seq<AccountId>) -> Seq<u8> {
    Seq::new((32 * ids.len()) as nat, |k: int| ids[k / 32].encoding()[k % 32])
}

/// The `n` identities stored one after the other from offset `off` of `s`.
pub open spec fn ids_decode(s: Seq<u8>, off: int, n: nat) -> Seq<AccountId> {
    Seq::new(n, |i: int| AccountId::decode(s.subrange(off + 32 * i, off + 32 * i + 32)))
}

/// Byte length of a stored lottery record with `n` participants.
pub open spec fn lottery_len(n: nat) -> int {
    4 + 32 * (n as int) + 48
}

impl LotteryState {
    /// The stored bytes of the lottery record.
    pub open spec fn encoding(self) -> Seq<u8> {
        u32_le(self.participants@.len() as u32) + ids_encoding(self.participants@) + u64_le(self.current_prize)
            + self.last_winner.encoding() + u64_le(self.total_draws)
    }

    /// The participant count stored at the start of `s`.
    pub open spec fn stored_count(s: Seq<u8>) -> nat {
        u32_of_le(s.subrange(0, 4)) as nat
    }

    /// Whether `r` is the lottery record stored at the start of `s`.
    pub open spec fn decodes_to(s: Seq<u8>, r: LotteryState) -> bool {
        let n = LotteryState::stored_count(s);
        let tail: int = 4 + 32 * (n as int);
        &&& r.participants@ == ids_decode(s, 4, n)
        &&& r.current_prize == u64_of_le(s.subrange(tail, tail + 8))
        &&& r.last_winner == AccountId::decode(s.subrange(tail + 8, tail + 40))
        &&& r.total_draws == u64_of_le(s.subrange(tail + 40, tail + 48))
    }

    /// Reads a lottery record from the start of `src`.
    pub fn unpack_from_slice(src: &[u8]) -> (r: Result<LotteryState, CodecError>)
        ensures
            (src@.len() < 4 || src@.len() < lottery_len(LotteryState::stored_count(src@)))
                <==> r is Err,
            r is Err ==> r == Err::<LotteryState, CodecError>(CodecError::TooShort),
            r is Ok ==> LotteryState::decodes_to(src@, r.unwrap()),
    {
        let len = src.len();
        if len < 4 {
            return Err(CodecError::TooShort);
        }
        let count = read_u32(src, 0);
        let needed: u64 = 52 + 32 * (count as u64);
        if (len as u64) < needed {
            return Err(CodecError::TooShort);
        }
        let n = count as usize;
        let mut participants: Vec<AccountId> = Vec::new();
        let mut i: usize = 0;
        while i < n
            invariant
                n == count as nat,
                len == src@.len(),
                52 + 32 * n <= len,
                i <= n,
                participants@ == ids_decode(src@, 4, i as nat),
            decreases n - i,
        {
            let id = AccountId::read(src, 4 + 32 * i);
            participants.push(id);
            i = i + 1;
            assert(participants@ =~= ids_decode(src@, 4, i as nat));
        }
        let tail = 4 + 32 * n;
        Ok(LotteryState {
            participants,
            current_prize: read_u64(src, tail),
            last_winner: AccountId::read(src, tail + 8),
            total_draws: read_u64(src, tail + 40),
        })
    }

    /// The stored bytes of the lottery record.
    pub fn pack(&self) -> (r: Vec<u8>)
        requires
            self.participants@.len() <= u32::MAX,
        ensures
            r@ == self.encoding(),
    {
        let n = self.participants.len();
        let mut r: Vec<u8> = Vec::new();
        push_u32(&mut r, n as u32);
        assert(r@ =~= u32_le(n as u32));
        let mut i: usize = 0;
        while i < n
            invariant
                n == self.participants@.len(),
                n <= u32::MAX,
                i <= n,
                r@ == u32_le(n as u32) + ids_encoding(self.participants@.subrange(0, i as int)),
            decreases n - i,
        {
            self.participants[i].push_to(&mut r);
            proof {
                lemma_ids_encoding_push(self.participants@, i as int);
            }
            i = i + 1;
        }
        assert(self.participants@.subrange(0, n as int) =~= self.participants@);
        push_u64(&mut r, self.current_prize);
        self.last_winner.push_to(&mut r);
        push_u64(&mut r, self.total_draws);
        r
    }
}

/// Encoding one more identity appends its 32 bytes.
proof fn lemma_ids_encoding_push(ids: Seq<AccountId>, i: int)
    requires
        0 <= i < ids.len(),
    ensures
        ids_encoding(ids.subrange(0, i + 1)) == ids_encoding(ids.subrange(0, i)) + ids[i].encoding(),
{
    let a = ids_encoding(ids.subrange(0, i + 1));
    let b = ids_encoding(ids.subrange(0, i)) + ids[i].encoding();
    lemma_account_id_round_trip(ids[i]);
    assert forall|k: int| 0 <= k < a.len() implies a[k] == b[k] by {
        if k < 32 * i {
            assert(k / 32 < i) by (nonlinear_arith) requires 0 <= k < 32 * i;
        } else {
            assert(k / 32 == i && k % 32 == k - 32 * i) by (nonlinear_arith) requires 32 * i <= k < 32 * i + 32;
        }
    }
    assert(a =~= b);
}

/// The identity stored at place `i` of an encoding of `ids` is `ids[i]`.
proof fn lemma_ids_decode(ids: Seq<AccountId>, i: int)
    requires
        0 <= i < ids.len(),
    ensures
        ids_encoding(ids).subrange(32 * i, 32 * i + 32) == ids[i].encoding(),
{
    let e = ids_encoding(ids);
    lemma_account_id_round_trip(ids[i]);
    assert forall|j: int| 0 <= j < 32 implies e.subrange(32 * i, 32 * i + 32)[j] == ids[i].encoding()[j] by {
        assert((32 * i + j) / 32 == i && (32 * i + j) % 32 == j) by (nonlinear_arith) requires 0 <= j < 32;
        assert(32 * i + j < 32 * ids.len()) by (nonlinear_arith) requires 0 <= j < 32, i < ids.len();
    }
    assert(e.subrange(32 * i, 32 * i + 32) =~= ids[i].encoding());
}

/// Reading the stored bytes of a lottery record gives its fields back.
#[verifier::rlimit(100)]
#[verifier::spinoff_prover]
pub proof fn lemma_lottery_round_trip(r: LotteryState)
    requires
        r.participants@.len() <= u32::MAX,
    ensures
        r.encoding().len() == lottery_len(r.participants@.len()),
        LotteryState::stored_count(r.encoding()) == r.participants@.len(),
        LotteryState::decodes_to(r.encoding(), r),
{
    let ids = r.participants@;
    let n = ids.len();
    let e = r.encoding();
    let ie = ids_encoding(ids);
    lemma_u32_round_trip(n as u32);
    lemma_u64_round_trip(r.current_prize);
    lemma_u64_round_trip(r.total_draws);
    lemma_account_id_round_trip(r.last_winner);
    assert(e.subrange(0, 4) =~= u32_le(n as u32));
    let tail: int = 4 + 32 * (n as int);
    assert(e.subrange(tail, tail + 8) =~= u64_le(r.current_prize));
    assert(e.subrange(tail + 8, tail + 40) =~= r.last_winner.encoding());
    assert(e.subrange(tail + 40, tail + 48) =~= u64_le(r.total_draws));
    assert forall|i: int| 0 <= i < n implies ids_decode(e, 4, n)[i] == ids[i] by {
        lemma_ids_decode(ids, i);
        assert(32 * i + 32 <= 32 * n) by (nonlinear_arith) requires 0 <= i < n;
        assert(e.subrange(4 + 32 * i, 4 + 32 * i + 32) =~= ie.subrange(32 * i, 32 * i + 32));
        lemma_account_id_round_trip(ids[i]);
    }
    assert(ids_decode(e, 4, n) =~= ids);
}

} // verus!
