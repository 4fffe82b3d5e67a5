//! Ledger account identities and the transfers the engine asks the ledger to make.
use vstd::prelude::*;
use crate::codec::{u64_le, u64_of_le, read_u64, push_u64, lemma_u64_round_trip};

verus! {

/// Length in bytes of an account identity.
pub const ACCOUNT_ID_LEN: usize = 32;

/// A 32-byte ledger identity, held as four little-endian words.
#[derive(Debug, Clone, Copy, PartialEq, Eq, Structural)]
pub struct AccountId {
    pub w0: u64,
    pub w1: u64,
    pub w2: u64,
    pub w3: u64,
}

impl AccountId {
    /// The 32 bytes of the identity, in order.
    pub open spec fn encoding(self) -> Seq<u8> {
        u64_le(self.w0) + u64_le(self.w1) + u64_le(self.w2) + u64_le(self.w3)
    }

    /// The identity whose bytes are `s[0..32]`.
    pub open spec fn decode(s: Seq<u8>) -> AccountId {
        AccountId {
            w0: u64_of_le(s.subrange(0, 8)),
            w1: u64_of_le(s.subrange(8, 16)),
            w2: u64_of_le(s.subrange(16, 24)),
            w3: u64_of_le(s.subrange(24, 32)),
        }
    }

    /// The all-zero identity.
    pub fn zero() -> (r: AccountId)
        ensures
            r == (AccountId { w0: 0, w1: 0, w2: 0, w3: 0 }),
    {
        AccountId { w0: 0, w1: 0, w2: 0, w3: 0 }
    }

    /// Reads the identity stored at `src[off..off + 32]`.
    pub fn read(src: &[u8], off: usize) -> (r: AccountId)
        requires
            off + 32 <= src@.len(),
        ensures
            r == AccountId::decode(src@.subrange(off as int, off + 32)),
    {
        let r = AccountId {
            w0: read_u64(src, off),
            w1: read_u64(src, off + 8),
            w2: read_u64(src, off + 16),
            w3: read_u64(src, off + 24),
        };
        let ghost s = src@.subrange(off as int, off + 32);
        assert(s.subrange(0, 8) =~= src@.subrange(off as int, off + 8));
        assert(s.subrange(8, 16) =~= src@.subrange(off + 8, off + 16));
        assert(s.subrange(16, 24) =~= src@.subrange(off + 16, off + 24));
        assert(s.subrange(24, 32) =~= src@.subrange(off + 24, off + 32));
        r
    }

    /// Appends the 32 bytes of the identity.
    pub fn push_to(&self, out: &mut Vec<u8>)
        ensures
            final(out)@ == old(out)@ + self.encoding(),
    {
        push_u64(out, self.w0);
        push_u64(out, self.w1);
        push_u64(out, self.w2);
        push_u64(out, self.w3);
        assert(out@ =~= old(out)@ + self.encoding());
    }

    /// The identity whose bytes are `b`, which must be exactly 32 long.
    pub fn from_bytes(b: &[u8]) -> (r: Option<AccountId>)
        ensures
            b@.len() == 32 <==> r.is_some(),
            r.is_some() ==> r.unwrap() == AccountId::decode(b@),
    {
        if b.len() != ACCOUNT_ID_LEN {
            return None;
        }
        let r = AccountId::read(b, 0);
        assert(b@.subrange(0, 32) =~= b@);
        Some(r)
    }

    /// The 32 bytes of the identity.
    pub fn to_bytes(&self) -> (r: Vec<u8>)
        ensures
            r@ == self.encoding(),
    {
        let mut r: Vec<u8> = Vec::new();
        self.push_to(&mut r);
        assert(r@ =~= self.encoding());
        r
    }
}

/// Decoding the bytes of an identity gives the identity back.
pub proof fn lemma_account_id_round_trip(a: AccountId)
    ensures
        a.encoding().len() == 32,
        AccountId::decode(a.encoding()) == a,
{
    let e = a.encoding();
    assert(e.subrange(0, 8) =~= u64_le(a.w0));
    assert(e.subrange(8, 16) =~= u64_le(a.w1));
    assert(e.subrange(16, 24) =~= u64_le(a.w2));
    assert(e.subrange(24, 32) =~= u64_le(a.w3));
    lemma_u64_round_trip(a.w0);
    lemma_u64_round_trip(a.w1);
    lemma_u64_round_trip(a.w2);
    lemma_u64_round_trip(a.w3);
}

/// One movement of tokens that the ledger's transfer primitive is asked to make.
#[derive(Debug, Clone, Copy, PartialEq, Eq, Structural)]
pub struct TransferOp {
    pub source: AccountId,
    pub destination: AccountId,
    pub authority: AccountId,
    pub amount: u64,
}

} // verus!
