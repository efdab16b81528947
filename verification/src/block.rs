//! One unit of ledger data: its fields, its content hash, and the
//! proof-of-work search that seals it.

use vstd::prelude::*;
use vstd::string::StringExecFns;

use crate::hashing::{dec_of, digest_hex, digest_hex_of, meets_difficulty, u64_to_dec,
    check_difficulty};

verus! {

/// A block of the ledger. It is *unsealed* while `hash` is empty (only the
/// nonce may then change, during mining) and *sealed* once `hash` holds the
/// digest of its own fields; a sealed block's fields never change again.
#[derive(Clone, Debug)]
pub struct Block {
    /// Position in the chain, strictly increasing from zero.
    pub index: u64,
    /// Creation time, as fixed text, recorded once and hashed with the rest.
    pub timestamp: String,
    /// Arbitrary payload text supplied by the caller.
    pub data: String,
    /// Proof-of-work search variable; starts at zero.
    pub nonce: u64,
    /// Hash text of the preceding block, or the sentinel `"0"` for genesis.
    pub prev_hash: String,
    /// Hash text of this block's own content; empty until mining succeeds.
    pub hash: String,
}

/// The character sequence a block's hash is computed over: index, timestamp,
/// data, nonce and previous hash, concatenated in that fixed order with no
/// separators (counters in decimal).
pub open spec fn spec_payload(b: Block) -> Seq<char> {
    dec_of(b.index as nat) + b.timestamp@ + b.data@ + dec_of(b.nonce as nat) + b.prev_hash@
}

/// The hash text that a block's current field values produce.
pub open spec fn spec_hash(b: Block) -> Seq<char> {
    digest_hex_of(spec_payload(b))
}

/// A sealed block stores exactly the hash of its own current fields.
pub open spec fn sealed(b: Block) -> bool {
    b.hash@ == spec_hash(b)
}

/// The same block with its nonce replaced.
pub open spec fn with_nonce(b: Block, m: u64) -> Block {
    Block { nonce: m, ..b }
}

/// No nonce at all lets this block's fields hash to a text that meets the
/// difficulty: the proof-of-work search has no solution.
pub open spec fn unmineable(b: Block, d: nat) -> bool {
    forall|m: u64| !meets_difficulty(#[trigger] spec_hash(with_nonce(b, m)), d)
}

/// Relies on `chrono::Utc::now` and `chrono::DateTime::to_rfc3339` for the
/// creation timestamp; nothing is assumed of the clock's value.
#[verifier::external_body]
fn now_rfc3339() -> String {
    chrono::Utc::now().to_rfc3339()
}

impl Block {
    /// A fresh, unsealed block: nonce zero, hash empty, timestamp taken from
    /// the clock at creation and immutable thereafter.
    pub fn new(index: u64, data: String, prev_hash: String) -> (r: Block)
        ensures
            r.index == index,
            r.data == data,
            r.prev_hash == prev_hash,
            r.nonce == 0,
            r.hash@.len() == 0,
    {
        Block {
            index,
            timestamp: now_rfc3339(),
            data,
            nonce: 0,
            prev_hash,
            hash: String::new(),
        }
    }

    /// The hash text of the block's current field values: a pure function of
    /// the fields, identical on every call for identical values.
    pub fn compute_hash(&self) -> (r: String)
        ensures
            r@ == spec_hash(*self),
            r@.len() == 64,
    {
        let mut payload = u64_to_dec(self.index);
        payload.append(self.timestamp.as_str());
        payload.append(self.data.as_str());
        let nonce_text = u64_to_dec(self.nonce);
        payload.append(nonce_text.as_str());
        payload.append(self.prev_hash.as_str());
        proof {
            assert(payload@ =~= spec_payload(*self));
        }
        digest_hex(payload.as_str())
    }

    /// Proof-of-work search: recompute the hash, and either seal the block
    /// with it (when it starts with `difficulty` zero characters) or bump the
    /// nonce and try again. Starting from the current nonce, every nonce
    /// value is tried once, wrapping past the largest; on success the block
    /// is sealed, meets the target, and every field but the nonce is
    /// unchanged. The search fails only when no nonce at all works — the one
    /// circumstance in which an endless retry could never return — and then
    /// leaves the block exactly as it was.
    pub fn mine(&mut self, difficulty: usize) -> (found: bool)
        ensures
            final(self).index == old(self).index,
            final(self).timestamp == old(self).timestamp,
            final(self).data == old(self).data,
            final(self).prev_hash == old(self).prev_hash,
            found ==> sealed(*final(self)) && meets_difficulty(
                final(self).hash@,
                difficulty as nat,
            ),
            !found ==> *final(self) == *old(self) && unmineable(*old(self), difficulty as nat),
    {
        let start = self.nonce;
        loop
            invariant
                self.index == old(self).index,
                self.timestamp == old(self).timestamp,
                self.data == old(self).data,
                self.prev_hash == old(self).prev_hash,
                self.hash == old(self).hash,
                start <= self.nonce,
                forall|m: u64|
                    start <= m < self.nonce ==> !meets_difficulty(
                        #[trigger] spec_hash(with_nonce(*old(self), m)),
                        difficulty as nat,
                    ),
            ensures
                self.index == old(self).index,
                self.timestamp == old(self).timestamp,
                self.data == old(self).data,
                self.prev_hash == old(self).prev_hash,
                self.hash == old(self).hash,
                forall|m: u64|
                    start <= m ==> !meets_difficulty(
                        #[trigger] spec_hash(with_nonce(*old(self), m)),
                        difficulty as nat,
                    ),
            decreases u64::MAX - self.nonce,
        {
            let h = self.compute_hash();
            if check_difficulty(h.as_str(), difficulty) {
                self.hash = h;
                return true;
            }
            proof {
                assert(spec_payload(*self) =~= spec_payload(with_nonce(*old(self), self.nonce)));
            }
            if self.nonce == u64::MAX {
                break;
            }
            self.nonce = self.nonce + 1;
        }
        self.nonce = 0;
        while self.nonce < start
            invariant
                self.index == old(self).index,
                self.timestamp == old(self).timestamp,
                self.data == old(self).data,
                self.prev_hash == old(self).prev_hash,
                self.hash == old(self).hash,
                self.nonce <= start,
                forall|m: u64|
                    start <= m ==> !meets_difficulty(
                        #[trigger] spec_hash(with_nonce(*old(self), m)),
                        difficulty as nat,
                    ),
                forall|m: u64|
                    m < self.nonce ==> !meets_difficulty(
                        #[trigger] spec_hash(with_nonce(*old(self), m)),
                        difficulty as nat,
                    ),
            decreases start - self.nonce,
        {
            let h = self.compute_hash();
            if check_difficulty(h.as_str(), difficulty) {
                self.hash = h;
                return true;
            }
            proof {
                assert(spec_payload(*self) =~= spec_payload(with_nonce(*old(self), self.nonce)));
            }
            self.nonce = self.nonce + 1;
        }
        self.nonce = start;
        false
    }
}

/// The content hash is deterministic: two blocks with equal field values
/// hash to the same text.
pub proof fn lemma_hash_deterministic(a: Block, b: Block)
    requires
        a.index == b.index,
        a.timestamp@ == b.timestamp@,
        a.data@ == b.data@,
        a.nonce == b.nonce,
        a.prev_hash@ == b.prev_hash@,
    ensures
        spec_hash(a) == spec_hash(b),
{
    assert(spec_payload(a) =~= spec_payload(b));
}

} // verus!
