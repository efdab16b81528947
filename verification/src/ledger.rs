//! The ledger: an ordered, append-only sequence of blocks under one
//! difficulty, with linkage, sequence, integrity and proof-of-work checks
//! enforced on append and re-derivable over the whole chain.

use vstd::prelude::*;
use vstd::string::StringExecFns;

use crate::block::{sealed, spec_hash, unmineable, Block};
use crate::hashing::{check_difficulty, meets_difficulty};

verus! {

/// Why an append was refused. Each variant names the first check of the
/// fixed order (linkage, sequence, integrity, proof-of-work) that failed.
#[derive(Clone, Copy, Debug, PartialEq, Eq, Structural)]
pub enum AppendError {
    /// The candidate's `prev_hash` differs from the head's `hash`.
    Linkage,
    /// The candidate's `index` is not the head's `index` plus one.
    Sequence,
    /// The candidate's stored `hash` differs from its recomputed hash.
    Integrity,
    /// The candidate's `hash` does not meet the ledger's difficulty.
    ProofOfWork,
}

impl AppendError {
    /// The text of each error's message.
    pub open spec fn spec_message(self) -> Seq<char> {
        match self {
            AppendError::Linkage => "prev_hash mismatch"@,
            AppendError::Sequence => "index mismatch"@,
            AppendError::Integrity => "hash invalid"@,
            AppendError::ProofOfWork => "proof-of-work invalid"@,
        }
    }

    /// A short message naming the failed check.
    pub fn message(&self) -> (r: &'static str)
        ensures
            r@ == self.spec_message(),
    {
        match self {
            AppendError::Linkage => "prev_hash mismatch",
            AppendError::Sequence => "index mismatch",
            AppendError::Integrity => "hash invalid",
            AppendError::ProofOfWork => "proof-of-work invalid",
        }
    }
}

/// One link of the chain is in order: the block stores the predecessor's
/// hash, stores the hash of its own fields, and meets the difficulty.
pub open spec fn block_ok(prev: Block, b: Block, difficulty: nat) -> bool {
    &&& b.prev_hash@ == prev.hash@
    &&& sealed(b)
    &&& meets_difficulty(b.hash@, difficulty)
}

/// Every block after the first is in order with respect to its immediate
/// predecessor as stored.
pub open spec fn chain_valid(chain: Seq<Block>, difficulty: nat) -> bool {
    forall|i: int| 1 <= i < chain.len() ==> block_ok(chain[i - 1], #[trigger] chain[i], difficulty)
}

/// The outcome `append` owes a candidate: the four checks in their fixed
/// order against the current head, the first failure deciding the error.
pub open spec fn append_check(head: Block, b: Block, difficulty: nat) -> Result<(), AppendError> {
    if b.prev_hash@ != head.hash@ {
        Err(AppendError::Linkage)
    } else if b.index != head.index + 1 {
        Err(AppendError::Sequence)
    } else if !sealed(b) {
        Err(AppendError::Integrity)
    } else if !meets_difficulty(b.hash@, difficulty) {
        Err(AppendError::ProofOfWork)
    } else {
        Ok(())
    }
}

/// The ledger: the ordered chain of blocks and the proof-of-work difficulty,
/// fixed for the ledger's lifetime.
pub struct Blockchain {
    /// The blocks, insertion order, never reordered or removed.
    pub chain: Vec<Block>,
    /// Leading zero characters required of every appended block's hash.
    pub difficulty: usize,
}

impl Blockchain {
    /// Structural well-formedness: at least the genesis block, indexes
    /// counting up from zero, and every link of the chain in order.
    pub open spec fn wf(self) -> bool {
        &&& self.chain@.len() >= 1
        &&& self.chain@[0].index == 0
        &&& (forall|i: int|
            1 <= i < self.chain@.len() ==> #[trigger] self.chain@[i].index == self.chain@[i
                - 1].index + 1)
        &&& chain_valid(self.chain@, self.difficulty as nat)
    }

    /// A fresh ledger: a genesis block (index zero, sentinel payload,
    /// previous hash `"0"`) mined at the given difficulty, and nothing else.
    /// `None` only when the genesis candidate admits no proof-of-work
    /// solution at all.
    pub fn new(difficulty: usize) -> (r: Option<Blockchain>)
        ensures
            match r {
                Some(l) => {
                    &&& l.wf()
                    &&& l.difficulty == difficulty
                    &&& l.chain@.len() == 1
                    &&& l.chain@[0].index == 0
                    &&& l.chain@[0].data@ == "Genesis"@
                    &&& l.chain@[0].prev_hash@ == "0"@
                    &&& sealed(l.chain@[0])
                    &&& meets_difficulty(l.chain@[0].hash@, difficulty as nat)
                },
                None => exists|b: Block|
                    {
                        &&& b.index == 0
                        &&& b.nonce == 0
                        &&& b.data@ == "Genesis"@
                        &&& b.prev_hash@ == "0"@
                        &&& unmineable(b, difficulty as nat)
                    },
            },
    {
        let mut genesis = Block::new(0, String::from_str("Genesis"), String::from_str("0"));
        let found = genesis.mine(difficulty);
        if found {
            let mut chain: Vec<Block> = Vec::new();
            chain.push(genesis);
            Some(Blockchain { chain, difficulty })
        } else {
            None
        }
    }

    /// Validates the candidate against the current head — linkage, sequence,
    /// integrity, proof-of-work, in that order — and appends it only when
    /// all four pass. On any error the ledger is unchanged; on success the
    /// candidate becomes the new head, and a well-formed ledger stays
    /// well-formed.
    pub fn add_block(&mut self, block: Block) -> (r: Result<(), AppendError>)
        requires
            old(self).chain@.len() >= 1,
        ensures
            final(self).difficulty == old(self).difficulty,
            r == append_check(old(self).chain@.last(), block, old(self).difficulty as nat),
            r is Ok ==> final(self).chain@ == old(self).chain@.push(block),
            r is Err ==> final(self).chain@ == old(self).chain@,
            r is Ok && chain_valid(old(self).chain@, old(self).difficulty as nat)
                ==> chain_valid(final(self).chain@, old(self).difficulty as nat),
            r is Ok && old(self).wf() ==> final(self).wf(),
    {
        let last_pos = self.chain.len() - 1;
        let last = &self.chain[last_pos];
        proof {
            assert(self.chain@[last_pos as int] == old(self).chain@.last());
        }
        if !(block.prev_hash == last.hash) {
            return Err(AppendError::Linkage);
        }
        if !(last.index < u64::MAX && block.index == last.index + 1) {
            return Err(AppendError::Sequence);
        }
        let computed = block.compute_hash();
        if !(computed == block.hash) {
            return Err(AppendError::Integrity);
        }
        if !check_difficulty(block.hash.as_str(), self.difficulty) {
            return Err(AppendError::ProofOfWork);
        }
        proof {
            let oldc = old(self).chain@;
            let newc = oldc.push(block);
            if chain_valid(oldc, old(self).difficulty as nat) {
                lemma_append_preserves_valid(oldc, block, old(self).difficulty as nat);
            }
            if old(self).wf() {
                assert forall|i: int|
                    1 <= i < newc.len() implies #[trigger] newc[i].index == newc[i - 1].index
                    + 1 by {
                    if i < oldc.len() {
                        assert(oldc[i].index == oldc[i - 1].index + 1);
                    } else {
                        assert(newc[i] == block);
                        assert(newc[i - 1] == oldc.last());
                    }
                }
            }
        }
        self.chain.push(block);
        Ok(())
    }

    /// Re-walks the whole chain and re-derives, for each block after the
    /// first, the same linkage, integrity and proof-of-work checks `append`
    /// enforces; true exactly when every link is in order.
    pub fn is_valid(&self) -> (r: bool)
        ensures
            r == chain_valid(self.chain@, self.difficulty as nat),
    {
        let mut i: usize = 1;
        while i < self.chain.len()
            invariant
                1 <= i,
                forall|j: int|
                    1 <= j < i ==> block_ok(
                        self.chain@[j - 1],
                        #[trigger] self.chain@[j],
                        self.difficulty as nat,
                    ),
            decreases self.chain@.len() - i,
        {
            let prev = &self.chain[i - 1];
            let b = &self.chain[i];
            if !(b.prev_hash == prev.hash) {
                return false;
            }
            let computed = b.compute_hash();
            if !(computed == b.hash) {
                return false;
            }
            if !check_difficulty(b.hash.as_str(), self.difficulty) {
                return false;
            }
            i = i + 1;
        }
        true
    }
}

/// A chain of at most one block — a freshly constructed genesis-only ledger
/// in particular — always passes validation.
pub proof fn lemma_short_chain_valid(chain: Seq<Block>, difficulty: nat)
    requires
        chain.len() <= 1,
    ensures
        chain_valid(chain, difficulty),
{
}

/// Validation is falsified by any link out of order: a chain in which some
/// block fails its linkage, integrity or proof-of-work check against its
/// stored predecessor never passes validation.
pub proof fn lemma_bad_link_invalidates(chain: Seq<Block>, difficulty: nat, i: int)
    requires
        1 <= i < chain.len(),
        !block_ok(chain[i - 1], chain[i], difficulty),
    ensures
        !chain_valid(chain, difficulty),
{
}

/// A successful append preserves validation: extending a valid chain with a
/// block that is in order with respect to the head leaves a valid chain.
pub proof fn lemma_append_preserves_valid(chain: Seq<Block>, b: Block, difficulty: nat)
    requires
        chain_valid(chain, difficulty),
        chain.len() >= 1,
        block_ok(chain.last(), b, difficulty),
    ensures
        chain_valid(chain.push(b), difficulty),
{
    let extended = chain.push(b);
    assert forall|i: int|
        1 <= i < extended.len() implies block_ok(
        extended[i - 1],
        #[trigger] extended[i],
        difficulty,
    ) by {
        if i < chain.len() {
            assert(block_ok(chain[i - 1], chain[i], difficulty));
        } else {
            assert(extended[i] == b);
            assert(extended[i - 1] == chain.last());
        }
    }
}

} // verus!
