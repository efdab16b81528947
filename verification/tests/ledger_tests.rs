use hashchain::block::Block;
use hashchain::ledger::{AppendError, Blockchain};

fn linked_candidate(ledger: &Blockchain, data: &str) -> Block {
    let head = ledger.chain.last().unwrap();
    Block::new(head.index + 1, String::from(data), head.hash.clone())
}

fn mined_candidate(ledger: &Blockchain, data: &str) -> Block {
    let mut block = linked_candidate(ledger, data);
    assert!(block.mine(ledger.difficulty));
    block
}

#[test]
fn compute_hash_is_deterministic() {
    let block = Block::new(0, String::from("payload"), String::from("0"));
    assert_eq!(block.compute_hash(), block.compute_hash());
}

#[test]
fn mining_meets_each_difficulty() {
    for difficulty in 0..=4usize {
        let mut block = Block::new(1, String::from("arbitrary data"), String::from("0a1b"));
        assert!(block.mine(difficulty));
        assert!(block.hash.chars().take(difficulty).all(|c| c == '0'));
        assert_eq!(block.hash, block.compute_hash());
    }
}

#[test]
fn fresh_ledger_holds_mined_genesis() {
    let ledger = Blockchain::new(1).unwrap();
    assert_eq!(ledger.difficulty, 1);
    assert_eq!(ledger.chain.len(), 1);
    let genesis = &ledger.chain[0];
    assert_eq!(genesis.index, 0);
    assert_eq!(genesis.data, "Genesis");
    assert_eq!(genesis.prev_hash, "0");
    assert!(genesis.hash.starts_with('0'));
    assert_eq!(genesis.hash, genesis.compute_hash());
    assert!(ledger.is_valid());
}

#[test]
fn append_accepts_mined_linked_candidate() {
    let mut ledger = Blockchain::new(1).unwrap();
    let block = mined_candidate(&ledger, "hello");
    let expected_hash = block.hash.clone();
    assert_eq!(ledger.add_block(block), Ok(()));
    assert_eq!(ledger.chain.len(), 2);
    assert_eq!(ledger.chain.last().unwrap().hash, expected_hash);
    assert_eq!(ledger.chain.last().unwrap().data, "hello");
    assert!(ledger.is_valid());
}

#[test]
fn append_rejects_bad_linkage() {
    let mut ledger = Blockchain::new(1).unwrap();
    let mut block = Block::new(1, String::from("hello"), String::from("not the head hash"));
    assert!(block.mine(1));
    assert_eq!(ledger.add_block(block), Err(AppendError::Linkage));
    assert_eq!(ledger.chain.len(), 1);
}

#[test]
fn append_rejects_skipped_index() {
    let mut ledger = Blockchain::new(1).unwrap();
    let head_hash = ledger.chain.last().unwrap().hash.clone();
    let mut block = Block::new(2, String::from("hello"), head_hash);
    assert!(block.mine(1));
    assert_eq!(ledger.add_block(block), Err(AppendError::Sequence));
    assert_eq!(ledger.chain.len(), 1);
}

#[test]
fn append_rejects_repeated_index() {
    let mut ledger = Blockchain::new(1).unwrap();
    let head_hash = ledger.chain.last().unwrap().hash.clone();
    let mut block = Block::new(0, String::from("hello"), head_hash);
    assert!(block.mine(1));
    assert_eq!(ledger.add_block(block), Err(AppendError::Sequence));
    assert_eq!(ledger.chain.len(), 1);
}

#[test]
fn append_rejects_stale_stored_hash() {
    let mut ledger = Blockchain::new(1).unwrap();
    let mut block = mined_candidate(&ledger, "hello");
    block.data = String::from("tampered after sealing");
    assert_eq!(ledger.add_block(block), Err(AppendError::Integrity));
    assert_eq!(ledger.chain.len(), 1);
}

#[test]
fn append_rejects_insufficient_proof_of_work() {
    let mut ledger = Blockchain::new(1).unwrap();
    // A candidate that is linked, sequenced and self-consistent, but whose
    // hash does not begin with a zero: keep re-creating (fresh timestamp)
    // until a difficulty-0 seal happens to miss the ledger's target.
    loop {
        let mut block = linked_candidate(&ledger, "hello");
        assert!(block.mine(0));
        if !block.hash.starts_with('0') {
            assert_eq!(ledger.add_block(block), Err(AppendError::ProofOfWork));
            assert_eq!(ledger.chain.len(), 1);
            return;
        }
    }
}

#[test]
fn validation_spots_tampered_data() {
    let mut ledger = Blockchain::new(1).unwrap();
    let block = mined_candidate(&ledger, "hello");
    assert_eq!(ledger.add_block(block), Ok(()));
    assert_eq!(ledger.chain.len(), 2);
    assert!(ledger.is_valid());
    // Flip one character of the appended block's data without re-mining.
    ledger.chain[1].data = String::from("hallo");
    assert!(!ledger.is_valid());
}

#[test]
fn validation_spots_broken_linkage() {
    let mut ledger = Blockchain::new(1).unwrap();
    let block = mined_candidate(&ledger, "first");
    assert_eq!(ledger.add_block(block), Ok(()));
    let block = mined_candidate(&ledger, "second");
    assert_eq!(ledger.add_block(block), Ok(()));
    assert!(ledger.is_valid());
    // Re-seal the middle block over new data: it stays self-consistent and
    // keeps its proof of work, but the successor's linkage breaks.
    ledger.chain[1].data = String::from("rewritten");
    ledger.chain[1].hash = String::new();
    let mut middle = ledger.chain[1].clone();
    assert!(middle.mine(1));
    ledger.chain[1] = middle;
    assert!(!ledger.is_valid());
}

#[test]
fn error_messages_are_exact() {
    assert_eq!(AppendError::Linkage.message(), "prev_hash mismatch");
    assert_eq!(AppendError::Sequence.message(), "index mismatch");
    assert_eq!(AppendError::Integrity.message(), "hash invalid");
    assert_eq!(AppendError::ProofOfWork.message(), "proof-of-work invalid");
}
