use minichain::primitives::blob::Blob;
use minichain::primitives::block::Block;
use minichain::primitives::Chain;

fn genesis_chain() -> Chain {
    Chain::new(Block::genesis())
}

#[test]
fn fresh_ledger_is_valid() {
    let chain = genesis_chain();
    assert!(chain.validate_chain());
    assert_eq!(chain.blocks().len(), 1);
    assert_eq!(chain.blocks()[0].index, 0);
}

#[test]
fn mining_grows_a_valid_chain() {
    let mut chain = genesis_chain();
    let block = chain.generate_next_block(Blob::from_bytes(b"first"));
    assert_eq!(block.index, 1);
    assert_eq!(chain.blocks().len(), 2);
    assert!(chain.validate_chain());

    let block = chain.generate_next_block(Blob::from_bytes(b"second"));
    assert_eq!(block.index, 2);
    assert_eq!(chain.blocks().len(), 3);
    assert!(chain.validate_chain());
}

#[test]
fn mined_block_extends_a_twin_ledger() {
    // Two nodes in the same state: a block mined on one is accepted by the
    // other, growing it by exactly one.
    let mut miner = genesis_chain();
    let mut twin = genesis_chain();
    let block = miner.generate_next_block(Blob::from_bytes(b"payload"));
    assert!(twin.push_block(block));
    assert_eq!(twin.blocks().len(), 2);
    assert!(twin.validate_chain());
}

#[test]
fn tampered_payload_is_rejected() {
    let mut miner = genesis_chain();
    let mut twin = genesis_chain();
    let block = miner.generate_next_block(Blob::from_bytes(b"payload"));

    let mut tampered = block.duplicate();
    tampered.data.data[0] ^= 1;
    assert!(!twin.push_block(tampered));
    assert_eq!(twin.blocks().len(), 1);

    // A tampered padding byte is rejected too: the full backing store is
    // hashed, not just the written prefix.
    let mut tampered = block.duplicate();
    tampered.data.data[1023] ^= 1;
    assert!(!twin.push_block(tampered));
    assert_eq!(twin.blocks().len(), 1);
}

#[test]
fn tampered_index_is_rejected() {
    let mut miner = genesis_chain();
    let mut twin = genesis_chain();
    let block = miner.generate_next_block(Blob::from_bytes(b"payload"));

    let mut tampered = block.duplicate();
    tampered.index += 1;
    assert!(!twin.push_block(tampered));
    assert_eq!(twin.blocks().len(), 1);
}

#[test]
fn tampered_timestamp_is_rejected() {
    let mut miner = genesis_chain();
    let mut twin = genesis_chain();
    let block = miner.generate_next_block(Blob::from_bytes(b"payload"));

    let mut tampered = block.duplicate();
    tampered.timestamp ^= 1;
    assert!(!twin.push_block(tampered));
    assert_eq!(twin.blocks().len(), 1);
}

#[test]
fn tampered_previous_hash_is_rejected() {
    let mut miner = genesis_chain();
    let mut twin = genesis_chain();
    let block = miner.generate_next_block(Blob::from_bytes(b"payload"));

    let mut tampered = block.duplicate();
    tampered.previous_hash[31] ^= 1;
    assert!(!twin.push_block(tampered));
    assert_eq!(twin.blocks().len(), 1);
}

#[test]
fn validate_chain_detects_a_corrupted_middle_block() {
    let mut chain = genesis_chain();
    chain.generate_next_block(Blob::from_bytes(b"a"));
    chain.generate_next_block(Blob::from_bytes(b"b"));
    assert!(chain.validate_chain());

    chain.0[1].data.data[0] ^= 1;
    assert!(!chain.validate_chain());
}

#[test]
fn longer_valid_candidate_replaces_the_chain() {
    let mut other = genesis_chain();
    other.generate_next_block(Blob::from_bytes(b"a"));
    other.generate_next_block(Blob::from_bytes(b"b"));
    let candidate = other.select_range(0, 3).unwrap();

    let mut chain = genesis_chain();
    chain.generate_next_block(Blob::from_bytes(b"mine"));
    assert_eq!(chain.blocks().len(), 2);

    assert!(chain.replace(candidate));
    assert_eq!(chain.blocks().len(), 3);
    assert!(chain.validate_chain());
    assert_eq!(&chain.blocks()[2].data.buffer()[..1], b"b");
}

#[test]
fn equal_length_candidate_is_rejected() {
    let mut other = genesis_chain();
    other.generate_next_block(Blob::from_bytes(b"theirs"));
    let candidate = other.select_range(0, 2).unwrap();

    let mut chain = genesis_chain();
    let mine = chain.generate_next_block(Blob::from_bytes(b"mine"));

    // Fully valid, same length: incumbency wins.
    assert!(!chain.replace(candidate));
    assert_eq!(chain.blocks().len(), 2);
    assert!(chain.blocks()[1].block_eq(&mine));
}

#[test]
fn shorter_candidate_is_rejected() {
    let other = genesis_chain();
    let candidate = other.select_range(0, 1).unwrap();

    let mut chain = genesis_chain();
    chain.generate_next_block(Blob::from_bytes(b"mine"));
    assert!(!chain.replace(candidate));
    assert_eq!(chain.blocks().len(), 2);
}

#[test]
fn invalid_candidate_is_rejected_even_if_longer() {
    let mut other = genesis_chain();
    other.generate_next_block(Blob::from_bytes(b"a"));
    other.generate_next_block(Blob::from_bytes(b"b"));
    let mut candidate = other.select_range(0, 3).unwrap();
    candidate[1].data.data[0] ^= 1;

    let mut chain = genesis_chain();
    assert!(!chain.replace(candidate));
    assert_eq!(chain.blocks().len(), 1);
}

#[test]
fn select_range_bounds() {
    let mut chain = genesis_chain();
    chain.generate_next_block(Blob::from_bytes(b"a"));
    assert_eq!(chain.select_range(0, 2).unwrap().len(), 2);
    assert_eq!(chain.select_range(1, 2).unwrap().len(), 1);
    assert_eq!(chain.select_range(2, 2).unwrap().len(), 0);
    assert!(chain.select_range(0, 3).is_none());
    assert!(chain.select_range(2, 1).is_none());
}
