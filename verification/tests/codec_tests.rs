use minichain::codec::{
    decode_frame, encode_frame, handle_new_block, BlockReceipt, CURSOR_OFFSET, DATA_OFFSET,
    FRAME_SIZE,
};
use minichain::primitives::blob::Blob;
use minichain::primitives::block::Block;
use minichain::primitives::Chain;

#[test]
fn genesis_round_trips_bit_for_bit() {
    let genesis = Block::genesis();
    let frame = encode_frame(&genesis);
    assert_eq!(frame.len(), FRAME_SIZE);
    let back = decode_frame(&frame).unwrap();
    assert!(back.block_eq(&genesis));
}

#[test]
fn mined_block_round_trips_bit_for_bit() {
    let mut chain = Chain::new(Block::genesis());
    let block = chain.generate_next_block(Blob::from_bytes(b"round trip"));
    let frame = encode_frame(&block);
    assert_eq!(frame.len(), FRAME_SIZE);
    let back = decode_frame(&frame).unwrap();
    assert!(back.block_eq(&block));
    assert_eq!(back.index, block.index);
    assert_eq!(back.timestamp, block.timestamp);
    assert_eq!(back.hash, block.hash);
    assert_eq!(back.previous_hash, block.previous_hash);
    assert_eq!(back.data.buffer(), block.data.buffer());
}

#[test]
fn wrong_length_is_rejected() {
    let frame = encode_frame(&Block::genesis());
    assert!(decode_frame(&frame[..FRAME_SIZE - 1]).is_none());
    let mut long = frame.clone();
    long.push(0);
    assert!(decode_frame(&long).is_none());
    assert!(decode_frame(&[]).is_none());
}

#[test]
fn cursor_past_capacity_is_rejected() {
    let mut frame = encode_frame(&Block::genesis());
    // Little-endian cursor of 2047, far past capacity.
    frame[CURSOR_OFFSET] = 0xff;
    frame[CURSOR_OFFSET + 1] = 0x07;
    assert!(decode_frame(&frame).is_none());
}

#[test]
fn nonzero_padding_is_rejected() {
    let mut frame = encode_frame(&Block::genesis());
    // Genesis has an empty payload; any payload byte is padding.
    frame[DATA_OFFSET + 5] = 1;
    assert!(decode_frame(&frame).is_none());
}

#[test]
fn hash_is_deterministic_across_fresh_contexts() {
    let payload = Blob::from_bytes(b"determinism");
    let previous_hash = vec![0xabu8; 32];
    let first = Block::calc_hash(3, &previous_hash, 1692981149, &payload);
    let second = Block::calc_hash(3, &previous_hash, 1692981149, &payload);
    assert_eq!(first, second);
    assert_eq!(first.len(), 32);
}

#[test]
fn hash_changes_with_any_field() {
    let payload = Blob::from_bytes(b"determinism");
    let previous_hash = vec![0xabu8; 32];
    let base = Block::calc_hash(3, &previous_hash, 1692981149, &payload);
    assert_ne!(base, Block::calc_hash(4, &previous_hash, 1692981149, &payload));
    assert_ne!(base, Block::calc_hash(3, &previous_hash, 1692981150, &payload));
    assert_ne!(
        base,
        Block::calc_hash(3, &previous_hash, 1692981149, &Blob::from_bytes(b"other"))
    );
    let other_prev = vec![0xacu8; 32];
    assert_ne!(base, Block::calc_hash(3, &other_prev, 1692981149, &payload));
}

#[test]
fn peer_bytes_accepted_when_block_follows() {
    let mut miner = Chain::new(Block::genesis());
    let block = miner.generate_next_block(Blob::from_bytes(b"net"));
    let frame = encode_frame(&block);

    let mut chain = Chain::new(Block::genesis());
    let receipt = handle_new_block(&frame, &mut chain);
    assert_eq!(receipt, BlockReceipt::Accepted(1));
    assert_eq!(chain.blocks().len(), 2);
}

#[test]
fn peer_bytes_rejected_when_block_does_not_follow() {
    let mut miner = Chain::new(Block::genesis());
    miner.generate_next_block(Blob::from_bytes(b"one"));
    let second = miner.generate_next_block(Blob::from_bytes(b"two"));
    let frame = encode_frame(&second);

    // This node never saw the first block, so the second does not follow.
    let mut chain = Chain::new(Block::genesis());
    let receipt = handle_new_block(&frame, &mut chain);
    assert_eq!(receipt, BlockReceipt::Rejected(2));
    assert_eq!(chain.blocks().len(), 1);
}

#[test]
fn malformed_peer_bytes_are_dropped() {
    let mut chain = Chain::new(Block::genesis());
    let receipt = handle_new_block(&[1, 2, 3], &mut chain);
    assert_eq!(receipt, BlockReceipt::BadPayload);
    assert_eq!(chain.blocks().len(), 1);
}
