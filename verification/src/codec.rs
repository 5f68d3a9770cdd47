//! The binary wire frame a block travels in between peers.
//!
//! A frame is exactly `FRAME_SIZE` bytes: the block's fields laid out in
//! declaration order — index, payload backing bytes, payload cursor,
//! timestamp, hash, previous hash — with integers as 8-byte little-endian
//! strings. Decoding rejects anything that is not byte-for-byte such a
//! frame: wrong length, an index too high for this machine, a cursor past
//! capacity, or nonzero padding.

use vstd::bytes::lemma_auto_spec_u64_to_from_le_bytes;
use vstd::bytes::spec_u64_from_le_bytes;
use vstd::bytes::spec_u64_to_le_bytes;
use vstd::bytes::u64_from_le_bytes;
use vstd::bytes::u64_to_le_bytes;
use vstd::prelude::*;
use vstd::slice::slice_index_get;
use vstd::slice::slice_subrange;
use vstd::slice::slice_to_vec;

use crate::primitives::blob::Blob;
use crate::primitives::block::extend_bytes;
use crate::primitives::block::valid_link;
use crate::primitives::block::Block;
use crate::primitives::chain_valid;
use crate::primitives::Chain;
use crate::BLOB_CAPACITY;
use crate::HASH_SIZE;

verus! {

/// Where the payload backing bytes start in a frame.
pub const DATA_OFFSET: usize = 8;

/// Where the payload cursor starts in a frame.
pub const CURSOR_OFFSET: usize = DATA_OFFSET + BLOB_CAPACITY;

/// Where the timestamp starts in a frame.
pub const TIMESTAMP_OFFSET: usize = CURSOR_OFFSET + 8;

/// Where the block hash starts in a frame.
pub const HASH_OFFSET: usize = TIMESTAMP_OFFSET + 8;

/// Where the previous hash starts in a frame.
pub const PREVIOUS_HASH_OFFSET: usize = HASH_OFFSET + HASH_SIZE;

/// The constant size of a block's wire frame.
pub const FRAME_SIZE: usize = PREVIOUS_HASH_OFFSET + HASH_SIZE;

/// The frame encoding a block: every field, in declaration order, integers
/// as 8-byte little-endian strings, the payload at its full backing size.
pub open spec fn frame_of(b: Block) -> Seq<u8> {
    spec_u64_to_le_bytes(b.index as u64) + b.data.data@ + spec_u64_to_le_bytes(
        b.data.cursor as u64,
    ) + spec_u64_to_le_bytes(b.timestamp) + b.hash@ + b.previous_hash@
}

/// The index field carried by a frame.
pub open spec fn frame_index(s: Seq<u8>) -> u64 {
    spec_u64_from_le_bytes(s.subrange(0, 8))
}

/// The payload cursor field carried by a frame.
pub open spec fn frame_cursor(s: Seq<u8>) -> u64 {
    spec_u64_from_le_bytes(s.subrange(CURSOR_OFFSET as int, CURSOR_OFFSET + 8))
}

/// The timestamp field carried by a frame.
pub open spec fn frame_timestamp(s: Seq<u8>) -> u64 {
    spec_u64_from_le_bytes(s.subrange(TIMESTAMP_OFFSET as int, TIMESTAMP_OFFSET + 8))
}

/// Whether `s` is a well-formed frame: exact size, an index this machine
/// can hold, a cursor within capacity, and zero padding beyond the cursor.
pub open spec fn frame_ok(s: Seq<u8>) -> bool {
    &&& s.len() == FRAME_SIZE
    &&& frame_index(s) <= usize::MAX as u64
    &&& frame_cursor(s) <= BLOB_CAPACITY as u64
    &&& forall|i: int|
        DATA_OFFSET + frame_cursor(s) <= i < CURSOR_OFFSET ==> s[i] == 0
}

/// Whether decoding `s` yields exactly the block `b`: the frame is
/// well-formed and every field of `b` is the one the frame carries.
pub open spec fn decodes_to(s: Seq<u8>, b: Block) -> bool {
    &&& frame_ok(s)
    &&& b.index as u64 == frame_index(s)
    &&& b.data.data@ == s.subrange(DATA_OFFSET as int, CURSOR_OFFSET as int)
    &&& b.data.cursor as u64 == frame_cursor(s)
    &&& b.timestamp == frame_timestamp(s)
    &&& b.hash@ == s.subrange(HASH_OFFSET as int, PREVIOUS_HASH_OFFSET as int)
    &&& b.previous_hash@ == s.subrange(PREVIOUS_HASH_OFFSET as int, FRAME_SIZE as int)
}

/// Serializes a block to its fixed-size wire frame.
pub fn encode_frame(b: &Block) -> (out: Vec<u8>)
    ensures
        out@ == frame_of(*b),
{
    let mut out = u64_to_le_bytes(b.index as u64);
    extend_bytes(&mut out, b.data.data.as_slice());
    let mut cursor = u64_to_le_bytes(b.data.cursor as u64);
    out.append(&mut cursor);
    let mut ts = u64_to_le_bytes(b.timestamp);
    out.append(&mut ts);
    extend_bytes(&mut out, b.hash.as_slice());
    extend_bytes(&mut out, b.previous_hash.as_slice());
    proof {
        assert(out@ =~= frame_of(*b));
    }
    out
}

/// Decodes a wire frame back into a block, rejecting any byte string that
/// is not a well-formed frame.
pub fn decode_frame(bytes: &[u8]) -> (r: Option<Block>)
    ensures
        r is Some <==> frame_ok(bytes@),
        r matches Some(b) ==> decodes_to(bytes@, b) && b.wf(),
{
    if bytes.len() != FRAME_SIZE {
        return None;
    }
    let index64 = u64_from_le_bytes(slice_subrange(bytes, 0, 8));
    if index64 > usize::MAX as u64 {
        return None;
    }
    let cursor64 = u64_from_le_bytes(slice_subrange(bytes, CURSOR_OFFSET, CURSOR_OFFSET + 8));
    if cursor64 > BLOB_CAPACITY as u64 {
        return None;
    }
    let cursor = cursor64 as usize;

    let mut i: usize = DATA_OFFSET + cursor;
    while i < CURSOR_OFFSET
        invariant
            DATA_OFFSET + cursor <= i <= CURSOR_OFFSET,
            bytes@.len() == FRAME_SIZE,
            cursor == frame_cursor(bytes@),
            forall|j: int| DATA_OFFSET + cursor <= j < i ==> bytes@[j] == 0,
        decreases CURSOR_OFFSET - i,
    {
        if *slice_index_get(bytes, i) != 0 {
            return None;
        }
        i = i + 1;
    }

    let data = slice_to_vec(slice_subrange(bytes, DATA_OFFSET, CURSOR_OFFSET));
    let timestamp = u64_from_le_bytes(slice_subrange(bytes, TIMESTAMP_OFFSET, TIMESTAMP_OFFSET + 8));
    let hash = slice_to_vec(slice_subrange(bytes, HASH_OFFSET, PREVIOUS_HASH_OFFSET));
    let previous_hash = slice_to_vec(slice_subrange(bytes, PREVIOUS_HASH_OFFSET, FRAME_SIZE));

    let b = Block {
        index: index64 as usize,
        data: Blob { data, cursor },
        timestamp,
        hash,
        previous_hash,
    };
    Some(b)
}

/// Round-trip framing: a well-formed block's frame is itself well-formed and
/// decodes back to that block, field for field.
pub proof fn lemma_frame_round_trip(b: Block)
    requires
        b.wf(),
    ensures
        frame_of(b).len() == FRAME_SIZE,
        decodes_to(frame_of(b), b),
{
    lemma_auto_spec_u64_to_from_le_bytes();
    let s = frame_of(b);
    assert(s.subrange(0, 8) =~= spec_u64_to_le_bytes(b.index as u64));
    assert(s.subrange(DATA_OFFSET as int, CURSOR_OFFSET as int) =~= b.data.data@);
    assert(s.subrange(CURSOR_OFFSET as int, CURSOR_OFFSET + 8) =~= spec_u64_to_le_bytes(
        b.data.cursor as u64,
    ));
    assert(s.subrange(TIMESTAMP_OFFSET as int, TIMESTAMP_OFFSET + 8) =~= spec_u64_to_le_bytes(
        b.timestamp,
    ));
    assert(s.subrange(HASH_OFFSET as int, PREVIOUS_HASH_OFFSET as int) =~= b.hash@);
    assert(s.subrange(PREVIOUS_HASH_OFFSET as int, FRAME_SIZE as int) =~= b.previous_hash@);
    assert forall|i: int| DATA_OFFSET + frame_cursor(s) <= i < CURSOR_OFFSET implies s[i]
        == 0 by {
        assert(s[i] == b.data.data@[i - DATA_OFFSET]);
    }
}

/// A frame decodes to at most one block, up to field-for-field equality.
pub proof fn lemma_decode_unique(s: Seq<u8>, b1: Block, b2: Block)
    requires
        decodes_to(s, b1),
        decodes_to(s, b2),
    ensures
        b1.matches(&b2),
{
}

/// What became of one raw payload delivered by a peer.
#[derive(PartialEq, Eq, Structural, Clone, Copy, Debug)]
pub enum BlockReceipt {
    /// The bytes decoded to a block that validly follows the tail; the chain
    /// grew by that block, whose height is carried here.
    Accepted(usize),
    /// The bytes decoded to a block of this height, but it does not follow
    /// the tail; the chain is unchanged. The sender is never told.
    Rejected(usize),
    /// The bytes are not a well-formed frame; the chain is unchanged.
    BadPayload,
}

/// Feeds one raw peer payload into the chain: decode, then extend. Invalid
/// frames and invalid blocks are dropped silently; the chain never gets an
/// error path a remote peer could steer.
pub fn handle_new_block(bytes: &[u8], chain: &mut Chain) -> (r: BlockReceipt)
    requires
        old(chain).0@.len() > 0,
    ensures
        r == BlockReceipt::BadPayload <==> !frame_ok(bytes@),
        !frame_ok(bytes@) ==> final(chain).0@ == old(chain).0@,
        frame_ok(bytes@) ==> exists|b: Block|
            {
                &&& #[trigger] decodes_to(bytes@, b)
                &&& if valid_link(old(chain).0@.last(), b) {
                    &&& r == BlockReceipt::Accepted(b.index)
                    &&& final(chain).0@ == old(chain).0@.push(b)
                } else {
                    &&& r == BlockReceipt::Rejected(b.index)
                    &&& final(chain).0@ == old(chain).0@
                }
            },
        chain_valid(old(chain).0@) ==> chain_valid(final(chain).0@),
{
    match decode_frame(bytes) {
        Some(block) => {
            let ghost decoded = block;
            let index = block.index;
            if chain.push_block(block) {
                proof {
                    assert(decodes_to(bytes@, decoded));
                }
                BlockReceipt::Accepted(index)
            } else {
                BlockReceipt::Rejected(index)
            }
        },
        None => BlockReceipt::BadPayload,
    }
}

} // verus!
