//! Blocks: canonically laid out ledger records linked by Keccak-256.
//!
//! A block's digest is Keccak-256 over a fixed byte layout: the index
//! (8 little-endian bytes), the timestamp (8 bytes), the payload buffer's
//! full fixed-size backing bytes (trailing zero padding included, the
//! cursor not), then the predecessor's 32-byte hash. The layout is part of
//! the protocol and must not change, or independently mined chains stop
//! agreeing.

use vstd::bytes::spec_u64_to_le_bytes;
use vstd::bytes::u64_to_le_bytes;
use vstd::prelude::*;

use crate::primitives::blob::zero_bytes;
use crate::primitives::blob::Blob;
use crate::BLOB_CAPACITY;
use crate::HASH_SIZE;

use sha3::Digest;

verus! {

/// The 32-byte digest Keccak-256 assigns to an input. Left without a
/// definition on purpose: the trusted wrapper below states that its calls
/// return this value, and every contract about hashes goes through the name.
pub uninterp spec fn keccak256_of(input: Seq<u8>) -> Seq<u8>;

/// Relies on sha3's Keccak256 (through the Digest trait): a 32-byte digest
/// that depends on the input bytes alone, computed by a context used fresh
/// for exactly this one call.
#[verifier::external_body]
pub(crate) fn keccak256(input: &[u8]) -> (digest: Vec<u8>)
    ensures
        digest@ == keccak256_of(input@),
        digest@.len() == HASH_SIZE,
{
    sha3::Keccak256::digest(input).to_vec()
}

/// Relies on std's SystemTime: seconds since the Unix epoch, or zero if the
/// system clock sits before the epoch. Nothing is promised of the value; the
/// ledger is correct whatever the clock says.
#[verifier::external_body]
pub(crate) fn timestamp() -> u64 {
    std::time::SystemTime::UNIX_EPOCH
        .elapsed()
        .map(|d| d.as_secs())
        .unwrap_or(0)
}

/// The exact byte string fed to Keccak-256 for a block with these fields:
/// index, timestamp, the payload's full fixed-size backing bytes (raw, not
/// length-prefixed), and the predecessor hash, integers in 8-byte
/// little-endian form.
pub open spec fn hash_preimage(
    index: u64,
    previous_hash: Seq<u8>,
    timestamp: u64,
    payload: Seq<u8>,
) -> Seq<u8> {
    spec_u64_to_le_bytes(index) + spec_u64_to_le_bytes(timestamp) + payload + previous_hash
}

/// The canonical digest of a block's hashable fields.
pub open spec fn block_digest(
    index: u64,
    previous_hash: Seq<u8>,
    timestamp: u64,
    payload: Seq<u8>,
) -> Seq<u8> {
    keccak256_of(hash_preimage(index, previous_hash, timestamp, payload))
}

/// One immutable ledger entry.
pub struct Block {
    /// 0-based height of this block in the chain.
    pub index: usize,
    /// The payload, padded to a constant size.
    pub data: Blob,
    /// Seconds since the Unix epoch at creation time.
    pub timestamp: u64,
    /// Keccak-256 over this block's hashable fields.
    pub hash: Vec<u8>,
    /// The predecessor block's `hash`.
    pub previous_hash: Vec<u8>,
}

/// Whether `next` may directly follow `prev`: the height steps by one, the
/// back link names `prev`'s hash, and `next`'s own hash is the canonical
/// digest of its fields computed against `prev`'s hash.
pub open spec fn valid_link(prev: Block, next: Block) -> bool {
    &&& next.index == prev.index + 1
    &&& next.previous_hash@ == prev.hash@
    &&& next.hash@ == block_digest(
        next.index as u64,
        prev.hash@,
        next.timestamp,
        next.data.data@,
    )
}

/// The timestamp the genesis block carries.
pub const GENESIS_TIMESTAMP: u64 = 1692981149;

/// The hash the genesis block carries, fixed by construction and never
/// recomputed: genesis is the one block exempt from hash validation.
pub open spec fn genesis_hash() -> Seq<u8> {
    seq![
        33u8, 252u8, 152u8, 207u8, 112u8, 38u8, 90u8, 233u8, 63u8, 235u8, 108u8, 237u8, 45u8,
        43u8, 3u8, 25u8, 33u8, 70u8, 114u8, 108u8, 82u8, 24u8, 61u8, 146u8, 143u8, 127u8, 139u8,
        120u8, 215u8, 118u8, 75u8, 177u8,
    ]
}

/// Whether `b` is, field for field, the process-wide genesis constant:
/// height zero, empty payload, fixed timestamp, all-zero back link, and the
/// fixed genesis hash.
pub open spec fn is_genesis(b: Block) -> bool {
    &&& b.index == 0
    &&& b.data.is_zeroed()
    &&& b.timestamp == GENESIS_TIMESTAMP
    &&& b.previous_hash@ == Seq::new(HASH_SIZE as nat, |i: int| 0u8)
    &&& b.hash@ == genesis_hash()
}

impl Block {
    /// Structural soundness of one block: payload invariant holds and both
    /// digests are full-size.
    pub open spec fn wf(&self) -> bool {
        &&& self.data.wf()
        &&& self.hash@.len() == HASH_SIZE
        &&& self.previous_hash@.len() == HASH_SIZE
    }

    /// Field-for-field equality of two blocks, stated over their views.
    pub open spec fn matches(&self, other: &Block) -> bool {
        &&& self.index == other.index
        &&& self.data.data@ == other.data.data@
        &&& self.data.cursor == other.data.cursor
        &&& self.timestamp == other.timestamp
        &&& self.hash@ == other.hash@
        &&& self.previous_hash@ == other.previous_hash@
    }

    /// The distinguished first block every valid chain starts with.
    pub fn genesis() -> (b: Block)
        ensures
            is_genesis(b),
            b.wf(),
    {
        let hash: Vec<u8> = vec![
            33u8, 252u8, 152u8, 207u8, 112u8, 38u8, 90u8, 233u8, 63u8, 235u8, 108u8, 237u8, 45u8,
            43u8, 3u8, 25u8, 33u8, 70u8, 114u8, 108u8, 82u8, 24u8, 61u8, 146u8, 143u8, 127u8,
            139u8, 120u8, 215u8, 118u8, 75u8, 177u8,
        ];
        proof {
            assert(hash@ =~= genesis_hash());
        }
        let b = Block {
            index: 0,
            data: Blob::new(),
            timestamp: GENESIS_TIMESTAMP,
            hash,
            previous_hash: zero_bytes(HASH_SIZE),
        };
        b
    }

    /// A block with the given fields, stamped with the wall clock and hashed
    /// canonically. The clock's reading is not constrained; the hash is
    /// correct for whatever it returned.
    pub fn new(index: usize, data: Blob, previous_hash: Vec<u8>) -> (b: Block)
        requires
            data.wf(),
            previous_hash@.len() == HASH_SIZE,
        ensures
            b.wf(),
            b.index == index,
            b.data.matches_blob(&data),
            b.previous_hash@ == previous_hash@,
            b.hash@ == block_digest(
                index as u64,
                previous_hash@,
                b.timestamp,
                data.data@,
            ),
    {
        let ts = timestamp();
        Block::new_at(index, data, previous_hash, ts)
    }

    /// A block with the given fields and timestamp, hashed canonically.
    /// Deterministic: same fields, same block.
    pub fn new_at(index: usize, data: Blob, previous_hash: Vec<u8>, timestamp: u64) -> (b: Block)
        requires
            data.wf(),
            previous_hash@.len() == HASH_SIZE,
        ensures
            b.wf(),
            b.index == index,
            b.data.matches_blob(&data),
            b.timestamp == timestamp,
            b.previous_hash@ == previous_hash@,
            b.hash@ == block_digest(
                index as u64,
                previous_hash@,
                timestamp,
                data.data@,
            ),
    {
        let hash = Block::calc_hash(index, &previous_hash, timestamp, &data);
        Block { index, data, timestamp, hash, previous_hash }
    }

    /// True iff this block may directly follow `previous_block`.
    pub fn validate(&self, previous_block: &Block) -> (r: bool)
        ensures
            r == valid_link(*previous_block, *self),
    {
        let index_ok = self.index > 0 && self.index - 1 == previous_block.index;
        let link_ok = bytes_eq(self.previous_hash.as_slice(), previous_block.hash.as_slice());
        if index_ok && link_ok {
            let recomputed = Block::calc_hash(
                self.index,
                &previous_block.hash,
                self.timestamp,
                &self.data,
            );
            bytes_eq(recomputed.as_slice(), self.hash.as_slice())
        } else {
            false
        }
    }

    /// The canonical byte string hashed for a block with these fields.
    pub fn hashable_bytes(
        index: usize,
        previous_hash: &Vec<u8>,
        timestamp: u64,
        data: &Blob,
    ) -> (out: Vec<u8>)
        ensures
            out@ == hash_preimage(index as u64, previous_hash@, timestamp, data.data@),
    {
        let mut out = u64_to_le_bytes(index as u64);
        let mut ts = u64_to_le_bytes(timestamp);
        out.append(&mut ts);
        extend_bytes(&mut out, data.data.as_slice());
        extend_bytes(&mut out, previous_hash.as_slice());
        proof {
            assert(out@ =~= hash_preimage(index as u64, previous_hash@, timestamp, data.data@));
        }
        out
    }

    /// The canonical digest of a block with these fields.
    pub fn calc_hash(
        index: usize,
        previous_hash: &Vec<u8>,
        timestamp: u64,
        data: &Blob,
    ) -> (h: Vec<u8>)
        ensures
            h@ == block_digest(index as u64, previous_hash@, timestamp, data.data@),
            h@.len() == HASH_SIZE,
    {
        let preimage = Block::hashable_bytes(index, previous_hash, timestamp, data);
        keccak256(preimage.as_slice())
    }

    /// The canonical digest of this block's fields, linked against the given
    /// predecessor hash.
    pub fn hash_from_block(&self, previous_hash: &Vec<u8>) -> (h: Vec<u8>)
        ensures
            h@ == block_digest(
                self.index as u64,
                previous_hash@,
                self.timestamp,
                self.data.data@,
            ),
            h@.len() == HASH_SIZE,
    {
        Block::calc_hash(self.index, previous_hash, self.timestamp, &self.data)
    }

    /// A field-for-field copy of this block.
    pub fn duplicate(&self) -> (b: Block)
        ensures
            b.matches(self),
    {
        Block {
            index: self.index,
            data: Blob {
                data: copy_bytes(self.data.data.as_slice()),
                cursor: self.data.cursor,
            },
            timestamp: self.timestamp,
            hash: copy_bytes(self.hash.as_slice()),
            previous_hash: copy_bytes(self.previous_hash.as_slice()),
        }
    }

    /// True iff this block equals `other` field for field.
    pub fn block_eq(&self, other: &Block) -> (r: bool)
        ensures
            r == self.matches(other),
    {
        self.index == other.index && self.data.cursor == other.data.cursor && self.timestamp
            == other.timestamp && bytes_eq(self.data.data.as_slice(), other.data.data.as_slice())
            && bytes_eq(self.hash.as_slice(), other.hash.as_slice()) && bytes_eq(
            self.previous_hash.as_slice(),
            other.previous_hash.as_slice(),
        )
    }
}

/// Hash determinism: the canonical digest is a function of the hashable
/// fields alone, so two computations over identical fields — in particular
/// by two separately obtained, fresh hashing contexts — agree byte for byte.
pub proof fn lemma_hash_deterministic(
    index1: u64,
    previous_hash1: Seq<u8>,
    timestamp1: u64,
    payload1: Seq<u8>,
    index2: u64,
    previous_hash2: Seq<u8>,
    timestamp2: u64,
    payload2: Seq<u8>,
)
    requires
        index1 == index2,
        previous_hash1 == previous_hash2,
        timestamp1 == timestamp2,
        payload1 == payload2,
    ensures
        block_digest(index1, previous_hash1, timestamp1, payload1) == block_digest(
            index2,
            previous_hash2,
            timestamp2,
            payload2,
        ),
{
}

/// True iff the two byte strings are equal.
pub(crate) fn bytes_eq(a: &[u8], b: &[u8]) -> (r: bool)
    ensures
        r == (a@ == b@),
{
    if a.len() != b.len() {
        proof {
            assert(a@.len() != b@.len());
        }
        return false;
    }
    let n = a.len();
    let mut idx: usize = 0;
    while idx < n
        invariant
            idx <= n,
            n == a@.len(),
            n == b@.len(),
            forall|i: int| 0 <= i < idx ==> a@[i] == b@[i],
        decreases n - idx,
    {
        if *vstd::slice::slice_index_get(a, idx) != *vstd::slice::slice_index_get(b, idx) {
            return false;
        }
        idx = idx + 1;
    }
    proof {
        assert(a@ =~= b@);
    }
    true
}

/// A fresh vector holding the same bytes as `s`.
pub(crate) fn copy_bytes(s: &[u8]) -> (v: Vec<u8>)
    ensures
        v@ == s@,
{
    let n = s.len();
    let mut v: Vec<u8> = Vec::new();
    let mut idx: usize = 0;
    while idx < n
        invariant
            idx <= n,
            n == s@.len(),
            v@ == s@.subrange(0, idx as int),
        decreases n - idx,
    {
        v.push(*vstd::slice::slice_index_get(s, idx));
        idx = idx + 1;
        proof {
            assert(v@ =~= s@.subrange(0, idx as int));
        }
    }
    proof {
        assert(v@ =~= s@);
    }
    v
}

/// Appends every byte of `more` to `out`, in order.
pub(crate) fn extend_bytes(out: &mut Vec<u8>, more: &[u8])
    ensures
        final(out)@ == old(out)@ + more@,
{
    let n = more.len();
    let mut idx: usize = 0;
    while idx < n
        invariant
            idx <= n,
            n == more@.len(),
            out@ == old(out)@ + more@.subrange(0, idx as int),
        decreases n - idx,
    {
        out.push(*vstd::slice::slice_index_get(more, idx));
        idx = idx + 1;
        proof {
            assert(out@ =~= old(out)@ + more@.subrange(0, idx as int));
        }
    }
    proof {
        assert(out@ =~= old(out)@ + more@);
    }
}

} // verus!
