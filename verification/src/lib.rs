//! A minimal append-only ledger: fixed-layout blocks linked by Keccak-256
//! digests, a validation/extension discipline over the chain, the binary
//! wire frame a block travels in between peers, and the registry of peer
//! connections.

pub mod codec;
pub mod generic_helpers;
pub mod peers;
pub mod primitives;
pub mod text;

use vstd::prelude::*;

verus! {

/// Capacity, in bytes, of the payload buffer embedded in every block.
pub const BLOB_CAPACITY: usize = 1024;

/// Number of bytes in a Keccak-256 digest.
pub const HASH_SIZE: usize = 32;

} // verus!
