//! The fixed payload buffer embedded by value in every block.
//!
//! A `Blob` owns a backing store of exactly `BLOB_CAPACITY` bytes plus a
//! cursor. Bytes at or beyond the cursor are zero; the full backing store
//! (padding included) is what block hashing and the wire frame see, which
//! keeps every block's serialized size constant.

use vstd::prelude::*;

use crate::BLOB_CAPACITY;

verus! {

/// Failure of a payload-buffer operation.
#[derive(PartialEq, Eq, Structural, Clone, Copy, Debug)]
pub enum BlobError {
    /// The bytes offered do not fit in the free space of the buffer.
    CapacityExceeded,
}

/// A bounded-capacity append buffer with a constant-size backing store.
pub struct Blob {
    /// Backing store; always exactly `BLOB_CAPACITY` bytes long.
    pub data: Vec<u8>,
    /// Number of bytes written so far; bytes from here on are zero.
    pub cursor: usize,
}

impl Blob {
    /// The buffer invariant: full backing store, cursor in range, and all
    /// bytes at or beyond the cursor zero.
    pub open spec fn wf(&self) -> bool {
        &&& self.data@.len() == BLOB_CAPACITY
        &&& self.cursor <= BLOB_CAPACITY
        &&& forall|i: int| self.cursor <= i < BLOB_CAPACITY ==> self.data@[i] == 0
    }

    /// Field-for-field equality of two buffers, stated over their views.
    pub open spec fn matches_blob(&self, other: &Blob) -> bool {
        &&& self.data@ == other.data@
        &&& self.cursor == other.cursor
    }

    /// The zeroed state: empty, with every backing byte zero.
    pub open spec fn is_zeroed(&self) -> bool {
        &&& self.cursor == 0
        &&& self.data@ == Seq::new(BLOB_CAPACITY as nat, |i: int| 0u8)
    }

    /// Creates a buffer in the zeroed state.
    pub fn new() -> (b: Blob)
        ensures
            b.is_zeroed(),
            b.wf(),
    {
        let data = zero_bytes(BLOB_CAPACITY);
        let b = Blob { data, cursor: 0 };
        b
    }

    /// Appends `buf` at the cursor. Fails, leaving the buffer unchanged,
    /// when `buf` is longer than the free space.
    pub fn _write(&mut self, buf: &[u8]) -> (r: Result<usize, BlobError>)
        requires
            old(self).wf(),
        ensures
            final(self).wf(),
            match r {
                Ok(n) => {
                    &&& buf@.len() <= BLOB_CAPACITY - old(self).cursor
                    &&& n == buf@.len()
                    &&& final(self).cursor == old(self).cursor + buf@.len()
                    &&& final(self).data@ == old(self).data@.subrange(0, old(self).cursor as int)
                        + buf@ + old(self).data@.subrange(
                        old(self).cursor + buf@.len(),
                        BLOB_CAPACITY as int,
                    )
                },
                Err(e) => {
                    &&& e == BlobError::CapacityExceeded
                    &&& buf@.len() > BLOB_CAPACITY - old(self).cursor
                    &&& *final(self) == *old(self)
                },
            },
    {
        let len = buf.len();
        if len > BLOB_CAPACITY - self.cursor {
            return Err(BlobError::CapacityExceeded);
        }

        let mut idx: usize = 0;
        while idx < len
            invariant
                idx <= len,
                len <= BLOB_CAPACITY - old(self).cursor,
                len == buf@.len(),
                self.cursor == old(self).cursor,
                self.data@.len() == BLOB_CAPACITY,
                old(self).wf(),
                forall|i: int| 0 <= i < old(self).cursor ==> self.data@[i] == old(self).data@[i],
                forall|i: int|
                    old(self).cursor <= i < old(self).cursor + idx ==> self.data@[i] == buf@[
                        i - old(self).cursor
                    ],
                forall|i: int|
                    old(self).cursor + idx <= i < BLOB_CAPACITY ==> self.data@[i] == old(
                        self,
                    ).data@[i],
            decreases len - idx,
        {
            let b = *vstd::slice::slice_index_get(buf, idx);
            self.data.set(self.cursor + idx, b);
            idx = idx + 1;
        }

        self.cursor = self.cursor + len;

        proof {
            assert forall|i: int| self.cursor <= i < BLOB_CAPACITY implies self.data@[i] == 0 by {
                assert(self.data@[i] == old(self).data@[i]);
            }
            assert(self.data@ =~= old(self).data@.subrange(0, old(self).cursor as int) + buf@
                + old(self).data@.subrange(
                old(self).cursor + buf@.len(),
                BLOB_CAPACITY as int,
            ));
        }

        Ok(len)
    }

    /// Resets the buffer to the zeroed state.
    pub fn _zero(&mut self)
        ensures
            final(self).is_zeroed(),
            final(self).wf(),
    {
        *self = Blob::new();
    }

    /// The full backing store, trailing zero padding included. This exact
    /// view — not just the written prefix — participates in hashing and in
    /// the wire frame.
    pub fn buffer(&self) -> (s: &[u8])
        ensures
            s@ == self.data@,
    {
        self.data.as_slice()
    }

    /// Copies `value` into a fresh buffer. The input must fit: offering
    /// more than `BLOB_CAPACITY` bytes is a contract violation at the call
    /// site, never a silent truncation.
    pub fn from_bytes(value: &[u8]) -> (b: Blob)
        requires
            value@.len() <= BLOB_CAPACITY,
        ensures
            b.wf(),
            b.cursor == value@.len(),
            b.data@.subrange(0, value@.len() as int) == value@,
    {
        let mut b = Blob::new();
        let r = b._write(value);
        proof {
            assert(b.data@.subrange(0, value@.len() as int) =~= value@);
        }
        b
    }

    /// Copies `value` into a fresh buffer, rejecting an oversized input.
    /// This is the total-function face of `from_bytes` for callers that
    /// cannot check the length themselves.
    pub fn try_from_bytes(value: &[u8]) -> (r: Option<Blob>)
        ensures
            r is Some <==> value@.len() <= BLOB_CAPACITY,
            r matches Some(b) ==> {
                &&& b.wf()
                &&& b.cursor == value@.len()
                &&& b.data@.subrange(0, value@.len() as int) == value@
            },
    {
        if value.len() <= BLOB_CAPACITY {
            Some(Blob::from_bytes(value))
        } else {
            None
        }
    }
}

/// A vector of `n` zero bytes.
pub(crate) fn zero_bytes(n: usize) -> (v: Vec<u8>)
    ensures
        v@ == Seq::new(n as nat, |i: int| 0u8),
{
    let mut v: Vec<u8> = Vec::new();
    let mut idx: usize = 0;
    while idx < n
        invariant
            idx <= n,
            v@ == Seq::new(idx as nat, |i: int| 0u8),
        decreases n - idx,
    {
        v.push(0u8);
        idx = idx + 1;
        proof {
            assert(v@ =~= Seq::new(idx as nat, |i: int| 0u8));
        }
    }
    v
}

} // verus!
