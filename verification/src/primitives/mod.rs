//! The ledger primitives: payload buffer, block, and chain.

pub mod blob;
pub mod block;

use vstd::prelude::*;

use crate::primitives::blob::Blob;
use crate::primitives::block::copy_bytes;
use crate::primitives::block::is_genesis;
use crate::primitives::block::valid_link;
use crate::primitives::block::Block;

verus! {

/// The ledger invariant over a sequence of blocks: non-empty, headed by the
/// genesis constant, and every consecutive pair validly linked.
pub open spec fn chain_valid(s: Seq<Block>) -> bool {
    &&& s.len() > 0
    &&& is_genesis(s[0])
    &&& forall|i: int| 1 <= i < s.len() ==> #[trigger] valid_link(s[i - 1], s[i])
}

/// The ordered sequence of blocks representing this node's view of history.
/// The single source of truth for chain state; callers that share one
/// instance must guard it with one lock over the whole structure.
pub struct Chain(pub Vec<Block>);

impl Chain {
    /// A one-block chain holding exactly `block`.
    pub fn new(block: Block) -> (c: Chain)
        ensures
            c.0@.len() == 1,
            c.0@[0] == block,
    {
        let mut v: Vec<Block> = Vec::new();
        v.push(block);
        Chain(v)
    }

    /// A read-only view of every block, in chain order.
    pub fn blocks(&self) -> (s: &[Block])
        ensures
            s@ == self.0@,
    {
        self.0.as_slice()
    }

    /// Swaps this chain for `chain` iff the candidate is valid in the whole
    /// and strictly longer; otherwise the current chain is kept unchanged.
    /// Ties are broken in favor of incumbency. Returns whether the candidate
    /// was adopted.
    pub fn replace(&mut self, chain: Vec<Block>) -> (r: bool)
        ensures
            r == (chain_valid(chain@) && chain@.len() > old(self).0@.len()),
            r ==> final(self).0@ == chain@,
            !r ==> final(self).0@ == old(self).0@,
    {
        let candidate = Chain(chain);
        let candidate_valid = candidate.validate_chain();
        if candidate_valid && candidate.0.len() > self.0.len() {
            *self = candidate;
            true
        } else {
            false
        }
    }

    /// Mines one block onto the tail: height one past the tail, back link to
    /// the tail's hash, payload as given, and appends it. A valid chain stays
    /// valid. Returns a copy of the appended block.
    pub fn generate_next_block(&mut self, data: Blob) -> (b: Block)
        requires
            old(self).0@.len() > 0,
            old(self).0@.last().index < usize::MAX,
            old(self).0@.last().wf(),
            data.wf(),
        ensures
            b.wf(),
            valid_link(old(self).0@.last(), b),
            b.index == old(self).0@.last().index + 1,
            b.data.matches_blob(&data),
            b.previous_hash@ == old(self).0@.last().hash@,
            final(self).0@.len() == old(self).0@.len() + 1,
            forall|i: int|
                0 <= i < old(self).0@.len() ==> final(self).0@[i] == old(self).0@[i],
            final(self).0@.last().matches(&b),
            chain_valid(old(self).0@) ==> chain_valid(final(self).0@),
    {
        let n = self.0.len();
        let tail_index = self.0[n - 1].index;
        let previous_hash = copy_bytes(self.0[n - 1].hash.as_slice());
        let block = Block::new(tail_index + 1, data, previous_hash);
        let appended = block.duplicate();
        proof {
            assert(valid_link(old(self).0@.last(), block));
            assert(valid_link(old(self).0@.last(), appended));
        }
        self.0.push(appended);
        proof {
            if chain_valid(old(self).0@) {
                lemma_chain_extend(old(self).0@, self.0@.last());
            }
        }
        block
    }

    /// Admits `block` iff it validly follows the current tail; an invalid
    /// block is dropped and the chain is unchanged. A valid chain stays
    /// valid. This is the only door for externally received blocks.
    pub fn push_block(&mut self, block: Block) -> (r: bool)
        requires
            old(self).0@.len() > 0,
        ensures
            r == valid_link(old(self).0@.last(), block),
            r ==> final(self).0@ == old(self).0@.push(block),
            !r ==> final(self).0@ == old(self).0@,
            chain_valid(old(self).0@) ==> chain_valid(final(self).0@),
    {
        let n = self.0.len();
        let is_valid = block.validate(&self.0[n - 1]);
        if is_valid {
            proof {
                if chain_valid(self.0@) {
                    lemma_chain_extend(self.0@, block);
                }
            }
            self.0.push(block);
            true
        } else {
            false
        }
    }

    /// Field-for-field copies of the blocks at positions `start..end`, or
    /// nothing when that range does not lie within the chain.
    pub fn select_range(&self, start: usize, end: usize) -> (r: Option<Vec<Block>>)
        ensures
            r is Some <==> start <= end <= self.0@.len(),
            r matches Some(v) ==> {
                &&& v@.len() == end - start
                &&& forall|i: int|
                    0 <= i < v@.len() ==> (#[trigger] v@[i]).matches(&self.0@[start + i])
            },
    {
        if start > end || end > self.0.len() {
            return None;
        }
        let mut out: Vec<Block> = Vec::new();
        let mut i: usize = start;
        while i < end
            invariant
                start <= i <= end,
                end <= self.0@.len(),
                out@.len() == i - start,
                forall|j: int|
                    0 <= j < out@.len() ==> (#[trigger] out@[j]).matches(&self.0@[start + j]),
            decreases end - i,
        {
            out.push(self.0[i].duplicate());
            i = i + 1;
        }
        Some(out)
    }

    /// Recomputes validity across the whole chain: the head must equal the
    /// genesis constant field for field, then every consecutive pair must
    /// validate. Short-circuits on the first failure.
    pub fn validate_chain(&self) -> (r: bool)
        ensures
            r == chain_valid(self.0@),
    {
        let n = self.0.len();
        if n == 0 {
            return false;
        }
        let genesis = Block::genesis();
        if !self.0[0].block_eq(&genesis) {
            return false;
        }
        let mut i: usize = 1;
        while i < n
            invariant
                1 <= i <= n,
                n == self.0@.len(),
                forall|j: int| 1 <= j < i ==> #[trigger] valid_link(self.0@[j - 1], self.0@[j]),
            decreases n - i,
        {
            if !self.0[i].validate(&self.0[i - 1]) {
                return false;
            }
            i = i + 1;
        }
        true
    }
}

/// Genesis invariant: a chain holding exactly one block, the genesis
/// constant, is valid in the whole.
pub proof fn lemma_genesis_chain_valid(b: Block)
    requires
        is_genesis(b),
    ensures
        chain_valid(seq![b]),
{
}

/// Extension monotonicity: appending a block that validly follows the tail
/// of a valid chain yields a valid chain, one block longer.
pub proof fn lemma_chain_extend(s: Seq<Block>, b: Block)
    requires
        chain_valid(s),
        valid_link(s.last(), b),
    ensures
        chain_valid(s.push(b)),
        s.push(b).len() == s.len() + 1,
{
    let t = s.push(b);
    assert forall|i: int| 1 <= i < t.len() implies #[trigger] valid_link(t[i - 1], t[i]) by {
        if i < s.len() {
            assert(valid_link(s[i - 1], s[i]));
        } else {
            assert(t[i - 1] == s.last());
            assert(t[i] == b);
        }
    }
}

/// In a valid chain the block at position `i` has height `i`.
pub proof fn lemma_chain_index_at(s: Seq<Block>, i: int)
    requires
        chain_valid(s),
        0 <= i < s.len(),
    ensures
        s[i].index == i,
    decreases i,
{
    if i > 0 {
        lemma_chain_index_at(s, i - 1);
        assert(valid_link(s[i - 1], s[i]));
    }
}

/// In a valid chain each block's height equals its position.
pub proof fn lemma_chain_indices(s: Seq<Block>)
    requires
        chain_valid(s),
    ensures
        forall|i: int| 0 <= i < s.len() ==> #[trigger] s[i].index == i,
{
    assert forall|i: int| 0 <= i < s.len() implies #[trigger] s[i].index == i by {
        lemma_chain_index_at(s, i);
    }
}

/// Tamper rejection for the height field: a block whose index was changed in
/// any way no longer validly follows the predecessor it was mined on.
pub proof fn lemma_tamper_index(prev: Block, b: Block, t: Block)
    requires
        valid_link(prev, b),
        t.index != b.index,
    ensures
        !valid_link(prev, t),
{
}

/// Tamper rejection for the back link: a block whose previous-hash bytes were
/// changed in any way no longer validly follows the predecessor it was mined
/// on.
pub proof fn lemma_tamper_previous_hash(prev: Block, b: Block, t: Block)
    requires
        valid_link(prev, b),
        t.previous_hash@ != b.previous_hash@,
    ensures
        !valid_link(prev, t),
{
}

} // verus!
