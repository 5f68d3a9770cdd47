//! The peer registry: which remote endpoints this node is connected to,
//! and in which direction each connection was made.
//!
//! Addresses are held as plain values — a 128-bit address (IPv4 addresses
//! in their IPv6-mapped form) and a port — so the registry's rules can be
//! checked: one entry per address, added when a connection is accepted or
//! dialed, removed when its connection task ends.

use vstd::prelude::*;

verus! {

/// A remote endpoint: 128-bit address (IPv4 in IPv6-mapped form) and port.
#[derive(PartialEq, Eq, Structural, Clone, Copy, Debug)]
pub struct PeerAddr {
    /// The address bits.
    pub ip: u128,
    /// The port.
    pub port: u16,
}

/// Which side opened the connection to a peer.
#[derive(PartialEq, Eq, Structural, Clone, Copy, Debug)]
pub enum ConnectionDirection {
    /// The peer dialed this node.
    Inbound,
    /// This node dialed the peer.
    Outbound,
}

/// One registry entry: a peer and the direction of its connection.
pub type PeerEntry = (PeerAddr, ConnectionDirection);

/// Whether some entry of `s` carries the address `a`.
pub open spec fn has_addr(s: Seq<PeerEntry>, a: PeerAddr) -> bool {
    exists|i: int| 0 <= i < s.len() && (#[trigger] s[i]).0 == a
}

/// Tracks connected peers, one entry per address.
pub struct PeerRegistry {
    /// The entries, in insertion order.
    pub entries: Vec<PeerEntry>,
}

impl PeerRegistry {
    /// The registry invariant: no two entries share an address.
    pub open spec fn wf(&self) -> bool {
        forall|i: int, j: int|
            0 <= i < j < self.entries@.len() ==> (#[trigger] self.entries@[i]).0 != (
            #[trigger] self.entries@[j]).0
    }

    /// An empty registry.
    pub fn new() -> (r: PeerRegistry)
        ensures
            r.entries@.len() == 0,
            r.wf(),
    {
        PeerRegistry { entries: Vec::new() }
    }

    /// How many peers are registered.
    pub fn len(&self) -> (n: usize)
        ensures
            n == self.entries@.len(),
    {
        self.entries.len()
    }

    /// Whether `addr` is registered.
    pub fn contains(&self, addr: PeerAddr) -> (r: bool)
        ensures
            r == has_addr(self.entries@, addr),
    {
        let n = self.entries.len();
        let mut i: usize = 0;
        while i < n
            invariant
                i <= n,
                n == self.entries@.len(),
                forall|j: int| 0 <= j < i ==> (#[trigger] self.entries@[j]).0 != addr,
            decreases n - i,
        {
            if self.entries[i].0 == addr {
                return true;
            }
            i = i + 1;
        }
        false
    }

    /// Registers `addr` with the given direction, unless it already is
    /// registered; says whether the entry was added.
    pub fn insert(&mut self, addr: PeerAddr, direction: ConnectionDirection) -> (added: bool)
        requires
            old(self).wf(),
        ensures
            final(self).wf(),
            added == !has_addr(old(self).entries@, addr),
            added ==> final(self).entries@ == old(self).entries@.push((addr, direction)),
            !added ==> final(self).entries@ == old(self).entries@,
    {
        if self.contains(addr) {
            false
        } else {
            self.entries.push((addr, direction));
            true
        }
    }

    /// Unregisters `addr` if it is registered; says whether an entry was
    /// removed. Every other peer's entry is kept.
    pub fn remove(&mut self, addr: PeerAddr) -> (removed: bool)
        requires
            old(self).wf(),
        ensures
            final(self).wf(),
            removed == has_addr(old(self).entries@, addr),
            !has_addr(final(self).entries@, addr),
            removed ==> exists|i: int|
                0 <= i < old(self).entries@.len() && (#[trigger] old(self).entries@[i]).0 == addr
                    && final(self).entries@ == old(self).entries@.remove(i),
            !removed ==> final(self).entries@ == old(self).entries@,
    {
        let n = self.entries.len();
        let mut i: usize = 0;
        while i < n
            invariant
                i <= n,
                n == self.entries@.len(),
                old(self).wf(),
                *self == *old(self),
                forall|j: int| 0 <= j < i ==> (#[trigger] self.entries@[j]).0 != addr,
            decreases n - i,
        {
            if self.entries[i].0 == addr {
                self.entries.remove(i);
                proof {
                    let oe = old(self).entries@;
                    let ne = self.entries@;
                    oe.remove_ensures(i as int);
                    assert forall|k: int| 0 <= k < ne.len() implies (#[trigger] ne[k]).0
                        != addr by {
                        if k < i {
                            assert(ne[k] == oe[k]);
                        } else {
                            assert(ne[k] == oe[k + 1]);
                            assert(oe[i as int].0 == addr);
                        }
                    }
                    assert forall|a: int, b: int| 0 <= a < b < ne.len() implies (
                    #[trigger] ne[a]).0 != (#[trigger] ne[b]).0 by {
                        let oa: int = if a < i { a } else { a + 1 };
                        let ob: int = if b < i { b } else { b + 1 };
                        assert(ne[a] == oe[oa]);
                        assert(ne[b] == oe[ob]);
                        assert(oe[oa].0 != oe[ob].0);
                    }
                }
                return true;
            }
            i = i + 1;
        }
        false
    }

    /// The registered addresses, in insertion order.
    pub fn addresses(&self) -> (out: Vec<PeerAddr>)
        ensures
            out@.len() == self.entries@.len(),
            forall|i: int|
                0 <= i < out@.len() ==> out@[i] == (#[trigger] self.entries@[i]).0,
    {
        let n = self.entries.len();
        let mut out: Vec<PeerAddr> = Vec::new();
        let mut i: usize = 0;
        while i < n
            invariant
                i <= n,
                n == self.entries@.len(),
                out@.len() == i,
                forall|j: int| 0 <= j < i ==> out@[j] == (#[trigger] self.entries@[j]).0,
            decreases n - i,
        {
            out.push(self.entries[i].0);
            i = i + 1;
        }
        out
    }
}

} // verus!
