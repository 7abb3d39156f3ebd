use vstd::prelude::*;

use std::collections::HashMap;

use crate::addr::PeerAddr;

verus! {

broadcast use vstd::std_specs::hash::group_hash_axioms;

/// `a + b`, held at `u64::MAX` where it would not fit.
pub open spec fn sat_add(a: u64, b: nat) -> u64 {
    if a + b > u64::MAX {
        u64::MAX
    } else {
        (a + b) as u64
    }
}

fn saturating_add(a: u64, b: u64) -> (r: u64)
    ensures
        r == sat_add(a, b as nat),
{
    a.saturating_add(b)
}

/// What a node has seen of one peer. Times are whatever clock the caller
/// reads, in one unit throughout.
#[derive(Clone, Copy, Debug, PartialEq, Eq, Structural)]
pub struct PeerStats {
    pub msgs_sent: u64,
    pub msgs_received: u64,
    pub bytes_sent: u64,
    pub bytes_received: u64,
    pub failures: u64,
    pub first_seen: u64,
    pub last_seen: u64,
}

impl PeerStats {
    /// The record of a peer first seen at `now`.
    pub open spec fn fresh(now: u64) -> PeerStats {
        PeerStats {
            msgs_sent: 0,
            msgs_received: 0,
            bytes_sent: 0,
            bytes_received: 0,
            failures: 0,
            first_seen: now,
            last_seen: now,
        }
    }

    pub fn new(now: u64) -> (r: PeerStats)
        ensures
            r == PeerStats::fresh(now),
    {
        PeerStats {
            msgs_sent: 0,
            msgs_received: 0,
            bytes_sent: 0,
            bytes_received: 0,
            failures: 0,
            first_seen: now,
            last_seen: now,
        }
    }
}

/// The record that an observation at `now` starts from: the one held, or a fresh one.
pub open spec fn observed(m: Map<u64, PeerStats>, k: u64, now: u64) -> PeerStats {
    if m.contains_key(k) {
        PeerStats { last_seen: now, ..m[k] }
    } else {
        PeerStats::fresh(now)
    }
}

/// Statistics per remote peer. An entry is made when a peer is first seen and
/// stays until it is removed by hand; disconnecting keeps it.
pub struct KnownPeers {
    peers: HashMap<u64, PeerStats>,
}

impl KnownPeers {
    pub closed spec fn view(&self) -> Map<u64, PeerStats> {
        self.peers@
    }

    pub fn new() -> (r: KnownPeers)
        ensures
            r@ == Map::<u64, PeerStats>::empty(),
    {
        KnownPeers { peers: HashMap::new() }
    }

    pub fn contains(&self, addr: PeerAddr) -> (r: bool)
        ensures
            r == self@.contains_key(addr.key()),
    {
        self.peers.contains_key(&addr.key())
    }

    pub fn get(&self, addr: PeerAddr) -> (r: Option<PeerStats>)
        ensures
            r == (if self@.contains_key(addr.key()) {
                Some(self@[addr.key()])
            } else {
                None
            }),
    {
        match self.peers.get(&addr.key()) {
            Some(s) => Some(*s),
            None => None,
        }
    }

    pub fn len(&self) -> (r: usize)
        ensures
            r == self@.len(),
    {
        self.peers.len()
    }

    fn observe(&self, addr: PeerAddr, now: u64) -> (r: PeerStats)
        ensures
            r == observed(self@, addr.key(), now),
    {
        match self.peers.get(&addr.key()) {
            Some(s) => PeerStats { last_seen: now, ..*s },
            None => PeerStats::new(now),
        }
    }

    /// Notes that the peer was seen at `now` (an accept or a connection attempt).
    pub fn add(&mut self, addr: PeerAddr, now: u64)
        ensures
            final(self)@ == old(self)@.insert(addr.key(), observed(old(self)@, addr.key(), now)),
    {
        let s = self.observe(addr, now);
        self.peers.insert(addr.key(), s);
    }

    /// Counts one message of `len` bytes received from the peer.
    pub fn register_received(&mut self, addr: PeerAddr, len: usize, now: u64)
        ensures
            final(self)@ == old(self)@.insert(
                addr.key(),
                ({
                    let s = observed(old(self)@, addr.key(), now);
                    PeerStats {
                        msgs_received: sat_add(s.msgs_received, 1),
                        bytes_received: sat_add(s.bytes_received, len as nat),
                        ..s
                    }
                }),
            ),
    {
        let mut s = self.observe(addr, now);
        s.msgs_received = saturating_add(s.msgs_received, 1);
        s.bytes_received = saturating_add(s.bytes_received, len as u64);
        self.peers.insert(addr.key(), s);
    }

    /// Counts one message of `len` bytes sent to the peer.
    pub fn register_sent(&mut self, addr: PeerAddr, len: usize, now: u64)
        ensures
            final(self)@ == old(self)@.insert(
                addr.key(),
                ({
                    let s = observed(old(self)@, addr.key(), now);
                    PeerStats {
                        msgs_sent: sat_add(s.msgs_sent, 1),
                        bytes_sent: sat_add(s.bytes_sent, len as nat),
                        ..s
                    }
                }),
            ),
    {
        let mut s = self.observe(addr, now);
        s.msgs_sent = saturating_add(s.msgs_sent, 1);
        s.bytes_sent = saturating_add(s.bytes_sent, len as u64);
        self.peers.insert(addr.key(), s);
    }

    /// Counts one failure on a connection with the peer.
    pub fn register_failure(&mut self, addr: PeerAddr, now: u64)
        ensures
            final(self)@ == old(self)@.insert(
                addr.key(),
                ({
                    let s = observed(old(self)@, addr.key(), now);
                    PeerStats { failures: sat_add(s.failures, 1), ..s }
                }),
            ),
    {
        let mut s = self.observe(addr, now);
        s.failures = saturating_add(s.failures, 1);
        self.peers.insert(addr.key(), s);
    }

    /// Forgets the peer; returns its record if there was one.
    pub fn remove(&mut self, addr: PeerAddr) -> (r: Option<PeerStats>)
        ensures
            final(self)@ == old(self)@.remove(addr.key()),
            r == (if old(self)@.contains_key(addr.key()) {
                Some(old(self)@[addr.key()])
            } else {
                None
            }),
    {
        self.peers.remove(&addr.key())
    }
}

/// Message and byte counts of a whole node.
#[derive(Clone, Copy, Debug, PartialEq, Eq, Structural)]
pub struct Stats {
    pub msgs_sent: u64,
    pub bytes_sent: u64,
    pub msgs_received: u64,
    pub bytes_received: u64,
}

impl Stats {
    pub open spec fn new_spec() -> Stats {
        Stats { msgs_sent: 0, bytes_sent: 0, msgs_received: 0, bytes_received: 0 }
    }

    pub fn new() -> (r: Stats)
        ensures
            r == Stats::new_spec(),
    {
        Stats { msgs_sent: 0, bytes_sent: 0, msgs_received: 0, bytes_received: 0 }
    }

    /// The number of messages and of bytes sent.
    pub fn sent(&self) -> (r: (u64, u64))
        ensures
            r == (self.msgs_sent, self.bytes_sent),
    {
        (self.msgs_sent, self.bytes_sent)
    }

    /// The number of messages and of bytes received.
    pub fn received(&self) -> (r: (u64, u64))
        ensures
            r == (self.msgs_received, self.bytes_received),
    {
        (self.msgs_received, self.bytes_received)
    }

    pub fn register_sent(&mut self, len: usize)
        ensures
            *final(self) == (Stats {
                msgs_sent: sat_add(old(self).msgs_sent, 1),
                bytes_sent: sat_add(old(self).bytes_sent, len as nat),
                ..*old(self)
            }),
    {
        self.msgs_sent = saturating_add(self.msgs_sent, 1);
        self.bytes_sent = saturating_add(self.bytes_sent, len as u64);
    }

    pub fn register_received(&mut self, len: usize)
        ensures
            *final(self) == (Stats {
                msgs_received: sat_add(old(self).msgs_received, 1),
                bytes_received: sat_add(old(self).bytes_received, len as nat),
                ..*old(self)
            }),
    {
        self.msgs_received = saturating_add(self.msgs_received, 1);
        self.bytes_received = saturating_add(self.bytes_received, len as u64);
    }
}

} // verus!
