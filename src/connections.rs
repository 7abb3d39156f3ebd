use vstd::prelude::*;

use std::collections::HashMap;

use crate::addr::PeerAddr;
use crate::error::NodeError;

verus! {

broadcast use vstd::std_specs::hash::group_hash_axioms;

/// The registry seen as two maps from peer keys to connections.
pub struct RegistryView<C> {
    pub handshaking: Map<u64, C>,
    pub handshaken: Map<u64, C>,
}

impl<C> RegistryView<C> {
    /// No peer is both handshaking and handshaken.
    pub open spec fn disjoint(self) -> bool {
        forall|k: u64|
            !(#[trigger] self.handshaking.contains_key(k) && self.handshaken.contains_key(k))
    }

    pub open spec fn connected(self, k: u64) -> bool {
        self.handshaking.contains_key(k) || self.handshaken.contains_key(k)
    }

    pub open spec fn count(self) -> nat {
        self.handshaking.len() + self.handshaken.len()
    }

    /// A new connection is registered as handshaking unless its peer is
    /// already connected, in which case the registry stays as it is.
    pub open spec fn inserted(self, k: u64, c: C) -> RegistryView<C> {
        if self.connected(k) {
            self
        } else {
            RegistryView { handshaking: self.handshaking.insert(k, c), handshaken: self.handshaken }
        }
    }

    /// A handshaking connection moves to the handshaken map.
    pub open spec fn promoted(self, k: u64) -> RegistryView<C> {
        if self.handshaking.contains_key(k) {
            RegistryView {
                handshaking: self.handshaking.remove(k),
                handshaken: self.handshaken.insert(k, self.handshaking[k]),
            }
        } else {
            self
        }
    }

    /// The peer's connection leaves whichever map holds it.
    pub open spec fn removed(self, k: u64) -> RegistryView<C> {
        RegistryView { handshaking: self.handshaking.remove(k), handshaken: self.handshaken.remove(k) }
    }
}

/// Every transition of the registry keeps its two maps disjoint.
pub proof fn lemma_transitions_keep_disjoint<C>(v: RegistryView<C>, k: u64, c: C)
    requires
        v.disjoint(),
    ensures
        v.inserted(k, c).disjoint(),
        v.promoted(k).disjoint(),
        v.removed(k).disjoint(),
{
}

/// A connection whose handshake fails or times out is removed again, and the
/// registry ends as it was before the connection arrived.
pub proof fn lemma_failed_handshake_leaves_no_trace<C>(v: RegistryView<C>, k: u64, c: C)
    requires
        v.disjoint(),
        !v.connected(k),
    ensures
        v.inserted(k, c).removed(k) == v,
{
    assert(v.inserted(k, c).removed(k).handshaking =~= v.handshaking);
    assert(v.inserted(k, c).removed(k).handshaken =~= v.handshaken);
}

/// Disconnecting a connected peer twice: the first time finds it, the second
/// does not.
pub proof fn lemma_disconnect_twice<C>(v: RegistryView<C>, k: u64)
    requires
        v.connected(k),
    ensures
        v.connected(k),
        !v.removed(k).connected(k),
        v.removed(k).removed(k) == v.removed(k),
{
    assert(v.removed(k).removed(k).handshaking =~= v.removed(k).handshaking);
    assert(v.removed(k).removed(k).handshaken =~= v.removed(k).handshaken);
}

/// The live connections of a node, split into those still handshaking and
/// those that completed the handshake, keyed by peer.
pub struct Connections<C> {
    handshaking: HashMap<u64, C>,
    handshaken: HashMap<u64, C>,
}

impl<C> Connections<C> {
    pub closed spec fn view(&self) -> RegistryView<C> {
        RegistryView { handshaking: self.handshaking@, handshaken: self.handshaken@ }
    }

    pub open spec fn wf(&self) -> bool {
        &&& self@.disjoint()
        &&& self@.count() <= usize::MAX
    }

    pub fn new() -> (r: Connections<C>)
        ensures
            r.wf(),
            r@.handshaking == Map::<u64, C>::empty(),
            r@.handshaken == Map::<u64, C>::empty(),
    {
        Connections { handshaking: HashMap::new(), handshaken: HashMap::new() }
    }

    pub fn is_handshaking(&self, addr: PeerAddr) -> (r: bool)
        ensures
            r == self@.handshaking.contains_key(addr.key()),
    {
        self.handshaking.contains_key(&addr.key())
    }

    pub fn is_handshaken(&self, addr: PeerAddr) -> (r: bool)
        ensures
            r == self@.handshaken.contains_key(addr.key()),
    {
        self.handshaken.contains_key(&addr.key())
    }

    pub fn is_connected(&self, addr: PeerAddr) -> (r: bool)
        ensures
            r == self@.connected(addr.key()),
    {
        self.is_handshaking(addr) || self.is_handshaken(addr)
    }

    pub fn num_connected(&self) -> (r: usize)
        requires
            self.wf(),
        ensures
            r == self@.count(),
    {
        self.handshaking.len() + self.handshaken.len()
    }

    /// Registers a new connection as handshaking. When the peer is already
    /// connected (or the registry cannot count one more), the connection is
    /// handed back and the registry is left as it was: the earlier insert wins.
    pub fn insert_handshaking(&mut self, addr: PeerAddr, conn: C) -> (r: Result<(), C>)
        requires
            old(self).wf(),
        ensures
            final(self).wf(),
            r is Ok <==> !old(self)@.connected(addr.key()) && old(self)@.count() < usize::MAX,
            r is Ok ==> final(self)@ == old(self)@.inserted(addr.key(), conn),
            r matches Err(c) ==> c == conn && final(self)@ == old(self)@,
    {
        let k = addr.key();
        if self.is_connected(addr) || self.num_connected() == usize::MAX {
            return Err(conn);
        }
        self.handshaking.insert(k, conn);
        Ok(())
    }

    /// Moves a handshaking connection to the handshaken map, in one step.
    /// Returns whether the peer was handshaking.
    pub fn promote(&mut self, addr: PeerAddr) -> (r: bool)
        requires
            old(self).wf(),
        ensures
            final(self).wf(),
            r == old(self)@.handshaking.contains_key(addr.key()),
            final(self)@ == old(self)@.promoted(addr.key()),
    {
        let k = addr.key();
        match self.handshaking.remove(&k) {
            Some(conn) => {
                self.handshaken.insert(k, conn);
                assert(self@.handshaking =~= old(self)@.promoted(k).handshaking);
                assert(self@.handshaken =~= old(self)@.promoted(k).handshaken);
                true
            },
            None => {
                assert(self@.handshaking =~= old(self)@.handshaking);
                false
            },
        }
    }

    /// Takes the peer's connection out of whichever map holds it, so that it
    /// can be torn down.
    pub fn remove(&mut self, addr: PeerAddr) -> (r: Option<C>)
        requires
            old(self).wf(),
        ensures
            final(self).wf(),
            final(self)@ == old(self)@.removed(addr.key()),
            r is Some <==> old(self)@.connected(addr.key()),
            r matches Some(c) ==> (old(self)@.handshaking.contains_key(addr.key())
                && c == old(self)@.handshaking[addr.key()]) || (old(self)@.handshaken.contains_key(
                addr.key(),
            ) && c == old(self)@.handshaken[addr.key()]),
    {
        let k = addr.key();
        let a = self.handshaking.remove(&k);
        let b = self.handshaken.remove(&k);
        proof {
            if old(self)@.handshaking.contains_key(k) {
                assert(self@.handshaken =~= old(self)@.handshaken);
            }
            if old(self)@.handshaken.contains_key(k) {
                assert(self@.handshaking =~= old(self)@.handshaking);
            }
        }
        match a {
            Some(c) => Some(c),
            None => b,
        }
    }

    /// The connection that a message for `addr` goes through: only a
    /// handshaken peer can be sent to.
    pub fn send_target(&self, addr: PeerAddr) -> (r: Result<&C, NodeError>)
        ensures
            match r {
                Ok(c) => self@.handshaken.contains_key(addr.key()) && *c
                    == self@.handshaken[addr.key()],
                Err(e) => !self@.handshaken.contains_key(addr.key()) && e == (
                    if self@.handshaking.contains_key(addr.key()) {
                        NodeError::NotHandshaken
                    } else {
                        NodeError::NotConnected
                    }),
            },
    {
        match self.handshaken.get(&addr.key()) {
            Some(c) => Ok(c),
            None => {
                if self.is_handshaking(addr) {
                    Err(NodeError::NotHandshaken)
                } else {
                    Err(NodeError::NotConnected)
                }
            },
        }
    }
}

} // verus!
