use vstd::prelude::*;

use crate::addr::PeerAddr;
use crate::config::NodeConfig;
use crate::connections::{Connections, RegistryView};
use crate::error::NodeError;
use crate::known_peers::{observed, sat_add, KnownPeers, PeerStats, Stats};

verus! {

/// How a connection's handshake ended.
#[derive(Clone, Copy, Debug, PartialEq, Eq, Structural)]
pub enum HandshakeOutcome {
    Succeeded,
    Failed,
    TimedOut,
}

/// The bookkeeping of one node: its settings and listening address, its live
/// connections (of type `C`, which carries the sockets), what it knows of its
/// peers and its message counts. The networking around it drives it through
/// these methods and acts on what they decide.
pub struct Node<C> {
    pub config: NodeConfig,
    pub local_addr: PeerAddr,
    pub stats: Stats,
    pub connections: Connections<C>,
    pub known_peers: KnownPeers,
}

impl<C> Node<C> {
    pub open spec fn registry(&self) -> RegistryView<C> {
        self.connections@
    }

    pub open spec fn peers(&self) -> Map<u64, PeerStats> {
        self.known_peers@
    }

    /// The node's name is set and its registry is consistent.
    pub open spec fn wf(&self) -> bool {
        &&& self.config.name is Some
        &&& self.registry().disjoint()
        &&& self.registry().count() <= usize::MAX
    }

    /// A node listening on `local_addr`, with no connections and no known
    /// peers. An unnamed configuration is named after `seq`, the node's
    /// sequence number.
    pub fn new(config: NodeConfig, seq: usize, local_addr: PeerAddr) -> (r: Node<C>)
        ensures
            r.wf(),
            r.config.name matches Some(n) && n@ == config.resolved_name(seq),
            r.config.desired_listening_port == config.desired_listening_port,
            r.config.allow_random_port == config.allow_random_port,
            r.config.conn_read_buffer_size == config.conn_read_buffer_size,
            r.config.inbound_message_queue_depth == config.inbound_message_queue_depth,
            r.config.outbound_queue_depth == config.outbound_queue_depth,
            r.config.handshake_timeout_ms == config.handshake_timeout_ms,
            r.local_addr == local_addr,
            r.stats == Stats::new_spec(),
            r.registry().handshaking == Map::<u64, C>::empty(),
            r.registry().handshaken == Map::<u64, C>::empty(),
            r.peers() == Map::<u64, PeerStats>::empty(),
    {
        let mut config = config;
        config.resolve_name(seq);
        Node {
            config,
            local_addr,
            stats: Stats::new(),
            connections: Connections::new(),
            known_peers: KnownPeers::new(),
        }
    }

    pub fn name(&self) -> (r: &str)
        requires
            self.wf(),
        ensures
            self.config.name matches Some(n) && r@ == n@,
    {
        match &self.config.name {
            Some(n) => n.as_str(),
            None => "",
        }
    }

    pub fn is_connected(&self, addr: PeerAddr) -> (r: bool)
        ensures
            r == self.registry().connected(addr.key()),
    {
        self.connections.is_connected(addr)
    }

    pub fn is_handshaking(&self, addr: PeerAddr) -> (r: bool)
        ensures
            r == self.registry().handshaking.contains_key(addr.key()),
    {
        self.connections.is_handshaking(addr)
    }

    pub fn is_handshaken(&self, addr: PeerAddr) -> (r: bool)
        ensures
            r == self.registry().handshaken.contains_key(addr.key()),
    {
        self.connections.is_handshaken(addr)
    }

    /// The number of connections, handshaking or handshaken.
    pub fn num_connected(&self) -> (r: usize)
        requires
            self.wf(),
        ensures
            r == self.registry().handshaking.len() + self.registry().handshaken.len(),
    {
        self.connections.num_connected()
    }

    pub fn known_peer(&self, addr: PeerAddr) -> (r: Option<PeerStats>)
        ensures
            r == (if self.peers().contains_key(addr.key()) {
                Some(self.peers()[addr.key()])
            } else {
                None
            }),
    {
        self.known_peers.get(addr)
    }

    /// Decides whether to open a connection to `addr` at time `now`: not when
    /// one is already being set up or in use. Otherwise the peer becomes known.
    pub fn initiate_connection(&mut self, addr: PeerAddr, now: u64) -> (r: Result<(), NodeError>)
        requires
            old(self).wf(),
        ensures
            final(self).wf(),
            r is Err <==> old(self).registry().connected(addr.key()),
            r matches Err(e) ==> e == NodeError::AlreadyConnected && final(self).peers()
                == old(self).peers(),
            r is Ok ==> final(self).peers() == old(self).peers().insert(
                addr.key(),
                observed(old(self).peers(), addr.key(), now),
            ),
            final(self).registry() == old(self).registry(),
            final(self).config == old(self).config,
            final(self).local_addr == old(self).local_addr,
            final(self).stats == old(self).stats,
    {
        if self.connections.is_connected(addr) {
            return Err(NodeError::AlreadyConnected);
        }
        self.known_peers.add(addr, now);
        Ok(())
    }

    /// Notes a connection that `addr` opened to this node at time `now`.
    pub fn accept_connection(&mut self, addr: PeerAddr, now: u64)
        requires
            old(self).wf(),
        ensures
            final(self).wf(),
            final(self).peers() == old(self).peers().insert(
                addr.key(),
                observed(old(self).peers(), addr.key(), now),
            ),
            final(self).registry() == old(self).registry(),
            final(self).config == old(self).config,
            final(self).local_addr == old(self).local_addr,
            final(self).stats == old(self).stats,
    {
        self.known_peers.add(addr, now);
    }

    /// Registers a freshly opened connection with `addr` as handshaking. A
    /// connection that loses the race to an earlier one with the same peer is
    /// handed back, for its socket to be closed.
    pub fn adapt_stream(&mut self, addr: PeerAddr, conn: C) -> (r: Result<(), C>)
        requires
            old(self).wf(),
        ensures
            final(self).wf(),
            r is Ok <==> !old(self).registry().connected(addr.key())
                && old(self).registry().count() < usize::MAX,
            r is Ok ==> final(self).registry() == old(self).registry().inserted(addr.key(), conn),
            r matches Err(c) ==> c == conn && final(self).registry() == old(self).registry(),
            final(self).peers() == old(self).peers(),
            final(self).config == old(self).config,
            final(self).local_addr == old(self).local_addr,
            final(self).stats == old(self).stats,
    {
        self.connections.insert_handshaking(addr, conn)
    }

    /// A handshake with `addr` succeeded: its connection becomes handshaken.
    /// Returns whether it was handshaking.
    pub fn complete_handshake(&mut self, addr: PeerAddr) -> (r: bool)
        requires
            old(self).wf(),
        ensures
            final(self).wf(),
            r == old(self).registry().handshaking.contains_key(addr.key()),
            final(self).registry() == old(self).registry().promoted(addr.key()),
            final(self).peers() == old(self).peers(),
            final(self).config == old(self).config,
            final(self).local_addr == old(self).local_addr,
            final(self).stats == old(self).stats,
    {
        self.connections.promote(addr)
    }

    /// A connection with `addr` failed at time `now` (its handshake, or a
    /// read): it leaves the registry, its socket is to be closed, and the
    /// failure is counted against the peer.
    pub fn drop_connection(&mut self, addr: PeerAddr, now: u64) -> (r: Option<C>)
        requires
            old(self).wf(),
        ensures
            final(self).wf(),
            r is Some <==> old(self).registry().connected(addr.key()),
            final(self).registry() == old(self).registry().removed(addr.key()),
            final(self).peers() == old(self).peers().insert(
                addr.key(),
                ({
                    let s = observed(old(self).peers(), addr.key(), now);
                    PeerStats { failures: sat_add(s.failures, 1), ..s }
                }),
            ),
            final(self).config == old(self).config,
            final(self).local_addr == old(self).local_addr,
            final(self).stats == old(self).stats,
    {
        let r = self.connections.remove(addr);
        self.known_peers.register_failure(addr, now);
        r
    }

    /// Acts on the end of the handshake with `addr` at time `now`. On success
    /// the connection becomes handshaken (an error says it was no longer
    /// handshaking). On failure or timeout it leaves the registry, which drops
    /// it, and the failure is counted against the peer.
    pub fn finish_handshake(&mut self, addr: PeerAddr, outcome: HandshakeOutcome, now: u64) -> (r: Result<(), NodeError>)
        requires
            old(self).wf(),
        ensures
            final(self).wf(),
            outcome == HandshakeOutcome::Succeeded ==> {
                &&& r == (if old(self).registry().handshaking.contains_key(addr.key()) {
                    Ok::<(), NodeError>(())
                } else {
                    Err(NodeError::NotConnected)
                })
                &&& final(self).registry() == old(self).registry().promoted(addr.key())
                &&& final(self).peers() == old(self).peers()
            },
            outcome != HandshakeOutcome::Succeeded ==> {
                &&& r == Err::<(), NodeError>(
                    if outcome == HandshakeOutcome::Failed {
                        NodeError::HandshakeFailed
                    } else {
                        NodeError::HandshakeTimeout
                    },
                )
                &&& final(self).registry() == old(self).registry().removed(addr.key())
                &&& final(self).peers() == old(self).peers().insert(
                    addr.key(),
                    ({
                        let s = observed(old(self).peers(), addr.key(), now);
                        PeerStats { failures: sat_add(s.failures, 1), ..s }
                    }),
                )
            },
            final(self).config == old(self).config,
            final(self).local_addr == old(self).local_addr,
            final(self).stats == old(self).stats,
    {
        match outcome {
            HandshakeOutcome::Succeeded => {
                if self.complete_handshake(addr) {
                    Ok(())
                } else {
                    Err(NodeError::NotConnected)
                }
            },
            HandshakeOutcome::Failed => {
                let _ = self.drop_connection(addr, now);
                Err(NodeError::HandshakeFailed)
            },
            HandshakeOutcome::TimedOut => {
                let _ = self.drop_connection(addr, now);
                Err(NodeError::HandshakeTimeout)
            },
        }
    }

    /// Disconnects from `addr`; its connection is dropped, which closes it.
    /// Returns whether there was a connection to remove.
    pub fn disconnect(&mut self, addr: PeerAddr) -> (r: bool)
        requires
            old(self).wf(),
        ensures
            final(self).wf(),
            r == old(self).registry().connected(addr.key()),
            final(self).registry() == old(self).registry().removed(addr.key()),
            final(self).peers() == old(self).peers(),
            final(self).config == old(self).config,
            final(self).local_addr == old(self).local_addr,
            final(self).stats == old(self).stats,
    {
        match self.connections.remove(addr) {
            Some(_) => true,
            None => false,
        }
    }

    /// The connection that a direct message to `addr` goes through: only a
    /// handshaken peer can be sent to.
    pub fn send_target(&self, addr: PeerAddr) -> (r: Result<&C, NodeError>)
        ensures
            match r {
                Ok(c) => self.registry().handshaken.contains_key(addr.key()) && *c
                    == self.registry().handshaken[addr.key()],
                Err(e) => !self.registry().handshaken.contains_key(addr.key()) && e == (
                    if self.registry().handshaking.contains_key(addr.key()) {
                        NodeError::NotHandshaken
                    } else {
                        NodeError::NotConnected
                    }),
            },
    {
        self.connections.send_target(addr)
    }

    /// Counts a message of `len` bytes that was queued for `addr` at `now`.
    pub fn register_sent(&mut self, addr: PeerAddr, len: usize, now: u64)
        requires
            old(self).wf(),
        ensures
            final(self).wf(),
            final(self).peers() == old(self).peers().insert(
                addr.key(),
                ({
                    let s = observed(old(self).peers(), addr.key(), now);
                    PeerStats {
                        msgs_sent: sat_add(s.msgs_sent, 1),
                        bytes_sent: sat_add(s.bytes_sent, len as nat),
                        ..s
                    }
                }),
            ),
            final(self).stats == (Stats {
                msgs_sent: sat_add(old(self).stats.msgs_sent, 1),
                bytes_sent: sat_add(old(self).stats.bytes_sent, len as nat),
                ..old(self).stats
            }),
            final(self).registry() == old(self).registry(),
            final(self).config == old(self).config,
            final(self).local_addr == old(self).local_addr,
    {
        self.known_peers.register_sent(addr, len, now);
        self.stats.register_sent(len);
    }

    /// Takes in a decoded message of `len` bytes from `addr` at `now`. It is
    /// delivered, and counted, only while the peer is handshaken; the result
    /// says whether it may be handed to the user's processing.
    pub fn deliver_inbound(&mut self, addr: PeerAddr, len: usize, now: u64) -> (r: bool)
        requires
            old(self).wf(),
        ensures
            final(self).wf(),
            r == old(self).registry().handshaken.contains_key(addr.key()),
            r ==> final(self).peers() == old(self).peers().insert(
                addr.key(),
                ({
                    let s = observed(old(self).peers(), addr.key(), now);
                    PeerStats {
                        msgs_received: sat_add(s.msgs_received, 1),
                        bytes_received: sat_add(s.bytes_received, len as nat),
                        ..s
                    }
                }),
            ),
            r ==> final(self).stats == (Stats {
                msgs_received: sat_add(old(self).stats.msgs_received, 1),
                bytes_received: sat_add(old(self).stats.bytes_received, len as nat),
                ..old(self).stats
            }),
            !r ==> final(self).peers() == old(self).peers() && final(self).stats == old(
                self,
            ).stats,
            final(self).registry() == old(self).registry(),
            final(self).config == old(self).config,
            final(self).local_addr == old(self).local_addr,
    {
        if !self.connections.is_handshaken(addr) {
            return false;
        }
        self.known_peers.register_received(addr, len, now);
        self.stats.register_received(len);
        true
    }
}

} // verus!
