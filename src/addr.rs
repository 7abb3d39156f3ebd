use vstd::prelude::*;

verus! {

/// An IPv4 address and a TCP port: the identity of a peer.
#[derive(Clone, Copy, Debug, PartialEq, Eq, Structural)]
pub struct PeerAddr {
    /// The four octets of the address, the first one in the highest byte.
    pub ip: u32,
    pub port: u16,
}

impl PeerAddr {
    /// The integer under which a peer is kept in the registries.
    pub open spec fn key_spec(self) -> u64 {
        ((self.ip as u64) * 65536 + (self.port as u64)) as u64
    }

    pub fn new(ip: u32, port: u16) -> (r: PeerAddr)
        ensures
            r.ip == ip,
            r.port == port,
    {
        PeerAddr { ip, port }
    }

    #[verifier::when_used_as_spec(key_spec)]
    pub fn key(self) -> (r: u64)
        ensures
            r == self.key_spec(),
    {
        (self.ip as u64) * 65536 + (self.port as u64)
    }
}

/// Which end of a connection this node is.
#[derive(Clone, Copy, Debug, PartialEq, Eq, Structural)]
pub enum ConnectionSide {
    Initiator,
    Responder,
}

impl ConnectionSide {
    pub open spec fn negated(self) -> ConnectionSide {
        match self {
            ConnectionSide::Initiator => ConnectionSide::Responder,
            ConnectionSide::Responder => ConnectionSide::Initiator,
        }
    }

    /// The other side: the role the peer plays on the same connection.
    pub fn negate(self) -> (r: ConnectionSide)
        ensures
            r == self.negated(),
    {
        match self {
            ConnectionSide::Initiator => ConnectionSide::Responder,
            ConnectionSide::Responder => ConnectionSide::Initiator,
        }
    }
}

} // verus!
