use vstd::prelude::*;

use crate::error::NodeError;

verus! {

/// The decimal digit for `d < 10`.
pub open spec fn digit_char(d: nat) -> char {
    if d == 0 {
        '0'
    } else if d == 1 {
        '1'
    } else if d == 2 {
        '2'
    } else if d == 3 {
        '3'
    } else if d == 4 {
        '4'
    } else if d == 5 {
        '5'
    } else if d == 6 {
        '6'
    } else if d == 7 {
        '7'
    } else if d == 8 {
        '8'
    } else {
        '9'
    }
}

/// `n` written in decimal, without sign or leading zeros.
pub open spec fn decimal(n: nat) -> Seq<char>
    decreases n,
{
    if n < 10 {
        seq![digit_char(n)]
    } else {
        decimal(n / 10).push(digit_char(n % 10))
    }
}

/// Relies on `usize`'s `to_string` (its `Display`): the number in decimal.
#[verifier::external_body]
fn usize_to_string(n: usize) -> (r: String)
    ensures
        r@ == decimal(n as nat),
{
    n.to_string()
}

/// The settings of a node.
#[derive(Clone, Debug)]
pub struct NodeConfig {
    /// The name of the node, used in logs; one is given when it is `None`.
    pub name: Option<String>,
    /// The port the node would like to listen on.
    pub desired_listening_port: Option<u16>,
    /// Whether the node may listen on a port the system picks, when the desired
    /// one is unavailable or none was given.
    pub allow_random_port: bool,
    /// The size of each connection's read buffer: the largest message it takes.
    pub conn_read_buffer_size: usize,
    /// The depth of the queue of all inbound messages.
    pub inbound_message_queue_depth: usize,
    /// The depth of each connection's queue of outbound messages.
    pub outbound_queue_depth: usize,
    /// How long a handshake may take, in milliseconds.
    pub handshake_timeout_ms: u64,
}

impl Default for NodeConfig {
    fn default() -> (r: NodeConfig)
        ensures
            r.name is None,
            r.desired_listening_port is None,
            r.allow_random_port,
            r.conn_read_buffer_size == 65536,
            r.inbound_message_queue_depth == 256,
            r.outbound_queue_depth == 64,
            r.handshake_timeout_ms == 10000,
    {
        NodeConfig {
            name: None,
            desired_listening_port: None,
            allow_random_port: true,
            conn_read_buffer_size: 64 * 1024,
            inbound_message_queue_depth: 256,
            outbound_queue_depth: 64,
            handshake_timeout_ms: 10000,
        }
    }
}

impl NodeConfig {
    /// The port of the first attempt to bind the listener: the desired one, or
    /// any (`0`) where that is allowed.
    pub open spec fn first_port_spec(&self) -> Result<u16, NodeError> {
        match self.desired_listening_port {
            Some(p) => Ok(p),
            None => if self.allow_random_port {
                Ok(0)
            } else {
                Err(NodeError::ConfigError)
            },
        }
    }

    pub fn first_bind_port(&self) -> (r: Result<u16, NodeError>)
        ensures
            r == self.first_port_spec(),
    {
        match self.desired_listening_port {
            Some(p) => Ok(p),
            None => if self.allow_random_port {
                Ok(0)
            } else {
                Err(NodeError::ConfigError)
            },
        }
    }

    /// What follows a failed bind: after the desired port, any port where that
    /// is allowed; otherwise the node cannot listen.
    pub open spec fn retry_spec(&self, first_attempt: bool) -> Result<u16, NodeError> {
        if first_attempt && self.desired_listening_port is Some && self.allow_random_port {
            Ok(0)
        } else {
            Err(NodeError::BindFailed)
        }
    }

    pub fn port_after_bind_failure(&self, first_attempt: bool) -> (r: Result<u16, NodeError>)
        ensures
            r == self.retry_spec(first_attempt),
    {
        if first_attempt && self.desired_listening_port.is_some() && self.allow_random_port {
            Ok(0)
        } else {
            Err(NodeError::BindFailed)
        }
    }

    /// The name the node goes by: the configured one, or the decimal form of
    /// the node's sequence number `seq`.
    pub open spec fn resolved_name(&self, seq: usize) -> Seq<char> {
        match self.name {
            Some(n) => n@,
            None => decimal(seq as nat),
        }
    }

    /// Gives the node a name where it has none.
    pub fn resolve_name(&mut self, seq: usize)
        ensures
            final(self).name matches Some(n) && n@ == old(self).resolved_name(seq),
            final(self).desired_listening_port == old(self).desired_listening_port,
            final(self).allow_random_port == old(self).allow_random_port,
            final(self).conn_read_buffer_size == old(self).conn_read_buffer_size,
            final(self).inbound_message_queue_depth == old(self).inbound_message_queue_depth,
            final(self).outbound_queue_depth == old(self).outbound_queue_depth,
            final(self).handshake_timeout_ms == old(self).handshake_timeout_ms,
    {
        if self.name.is_none() {
            self.name = Some(usize_to_string(seq));
        }
    }
}

} // verus!
