use vstd::prelude::*;

verus! {

/// What can go wrong on a node or on one of its connections.
#[derive(Clone, Copy, Debug, PartialEq, Eq, Structural)]
pub enum NodeError {
    /// The desired port is unavailable and a random one is not allowed.
    BindFailed,
    /// No port was given and a random one is not allowed.
    ConfigError,
    /// The TCP connection to a peer could not be opened.
    ConnectFailed,
    /// A connection to that peer is already being set up or in use.
    AlreadyConnected,
    /// The peer is in neither registry.
    NotConnected,
    /// The peer is still handshaking.
    NotHandshaken,
    /// The user's handshake returned an error.
    HandshakeFailed,
    /// The handshake did not complete in time.
    HandshakeTimeout,
    /// The decoder rejected the buffered bytes.
    DecodeError,
    /// The read buffer is full and holds no complete message.
    OversizedMessage,
    /// The outbound queue of the connection is full.
    QueueFull,
    /// The peer closed the connection, or it was closed locally.
    SocketClosed,
}

} // verus!
