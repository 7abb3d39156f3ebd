pub mod addr;
pub mod config;
pub mod connections;
pub mod error;
pub mod framing;
pub mod known_peers;
pub mod node;
pub mod topology;

pub use addr::{ConnectionSide, PeerAddr};
pub use config::NodeConfig;
pub use connections::Connections;
pub use error::NodeError;
pub use known_peers::{KnownPeers, PeerStats, Stats};
pub use node::{HandshakeOutcome, Node};
pub use topology::Topology;
