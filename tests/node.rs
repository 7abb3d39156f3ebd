use pea2pea::known_peers::PeerStats;
use pea2pea::topology::edges;
use pea2pea::{HandshakeOutcome, KnownPeers, Node, NodeConfig, NodeError, PeerAddr, Stats, Topology};

fn peer(port: u16) -> PeerAddr {
    PeerAddr::new(0x7f00_0001, port)
}

fn local() -> PeerAddr {
    peer(4000)
}

#[test]
fn default_config() {
    let c = NodeConfig::default();
    assert_eq!(c.name, None);
    assert_eq!(c.desired_listening_port, None);
    assert!(c.allow_random_port);
    assert_eq!(c.conn_read_buffer_size, 65536);
    assert_eq!(c.inbound_message_queue_depth, 256);
    assert_eq!(c.outbound_queue_depth, 64);
    assert_eq!(c.handshake_timeout_ms, 10000);
}

#[test]
fn any_port_is_tried_by_default() {
    assert_eq!(NodeConfig::default().first_bind_port(), Ok(0));
}

#[test]
fn bad_params_are_a_config_error() {
    let mut config = NodeConfig::default();
    config.allow_random_port = false;
    assert_eq!(config.first_bind_port(), Err(NodeError::ConfigError));
}

#[test]
fn used_port_without_random_fallback_fails() {
    let mut config = NodeConfig::default();
    config.desired_listening_port = Some(9);
    config.allow_random_port = false;
    assert_eq!(config.first_bind_port(), Ok(9));
    assert_eq!(config.port_after_bind_failure(true), Err(NodeError::BindFailed));
}

#[test]
fn used_port_with_random_fallback_retries_any() {
    let mut config = NodeConfig::default();
    config.desired_listening_port = Some(9);
    assert_eq!(config.first_bind_port(), Ok(9));
    assert_eq!(config.port_after_bind_failure(true), Ok(0));
    assert_eq!(config.port_after_bind_failure(false), Err(NodeError::BindFailed));
}

#[test]
fn unnamed_node_gets_its_sequence_number() {
    let node: Node<()> = Node::new(NodeConfig::default(), 1207, local());
    assert_eq!(node.name(), "1207");
    let node: Node<()> = Node::new(NodeConfig::default(), 0, local());
    assert_eq!(node.name(), "0");
}

#[test]
fn named_node_keeps_its_name() {
    let mut config = NodeConfig::default();
    config.name = Some("responder".into());
    let node: Node<()> = Node::new(config, 3, local());
    assert_eq!(node.name(), "responder");
    assert_eq!(node.local_addr, local());
    assert_eq!(node.num_connected(), 0);
}

#[test]
fn node_connect_and_disconnect() {
    let mut node: Node<u8> = Node::new(NodeConfig::default(), 0, local());
    let a = peer(5000);
    assert_eq!(node.initiate_connection(a, 10), Ok(()));
    assert_eq!(node.adapt_stream(a, 1), Ok(()));
    assert!(node.complete_handshake(a));
    assert!(node.is_handshaken(a));
    assert!(node.disconnect(a));
    assert!(!node.is_connected(a));
    assert!(!node.disconnect(a));
    // disconnecting keeps what is known of the peer
    assert!(node.known_peer(a).is_some());
}

#[test]
fn initiate_to_connected_peer_is_refused() {
    let mut node: Node<u8> = Node::new(NodeConfig::default(), 0, local());
    let a = peer(5000);
    assert_eq!(node.initiate_connection(a, 10), Ok(()));
    assert_eq!(node.adapt_stream(a, 1), Ok(()));
    assert_eq!(node.initiate_connection(a, 11), Err(NodeError::AlreadyConnected));
    assert_eq!(node.adapt_stream(a, 2), Err(2));
}

#[test]
fn failed_handshake_is_counted_and_forgotten() {
    let mut node: Node<u8> = Node::new(NodeConfig::default(), 0, local());
    let a = peer(5000);
    node.accept_connection(a, 3);
    assert_eq!(node.adapt_stream(a, 1), Ok(()));
    assert!(node.is_handshaking(a));
    assert_eq!(node.drop_connection(a, 7), Some(1));
    assert_eq!(node.num_connected(), 0);
    let s = node.known_peer(a).unwrap();
    assert_eq!(s.failures, 1);
    assert_eq!(s.first_seen, 3);
    assert_eq!(s.last_seen, 7);
}

#[test]
fn no_handshake_no_messaging() {
    let mut node: Node<u8> = Node::new(NodeConfig::default(), 0, local());
    let a = peer(5000);
    assert_eq!(node.adapt_stream(a, 1), Ok(()));
    assert!(!node.deliver_inbound(a, 51, 1));
    assert_eq!(node.stats.received(), (0, 0));
    assert_eq!(node.send_target(a), Err(NodeError::NotHandshaken));
    assert_eq!(node.send_target(peer(1)), Err(NodeError::NotConnected));
}

#[test]
fn delivered_messages_are_counted() {
    // three messages reach the shouter: two echoes and one unsolicited
    let mut node: Node<u8> = Node::new(NodeConfig::default(), 0, local());
    let a = peer(5000);
    assert_eq!(node.adapt_stream(a, 1), Ok(()));
    assert!(node.complete_handshake(a));
    for t in 0..3 {
        assert!(node.deliver_inbound(a, 3, t));
    }
    assert_eq!(node.stats.received(), (3, 9));
    let s = node.known_peer(a).unwrap();
    assert_eq!(s.msgs_received, 3);
    assert_eq!(s.bytes_received, 9);
    assert_eq!(s.last_seen, 2);
    node.register_sent(a, 4, 5);
    assert_eq!(node.stats.sent(), (1, 4));
    assert_eq!(node.send_target(a), Ok(&1));
}

#[test]
fn known_peers_records() {
    let mut k = KnownPeers::new();
    let a = peer(1);
    k.add(a, 5);
    assert_eq!(k.get(a), Some(PeerStats::new(5)));
    k.register_sent(a, 10, 6);
    k.register_received(a, 20, 7);
    k.register_failure(a, 8);
    let s = k.get(a).unwrap();
    assert_eq!((s.msgs_sent, s.bytes_sent, s.msgs_received, s.bytes_received), (1, 10, 1, 20));
    assert_eq!((s.failures, s.first_seen, s.last_seen), (1, 5, 8));
    assert_eq!(k.len(), 1);
    assert!(k.remove(a).is_some());
    assert!(!k.contains(a));
}

#[test]
fn stats_saturate() {
    let mut s = Stats::new();
    s.bytes_received = u64::MAX - 1;
    s.register_received(5);
    assert_eq!(s.received(), (1, u64::MAX));
}

#[test]
fn line_topology() {
    assert_eq!(edges(Topology::Line, 4), vec![(0, 1), (1, 2), (2, 3)]);
    assert_eq!(edges(Topology::Line, 1), vec![]);
    assert_eq!(edges(Topology::Line, 0), vec![]);
}

#[test]
fn ring_topology() {
    assert_eq!(edges(Topology::Ring, 4), vec![(0, 1), (1, 2), (2, 3), (3, 0)]);
    assert_eq!(edges(Topology::Ring, 2), vec![(0, 1)]);
}

#[test]
fn mesh_topology() {
    assert_eq!(edges(Topology::Mesh, 4), vec![(0, 1), (0, 2), (0, 3), (1, 2), (1, 3), (2, 3)]);
}

#[test]
fn star_topology() {
    assert_eq!(edges(Topology::Star, 4), vec![(0, 1), (0, 2), (0, 3)]);
}

#[test]
fn handshake_outcomes() {
    let mut node: Node<u8> = Node::new(NodeConfig::default(), 0, local());
    let a = peer(5000);
    let b = peer(5001);
    let c = peer(5002);
    for (p, conn) in [(a, 1), (b, 2), (c, 3)] {
        assert_eq!(node.adapt_stream(p, conn), Ok(()));
    }
    assert_eq!(node.finish_handshake(a, HandshakeOutcome::Succeeded, 1), Ok(()));
    assert_eq!(node.finish_handshake(b, HandshakeOutcome::Failed, 2), Err(NodeError::HandshakeFailed));
    assert_eq!(node.finish_handshake(c, HandshakeOutcome::TimedOut, 3), Err(NodeError::HandshakeTimeout));
    assert!(node.is_handshaken(a));
    assert!(!node.is_connected(b));
    assert!(!node.is_connected(c));
    assert_eq!(node.num_connected(), 1);
    assert_eq!(node.known_peer(b).unwrap().failures, 1);
    assert_eq!(node.known_peer(c).unwrap().failures, 1);
    assert_eq!(node.finish_handshake(b, HandshakeOutcome::Succeeded, 4), Err(NodeError::NotConnected));
}
