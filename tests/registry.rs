use pea2pea::{Connections, ConnectionSide, NodeError, PeerAddr};

fn peer(port: u16) -> PeerAddr {
    PeerAddr::new(0x7f00_0001, port)
}

#[test]
fn peer_key_combines_ip_and_port() {
    assert_eq!(PeerAddr::new(0x7f00_0001, 8080).key(), 0x7f00_0001u64 * 65536 + 8080);
    assert_ne!(PeerAddr::new(1, 0).key(), PeerAddr::new(0, 1).key());
}

#[test]
fn side_negation() {
    assert_eq!(ConnectionSide::Initiator.negate(), ConnectionSide::Responder);
    assert_eq!(ConnectionSide::Responder.negate(), ConnectionSide::Initiator);
}

#[test]
fn handshaking_then_handshaken() {
    let mut c: Connections<&str> = Connections::new();
    let a = peer(1);
    assert_eq!(c.insert_handshaking(a, "conn"), Ok(()));
    assert!(c.is_handshaking(a));
    assert!(!c.is_handshaken(a));
    assert!(c.is_connected(a));
    assert_eq!(c.num_connected(), 1);
    assert!(c.promote(a));
    assert!(!c.is_handshaking(a));
    assert!(c.is_handshaken(a));
    assert_eq!(c.num_connected(), 1);
    assert!(!c.promote(a));
}

#[test]
fn second_connection_to_same_peer_loses() {
    let mut c: Connections<u32> = Connections::new();
    let a = peer(1);
    assert_eq!(c.insert_handshaking(a, 1), Ok(()));
    assert_eq!(c.insert_handshaking(a, 2), Err(2));
    assert!(c.promote(a));
    assert_eq!(c.insert_handshaking(a, 3), Err(3));
    assert_eq!(c.num_connected(), 1);
    assert_eq!(c.send_target(a), Ok(&1));
}

#[test]
fn failed_handshake_leaves_registry_unchanged() {
    let mut c: Connections<u32> = Connections::new();
    let a = peer(1);
    let b = peer(2);
    assert_eq!(c.insert_handshaking(a, 1), Ok(()));
    assert!(c.promote(a));
    assert_eq!(c.insert_handshaking(b, 2), Ok(()));
    assert_eq!(c.remove(b), Some(2));
    assert!(!c.is_connected(b));
    assert!(c.is_handshaken(a));
    assert_eq!(c.num_connected(), 1);
}

#[test]
fn remove_twice() {
    let mut c: Connections<u32> = Connections::new();
    let a = peer(1);
    assert_eq!(c.insert_handshaking(a, 1), Ok(()));
    assert_eq!(c.remove(a), Some(1));
    assert_eq!(c.remove(a), None);
    assert_eq!(c.num_connected(), 0);
}

#[test]
fn send_target_errors() {
    let mut c: Connections<u32> = Connections::new();
    let a = peer(1);
    assert_eq!(c.send_target(a), Err(NodeError::NotConnected));
    assert_eq!(c.insert_handshaking(a, 1), Ok(()));
    assert_eq!(c.send_target(a), Err(NodeError::NotHandshaken));
    assert!(c.promote(a));
    assert_eq!(c.send_target(a), Ok(&1));
}

#[test]
fn count_is_sum_of_both_maps() {
    let mut c: Connections<u16> = Connections::new();
    for p in 1..=5u16 {
        assert_eq!(c.insert_handshaking(peer(p), p), Ok(()));
    }
    assert!(c.promote(peer(2)));
    assert!(c.promote(peer(4)));
    assert_eq!(c.num_connected(), 5);
    assert_eq!(c.remove(peer(4)), Some(4));
    assert_eq!(c.remove(peer(1)), Some(1));
    assert_eq!(c.num_connected(), 3);
}
