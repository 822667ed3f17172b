use mpc_consensus::hbbft_gossip::{key_gen_config, GossipValidator, NodeConfig};
use mpc_consensus::hbbft_peer::{NodeId, PeerInfo, PeerPhase, Peers};
use mpc_consensus::mpc_gossip::ValidationDecision;

fn mh(last: u8) -> Vec<u8> {
    vec![0x00, 0x02, 9, last]
}

fn nid(last: u8) -> NodeId {
    NodeId::from_peer_bytes(mh(last)).unwrap()
}

#[test]
fn node_name_defaults_to_unknown() {
    let unnamed = NodeConfig { threshold: 1, parties: 3, name: None };
    assert_eq!(unnamed.name(), "<unknown>");
    let named = NodeConfig { threshold: 1, parties: 3, name: Some("alice".to_string()) };
    assert_eq!(named.name(), "alice");
    let cfg = key_gen_config();
    assert_eq!((cfg.threshold, cfg.parties), (1, 3));
    assert!(cfg.name.is_none());
}

#[test]
fn peers_join_handshaking_and_become_validators() {
    let mut peers = Peers::default();
    peers.add(nid(1));
    peers.add(nid(2));
    assert_eq!(peers.len(), 2);
    assert!(peers.contains(&nid(1)));
    assert!(!peers.contains(&nid(3)));
    assert!(peers.get_validator_key_map().is_empty());
    assert!(!peers.set_validator(&nid(2), vec![7]));
    assert!(peers.set_validator(&nid(2), vec![8]));
    let map = peers.get_validator_key_map();
    assert_eq!(map.len(), 1);
    assert!(map[0].0.same(&nid(2)));
    assert_eq!(map[0].1, vec![7]);
    peers.del(&nid(2));
    assert!(peers.get_validator_key_map().is_empty());
    assert_eq!(peers.len(), 1);
}

#[test]
fn known_peer_starts_over_when_added_again() {
    let mut peers = Peers::default();
    peers.add(nid(1));
    peers.set_validator(&nid(1), vec![1]);
    peers.add(nid(1));
    assert_eq!(peers.len(), 1);
    assert!(peers.get_validator_key_map().is_empty());
}

#[test]
fn peer_phases_advance() {
    let mut info = PeerInfo::new();
    assert!(info.node_id().is_none());
    assert!(!info.is_pending() && !info.is_observer() && !info.is_validator());
    info.to_pending((nid(1), vec![5]));
    assert!(info.is_pending());
    assert!(info.node_id().unwrap().same(&nid(1)));
    assert_eq!(info.public_key(), Some(&vec![5]));
    info.to_observer();
    assert!(info.is_observer());
    info.to_validator(None);
    assert!(info.is_validator());
    assert_eq!(info.public_key(), Some(&vec![5]));
    let mut fresh = PeerInfo::default();
    fresh.to_validator(Some((nid(2), vec![6])));
    assert!(matches!(fresh.phase, PeerPhase::EstablishedValidator { .. }));
}

#[test]
fn consensus_validator_tracks_connecting_peers() {
    let mut v = GossipValidator::new();
    v.new_peer(nid(1));
    v.new_peer(nid(2));
    v.new_peer(nid(1));
    assert_eq!(v.inner.peers.len(), 2);
    assert!(v.inner.peers.contains(&nid(2)));
    v.peer_disconnected(&mh(1));
    assert_eq!(v.inner.peers.len(), 2);
}

#[test]
fn consensus_validator_keeps_everything_and_forwards_nothing() {
    let mut v = GossipValidator::new();
    assert_eq!(v.validate(&[1, 2, 3]), ValidationDecision::ProcessAndKeep);
    assert!(!v.message_allowed());
    assert_eq!(v.inner.dhb, 2);
    assert!(v.message_expired(&[]));
}

#[test]
fn deleting_a_new_consensus_peer_undoes_adding_it() {
    let mut peers = Peers::default();
    peers.add(nid(1));
    peers.set_validator(&nid(1), vec![3]);
    peers.add(nid(2));
    peers.del(&nid(2));
    assert_eq!(peers.len(), 1);
    let map = peers.get_validator_key_map();
    assert_eq!(map.len(), 1);
    assert!(map[0].0.same(&nid(1)));
}
