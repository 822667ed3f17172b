use std::collections::hash_map::DefaultHasher;
use std::hash::Hasher;

use mpc_consensus::mpc_gossip::{
    mpc_topic_name, GossipValidator, Inner, MessageIntent, NodeConfig, ValidationDecision,
    REBROADCAST_AFTER_MS, ROLE_AUTHORITY,
};
use mpc_consensus::mpc_message::{
    ConfirmPeersMessage, GossipEra, GossipMessage, KeyGenMessage, SigGenMessage,
};
use mpc_consensus::mpc_peer::{PeerId, PeerInfo, PeerState, Peers};

fn pid(b: &[u8]) -> PeerId {
    PeerId::from_bytes(b.to_vec())
}

fn config() -> NodeConfig {
    NodeConfig { duration: 1, threshold: 1, players: 3 }
}

fn hash_of(ids: &[&[u8]]) -> u64 {
    let mut h = DefaultHasher::new();
    for id in ids {
        h.write(id);
    }
    h.finish()
}

#[test]
fn peers_are_kept_in_order_of_their_ids() {
    let mut peers = Peers::new();
    peers.add(pid(&[3]));
    peers.add(pid(&[1]));
    peers.add(pid(&[2, 0]));
    peers.add(pid(&[2]));
    let keys: Vec<Vec<u8>> = peers.keys().iter().map(|p| p.as_bytes().to_vec()).collect();
    assert_eq!(keys, vec![vec![1], vec![2], vec![2, 0], vec![3]]);
    assert_eq!(peers.len(), 4);
    assert_eq!(peers.get_position(&pid(&[2, 0])), Some(2));
    assert_eq!(peers.get_position(&pid(&[9])), None);
    assert_eq!(peers.get_peer_id_by_index(3), Some(pid(&[3])));
    assert_eq!(peers.get_peer_id_by_index(4), None);
}

#[test]
fn peer_index_round_trips() {
    let mut peers = Peers::new();
    for b in [5u8, 1, 9, 7] {
        peers.add(pid(&[b]));
    }
    for b in [5u8, 1, 9, 7] {
        let i = peers.get_position(&pid(&[b])).unwrap();
        assert_eq!(peers.get_peer_id_by_index(i), Some(pid(&[b])));
    }
}

#[test]
fn added_peer_is_known_and_awaits_the_others() {
    let mut peers = Peers::new();
    peers.add(pid(&[4]));
    assert!(peers.contains(&pid(&[4])));
    assert_eq!(peers.get_state(&pid(&[4])), Some(PeerState::AwaitingPeers));
    peers.set_state(&pid(&[4]), PeerState::Generating);
    assert_eq!(peers.get_state(&pid(&[4])), Some(PeerState::Generating));
    peers.add(pid(&[4]));
    assert_eq!(peers.len(), 1);
    assert_eq!(peers.get_state(&pid(&[4])), Some(PeerState::AwaitingPeers));
    assert_eq!(PeerInfo::default().state, PeerState::AwaitingPeers);
}

#[test]
fn deleted_peer_is_forgotten_and_others_shift() {
    let mut peers = Peers::new();
    for b in [1u8, 2, 3] {
        peers.add(pid(&[b]));
    }
    peers.del(&pid(&[2]));
    assert!(!peers.contains(&pid(&[2])));
    assert_eq!(peers.get_position(&pid(&[3])), Some(1));
    peers.del(&pid(&[8]));
    assert_eq!(peers.len(), 2);
    peers.set_state(&pid(&[8]), PeerState::Complete);
    assert_eq!(peers.get_state(&pid(&[8])), None);
}

#[test]
fn node_starts_knowing_only_itself() {
    let inner = Inner::new(config(), pid(&[2]), 1000);
    assert_eq!(inner.get_peers_len(), 1);
    assert_eq!(inner.get_local_index(), 0);
    assert_eq!(inner.local_state(), PeerState::AwaitingPeers);
    assert!(inner.is_local_awaiting_peers());
    assert_eq!(inner.get_players(), 3);
    assert_eq!(inner.config(), config());
    assert_eq!(inner.local_peer_id(), pid(&[2]));
    assert!(inner.get_other_peers().is_empty());
}

#[test]
fn other_peers_leave_out_the_node_itself() {
    let mut inner = Inner::new(config(), pid(&[2]), 0);
    inner.add_peer(pid(&[3]));
    inner.add_peer(pid(&[1]));
    assert_eq!(inner.get_other_peers(), vec![pid(&[1]), pid(&[3])]);
    assert_eq!(inner.get_local_index(), 1);
    assert_eq!(inner.get_peer_index(&pid(&[3])), 2);
    inner.del_peer(&pid(&[1]));
    assert_eq!(inner.get_local_index(), 0);
}

#[test]
fn peers_hash_feeds_every_id_in_order() {
    let mut inner = Inner::new(config(), pid(&[2]), 0);
    inner.add_peer(pid(&[3, 3]));
    inner.add_peer(pid(&[1]));
    assert_eq!(inner.get_peers_hash(), hash_of(&[&[1], &[2], &[3, 3]]));
    let mut other = Inner::new(config(), pid(&[1]), 0);
    other.add_peer(pid(&[3, 3]));
    other.add_peer(pid(&[2]));
    assert_eq!(inner.get_peers_hash(), other.get_peers_hash());
}

#[test]
fn local_state_moves_with_its_own_entry() {
    let mut inner = Inner::new(config(), pid(&[2]), 0);
    inner.add_peer(pid(&[1]));
    inner.set_local_generating();
    assert!(inner.is_local_generating());
    assert_eq!(inner.get_peer_state(&pid(&[2])), Some(PeerState::Generating));
    assert_eq!(inner.get_peer_state(&pid(&[1])), Some(PeerState::AwaitingPeers));
    inner.set_local_complete();
    assert!(inner.is_local_complete());
    inner.set_local_canceled();
    assert!(inner.is_local_canceled());
    inner.set_local_awaiting_peers();
    assert!(inner.is_local_awaiting_peers());
    inner.set_peer_complete(&pid(&[1]));
    assert_eq!(inner.get_peer_state(&pid(&[1])), Some(PeerState::Complete));
    inner.set_peer_canceled(&pid(&[1]));
    inner.set_peer_generating(&pid(&[1]));
    inner.set_peer_awaiting_peers(&pid(&[1]));
    assert_eq!(inner.get_peer_state(&pid(&[1])), Some(PeerState::AwaitingPeers));
    assert_eq!(inner.get_peer_state(&pid(&[7])), None);
}

#[test]
fn local_peer_id_is_written_in_base58() {
    let inner = Inner::new(config(), pid(&[0, 0, 1]), 0);
    assert_eq!(inner.local_string_peer_id(), "112");
    let inner = Inner::new(config(), pid(b"hello world"), 0);
    assert_eq!(inner.local_string_peer_id(), "StV1DL6CwTryKyV");
}

#[test]
fn rebroadcast_is_due_every_period() {
    let mut inner = Inner::new(config(), pid(&[1]), 1000);
    assert!(!inner.poll_rebroadcast(1000));
    assert!(!inner.poll_rebroadcast(1000 + REBROADCAST_AFTER_MS - 1));
    assert!(inner.poll_rebroadcast(1000 + REBROADCAST_AFTER_MS));
    assert!(!inner.poll_rebroadcast(1000 + REBROADCAST_AFTER_MS + 1));
    assert!(inner.poll_rebroadcast(1000 + 2 * REBROADCAST_AFTER_MS));
}

#[test]
fn topic_is_mpc() {
    assert_eq!(mpc_topic_name(), "mpc");
    assert_eq!(config().get_params().threshold, 1);
    assert_eq!(config().get_params().share_count, 3);
}

fn full_validator() -> GossipValidator {
    let mut v = GossipValidator::new(config(), pid(&[2]), 0);
    v.new_peer(&pid(&[1]), ROLE_AUTHORITY);
    v.new_peer(&pid(&[3]), ROLE_AUTHORITY);
    v
}

fn era(v: &GossipValidator) -> GossipEra {
    GossipEra { req_id: 1, peers_hash: v.inner.get_peers_hash() }
}

#[test]
fn only_authorities_join_the_peers() {
    let mut v = GossipValidator::new(config(), pid(&[2]), 0);
    v.new_peer(&pid(&[1]), 1);
    assert_eq!(v.inner.get_peers_len(), 1);
    v.new_peer(&pid(&[1]), ROLE_AUTHORITY);
    assert_eq!(v.inner.get_peers_len(), 2);
    assert!(v.inner.is_local_awaiting_peers());
}

#[test]
fn joining_peer_puts_the_node_back_to_awaiting() {
    let mut v = full_validator();
    v.inner.set_local_generating();
    v.new_peer(&pid(&[4]), ROLE_AUTHORITY);
    assert!(v.inner.is_local_awaiting_peers());
    assert_eq!(v.inner.get_peers_len(), 4);
}

#[test]
fn losing_a_player_cancels_the_key_generation() {
    let mut v = full_validator();
    v.inner.set_local_generating();
    v.peer_disconnected(&pid(&[9]));
    assert!(v.inner.is_local_generating());
    v.peer_disconnected(&pid(&[3]));
    assert_eq!(v.inner.get_peers_len(), 2);
    assert!(v.inner.is_local_canceled());
}

#[test]
fn decodable_messages_are_kept() {
    let v = full_validator();
    let msg = GossipMessage::SigGen(SigGenMessage { data: vec![] }, era(&v));
    assert_eq!(v.validate(Some(&msg)), ValidationDecision::ProcessAndKeep);
    assert_eq!(v.validate(None), ValidationDecision::Discard);
}

#[test]
fn periodic_rebroadcast_follows_the_round() {
    let mut v = full_validator();
    let msg = GossipMessage::SigGen(SigGenMessage { data: vec![] }, era(&v));
    let due = v.start_allowed_round(REBROADCAST_AFTER_MS - 1);
    assert!(!due);
    assert!(!v.message_allowed(due, MessageIntent::PeriodicRebroadcast, Some(&msg)));
    let due = v.start_allowed_round(REBROADCAST_AFTER_MS);
    assert!(due);
    assert!(v.message_allowed(due, MessageIntent::PeriodicRebroadcast, Some(&msg)));
    assert!(v.message_allowed(false, MessageIntent::Broadcast, Some(&msg)));
}

#[test]
fn everything_goes_while_peers_are_missing() {
    let v = GossipValidator::new(config(), pid(&[2]), 0);
    assert!(v.message_allowed(false, MessageIntent::Broadcast, None));
    assert!(!v.message_expired(None));
    let stale = GossipMessage::ConfirmPeers(
        ConfirmPeersMessage::Confirming(0),
        GossipEra { req_id: 1, peers_hash: 0 },
    );
    assert!(v.message_allowed(false, MessageIntent::ForcedBroadcast, Some(&stale)));
    assert!(!v.message_expired(Some(&stale)));
}

#[test]
fn confirmations_go_while_awaiting_peers_with_the_same_peer_set() {
    let mut v = full_validator();
    let good = GossipMessage::ConfirmPeers(ConfirmPeersMessage::Confirming(0), era(&v));
    let other = GossipMessage::ConfirmPeers(
        ConfirmPeersMessage::Confirmed(0),
        GossipEra { req_id: 1, peers_hash: era(&v).peers_hash.wrapping_add(1) },
    );
    assert!(v.message_allowed(false, MessageIntent::Broadcast, Some(&good)));
    assert!(!v.message_allowed(false, MessageIntent::Broadcast, Some(&other)));
    assert!(!v.message_allowed(false, MessageIntent::Broadcast, None));
    assert!(!v.message_expired(Some(&good)));
    assert!(v.message_expired(Some(&other)));
    v.inner.set_local_generating();
    assert!(!v.message_allowed(false, MessageIntent::Broadcast, Some(&good)));
    assert!(v.message_expired(Some(&good)));
}

#[test]
fn key_generation_messages_go_while_awaiting_or_generating() {
    let mut v = full_validator();
    let kgm = GossipMessage::KeyGen(KeyGenMessage::VSS(2, vec![1]), era(&v));
    assert!(v.message_allowed(false, MessageIntent::Broadcast, Some(&kgm)));
    v.inner.set_local_generating();
    assert!(v.message_allowed(false, MessageIntent::Broadcast, Some(&kgm)));
    assert!(!v.message_expired(Some(&kgm)));
    let far = GossipMessage::KeyGen(KeyGenMessage::Proof(3, vec![1]), era(&v));
    assert!(v.message_expired(Some(&far)));
    v.inner.set_local_complete();
    assert!(!v.message_allowed(false, MessageIntent::Broadcast, Some(&kgm)));
}

#[test]
fn settled_key_generation_expires_everything() {
    let mut v = full_validator();
    let sig = GossipMessage::SigGen(SigGenMessage { data: vec![1] }, era(&v));
    assert!(!v.message_expired(Some(&sig)));
    assert!(v.message_expired(None));
    v.inner.set_local_complete();
    assert!(v.message_expired(Some(&sig)));
    assert!(v.message_expired(None));
    v.inner.set_local_canceled();
    assert!(v.message_expired(Some(&sig)));
}

#[test]
fn confirmation_from_an_unknown_index_expires() {
    let v = full_validator();
    let msg = GossipMessage::ConfirmPeers(ConfirmPeersMessage::Confirmed(3), era(&v));
    assert!(v.message_expired(Some(&msg)));
    assert_eq!(ConfirmPeersMessage::Confirmed(3).get_index(), 3);
    assert_eq!(KeyGenMessage::SecretShare(5, vec![]).get_index(), 5);
    assert_eq!(msg.get_peers_hash(), era(&v).peers_hash);
}

#[test]
fn deleting_a_new_peer_undoes_adding_it() {
    let mut peers = Peers::new();
    for b in [1u8, 5, 9] {
        peers.add(pid(&[b]));
    }
    peers.set_state(&pid(&[5]), PeerState::Complete);
    peers.add(pid(&[4]));
    assert_eq!(peers.get_position(&pid(&[4])), Some(1));
    peers.del(&pid(&[4]));
    let keys: Vec<Vec<u8>> = peers.keys().iter().map(|p| p.as_bytes().to_vec()).collect();
    assert_eq!(keys, vec![vec![1], vec![5], vec![9]]);
    assert_eq!(peers.get_state(&pid(&[5])), Some(PeerState::Complete));
}
