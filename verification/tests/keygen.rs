use mpc_consensus::ecdsa::{commits_checkable, vsss_checkable};
use mpc_consensus::keygen::{KeyGenState, Outbox, Signer};
use mpc_consensus::mpc_gossip::{Inner, NodeConfig};
use mpc_consensus::mpc_message::{
    ConfirmPeersMessage, GossipEra, GossipMessage, KeyGenMessage, SigGenMessage,
};
use mpc_consensus::mpc_peer::{PeerId, PeerState};
use mpc_consensus::mpc_work::completed_public_key;

fn pid(b: &[u8]) -> PeerId {
    PeerId::from_bytes(b.to_vec())
}

fn config() -> NodeConfig {
    NodeConfig { duration: 1, threshold: 1, players: 3 }
}

fn copy_msg(m: &GossipMessage) -> GossipMessage {
    match m {
        GossipMessage::ConfirmPeers(c, e) => GossipMessage::ConfirmPeers(*c, *e),
        GossipMessage::KeyGen(k, e) => {
            let k2 = match k {
                KeyGenMessage::CommitAndDecommit(i, c, d) => {
                    KeyGenMessage::CommitAndDecommit(*i, c.clone(), d.clone())
                }
                KeyGenMessage::VSS(i, v) => KeyGenMessage::VSS(*i, v.clone()),
                KeyGenMessage::SecretShare(i, s) => KeyGenMessage::SecretShare(*i, s.clone()),
                KeyGenMessage::Proof(i, p) => KeyGenMessage::Proof(*i, p.clone()),
            };
            GossipMessage::KeyGen(k2, *e)
        }
        GossipMessage::SigGen(s, e) => GossipMessage::SigGen(SigGenMessage { data: s.data.clone() }, *e),
    }
}

struct Node {
    id: PeerId,
    signer: Signer,
    state: KeyGenState,
    inner: Inner,
}

fn network(ids: &[&[u8]]) -> Vec<Node> {
    ids.iter()
        .map(|b| {
            let mut inner = Inner::new(config(), pid(b), 0);
            for other in ids {
                if other != b {
                    inner.add_peer(pid(other));
                }
            }
            Node { id: pid(b), signer: Signer::new(), state: KeyGenState::default(), inner }
        })
        .collect()
}

/// Delivers everything queued by every node: broadcasts to every other
/// node, addressed messages to their receiver; then lets each node process
/// what it received. Returns whether some node asked for a rebuild.
fn round(nodes: &mut Vec<Node>) -> bool {
    let mut inboxes: Vec<Vec<(GossipMessage, Option<PeerId>)>> = nodes.iter().map(|_| Vec::new()).collect();
    for s in 0..nodes.len() {
        let sender = nodes[s].id.clone();
        while let Some((msg, to)) = nodes[s].signer.global_out.pop_front() {
            for r in 0..nodes.len() {
                let wanted = match &to {
                    Some(p) => *p == nodes[r].id,
                    None => r != s,
                };
                if wanted {
                    inboxes[r].push((copy_msg(&msg), Some(sender.clone())));
                }
            }
        }
    }
    let mut rebuild = false;
    for (node, inbox) in nodes.iter_mut().zip(inboxes) {
        let cfg = config();
        rebuild |= node.signer.process_batch(&cfg, &mut node.state, &mut node.inner, inbox);
    }
    rebuild
}

#[test]
fn three_nodes_generate_one_shared_key() {
    let mut nodes = network(&[&[30], &[10], &[20]]);
    for node in nodes.iter_mut() {
        let ge = GossipEra { req_id: 1234, peers_hash: node.inner.get_peers_hash() };
        let index = node.inner.get_local_index() as u16;
        node.signer
            .global_out
            .push(GossipMessage::ConfirmPeers(ConfirmPeersMessage::Confirming(index), ge), None);
        node.state.req_id = 1234;
    }
    for _ in 0..6 {
        assert!(!round(&mut nodes));
    }
    let mut keys = Vec::new();
    for node in &nodes {
        assert!(node.state.complete);
        assert!(node.inner.is_local_complete());
        assert_eq!(node.state.proofs.len(), 3);
        let (id, pk) = completed_public_key(&node.state).unwrap();
        assert_eq!(id, 1234);
        assert_eq!(pk.len(), 65);
        assert_eq!(pk[0], 4);
        keys.push(pk);
    }
    assert_eq!(keys[0], keys[1]);
    assert_eq!(keys[1], keys[2]);
}

#[test]
fn confirming_is_answered_with_our_index_to_the_sender() {
    let mut nodes = network(&[&[1], &[2], &[3]]);
    let node = &mut nodes[1];
    let ge = GossipEra { req_id: 1, peers_hash: 0 };
    let batch = vec![(GossipMessage::ConfirmPeers(ConfirmPeersMessage::Confirming(0), ge), Some(pid(&[1])))];
    let cfg = config();
    assert!(!node.signer.process_batch(&cfg, &mut node.state, &mut node.inner, batch));
    assert_eq!(node.signer.global_out.len(), 1);
    match node.signer.global_out.pop_front() {
        Some((GossipMessage::ConfirmPeers(ConfirmPeersMessage::Confirmed(i), e), Some(to))) => {
            assert_eq!(i, 1);
            assert_eq!(e, ge);
            assert_eq!(to, pid(&[1]));
        }
        other => panic!("unexpected reply {:?}", other),
    }
}

#[test]
fn confirmation_without_sender_is_refused() {
    let mut nodes = network(&[&[1], &[2], &[3]]);
    let node = &mut nodes[0];
    let ge = GossipEra { req_id: 1, peers_hash: 0 };
    let batch = vec![(GossipMessage::ConfirmPeers(ConfirmPeersMessage::Confirmed(1), ge), None)];
    let cfg = config();
    // true -> false is an edge: a rebuild is asked for
    assert!(node.signer.process_batch(&cfg, &mut node.state, &mut node.inner, batch));
    assert!(!node.signer.last_message_ok);
    assert!(node.signer.global_out.is_empty());
}

#[test]
fn confirmed_peer_starts_the_key_generation() {
    let mut nodes = network(&[&[1], &[2], &[3]]);
    let node = &mut nodes[2];
    let ge = GossipEra { req_id: 1, peers_hash: 0 };
    let batch = vec![(GossipMessage::ConfirmPeers(ConfirmPeersMessage::Confirmed(0), ge), Some(pid(&[1])))];
    let cfg = config();
    node.signer.process_batch(&cfg, &mut node.state, &mut node.inner, batch);
    assert_eq!(node.inner.get_peer_state(&pid(&[1])), Some(PeerState::Generating));
    assert!(node.inner.is_local_generating());
    assert_eq!(node.state.local_key.as_ref().unwrap().party_index(), 2);
    assert_eq!(node.state.commits.len(), 1);
    assert_eq!(node.state.decommits.len(), 1);
    match node.signer.global_out.pop_front() {
        Some((GossipMessage::KeyGen(KeyGenMessage::CommitAndDecommit(i, _, _), e), None)) => {
            assert_eq!(i, 2);
            assert_eq!(e, ge);
        }
        other => panic!("unexpected message {:?}", other),
    }
}

#[test]
fn commitment_before_our_key_is_refused() {
    let mut nodes = network(&[&[1], &[2], &[3]]);
    let node = &mut nodes[0];
    let ge = GossipEra { req_id: 1, peers_hash: 0 };
    let cad = GossipMessage::KeyGen(KeyGenMessage::CommitAndDecommit(1, vec![1], vec![2]), ge);
    let cfg = config();
    assert!(node.signer.process_batch(&cfg, &mut node.state, &mut node.inner, vec![(cad, None)]));
    assert!(node.state.commits.is_empty());
}

#[test]
fn shares_and_schemes_are_recorded_once() {
    let mut nodes = network(&[&[1], &[2], &[3]]);
    let node = &mut nodes[0];
    let ge = GossipEra { req_id: 1, peers_hash: 0 };
    let batch = vec![
        (GossipMessage::KeyGen(KeyGenMessage::VSS(1, vec![1]), ge), None),
        (GossipMessage::KeyGen(KeyGenMessage::VSS(1, vec![2]), ge), None),
        (GossipMessage::KeyGen(KeyGenMessage::SecretShare(2, vec![3]), ge), None),
        (GossipMessage::KeyGen(KeyGenMessage::SecretShare(2, vec![4]), ge), None),
        (GossipMessage::SigGen(SigGenMessage { data: vec![] }, ge), None),
    ];
    let cfg = config();
    assert!(!node.signer.process_batch(&cfg, &mut node.state, &mut node.inner, batch));
    assert_eq!(node.state.vsss.get(&1), Some(&vec![1]));
    assert_eq!(node.state.secret_shares.get(&2), Some(&vec![3]));
}

#[test]
fn failed_proofs_cancel_and_reset_the_key_generation() {
    let mut nodes = network(&[&[1], &[2], &[3]]);
    let node = &mut nodes[0];
    node.state.req_id = 5;
    let ge = GossipEra { req_id: 5, peers_hash: 0 };
    let cfg = config();
    let confirmed = vec![(GossipMessage::ConfirmPeers(ConfirmPeersMessage::Confirmed(1), ge), Some(pid(&[2])))];
    node.signer.process_batch(&cfg, &mut node.state, &mut node.inner, confirmed);
    assert!(node.state.local_key.is_some());
    for i in 1..3u16 {
        node.state.commits.insert(i, vec![0]);
        node.state.decommits.insert(i, vec![0]);
    }
    let batch = (0..3u16)
        .map(|i| (GossipMessage::KeyGen(KeyGenMessage::Proof(i, vec![9]), ge), None))
        .collect();
    node.signer.process_batch(&cfg, &mut node.state, &mut node.inner, batch);
    assert!(node.inner.is_local_canceled());
    assert_eq!(node.state.req_id, 0);
    assert!(node.state.proofs.is_empty());
    assert!(node.state.commits.is_empty());
    assert!(node.state.local_key.is_none());
}

#[test]
fn settled_key_generation_ignores_its_messages() {
    let mut nodes = network(&[&[1], &[2], &[3]]);
    let node = &mut nodes[0];
    node.inner.set_local_complete();
    let ge = GossipEra { req_id: 1, peers_hash: 0 };
    let batch = vec![(GossipMessage::KeyGen(KeyGenMessage::VSS(1, vec![1]), ge), None)];
    let cfg = config();
    assert!(!node.signer.process_batch(&cfg, &mut node.state, &mut node.inner, batch));
    assert!(node.state.vsss.is_empty());
}

#[test]
fn rebuild_is_asked_on_each_edge_of_the_outcomes() {
    let mut s = Signer::new();
    // steady successes never ask
    assert!(!s.observe(false, true));
    assert!(!s.should_rebuild);
    // true -> false: edge
    assert!(s.observe(false, false));
    assert!(s.should_rebuild);
    // a changed batch ignores the rest
    assert!(s.observe(true, true));
    assert!(s.should_rebuild);
    assert!(!s.last_message_ok);
    // false -> false: the request is withdrawn
    assert!(s.observe(false, false));
    assert!(!s.should_rebuild);
    // false -> true: edge again
    assert!(s.observe(false, true));
    assert!(s.should_rebuild);
}

#[test]
fn outbox_is_first_in_first_out() {
    let ge = GossipEra { req_id: 1, peers_hash: 2 };
    let mut out = Outbox::new();
    assert!(out.is_empty());
    out.push(GossipMessage::KeyGen(KeyGenMessage::VSS(1, vec![]), ge), None);
    out.push(GossipMessage::KeyGen(KeyGenMessage::VSS(2, vec![]), ge), Some(pid(&[1])));
    out.push_front(GossipMessage::KeyGen(KeyGenMessage::VSS(0, vec![]), ge), None);
    assert_eq!(out.len(), 3);
    let order: Vec<u16> = std::iter::from_fn(|| out.pop_front())
        .map(|(m, _)| match m {
            GossipMessage::KeyGen(k, _) => k.get_index(),
            _ => u16::MAX,
        })
        .collect();
    assert_eq!(order, vec![0, 1, 2]);
    assert!(out.pop_front().is_none());
}

#[test]
fn key_generation_state_starts_empty_and_resets() {
    let mut state = KeyGenState::default();
    assert_eq!(state.req_id, 0);
    assert!(!state.complete);
    assert!(state.shared_public_key().is_none());
    state.req_id = 9;
    state.complete = true;
    state.vsss.insert(0, vec![1]);
    state.reset();
    assert_eq!(state.req_id, 0);
    assert!(!state.complete);
    assert!(state.vsss.is_empty());
    assert!(completed_public_key(&state).is_none());
}

#[test]
fn undecodable_shared_keys_give_no_public_key() {
    let mut state = KeyGenState::default();
    state.complete = true;
    state.req_id = 3;
    state.shared_keys = Some(vec![1, 2, 3]);
    assert!(state.shared_public_key().is_none());
    assert!(completed_public_key(&state).is_none());
}

#[test]
fn commitments_that_cannot_be_checked_deal_nothing() {
    let mut nodes = network(&[&[1], &[2], &[3]]);
    let node = &mut nodes[0];
    let ge = GossipEra { req_id: 1, peers_hash: 0 };
    let cfg = config();
    let confirmed = vec![(GossipMessage::ConfirmPeers(ConfirmPeersMessage::Confirmed(1), ge), Some(pid(&[2])))];
    node.signer.process_batch(&cfg, &mut node.state, &mut node.inner, confirmed);
    node.signer.global_out.pop_front();
    let batch = vec![
        (GossipMessage::KeyGen(KeyGenMessage::CommitAndDecommit(1, b"{}".to_vec(), vec![1]), ge), None),
        (GossipMessage::KeyGen(KeyGenMessage::CommitAndDecommit(2, b"{}".to_vec(), vec![2]), ge), None),
    ];
    assert!(!node.signer.process_batch(&cfg, &mut node.state, &mut node.inner, batch));
    assert_eq!(node.state.commits.len(), 3);
    assert!(node.state.vsss.is_empty());
    assert!(node.signer.global_out.is_empty());
}

#[test]
fn garbage_is_neither_a_checkable_commitment_nor_scheme() {
    assert!(commits_checkable(&vec![]));
    assert!(!commits_checkable(&vec![b"{}".to_vec()]));
    assert!(vsss_checkable(&vec![]));
    assert!(!vsss_checkable(&vec![vec![1, 2, 3]]));
}
