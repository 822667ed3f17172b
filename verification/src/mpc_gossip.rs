use std::collections::hash_map::DefaultHasher;
use std::hash::Hasher;
use vstd::prelude::*;
use vstd::std_specs::hash::DefaultHasherAdditionalSpecFns;

use crate::bytes::bytes_eq;
use crate::mpc_message::{
    ConfirmPeersMessage, GossipMessage, GossipMessageView, KeyGenMessage,
};
use crate::mpc_peer::{holds, ids_of, rank, sorted_ids, PeerEntry, PeerId, PeerState, Peers};

verus! {

/// How long a node waits before it gossips its messages again, in
/// milliseconds.
pub const REBROADCAST_AFTER_MS: u64 = 30000;

/// The role bits of a peer that takes part in the signing network.
pub const ROLE_AUTHORITY: u8 = 4;

/// The settings of a signing node.
#[derive(Clone, Copy, Debug, PartialEq, Eq, Structural)]
pub struct NodeConfig {
    pub duration: u64,
    pub threshold: u16,
    pub players: u16,
}

/// The parameters of the threshold scheme: `threshold + 1` of
/// `share_count` parties can sign.
#[derive(Clone, Copy, Debug, PartialEq, Eq, Structural)]
pub struct Parameters {
    pub threshold: u16,
    pub share_count: u16,
}

impl NodeConfig {
    pub fn get_params(&self) -> (r: Parameters)
        ensures
            r.threshold == self.threshold,
            r.share_count == self.players,
    {
        Parameters { threshold: self.threshold, share_count: self.players }
    }
}

/// Why the network hands a message to the gossip validator.
#[derive(Clone, Copy, Debug, PartialEq, Eq, Structural)]
pub enum MessageIntent {
    Broadcast,
    ForcedBroadcast,
    PeriodicRebroadcast,
}

/// What becomes of a received message.
#[derive(Clone, Copy, Debug, PartialEq, Eq, Structural)]
pub enum ValidationDecision {
    /// Process it and keep it under the topic of the signing network.
    ProcessAndKeep,
    /// Drop it.
    Discard,
}

/// The name from which the topic of the signing network's messages is hashed.
pub fn mpc_topic_name() -> (r: &'static str)
    ensures
        r@ == "mpc"@,
{
    "mpc"
}

/// The hash of a peer set: `DefaultHasher` fed with each id in order.
pub open spec fn peers_hash(s: Seq<PeerEntry>) -> u64 {
    DefaultHasher::spec_finish(ids_of(s))
}

/// Names the base58 text (Bitcoin alphabet) of `bytes`.
pub uninterp spec fn base58_of(bytes: Seq<u8>) -> Seq<char>;

/// Calls `bs58::encode(bytes).into_string()`, the text form of a network
/// identity.
#[verifier::external_body]
fn to_base58(bytes: &[u8]) -> (r: String)
    ensures
        r@ == base58_of(bytes@),
{
    bs58::encode(bytes).into_string()
}

/// What a node's gossip layer knows: who it is, where it stands in the key
/// generation, its peers, its settings, and when it next rebroadcasts.
pub struct Inner {
    local_peer_id: PeerId,
    local_state: PeerState,
    peers: Peers,
    config: NodeConfig,
    next_rebroadcast: u64,
}

/// The gossip layer's knowledge, taken by view.
pub struct InnerView {
    pub local_id: Seq<u8>,
    pub local_state: PeerState,
    pub peers: Seq<PeerEntry>,
    pub config: NodeConfig,
    pub next_rebroadcast: u64,
}

impl View for Inner {
    type V = InnerView;

    closed spec fn view(&self) -> InnerView {
        InnerView {
            local_id: self.local_peer_id@,
            local_state: self.local_state,
            peers: self.peers@,
            config: self.config,
            next_rebroadcast: self.next_rebroadcast,
        }
    }
}

impl InnerView {
    /// Whether the local node is among its peers.
    pub open spec fn knows_itself(self) -> bool {
        holds(self.peers, self.local_id)
    }

    /// The peer set with the state of `who` set, if it is a peer.
    pub open spec fn peers_with_state(self, who: Seq<u8>, state: PeerState) -> Seq<PeerEntry> {
        if holds(self.peers, who) {
            self.peers.update(rank(self.peers, who), (who, state))
        } else {
            self.peers
        }
    }

    /// The knowledge after the local node moves to `state`.
    pub open spec fn with_local_state(self, state: PeerState) -> InnerView {
        InnerView {
            local_state: state,
            peers: self.peers_with_state(self.local_id, state),
            ..self
        }
    }
}

impl Inner {
    pub open spec fn wf(&self) -> bool {
        sorted_ids(self@.peers)
    }

    /// A node that knows only itself and awaits its peers.
    pub fn new(config: NodeConfig, local_peer_id: PeerId, now_ms: u64) -> (r: Inner)
        requires
            now_ms <= u64::MAX - REBROADCAST_AFTER_MS,
        ensures
            r.wf(),
            r@.local_id == local_peer_id@,
            r@.local_state == PeerState::AwaitingPeers,
            r@.peers == seq![(local_peer_id@, PeerState::AwaitingPeers)],
            r@.config == config,
            r@.next_rebroadcast == now_ms + REBROADCAST_AFTER_MS,
    {
        let mut peers = Peers::new();
        let ghost id = local_peer_id@;
        peers.add(local_peer_id.duplicate());
        proof {
            assert(!holds(Seq::<PeerEntry>::empty(), id));
            assert(rank(Seq::<PeerEntry>::empty(), id) == 0);
            assert(peers@ =~= seq![(id, PeerState::AwaitingPeers)]);
        }
        Inner {
            local_peer_id,
            local_state: PeerState::AwaitingPeers,
            peers,
            config,
            next_rebroadcast: now_ms + REBROADCAST_AFTER_MS,
        }
    }

    /// Adds a peer that awaits the others.
    pub fn add_peer(&mut self, who: PeerId)
        requires
            old(self).wf(),
        ensures
            final(self).wf(),
            final(self)@ == (InnerView {
                peers: if holds(old(self)@.peers, who@) {
                    old(self)@.peers.update(
                        rank(old(self)@.peers, who@),
                        (who@, PeerState::AwaitingPeers),
                    )
                } else {
                    old(self)@.peers.insert(
                        rank(old(self)@.peers, who@),
                        (who@, PeerState::AwaitingPeers),
                    )
                },
                ..old(self)@
            }),
    {
        self.peers.add(who);
    }

    /// Forgets a peer.
    pub fn del_peer(&mut self, who: &PeerId)
        requires
            old(self).wf(),
        ensures
            final(self).wf(),
            final(self)@ == (InnerView {
                peers: if holds(old(self)@.peers, who@) {
                    old(self)@.peers.remove(rank(old(self)@.peers, who@))
                } else {
                    old(self)@.peers
                },
                ..old(self)@
            }),
    {
        self.peers.del(who);
    }

    /// The number of parties of the key generation.
    pub fn get_players(&self) -> (r: u16)
        ensures
            r == self@.config.players,
    {
        self.config.players
    }

    /// The settings of the node.
    pub fn config(&self) -> (r: NodeConfig)
        ensures
            r == self@.config,
    {
        self.config
    }

    /// The number of known peers, the node itself included.
    pub fn get_peers_len(&self) -> (r: usize)
        ensures
            r == self@.peers.len(),
    {
        self.peers.len()
    }

    /// The peers other than the node itself, in order.
    pub fn get_other_peers(&self) -> (r: Vec<PeerId>)
        ensures
            r@.map_values(|p: PeerId| p@) == ids_of(self@.peers).filter(
                |id: Seq<u8>| id != self@.local_id,
            ),
    {
        let keys = self.peers.keys();
        let ghost all = ids_of(self@.peers);
        let ghost me = self@.local_id;
        let ghost keep = |id: Seq<u8>| id != me;
        let mut out: Vec<PeerId> = Vec::new();
        let n = keys.len();
        assert(keys@.map_values(|p: PeerId| p@) == all);
        for i in 0..n
            invariant
                n == keys@.len(),
                keys@.map_values(|p: PeerId| p@) == all,
                out@.map_values(|p: PeerId| p@) == all.take(i as int).filter(keep),
                me == self.local_peer_id@,
                forall|x: Seq<u8>| #[trigger] keep(x) == (x != me),
        {
            let ghost before = out@.map_values(|p: PeerId| p@);
            proof {
                reveal(Seq::filter);
                assert(all.take(i + 1).drop_last() =~= all.take(i as int));
                assert(all.take(i + 1).last() == all[i as int]);
            }
            assert(keys@[i as int]@ == all[i as int]);
            if !keys[i].same(&self.local_peer_id) {
                out.push(keys[i].duplicate());
                assert(out@.map_values(|p: PeerId| p@) =~= before.push(all[i as int]));
            }
        }
        assert(all.take(n as int) =~= all);
        out
    }

    /// The hash of the peer set.
    pub fn get_peers_hash(&self) -> (r: u64)
        ensures
            r == peers_hash(self@.peers),
    {
        let keys = self.peers.keys();
        let ghost all = ids_of(self@.peers);
        let mut hasher = DefaultHasher::new();
        let n = keys.len();
        for i in 0..n
            invariant
                n == keys@.len(),
                keys@.map_values(|p: PeerId| p@) == all,
                hasher@ == all.take(i as int),
        {
            assert(keys@[i as int]@ == all[i as int]);
            hasher.write(keys[i].as_bytes());
            assert(all.take(i + 1) =~= all.take(i as int).push(all[i as int]));
        }
        assert(all.take(n as int) =~= all);
        hasher.finish()
    }

    /// The index of the node among its peers.
    pub fn get_local_index(&self) -> (r: usize)
        requires
            self.wf(),
            self@.knows_itself(),
        ensures
            r == rank(self@.peers, self@.local_id),
    {
        self.get_peer_index(&self.local_peer_id)
    }

    /// The index of a known peer.
    pub fn get_peer_index(&self, who: &PeerId) -> (r: usize)
        requires
            self.wf(),
            holds(self@.peers, who@),
        ensures
            r == rank(self@.peers, who@),
    {
        match self.peers.get_position(who) {
            Some(i) => i,
            None => 0,
        }
    }

    /// The peer at `index`, if there is one.
    pub fn get_peer_id_by_index(&self, index: usize) -> (r: Option<PeerId>)
        ensures
            match r {
                Some(p) => index < self@.peers.len() && p@ == self@.peers[index as int].0,
                None => index >= self@.peers.len(),
            },
    {
        self.peers.get_peer_id_by_index(index)
    }

    /// The identity of the node.
    pub fn local_peer_id(&self) -> (r: PeerId)
        ensures
            r@ == self@.local_id,
    {
        self.local_peer_id.duplicate()
    }

    /// The identity of the node as text.
    pub fn local_string_peer_id(&self) -> (r: String)
        ensures
            r@ == base58_of(self@.local_id),
    {
        to_base58(self.local_peer_id.as_bytes())
    }

    /// Where the node stands in the key generation.
    pub fn local_state(&self) -> (r: PeerState)
        ensures
            r == self@.local_state,
    {
        self.local_state
    }

    pub fn is_local_awaiting_peers(&self) -> (r: bool)
        ensures
            r == (self@.local_state == PeerState::AwaitingPeers),
    {
        self.local_state == PeerState::AwaitingPeers
    }

    pub fn is_local_generating(&self) -> (r: bool)
        ensures
            r == (self@.local_state == PeerState::Generating),
    {
        self.local_state == PeerState::Generating
    }

    pub fn is_local_complete(&self) -> (r: bool)
        ensures
            r == (self@.local_state == PeerState::Complete),
    {
        self.local_state == PeerState::Complete
    }

    pub fn is_local_canceled(&self) -> (r: bool)
        ensures
            r == (self@.local_state == PeerState::Canceled),
    {
        self.local_state == PeerState::Canceled
    }

    pub fn set_local_awaiting_peers(&mut self)
        requires
            old(self).wf(),
        ensures
            final(self).wf(),
            final(self)@ == old(self)@.with_local_state(PeerState::AwaitingPeers),
    {
        self.set_local_state(PeerState::AwaitingPeers);
    }

    pub fn set_local_generating(&mut self)
        requires
            old(self).wf(),
        ensures
            final(self).wf(),
            final(self)@ == old(self)@.with_local_state(PeerState::Generating),
    {
        self.set_local_state(PeerState::Generating);
    }

    pub fn set_local_complete(&mut self)
        requires
            old(self).wf(),
        ensures
            final(self).wf(),
            final(self)@ == old(self)@.with_local_state(PeerState::Complete),
    {
        self.set_local_state(PeerState::Complete);
    }

    pub fn set_local_canceled(&mut self)
        requires
            old(self).wf(),
        ensures
            final(self).wf(),
            final(self)@ == old(self)@.with_local_state(PeerState::Canceled),
    {
        self.set_local_state(PeerState::Canceled);
    }

    pub fn set_peer_awaiting_peers(&mut self, who: &PeerId)
        requires
            old(self).wf(),
        ensures
            final(self).wf(),
            final(self)@ == (InnerView {
                peers: old(self)@.peers_with_state(who@, PeerState::AwaitingPeers),
                ..old(self)@
            }),
    {
        self.set_peer_state(who, PeerState::AwaitingPeers);
    }

    pub fn set_peer_generating(&mut self, who: &PeerId)
        requires
            old(self).wf(),
        ensures
            final(self).wf(),
            final(self)@ == (InnerView {
                peers: old(self)@.peers_with_state(who@, PeerState::Generating),
                ..old(self)@
            }),
    {
        self.set_peer_state(who, PeerState::Generating);
    }

    pub fn set_peer_complete(&mut self, who: &PeerId)
        requires
            old(self).wf(),
        ensures
            final(self).wf(),
            final(self)@ == (InnerView {
                peers: old(self)@.peers_with_state(who@, PeerState::Complete),
                ..old(self)@
            }),
    {
        self.set_peer_state(who, PeerState::Complete);
    }

    pub fn set_peer_canceled(&mut self, who: &PeerId)
        requires
            old(self).wf(),
        ensures
            final(self).wf(),
            final(self)@ == (InnerView {
                peers: old(self)@.peers_with_state(who@, PeerState::Canceled),
                ..old(self)@
            }),
    {
        self.set_peer_state(who, PeerState::Canceled);
    }

    /// Moves the node, and its own entry among the peers, to `state`.
    pub fn set_local_state(&mut self, state: PeerState)
        requires
            old(self).wf(),
        ensures
            final(self).wf(),
            final(self)@ == old(self)@.with_local_state(state),
    {
        let me = self.local_peer_id();
        self.set_peer_state(&me, state);
        self.local_state = state;
    }

    /// Sets the state of a peer, if it is one.
    pub fn set_peer_state(&mut self, who: &PeerId, state: PeerState)
        requires
            old(self).wf(),
        ensures
            final(self).wf(),
            final(self)@ == (InnerView {
                peers: old(self)@.peers_with_state(who@, state),
                ..old(self)@
            }),
    {
        self.peers.set_state(who, state);
    }

    /// The state of a peer, if it is one.
    pub fn get_peer_state(&self, who: &PeerId) -> (r: Option<PeerState>)
        requires
            self.wf(),
        ensures
            match r {
                Some(st) => holds(self@.peers, who@) && st == self@.peers[rank(
                    self@.peers,
                    who@,
                )].1,
                None => !holds(self@.peers, who@),
            },
    {
        self.peers.get_state(who)
    }

    /// Whether a periodic rebroadcast is due at `now_ms`; when it is, the
    /// next one is scheduled a rebroadcast period later.
    pub fn poll_rebroadcast(&mut self, now_ms: u64) -> (r: bool)
        requires
            now_ms <= u64::MAX - REBROADCAST_AFTER_MS,
        ensures
            (r, final(self)@) == rebroadcast_round(old(self)@, now_ms),
    {
        if now_ms >= self.next_rebroadcast {
            self.next_rebroadcast = now_ms + REBROADCAST_AFTER_MS;
            true
        } else {
            false
        }
    }
}

/// A round of rebroadcast decisions at `now`: whether periodic rebroadcasts
/// are due, and the knowledge after it; when they are due, the next round
/// that allows them is a rebroadcast period later.
pub open spec fn rebroadcast_round(v: InnerView, now: u64) -> (bool, InnerView) {
    if now >= v.next_rebroadcast {
        (true, InnerView { next_rebroadcast: (now + REBROADCAST_AFTER_MS) as u64, ..v })
    } else {
        (false, v)
    }
}

/// Whether a message may be gossiped to a peer: `do_rebroadcast` decides
/// periodic rebroadcasts; while peers are missing everything goes; an
/// undecodable message never goes; otherwise a confirmation goes while the
/// node awaits its peers and a key generation message while it awaits them
/// or generates, each only if it was sent for the same peer set; signing
/// messages always go.
pub open spec fn spec_message_allowed(
    inner: InnerView,
    do_rebroadcast: bool,
    intent: MessageIntent,
    msg: Option<GossipMessageView>,
) -> bool {
    if intent == MessageIntent::PeriodicRebroadcast {
        do_rebroadcast
    } else if inner.peers.len() < inner.config.players {
        true
    } else {
        match msg {
            None => false,
            Some(m) => {
                let same_peers = peers_hash(inner.peers) == m.era().peers_hash;
                match m {
                    GossipMessageView::ConfirmPeers(_, _) => inner.local_state
                        == PeerState::AwaitingPeers && same_peers,
                    GossipMessageView::KeyGen(_, _) => (inner.local_state
                        == PeerState::AwaitingPeers || inner.local_state == PeerState::Generating)
                        && same_peers,
                    GossipMessageView::SigGen(_, _) => true,
                }
            },
        }
    }
}

/// Whether a stored message has expired: everything expires once the key
/// generation is complete or canceled; nothing while peers are missing; an
/// undecodable message does; a confirmation does when its sender's index is
/// not a peer, when the node no longer awaits its peers, or when it was
/// sent for another peer set; a key generation message does when its
/// sender's index is not a peer or it was sent for another peer set;
/// signing messages do not.
pub open spec fn spec_message_expired(inner: InnerView, msg: Option<GossipMessageView>) -> bool {
    let complete = inner.local_state == PeerState::Complete;
    let canceled = inner.local_state == PeerState::Canceled;
    if complete || canceled {
        true
    } else if inner.peers.len() < inner.config.players {
        false
    } else {
        match msg {
            None => true,
            Some(m) => {
                let other_peers = peers_hash(inner.peers) != m.era().peers_hash;
                match m {
                    GossipMessageView::ConfirmPeers(c, _) => {
                        if c.spec_index() >= inner.peers.len() {
                            true
                        } else {
                            inner.local_state != PeerState::AwaitingPeers || canceled
                                || other_peers
                        }
                    },
                    GossipMessageView::KeyGen(k, _) => k.index() >= inner.peers.len()
                        || other_peers,
                    GossipMessageView::SigGen(_, _) => false,
                }
            },
        }
    }
}

/// Decides which gossip messages a signing node accepts, keeps, forwards and
/// drops, and follows peers joining and leaving.
pub struct GossipValidator {
    pub inner: Inner,
}

impl GossipValidator {
    pub fn new(config: NodeConfig, local_peer_id: PeerId, now_ms: u64) -> (r: GossipValidator)
        requires
            now_ms <= u64::MAX - REBROADCAST_AFTER_MS,
        ensures
            r.inner.wf(),
            r.inner@.local_id == local_peer_id@,
            r.inner@.local_state == PeerState::AwaitingPeers,
            r.inner@.peers == seq![(local_peer_id@, PeerState::AwaitingPeers)],
            r.inner@.config == config,
            r.inner@.next_rebroadcast == now_ms + REBROADCAST_AFTER_MS,
    {
        GossipValidator { inner: Inner::new(config, local_peer_id, now_ms) }
    }

    /// A peer connected: an authority joins the peers and the node awaits
    /// the others again; any other peer is ignored.
    pub fn new_peer(&mut self, who: &PeerId, roles: u8)
        requires
            old(self).inner.wf(),
        ensures
            final(self).inner.wf(),
            roles != ROLE_AUTHORITY ==> final(self).inner@ == old(self).inner@,
            roles == ROLE_AUTHORITY ==> ({
                let added = InnerView {
                    peers: if holds(old(self).inner@.peers, who@) {
                        old(self).inner@.peers.update(
                            rank(old(self).inner@.peers, who@),
                            (who@, PeerState::AwaitingPeers),
                        )
                    } else {
                        old(self).inner@.peers.insert(
                            rank(old(self).inner@.peers, who@),
                            (who@, PeerState::AwaitingPeers),
                        )
                    },
                    ..old(self).inner@
                };
                final(self).inner@ == added.with_local_state(PeerState::AwaitingPeers)
            }),
    {
        if roles != ROLE_AUTHORITY {
            return;
        }
        self.inner.add_peer(who.duplicate());
        self.inner.set_local_awaiting_peers();
    }

    /// A peer disconnected: it is forgotten, and when fewer peers than
    /// players remain the key generation is canceled.
    pub fn peer_disconnected(&mut self, who: &PeerId)
        requires
            old(self).inner.wf(),
        ensures
            final(self).inner.wf(),
            ({
                let removed = InnerView {
                    peers: if holds(old(self).inner@.peers, who@) {
                        old(self).inner@.peers.remove(rank(old(self).inner@.peers, who@))
                    } else {
                        old(self).inner@.peers
                    },
                    ..old(self).inner@
                };
                if removed.peers.len() < removed.config.players {
                    final(self).inner@ == removed.with_local_state(PeerState::Canceled)
                } else {
                    final(self).inner@ == removed
                }
            }),
    {
        self.inner.del_peer(who);
        let players = self.inner.config.players as usize;
        if self.inner.get_peers_len() < players {
            self.inner.set_local_canceled();
        }
    }

    /// A received message is processed and kept when it decodes, and
    /// dropped otherwise.
    pub fn validate(&self, decoded: Option<&GossipMessage>) -> (r: ValidationDecision)
        ensures
            decoded is Some ==> r == ValidationDecision::ProcessAndKeep,
            decoded is None ==> r == ValidationDecision::Discard,
    {
        match decoded {
            Some(_) => ValidationDecision::ProcessAndKeep,
            None => ValidationDecision::Discard,
        }
    }

    /// Starts a round of `message_allowed` decisions at `now_ms`: whether
    /// periodic rebroadcasts go in this round.
    pub fn start_allowed_round(&mut self, now_ms: u64) -> (r: bool)
        requires
            now_ms <= u64::MAX - REBROADCAST_AFTER_MS,
        ensures
            (r, final(self).inner@) == rebroadcast_round(old(self).inner@, now_ms),
    {
        self.inner.poll_rebroadcast(now_ms)
    }

    /// Whether a message may be gossiped to a peer.
    pub fn message_allowed(
        &self,
        do_rebroadcast: bool,
        intent: MessageIntent,
        decoded: Option<&GossipMessage>,
    ) -> (r: bool)
        ensures
            r == spec_message_allowed(
                self.inner@,
                do_rebroadcast,
                intent,
                match decoded {
                    Some(m) => Some(m@),
                    None => None,
                },
            ),
    {
        if intent == MessageIntent::PeriodicRebroadcast {
            return do_rebroadcast;
        }
        let players = self.inner.config.players as usize;
        if self.inner.get_peers_len() < players {
            return true;
        }
        match decoded {
            None => false,
            Some(gossip_msg) => {
                let cur_hash = self.inner.get_peers_hash();
                let all_peers_hash = gossip_msg.get_peers_hash();
                let is_awaiting_peers = self.inner.is_local_awaiting_peers();
                let is_generating = self.inner.is_local_generating();
                match gossip_msg {
                    GossipMessage::ConfirmPeers(_, _) => is_awaiting_peers && cur_hash
                        == all_peers_hash,
                    GossipMessage::KeyGen(_, _) => (is_awaiting_peers || is_generating) && cur_hash
                        == all_peers_hash,
                    GossipMessage::SigGen(_, _) => true,
                }
            },
        }
    }

    /// Whether a stored message has expired.
    pub fn message_expired(&self, decoded: Option<&GossipMessage>) -> (r: bool)
        ensures
            r == spec_message_expired(
                self.inner@,
                match decoded {
                    Some(m) => Some(m@),
                    None => None,
                },
            ),
    {
        let is_complete = self.inner.is_local_complete();
        let is_canceled = self.inner.is_local_canceled();
        if is_complete || is_canceled {
            return true;
        }
        let players = self.inner.config.players as usize;
        if self.inner.get_peers_len() < players {
            return false;
        }
        match decoded {
            None => true,
            Some(gossip_msg) => {
                let cur_hash = self.inner.get_peers_hash();
                let all_peers_hash = gossip_msg.get_peers_hash();
                match gossip_msg {
                    GossipMessage::ConfirmPeers(cpm, _) => {
                        let from = cpm.get_index() as usize;
                        let sender_id = self.inner.get_peer_id_by_index(from);
                        if sender_id.is_none() {
                            return true;
                        }
                        let is_awaiting_peers = self.inner.is_local_awaiting_peers();
                        !is_awaiting_peers || is_canceled || cur_hash != all_peers_hash
                    },
                    GossipMessage::KeyGen(kgm, _) => {
                        let from_index = kgm.get_index() as usize;
                        let sender_id = self.inner.get_peer_id_by_index(from_index);
                        sender_id.is_none() || cur_hash != all_peers_hash
                    },
                    GossipMessage::SigGen(_, _) => false,
                }
            },
        }
    }
}

} // verus!
