use vstd::prelude::*;

use crate::keygen::{
    all_values, gen_step, incoming_step, kgm_step, observe_all, initial_keygen_view, KeyGenStateView,
    OutItem,
};
use crate::ecdsa::{decommit_decodes, dlog_proof_verifies};
use crate::mpc_gossip::{
    peers_hash, rebroadcast_round, spec_message_allowed, spec_message_expired, InnerView,
    MessageIntent, NodeConfig, REBROADCAST_AFTER_MS,
};
use crate::mpc_message::{GossipEra, GossipMessageView, KeyGenMessageView};
use crate::bytes::{lemma_seq_lt_total, lemma_seq_lt_transitive, seq_lt};
use crate::mpc_peer::{
    holds, ids_of, lemma_same_ids, rank, sorted_ids, PeerEntry, PeerState,
};

verus! {

/// The peer at a known peer's index is that peer.
pub proof fn law_peer_index_roundtrip(s: Seq<PeerEntry>, who: Seq<u8>)
    requires
        sorted_ids(s),
        holds(s, who),
    ensures
        0 <= rank(s, who) < s.len(),
        s[rank(s, who)].0 == who,
{
    crate::mpc_peer::lemma_rank_finds(s, who);
    crate::mpc_peer::lemma_rank_splits(s, who);
}

/// Nodes that know the same peers give every peer the same index and
/// compute the same peer-set hash, whatever states they hold.
pub proof fn law_same_peers_same_indices(s: Seq<PeerEntry>, t: Seq<PeerEntry>, who: Seq<u8>)
    requires
        ids_of(s) == ids_of(t),
    ensures
        rank(s, who) == rank(t, who),
        holds(s, who) == holds(t, who),
        peers_hash(s) == peers_hash(t),
{
    lemma_same_ids(s, t, who);
}

/// A peer that has been added is known.
pub proof fn law_added_peer_is_known(s: Seq<PeerEntry>, who: Seq<u8>)
    requires
        sorted_ids(s),
    ensures
        ({
            let t = if holds(s, who) {
                s.update(rank(s, who), (who, PeerState::AwaitingPeers))
            } else {
                s.insert(rank(s, who), (who, PeerState::AwaitingPeers))
            };
            holds(t, who)
        }),
{
    crate::mpc_peer::lemma_rank_splits(s, who);
    crate::mpc_peer::lemma_rank_finds(s, who);
    let t = if holds(s, who) {
        s.update(rank(s, who), (who, PeerState::AwaitingPeers))
    } else {
        s.insert(rank(s, who), (who, PeerState::AwaitingPeers))
    };
    assert(t[rank(s, who)].0 == who);
}

/// Adding a peer that is not known and deleting it again gives back the
/// table as it was: the new peer stands at its rank, and deleting removes
/// that very entry.
pub proof fn law_deleting_a_new_peer_undoes_adding_it(s: Seq<PeerEntry>, who: Seq<u8>)
    requires
        sorted_ids(s),
        !holds(s, who),
    ensures
        ({
            let t = s.insert(rank(s, who), (who, PeerState::AwaitingPeers));
            &&& sorted_ids(t)
            &&& holds(t, who)
            &&& rank(t, who) == rank(s, who)
            &&& t.remove(rank(t, who)) == s
        }),
{
    crate::mpc_peer::lemma_rank_splits(s, who);
    let k = rank(s, who);
    let t = s.insert(k, (who, PeerState::AwaitingPeers));
    assert forall|a: int, b: int| 0 <= a < b < t.len() implies seq_lt(
        #[trigger] t[a].0,
        #[trigger] t[b].0,
    ) by {
        if b < k {
            assert(t[a] == s[a] && t[b] == s[b]);
        } else if b == k {
            assert(t[a] == s[a]);
        } else {
            assert(t[b] == s[b - 1]);
            assert(s[b - 1].0 != who);
            lemma_seq_lt_total(s[b - 1].0, who);
            if a < k {
                assert(t[a] == s[a]);
                lemma_seq_lt_transitive(s[a].0, who, s[b - 1].0);
            } else if a > k {
                assert(t[a] == s[a - 1]);
            }
        }
    }
    assert(t[k].0 == who);
    crate::mpc_peer::lemma_rank_finds(t, who);
    assert(t.remove(k) =~= s);
}

/// A periodic rebroadcast is allowed at most once per rebroadcast period: a
/// round less than a period after a round that allowed one allows none.
pub proof fn law_rebroadcast_at_most_once_per_period(
    v0: InnerView,
    t1: u64,
    t2: u64,
    m1: Option<GossipMessageView>,
    m2: Option<GossipMessageView>,
)
    requires
        t1 <= u64::MAX - REBROADCAST_AFTER_MS,
        t1 <= t2,
        t2 < t1 + REBROADCAST_AFTER_MS,
    ensures
        ({
            let (d1, v1) = rebroadcast_round(v0, t1);
            let (d2, v2) = rebroadcast_round(v1, t2);
            !(spec_message_allowed(v1, d1, MessageIntent::PeriodicRebroadcast, m1)
                && spec_message_allowed(v2, d2, MessageIntent::PeriodicRebroadcast, m2))
        }),
{
}

/// With every player present, a confirmation or key generation message sent
/// for another peer set than the node's is never gossiped, except as a
/// periodic rebroadcast.
pub proof fn law_other_peer_set_is_not_gossiped(
    inner: InnerView,
    do_rebroadcast: bool,
    intent: MessageIntent,
    m: GossipMessageView,
)
    requires
        intent != MessageIntent::PeriodicRebroadcast,
        inner.peers.len() >= inner.config.players,
        m.era().peers_hash != peers_hash(inner.peers),
        !(m is SigGen),
    ensures
        !spec_message_allowed(inner, do_rebroadcast, intent, Some(m)),
{
}

/// With every player present, a stored confirmation or key generation
/// message sent for another peer set than the node's has expired.
pub proof fn law_other_peer_set_has_expired(inner: InnerView, m: GossipMessageView)
    requires
        inner.peers.len() >= inner.config.players,
        m.era().peers_hash != peers_hash(inner.peers),
        !(m is SigGen),
    ensures
        spec_message_expired(inner, Some(m)),
{
}

/// A key generation that holds every player's scheme, share, decommitment
/// and proof and its shared keys, yet is not complete, is stuck: generating
/// the shared keys asks for a rebuild and changes nothing else.
pub proof fn law_stuck_keygen_asks_for_rebuild(
    config: NodeConfig,
    v: InnerView,
    s0: KeyGenStateView,
    o0: Seq<OutItem>,
    b0: bool,
    s1: KeyGenStateView,
    o1: Seq<OutItem>,
    b1: bool,
)
    requires
        !s0.complete,
        s0.vsss.len() == config.players,
        s0.secret_shares.len() == config.players,
        s0.decommits.len() == config.players,
        s0.proofs.len() == config.players,
        s0.shared_keys is Some,
        gen_step(config, s0, v, o0, b0, s1, o1, b1),
    ensures
        b1,
        s1 == s0,
        o1 == o0,
{
}

/// Once the key generation is complete or canceled, every stored message
/// has expired.
pub proof fn law_settled_keygen_expires_everything(inner: InnerView, msg: Option<GossipMessageView>)
    requires
        inner.local_state == PeerState::Complete || inner.local_state == PeerState::Canceled,
    ensures
        spec_message_expired(inner, msg),
{
}

/// While peers are missing, every message that is not a periodic
/// rebroadcast may be gossiped, and no stored message expires unless the
/// key generation has settled.
pub proof fn law_missing_peers_let_everything_through(
    inner: InnerView,
    do_rebroadcast: bool,
    intent: MessageIntent,
    msg: Option<GossipMessageView>,
)
    requires
        inner.peers.len() < inner.config.players,
        intent != MessageIntent::PeriodicRebroadcast,
        inner.local_state != PeerState::Complete,
        inner.local_state != PeerState::Canceled,
    ensures
        spec_message_allowed(inner, do_rebroadcast, intent, msg),
        !spec_message_expired(inner, msg),
{
}

/// A settled key generation ignores key generation messages.
pub proof fn law_settled_keygen_ignores_messages(
    config: NodeConfig,
    s0: KeyGenStateView,
    v0: InnerView,
    o0: Seq<OutItem>,
    k: KeyGenMessageView,
    ge: GossipEra,
    sender: Option<Seq<u8>>,
    s1: KeyGenStateView,
    v1: InnerView,
    o1: Seq<OutItem>,
    r: bool,
)
    requires
        v0.local_state == PeerState::Complete || v0.local_state == PeerState::Canceled,
        incoming_step(config, s0, v0, o0, GossipMessageView::KeyGen(k, ge), sender, s1, v1, o1, r),
    ensures
        r,
        s1 == s0,
        v1 == v0,
        o1 == o0,
{
}

/// When the last proof arrives, the key generation settles: complete
/// exactly when every proof verifies (and every decommitment decodes),
/// canceled and started over otherwise.
pub proof fn law_last_proof_settles_keygen(
    config: NodeConfig,
    s0: KeyGenStateView,
    v0: InnerView,
    o0: Seq<OutItem>,
    from: u16,
    p: Seq<u8>,
    ge: GossipEra,
    s1: KeyGenStateView,
    v1: InnerView,
    o1: Seq<OutItem>,
    r: bool,
)
    requires
        kgm_step(config, s0, v0, o0, KeyGenMessageView::Proof(from, p), ge, s1, v1, o1, r),
        s0.proofs.insert(from, p).len() == config.players,
        s0.decommits.len() == config.players,
    ensures
        r,
        o1 == o0,
        (v1.local_state == PeerState::Complete) == (all_values(
            s0.proofs.insert(from, p),
            |x: Seq<u8>| dlog_proof_verifies(x),
        ) && all_values(s0.decommits, |x: Seq<u8>| decommit_decodes(x))),
        v1.local_state == PeerState::Complete ==> s1.complete,
        v1.local_state != PeerState::Complete ==> v1.local_state == PeerState::Canceled && s1
            == initial_keygen_view(),
{
}

/// Generating the shared keys twice in a row, with nothing handled in
/// between, changes the state and the queue at most once: the second call
/// adds no further proof.
pub proof fn law_shared_keys_are_generated_once(
    config: NodeConfig,
    v: InnerView,
    s0: KeyGenStateView,
    o0: Seq<OutItem>,
    b0: bool,
    s1: KeyGenStateView,
    o1: Seq<OutItem>,
    b1: bool,
    s2: KeyGenStateView,
    o2: Seq<OutItem>,
    b2: bool,
)
    requires
        gen_step(config, s0, v, o0, b0, s1, o1, b1),
        gen_step(config, s1, v, o1, b1, s2, o2, b2),
    ensures
        s2 == s1,
        o2 == o1,
{
}

/// A node whose messages are all accepted never asks for a rebuild.
pub proof fn law_steady_outcomes_never_rebuild(rs: Seq<bool>)
    requires
        forall|i: int| 0 <= i < rs.len() ==> #[trigger] rs[i],
    ensures
        observe_all(true, false, false, rs) == (true, false, false),
    decreases rs.len(),
{
    if rs.len() > 0 {
        law_steady_outcomes_never_rebuild(rs.drop_last());
    }
}

/// A refused message after accepted ones asks for a rebuild, and the rest
/// of its batch is ignored by the detector.
pub proof fn law_refusal_asks_for_rebuild(rs: Seq<bool>, tail: Seq<bool>)
    requires
        forall|i: int| 0 <= i < rs.len() ==> #[trigger] rs[i],
    ensures
        observe_all(true, false, false, rs.push(false) + tail) == (false, true, true),
    decreases tail.len(),
{
    law_steady_outcomes_never_rebuild(rs);
    if tail.len() == 0 {
        assert(rs.push(false) + tail =~= rs.push(false));
        assert(rs.push(false).drop_last() =~= rs);
    } else {
        law_refusal_asks_for_rebuild(rs, tail.drop_last());
        assert((rs.push(false) + tail).drop_last() =~= rs.push(false) + tail.drop_last());
    }
}

} // verus!
