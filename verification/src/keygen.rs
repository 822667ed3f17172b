use std::collections::{BTreeMap, VecDeque};
use vstd::prelude::*;
use vstd::std_specs::iter::IteratorSpec;

use crate::ecdsa::{
    broadcast_commitment, construct_keypair, create_keys, decommit_decodes, decommit_point,
    decommit_point_of,
    distribute_shares,
    dlog_proof_verifies, shared_public_key, shared_public_key_of, verify_dlog_proofs, LocalKey,
    byte_seqs, commit_checkable, commits_checkable, dealing_accepted, decommit_opens,
    key_public_share_of, keypair_of, share_valid, vss_checkable,
    vsss_checkable,
};
use crate::mpc_gossip::{peers_hash, Inner, InnerView, NodeConfig};
use crate::mpc_message::{
    ConfirmPeersMessage, GossipEra, GossipMessage, GossipMessageView, KeyGenMessage,
    KeyGenMessageView,
};
use crate::mpc_peer::{
    holds, ids_of, lemma_set_state_keeps_ids, rank, sorted_ids, PeerEntry, PeerId, PeerIndex,
    PeerState,
};

verus! {

broadcast use vstd::std_specs::btree::group_btree_axioms;

/// A map of serialized protocol values, taken by view.
pub open spec fn bytes_map(m: Map<u16, Vec<u8>>) -> Map<u16, Seq<u8>> {
    m.map_values(|v: Vec<u8>| v@)
}

/// Whether `p` holds of every value of `m`.
pub open spec fn all_values(m: Map<u16, Seq<u8>>, p: spec_fn(Seq<u8>) -> bool) -> bool {
    forall|k: u16| #[trigger] m.contains_key(k) ==> p(m[k])
}

/// Whether `x` is the view of one of the values of `m`.
pub open spec fn value_in(m: Map<u16, Vec<u8>>, x: Seq<u8>) -> bool {
    exists|k: u16| m.contains_key(k) && #[trigger] m[k]@ == x
}

/// Whether `r` lists the values of `m`: each entry is a value of `m` and
/// each value of `m` is an entry.
#[verifier::opaque]
pub open spec fn lists_values(m: Map<u16, Vec<u8>>, r: Seq<Vec<u8>>) -> bool {
    &&& forall|i: int| 0 <= i < r.len() ==> value_in(m, #[trigger] r[i]@)
    &&& forall|k: u16| #![trigger m[k]]
        m.contains_key(k) ==> exists|i: int| 0 <= i < r.len() && r[i]@ == m[k]@
}

/// Whether the keys of `ks` strictly increase.
pub open spec fn increasing_keys(ks: Seq<u16>) -> bool {
    forall|i: int, j: int| 0 <= i < j < ks.len() ==> ks[i] < ks[j]
}

/// The keys of `m` in increasing order.
pub open spec fn key_order<V>(m: Map<u16, V>) -> Seq<u16> {
    choose|ks: Seq<u16>| increasing_keys(ks) && ks.to_set() == m.dom()
}

/// The values of `m` in increasing order of their keys.
pub open spec fn in_key_order(m: Map<u16, Seq<u8>>) -> Seq<Seq<u8>> {
    key_order(m).map_values(|k: u16| m[k])
}

/// Two increasing sequences of the same keys are the same.
proof fn lemma_increasing_unique(a: Seq<u16>, b: Seq<u16>)
    requires
        increasing_keys(a),
        increasing_keys(b),
        a.to_set() == b.to_set(),
    ensures
        a == b,
    decreases a.len(),
{
    if a.len() == 0 {
        if b.len() > 0 {
            assert(b.to_set().contains(b[0]));
        }
        assert(a =~= b);
    } else if b.len() == 0 {
        assert(a.to_set().contains(a[0]));
    } else {
        assert(a.to_set().contains(a[0]));
        assert(b.to_set().contains(b[0]));
        let j = choose|j: int| 0 <= j < b.len() && b[j] == a[0];
        let k = choose|k: int| 0 <= k < a.len() && a[k] == b[0];
        assert(a[0] == b[0]) by {
            if j > 0 {
                assert(b[0] < b[j]);
            }
            if k > 0 {
                assert(a[0] < a[k]);
            }
        }
        let a1 = a.drop_first();
        let b1 = b.drop_first();
        assert forall|x: u16| a1.to_set().contains(x) == b1.to_set().contains(x) by {
            if a1.to_set().contains(x) {
                let i = choose|i: int| 0 <= i < a1.len() && a1[i] == x;
                assert(a[i + 1] == x && a[0] < x);
                assert(b.to_set().contains(x));
                let m = choose|m: int| 0 <= m < b.len() && b[m] == x;
                assert(m > 0);
                assert(b1[m - 1] == x);
            }
            if b1.to_set().contains(x) {
                let i = choose|i: int| 0 <= i < b1.len() && b1[i] == x;
                assert(b[i + 1] == x && b[0] < x);
                assert(a.to_set().contains(x));
                let m = choose|m: int| 0 <= m < a.len() && a[m] == x;
                assert(m > 0);
                assert(a1[m - 1] == x);
            }
        }
        assert(a1.to_set() =~= b1.to_set());
        lemma_increasing_unique(a1, b1);
        assert(a =~= seq![a[0]] + a1);
        assert(b =~= seq![b[0]] + b1);
    }
}

/// The values of `m` in increasing order of their keys.
fn values_of(m: &BTreeMap<u16, Vec<u8>>) -> (r: Vec<Vec<u8>>)
    ensures
        r@.len() == (*m)@.len(),
        lists_values((*m)@, r@),
        byte_seqs(r@) == in_key_order(bytes_map((*m)@)),
{
    broadcast use vstd::laws_cmp::group_laws_cmp;

    let mut out: Vec<Vec<u8>> = Vec::new();
    let entries = m.iter();
    proof {
        assert(vstd::std_specs::btree::key_obeys_cmp_spec::<u16>());
        assert(vstd::std_specs::btree::increasing_seq(
            vstd::std_specs::btree::spec_btree_map_iter(m).remaining().map_values(
                |kv: (&u16, &Vec<u8>)| *kv.0,
            ),
        ));
    }
    for (k, v) in it: entries
        invariant
            out@.len() == it.index@,
            it.seq() == vstd::std_specs::btree::spec_btree_map_iter(m).remaining(),
            forall|i: int| 0 <= i < out@.len() ==> out@[i]@ == (*it.seq()[i].1)@,
    {
        out.push(v.clone());
    }
    proof {
        let v = vstd::std_specs::btree::spec_btree_map_iter(m).remaining();
        assert forall|i: int| 0 <= i < out@.len() implies value_in((*m)@, #[trigger] out@[i]@) by {
            assert((*m)@.contains_key(*v[i].0));
            assert((*m)@[*v[i].0]@ == out@[i]@);
        }
        assert forall|k: u16| #![trigger (*m)@[k]] (*m)@.contains_key(k) implies exists|i: int|
            0 <= i < out@.len() && out@[i]@ == (*m)@[k]@ by {
            assert(v.contains((&k, &(*m)@[k])));
            let i = choose|i: int| 0 <= i < v.len() && v[i] == (&k, &(*m)@[k]);
            assert(out@[i]@ == (*m)@[k]@);
            assert(0 <= i < out@.len());
        }
        reveal(lists_values);
        let ks = v.map_values(|kv: (&u16, &Vec<u8>)| *kv.0);
        let bm = bytes_map((*m)@);
        assert(vstd::std_specs::btree::increasing_seq(ks));
        assert forall|i: int, j: int| 0 <= i < j < ks.len() implies ks[i] < ks[j] by {
            assert(vstd::std_specs::cmp::OrdSpec::cmp_spec(&ks[i], &ks[j]) is Less);
        }
        assert(increasing_keys(ks));
        assert forall|x: u16| ks.to_set().contains(x) == bm.dom().contains(x) by {
            if ks.to_set().contains(x) {
                let i = choose|i: int| 0 <= i < ks.len() && ks[i] == x;
                assert((*m)@.contains_key(*v[i].0));
            }
            if bm.dom().contains(x) {
                assert(v.contains((&x, &(*m)@[x])));
                let i = choose|i: int| 0 <= i < v.len() && v[i] == (&x, &(*m)@[x]);
                assert(ks[i] == x);
            }
        }
        assert(ks.to_set() =~= bm.dom());
        lemma_increasing_unique(key_order(bm), ks);
        assert(byte_seqs(out@) =~= in_key_order(bm)) by {
            assert forall|i: int| 0 <= i < out@.len() implies byte_seqs(out@)[i] == in_key_order(bm)[i] by {
                assert((*m)@.contains_key(*v[i].0));
                assert((*m)@[*v[i].0] == *v[i].1);
            }
        }
    }
    out
}

/// A list that holds exactly the values of `m` satisfies `p` everywhere
/// exactly when every value of `m` does.
proof fn lemma_values_all(m: Map<u16, Vec<u8>>, r: Seq<Vec<u8>>, p: spec_fn(Seq<u8>) -> bool)
    requires
        lists_values(m, r),
    ensures
        (forall|i: int| 0 <= i < r.len() ==> p(#[trigger] r[i]@)) == all_values(bytes_map(m), p),
{
    reveal(lists_values);
    if forall|i: int| 0 <= i < r.len() ==> p(#[trigger] r[i]@) {
        assert forall|k: u16| #[trigger] bytes_map(m).contains_key(k) implies p(bytes_map(m)[k]) by {
            assert(m.contains_key(k));
            let i = choose|i: int| 0 <= i < r.len() && r[i]@ == m[k]@;
            assert(p(r[i]@));
        }
    }
    if all_values(bytes_map(m), p) {
        assert forall|i: int| 0 <= i < r.len() implies p(#[trigger] r[i]@) by {
            assert(value_in(m, r[i]@));
            let k = choose|k: u16| m.contains_key(k) && #[trigger] m[k]@ == r[i]@;
            assert(bytes_map(m).contains_key(k));
            assert(p(bytes_map(m)[k]));
        }
    }
}

/// The public share of every decommitment, in order; none when one is no
/// decommitment.
fn decommit_points(decommits: &Vec<Vec<u8>>) -> (r: Option<Vec<Vec<u8>>>)
    ensures
        match r {
            Some(p) => {
                &&& p@.len() == decommits@.len()
                &&& forall|i: int|
                    0 <= i < decommits@.len() ==> decommit_decodes(#[trigger] decommits@[i]@)
                        && decommit_point_of(decommits@[i]@) == Some(p@[i]@)
            },
            None => exists|i: int|
                0 <= i < decommits@.len() && !decommit_decodes(#[trigger] decommits@[i]@),
        },
{
    let mut out: Vec<Vec<u8>> = Vec::new();
    let n = decommits.len();
    for i in 0..n
        invariant
            n == decommits@.len(),
            out@.len() == i,
            forall|j: int|
                0 <= j < i ==> decommit_decodes(#[trigger] decommits@[j]@)
                    && decommit_point_of(decommits@[j]@) == Some(out@[j]@),
    {
        match decommit_point(decommits[i].as_slice()) {
            Some(p) => out.push(p),
            None => {
                assert(!decommit_decodes(decommits@[i as int]@));
                return None;
            },
        }
    }
    Some(out)
}

/// Where a party stands in a key generation: the request, whether it is
/// complete, its own key, and what it has received from every party.
#[derive(Debug)]
pub struct KeyGenState {
    pub req_id: u64,
    pub complete: bool,
    pub local_key: Option<LocalKey>,
    pub commits: BTreeMap<PeerIndex, Vec<u8>>,
    pub decommits: BTreeMap<PeerIndex, Vec<u8>>,
    pub vsss: BTreeMap<PeerIndex, Vec<u8>>,
    pub secret_shares: BTreeMap<PeerIndex, Vec<u8>>,
    pub proofs: BTreeMap<PeerIndex, Vec<u8>>,
    pub shared_keys: Option<Vec<u8>>,
}

/// A key generation state taken by view.
pub struct KeyGenStateView {
    pub req_id: u64,
    pub complete: bool,
    pub local_key: Option<(u16, Seq<u8>)>,
    pub commits: Map<u16, Seq<u8>>,
    pub decommits: Map<u16, Seq<u8>>,
    pub vsss: Map<u16, Seq<u8>>,
    pub secret_shares: Map<u16, Seq<u8>>,
    pub proofs: Map<u16, Seq<u8>>,
    pub shared_keys: Option<Seq<u8>>,
}

impl View for KeyGenState {
    type V = KeyGenStateView;

    open spec fn view(&self) -> KeyGenStateView {
        KeyGenStateView {
            req_id: self.req_id,
            complete: self.complete,
            local_key: match self.local_key {
                Some(k) => Some(k@),
                None => None,
            },
            commits: bytes_map(self.commits@),
            decommits: bytes_map(self.decommits@),
            vsss: bytes_map(self.vsss@),
            secret_shares: bytes_map(self.secret_shares@),
            proofs: bytes_map(self.proofs@),
            shared_keys: match self.shared_keys {
                Some(s) => Some(s@),
                None => None,
            },
        }
    }
}

/// The state of a key generation that has not started.
pub open spec fn initial_keygen_view() -> KeyGenStateView {
    KeyGenStateView {
        req_id: 0,
        complete: false,
        local_key: None,
        commits: Map::empty(),
        decommits: Map::empty(),
        vsss: Map::empty(),
        secret_shares: Map::empty(),
        proofs: Map::empty(),
        shared_keys: None,
    }
}

impl KeyGenStateView {
    /// The index of the party's own key, if it has one.
    pub open spec fn key_index(self) -> u16 {
        match self.local_key {
            Some(k) => k.0,
            None => 0,
        }
    }

    /// Commitments and decommitments always come in pairs, there are none
    /// before the party has its key, and the key's index leaves room for the
    /// index counted from one.
    pub open spec fn wf(self) -> bool {
        &&& self.commits.dom() == self.decommits.dom()
        &&& self.commits.len() > 0 ==> self.local_key is Some
        &&& self.local_key matches Some(k) ==> k.0 < u16::MAX
    }
}

impl KeyGenState {
    /// A key generation that has not started.
    pub fn default() -> (r: KeyGenState)
        ensures
            r@ == initial_keygen_view(),
    {
        let r = KeyGenState {
            req_id: 0,
            complete: false,
            local_key: None,
            commits: BTreeMap::new(),
            decommits: BTreeMap::new(),
            vsss: BTreeMap::new(),
            secret_shares: BTreeMap::new(),
            proofs: BTreeMap::new(),
            shared_keys: None,
        };
        assert(r@.commits =~= Map::<u16, Seq<u8>>::empty());
        assert(r@.decommits =~= Map::<u16, Seq<u8>>::empty());
        assert(r@.vsss =~= Map::<u16, Seq<u8>>::empty());
        assert(r@.secret_shares =~= Map::<u16, Seq<u8>>::empty());
        assert(r@.proofs =~= Map::<u16, Seq<u8>>::empty());
        r
    }

    /// Starts over from a key generation that has not started.
    pub fn reset(&mut self)
        ensures
            final(self)@ == initial_keygen_view(),
    {
        *self = KeyGenState::default();
    }

    /// The uncompressed shared public key, once the shared keys exist.
    pub fn shared_public_key(&self) -> (r: Option<Vec<u8>>)
        ensures
            match self@.shared_keys {
                Some(sk) => match r {
                    Some(pk) => shared_public_key_of(sk) == Some(pk@),
                    None => shared_public_key_of(sk) is None,
                },
                None => r is None,
            },
    {
        match &self.shared_keys {
            Some(sk) => shared_public_key(sk),
            None => None,
        }
    }
}

/// A message to send, and to whom: `None` broadcasts it.
pub type OutItem = (GossipMessageView, Option<Seq<u8>>);

/// The receiver of an outgoing message, taken by view.
pub open spec fn receiver_view(to: Option<PeerId>) -> Option<Seq<u8>> {
    match to {
        Some(p) => Some(p@),
        None => None,
    }
}

/// The messages waiting to be sent, oldest first.
pub struct Outbox {
    buffer: VecDeque<(GossipMessage, Option<PeerId>)>,
}

impl View for Outbox {
    type V = Seq<OutItem>;

    closed spec fn view(&self) -> Seq<OutItem> {
        self.buffer@.map_values(
            |e: (GossipMessage, Option<PeerId>)| (e.0@, receiver_view(e.1)),
        )
    }
}

impl Outbox {
    pub fn new() -> (r: Outbox)
        ensures
            r@ == Seq::<OutItem>::empty(),
    {
        let r = Outbox { buffer: VecDeque::new() };
        assert(r@ =~= Seq::<OutItem>::empty());
        r
    }

    pub fn is_empty(&self) -> (r: bool)
        ensures
            r == (self@.len() == 0),
    {
        self.buffer.len() == 0
    }

    pub fn len(&self) -> (r: usize)
        ensures
            r == self@.len(),
    {
        self.buffer.len()
    }

    /// Queues a message; the queue must be flushed afterwards.
    pub fn push(&mut self, msg: GossipMessage, to: Option<PeerId>)
        ensures
            final(self)@ == old(self)@.push((msg@, receiver_view(to))),
    {
        let ghost item = (msg@, receiver_view(to));
        self.buffer.push_back((msg, to));
        assert(self@ =~= old(self)@.push(item));
    }

    /// Takes the oldest message out.
    pub fn pop_front(&mut self) -> (r: Option<(GossipMessage, Option<PeerId>)>)
        ensures
            old(self)@.len() == 0 ==> r is None && final(self)@ == old(self)@,
            old(self)@.len() > 0 ==> (r matches Some(e) && (e.0@, receiver_view(e.1))
                == old(self)@[0] && final(self)@ == old(self)@.drop_first()),
    {
        let r = self.buffer.pop_front();
        assert(self@ =~= old(self)@.drop_first() || old(self)@.len() == 0);
        if r.is_none() {
            assert(self@ =~= old(self)@);
        }
        r
    }

    /// Puts a message back as the oldest.
    pub fn push_front(&mut self, msg: GossipMessage, to: Option<PeerId>)
        ensures
            final(self)@ == seq![(msg@, receiver_view(to))] + old(self)@,
    {
        let ghost item = (msg@, receiver_view(to));
        self.buffer.push_front((msg, to));
        assert(self@ =~= seq![item] + old(self)@);
    }
}

/// The secret-share messages of a dealing: for every party `i` below `k`
/// other than the dealer, its share addressed to the peer at index `i`.
pub open spec fn share_messages(
    index: u16,
    shares: Seq<Seq<u8>>,
    peers: Seq<PeerEntry>,
    ge: GossipEra,
    k: nat,
) -> Seq<OutItem>
    decreases k,
{
    if k == 0 {
        Seq::empty()
    } else {
        let i = k - 1;
        let prev = share_messages(index, shares, peers, ge, i as nat);
        if i == index {
            prev
        } else {
            prev.push(
                (
                    GossipMessageView::KeyGen(KeyGenMessageView::SecretShare(index, shares[i]), ge),
                    if i < peers.len() {
                        Some(peers[i].0)
                    } else {
                        None
                    },
                ),
            )
        }
    }
}

/// The key generation driver of a node: what it has queued to send and the
/// edge detector that asks for a rebuild when messages turn from accepted
/// to refused or back.
pub struct Signer {
    pub global_out: Outbox,
    pub should_rebuild: bool,
    pub last_message_ok: bool,
}

/// One step of the edge detector: the new `(last_message_ok,
/// should_rebuild, changed)` after a message handled with outcome `is_ok`.
/// Once a batch has changed `should_rebuild`, the rest of it is ignored.
pub open spec fn spec_observe(last_ok: bool, should_rebuild: bool, changed: bool, is_ok: bool) -> (
    bool,
    bool,
    bool,
) {
    if changed {
        (last_ok, should_rebuild, changed)
    } else {
        let flip = last_ok != is_ok;
        if should_rebuild != flip {
            (is_ok, flip, true)
        } else {
            (is_ok, should_rebuild, false)
        }
    }
}

impl Signer {
    pub fn new() -> (r: Signer)
        ensures
            r.global_out@ == Seq::<OutItem>::empty(),
            !r.should_rebuild,
            r.last_message_ok,
    {
        Signer { global_out: Outbox::new(), should_rebuild: false, last_message_ok: true }
    }

    /// Feeds the outcome of one handled message to the edge detector and
    /// returns whether the batch has changed `should_rebuild`.
    pub fn observe(&mut self, changed: bool, is_ok: bool) -> (r: bool)
        ensures
            (final(self).last_message_ok, final(self).should_rebuild, r) == spec_observe(
                old(self).last_message_ok,
                old(self).should_rebuild,
                changed,
                is_ok,
            ),
            final(self).global_out@ == old(self).global_out@,
    {
        if changed {
            return true;
        }
        let should_rebuild = self.last_message_ok ^ is_ok;
        self.last_message_ok = is_ok;
        if self.should_rebuild != should_rebuild {
            self.should_rebuild = should_rebuild;
            true
        } else {
            false
        }
    }

    /// Records the party's own key, commitment and decommitment at `index`,
    /// moves the node to generating, and broadcasts them.
    pub fn install_local_key(
        &mut self,
        state: &mut KeyGenState,
        validator: &mut Inner,
        index: PeerIndex,
        key: LocalKey,
        commit: Vec<u8>,
        decommit: Vec<u8>,
        ge: GossipEra,
    )
        requires
            old(validator).wf(),
        ensures
            final(validator).wf(),
            final(state)@ == (KeyGenStateView {
                local_key: Some(key@),
                commits: old(state)@.commits.insert(index, commit@),
                decommits: old(state)@.decommits.insert(index, decommit@),
                ..old(state)@
            }),
            final(validator)@ == old(validator)@.with_local_state(PeerState::Generating),
            final(self).global_out@ == old(self).global_out@.push(
                (
                    GossipMessageView::KeyGen(
                        KeyGenMessageView::CommitAndDecommit(index, commit@, decommit@),
                        ge,
                    ),
                    None,
                ),
            ),
            final(self).should_rebuild == old(self).should_rebuild,
            final(self).last_message_ok == old(self).last_message_ok,
    {
        let c2 = commit.clone();
        let d2 = decommit.clone();
        state.commits.insert(index, commit);
        state.decommits.insert(index, decommit);
        state.local_key = Some(key);
        validator.set_local_generating();
        self.global_out.push(
            GossipMessage::KeyGen(KeyGenMessage::CommitAndDecommit(index, c2, d2), ge),
            None,
        );
        assert(state@.commits =~= old(state)@.commits.insert(index, c2@));
        assert(state@.decommits =~= old(state)@.decommits.insert(index, d2@));
    }

    /// Handles a confirmation message from `sender`: a node asked to
    /// confirm answers it with its own index; a confirmation marks the
    /// sender as generating and, once every player is present and the node
    /// has no key yet, creates the node's key and broadcasts its commitment.
    pub fn handle_cpm(
        &mut self,
        config: &NodeConfig,
        state: &mut KeyGenState,
        validator: &mut Inner,
        cpm: ConfirmPeersMessage,
        sender: PeerId,
        ge: GossipEra,
    ) -> (r: bool)
        requires
            old(validator).wf(),
            old(validator)@.knows_itself(),
            old(validator)@.config == *config,
            old(state)@.wf(),
        ensures
            r,
            final(validator).wf(),
            final(state)@.wf(),
            final(validator)@.config == *config,
            final(self).should_rebuild == old(self).should_rebuild,
            final(self).last_message_ok == old(self).last_message_ok,
            cpm_step(
                *config,
                old(state)@,
                old(validator)@,
                old(self).global_out@,
                cpm,
                sender@,
                ge,
                final(state)@,
                final(validator)@,
                final(self).global_out@,
            ),
    {
        let players = config.players;
        match cpm {
            ConfirmPeersMessage::Confirming(_) => {
                let our_index = validator.get_local_index() as PeerIndex;
                self.global_out.push(
                    GossipMessage::ConfirmPeers(ConfirmPeersMessage::Confirmed(our_index), ge),
                    Some(sender),
                );
            },
            ConfirmPeersMessage::Confirmed(_) => {
                if state.local_key.is_some() {
                    return true;
                }
                validator.set_peer_generating(&sender);
                proof {
                    crate::mpc_peer::lemma_set_state_keeps_ids(
                        old(validator)@.peers,
                        sender@,
                        PeerState::Generating,
                        old(validator)@.local_id,
                    );
                }
                if validator.get_peers_len() == players as usize {
                    let local_index = validator.get_local_index();
                    proof {
                        crate::mpc_peer::lemma_rank_finds(validator@.peers, validator@.local_id);
                    }
                    let index = local_index as PeerIndex;
                    match create_keys(index) {
                        Some(key) => match broadcast_commitment(&key) {
                            Some((commit, decommit)) => {
                                self.install_local_key(
                                    state,
                                    validator,
                                    index,
                                    key,
                                    commit,
                                    decommit,
                                    ge,
                                );
                            },
                            None => {},
                        },
                        None => {},
                    }
                }
            },
        }
        true
    }

    /// Records a dealing of the party at `index`: its scheme and its own
    /// share, and sends the scheme to everyone and every other share to the
    /// peer at that share's index.
    pub fn apply_dealing(
        &mut self,
        state: &mut KeyGenState,
        validator: &Inner,
        index: PeerIndex,
        vss: Vec<u8>,
        shares: Vec<Vec<u8>>,
        ge: GossipEra,
    )
        requires
            index < shares@.len(),
        ensures
            final(state)@ == (KeyGenStateView {
                vsss: old(state)@.vsss.insert(index, vss@),
                secret_shares: old(state)@.secret_shares.insert(index, shares@[index as int]@),
                ..old(state)@
            }),
            final(self).global_out@ == dealing_messages(
                old(self).global_out@,
                index,
                vss@,
                shares@.map_values(|v: Vec<u8>| v@),
                validator@.peers,
                ge,
            ),
            final(self).should_rebuild == old(self).should_rebuild,
            final(self).last_message_ok == old(self).last_message_ok,
    {
        let ghost sv = shares@.map_values(|v: Vec<u8>| v@);
        let own = shares[index as usize].clone();
        let vss2 = vss.clone();
        state.vsss.insert(index, vss);
        state.secret_shares.insert(index, own);
        assert(state@.vsss =~= old(state)@.vsss.insert(index, vss2@));
        assert(state@.secret_shares =~= old(state)@.secret_shares.insert(index, sv[index as int]));
        self.global_out.push(GossipMessage::KeyGen(KeyGenMessage::VSS(index, vss2), ge), None);
        let ghost base = self.global_out@;
        let ghost sr = self.should_rebuild;
        let ghost lo = self.last_message_ok;
        let n = shares.len();
        for i in 0..n
            invariant
                n == shares@.len(),
                self.should_rebuild == sr,
                self.last_message_ok == lo,
                sv == shares@.map_values(|v: Vec<u8>| v@),
                self.global_out@ == base + share_messages(index, sv, validator@.peers, ge, i as nat),
        {
            if i != index as usize {
                let ss = shares[i].clone();
                let peer = validator.get_peer_id_by_index(i);
                self.global_out.push(
                    GossipMessage::KeyGen(KeyGenMessage::SecretShare(index, ss), ge),
                    peer,
                );
                assert(self.global_out@ =~= base + share_messages(
                    index,
                    sv,
                    validator@.peers,
                    ge,
                    (i + 1) as nat,
                ));
            } else {
                assert(share_messages(index, sv, validator@.peers, ge, (i + 1) as nat)
                    == share_messages(index, sv, validator@.peers, ge, i as nat));
            }
        }
    }
    /// Handles a key generation message.
    pub fn handle_kgm(
        &mut self,
        config: &NodeConfig,
        state: &mut KeyGenState,
        validator: &mut Inner,
        kgm: KeyGenMessage,
        ge: GossipEra,
    ) -> (r: bool)
        requires
            old(validator).wf(),
            old(validator)@.config == *config,
            old(state)@.wf(),
        ensures
            final(validator).wf(),
            final(validator)@.config == *config,
            final(state)@.wf(),
            final(self).should_rebuild == old(self).should_rebuild,
            final(self).last_message_ok == old(self).last_message_ok,
            kgm_step(
                *config,
                old(state)@,
                old(validator)@,
                old(self).global_out@,
                kgm@,
                ge,
                final(state)@,
                final(validator)@,
                final(self).global_out@,
                r,
            ),
    {
        let players = config.players;
        match kgm {
            KeyGenMessage::CommitAndDecommit(from_index, commit, decommit) => {
                if state.local_key.is_none() {
                    return false;
                }
                if state.commits.contains_key(&from_index) {
                    return true;
                }
                let ghost cv = commit@;
                let ghost dv = decommit@;
                state.commits.insert(from_index, commit);
                state.decommits.insert(from_index, decommit);
                let ghost sa = state@;
                assert(sa.commits =~= old(state)@.commits.insert(from_index, cv));
                assert(sa.decommits =~= old(state)@.decommits.insert(from_index, dv));
                assert(sa == (KeyGenStateView {
                    commits: old(state)@.commits.insert(from_index, cv),
                    decommits: old(state)@.decommits.insert(from_index, dv),
                    ..old(state)@
                }));
                let index = match &state.local_key {
                    Some(k) => k.party_index(),
                    None => 0,
                };
                assert(state.decommits@.dom() =~= state@.decommits.dom());
                assert(state.commits@.dom() =~= state@.commits.dom());
                if state.vsss.contains_key(&index) {
                    return true;
                }
                if state.commits.len() == players as usize && config.threshold < players {
                    let commits = values_of(&state.commits);
                    let decommits = values_of(&state.decommits);
                    let ghost cs = in_key_order(sa.commits);
                    if commits_checkable(&commits) {
                        assert forall|j: int| 0 <= j < cs.len() implies commit_checkable(
                            #[trigger] cs[j],
                        ) by {
                            assert(cs[j] == byte_seqs(commits@)[j]);
                        }
                        let params = config.get_params();
                        let dealt = match &state.local_key {
                            Some(k) => distribute_shares(k, params, &decommits, &commits),
                            None => None,
                        };
                        match dealt {
                            Some((vss, shares, idx)) => {
                                if (idx as usize) < shares.len() {
                                    let ghost vv = vss@;
                                    let ghost sv = shares@.map_values(|v: Vec<u8>| v@);
                                    self.apply_dealing(state, validator, idx, vss, shares, ge);
                                    assert(dealing_messages(
                                        old(self).global_out@,
                                        index,
                                        vv,
                                        sv,
                                        old(validator)@.peers,
                                        ge,
                                    ) == self.global_out@);
                                    assert(sv.len() == config.players);
                                    assert(state@ == (KeyGenStateView {
                                        vsss: sa.vsss.insert(index, vv),
                                        secret_shares: sa.secret_shares.insert(index, sv[index as int]),
                                        ..sa
                                    }));
                                } else {
                                    assert(!deals(*config, sa));
                                }
                            },
                            None => {
                                assert(!deals(*config, sa));
                            },
                        }
                    } else {
                        let ghost i = choose|i: int|
                            0 <= i < commits@.len() && !commit_checkable(#[trigger] commits@[i]@);
                        assert(cs[i] == byte_seqs(commits@)[i]);
                        assert(!deals(*config, sa));
                    }
                } else {
                    assert(!deals(*config, sa));
                }
                true
            },
            KeyGenMessage::VSS(from_index, vss) => {
                if state.vsss.contains_key(&from_index) {
                    return true;
                }
                let ghost vv = vss@;
                state.vsss.insert(from_index, vss);
                assert(state@.vsss =~= old(state)@.vsss.insert(from_index, vv));
                true
            },
            KeyGenMessage::SecretShare(from_index, ss) => {
                if state.secret_shares.contains_key(&from_index) {
                    return true;
                }
                let ghost xv = ss@;
                state.secret_shares.insert(from_index, ss);
                assert(state@.secret_shares =~= old(state)@.secret_shares.insert(from_index, xv));
                true
            },
            KeyGenMessage::Proof(from_index, proof) => {
                let ghost pv = proof@;
                state.proofs.insert(from_index, proof);
                assert(state@.proofs =~= old(state)@.proofs.insert(from_index, pv));
                Self::check_proofs(config, state, validator);
                true
            },
        }
    }
    /// Handles a message received from `sender` (`None` when it came from
    /// the node itself): confirmations need a sender; key generation
    /// messages are ignored once the key generation is complete or
    /// canceled; signing messages are ignored.
    pub fn handle_incoming(
        &mut self,
        config: &NodeConfig,
        state: &mut KeyGenState,
        validator: &mut Inner,
        msg: GossipMessage,
        sender: Option<PeerId>,
    ) -> (r: bool)
        requires
            old(validator).wf(),
            old(validator)@.config == *config,
            old(validator)@.knows_itself(),
            old(state)@.wf(),
        ensures
            final(validator).wf(),
            final(validator)@.config == *config,
            final(validator)@.knows_itself(),
            final(state)@.wf(),
            final(self).should_rebuild == old(self).should_rebuild,
            final(self).last_message_ok == old(self).last_message_ok,
            incoming_step(
                *config,
                old(state)@,
                old(validator)@,
                old(self).global_out@,
                msg@,
                receiver_view(sender),
                final(state)@,
                final(validator)@,
                final(self).global_out@,
                r,
            ),
    {
        let ghost mv = msg@;
        let ghost sv = receiver_view(sender);
        let r = match msg {
            GossipMessage::ConfirmPeers(cpm, ge) => {
                match sender {
                    None => false,
                    Some(who) => self.handle_cpm(config, state, validator, cpm, who, ge),
                }
            },
            GossipMessage::KeyGen(kgm, ge) => {
                if validator.is_local_complete() || validator.is_local_canceled() {
                    true
                } else {
                    self.handle_kgm(config, state, validator, kgm, ge)
                }
            },
            GossipMessage::SigGen(_, _) => true,
        };
        proof {
            lemma_incoming_keeps_ids(
                *config,
                old(state)@,
                old(validator)@,
                old(self).global_out@,
                mv,
                sv,
                state@,
                validator@,
                self.global_out@,
                r,
            );
            crate::mpc_peer::lemma_same_ids(
                old(validator)@.peers,
                validator@.peers,
                validator@.local_id,
            );
        }
        r
    }

    /// Once the party holds a scheme, a share and a decommitment from every
    /// player, constructs its shared keys and broadcasts the proof of its
    /// share; asks for a rebuild when the shared keys exist and every proof
    /// has arrived without the key generation completing.
    pub fn generate_shared_keys(
        &mut self,
        config: &NodeConfig,
        state: &mut KeyGenState,
        validator: &Inner,
    )
        requires
            validator.wf(),
            validator@.config == *config,
            old(state)@.wf(),
        ensures
            final(self).last_message_ok == old(self).last_message_ok,
            final(state)@.wf(),
            gen_step(
                *config,
                old(state)@,
                validator@,
                old(self).global_out@,
                old(self).should_rebuild,
                final(state)@,
                final(self).global_out@,
                final(self).should_rebuild,
            ),
    {
        let players = config.players as usize;
        assert(state@.vsss.dom() =~= state.vsss@.dom());
        assert(state@.secret_shares.dom() =~= state.secret_shares@.dom());
        assert(state@.decommits.dom() =~= state.decommits@.dom());
        assert(state@.proofs.dom() =~= state.proofs@.dom());
        if state.complete || state.vsss.len() != players || state.secret_shares.len() != players
            || state.decommits.len() != players {
            return;
        }
        if state.shared_keys.is_some() {
            if state.proofs.len() == players {
                self.should_rebuild = true;
            }
            return;
        }
        let index = match &state.local_key {
            Some(k) => k.party_index(),
            None => {
                return;
            },
        };
        let vsss = values_of(&state.vsss);
        let secret_shares = values_of(&state.secret_shares);
        let decommits = values_of(&state.decommits);
        let ghost vs = in_key_order(state@.vsss);
        let ghost ds = in_key_order(state@.decommits);
        if !vsss_checkable(&vsss) {
            proof {
                let i = choose|i: int| 0 <= i < vsss@.len() && !vss_checkable(#[trigger] vsss@[i]@);
                assert(vs[i] == byte_seqs(vsss@)[i]);
            }
            return;
        }
        assert forall|j: int| 0 <= j < vs.len() implies vss_checkable(#[trigger] vs[j]) by {
            assert(vs[j] == byte_seqs(vsss@)[j]);
        }
        let points = match decommit_points(&decommits) {
            Some(p) => p,
            None => {
                proof {
                    let i = choose|i: int|
                        0 <= i < decommits@.len() && !decommit_decodes(#[trigger] decommits@[i]@);
                    assert(ds[i] == byte_seqs(decommits@)[i]);
                }
                return;
            },
        };
        proof {
            assert forall|j: int| 0 <= j < ds.len() implies decommit_decodes(#[trigger] ds[j]) by {
                assert(ds[j] == byte_seqs(decommits@)[j]);
            }
            assert(byte_seqs(points@) =~= ds.map_values(|d: Seq<u8>| decommit_point_of(d)->0)) by {
                assert forall|j: int| 0 <= j < ds.len() implies byte_seqs(points@)[j]
                    == ds.map_values(|d: Seq<u8>| decommit_point_of(d)->0)[j] by {
                    assert(ds[j] == byte_seqs(decommits@)[j]);
                }
            }
        }
        let req_id = state.req_id;
        let res = match &state.local_key {
            Some(k) => construct_keypair(
                k,
                config.threshold,
                config.players,
                &points,
                &secret_shares,
                &vsss,
                index + 1,
            ),
            None => None,
        };
        match res {
            Some((shared_keys, proof)) => {
                let ghost pv = proof@;
                let sent = proof.clone();
                state.proofs.insert(index, proof);
                state.shared_keys = Some(shared_keys);
                assert(state@.proofs =~= old(state)@.proofs.insert(index, pv));
                let peers_hash = validator.get_peers_hash();
                let ge = GossipEra { req_id, peers_hash };
                self.global_out.push(GossipMessage::KeyGen(KeyGenMessage::Proof(index, sent), ge), None);
                assert(old(state)@.proofs.insert(index, pv) == state@.proofs);
            },
            None => {},
        }
    }

    /// One poll of the key generation: handles the messages that have
    /// arrived, in order, feeding each outcome to the edge detector, then
    /// tries to generate the shared keys. Returns whether a rebuild is asked
    /// for; the queued messages are left for the caller to send.
    pub fn process_batch(
        &mut self,
        config: &NodeConfig,
        state: &mut KeyGenState,
        validator: &mut Inner,
        batch: Vec<(GossipMessage, Option<PeerId>)>,
    ) -> (r: bool)
        requires
            old(validator).wf(),
            old(validator)@.config == *config,
            old(validator)@.knows_itself(),
            old(state)@.wf(),
        ensures
            final(validator).wf(),
            final(validator)@.knows_itself(),
            final(state)@.wf(),
            r == final(self).should_rebuild,
            exists|ss: Seq<KeyGenStateView>, vs: Seq<InnerView>, os: Seq<Seq<OutItem>>, rs: Seq<bool>|
                {
                    let n = batch@.len() as int;
                    let (lo, rb, _) = observe_all(
                        old(self).last_message_ok,
                        old(self).should_rebuild,
                        false,
                        rs,
                    );
                    &&& #[trigger] batch_run(
                        *config,
                        batch_view(batch@),
                        ss,
                        vs,
                        os,
                        rs,
                    )
                    &&& ss[0] == old(state)@
                    &&& vs[0] == old(validator)@
                    &&& os[0] == old(self).global_out@
                    &&& final(validator)@ == vs[n]
                    &&& final(self).last_message_ok == lo
                    &&& gen_step(
                        *config,
                        ss[n],
                        vs[n],
                        os[n],
                        rb,
                        final(state)@,
                        final(self).global_out@,
                        final(self).should_rebuild,
                    )
                },
    {
        let ghost msgs = batch_view(batch@);
        let ghost mut ss: Seq<KeyGenStateView> = seq![state@];
        let ghost mut vs: Seq<InnerView> = seq![validator@];
        let ghost mut os: Seq<Seq<OutItem>> = seq![self.global_out@];
        let ghost mut rs: Seq<bool> = Seq::empty();
        let ghost lo0 = self.last_message_ok;
        let ghost rb0 = self.should_rebuild;
        let mut batch = batch;
        let mut changed = false;
        let mut i: usize = 0;
        let n = batch.len();
        while batch.len() > 0
            invariant
                validator.wf(),
                validator@.config == *config,
                validator@.knows_itself(),
                state@.wf(),
                i + batch@.len() == n,
                n == msgs.len(),
                forall|j: int| 0 <= j < batch@.len() ==> (batch@[j].0@, receiver_view(batch@[j].1))
                    == #[trigger] msgs[i + j],
                ss.len() == i + 1,
                vs.len() == i + 1,
                os.len() == i + 1,
                rs.len() == i,
                ss[0] == old(state)@,
                vs[0] == old(validator)@,
                os[0] == old(self).global_out@,
                ss[i as int] == state@,
                vs[i as int] == validator@,
                os[i as int] == self.global_out@,
                batch_run(*config, msgs.take(i as int), ss, vs, os, rs),
                (self.last_message_ok, self.should_rebuild, changed) == observe_all(lo0, rb0, false, rs),
            decreases batch@.len(),
        {
            let ghost first = batch@[0];
            assert((first.0@, receiver_view(first.1)) == msgs[i + 0]);
            let (msg, sender) = batch.remove(0);
            let ghost m = (msg@, receiver_view(sender));
            assert(m == msgs[i as int]);
            let is_ok = self.handle_incoming(config, state, validator, msg, sender);
            proof {
                let ghost prev = rs;
                ss = ss.push(state@);
                vs = vs.push(validator@);
                os = os.push(self.global_out@);
                rs = rs.push(is_ok);
                assert(msgs.take(i + 1) =~= msgs.take(i as int).push(m));
                assert(rs.drop_last() =~= prev);
                lemma_batch_run_push(*config, msgs.take(i as int), m, ss, vs, os, rs);
                assert forall|j: int| 0 <= j < batch@.len() implies (batch@[j].0@, receiver_view(batch@[j].1))
                    == #[trigger] msgs[(i + 1) + j] by {
                    assert(msgs[(i + 1) + j] == msgs[i + (j + 1)]);
                }
            }
            changed = self.observe(changed, is_ok);
            i = i + 1;
        }
        assert(msgs.take(n as int) =~= msgs);
        let ghost sn = state@;
        let ghost on = self.global_out@;
        self.generate_shared_keys(config, state, validator);
        proof {
            assert(batch_run(*config, msgs, ss, vs, os, rs));
        }
        self.should_rebuild
    }

    /// Once every player has proved, completes the key generation when all
    /// proofs verify, and starts it over, canceled, when not.
    fn check_proofs(config: &NodeConfig, state: &mut KeyGenState, validator: &mut Inner)
        requires
            old(validator).wf(),
        ensures
            final(validator).wf(),
            final(validator)@.config == old(validator)@.config,
            ({
                let sa = old(state)@;
                if sa.proofs.len() == config.players && sa.decommits.len() == config.players {
                    if all_values(sa.proofs, |x: Seq<u8>| dlog_proof_verifies(x)) && all_values(
                        sa.decommits,
                        |x: Seq<u8>| decommit_decodes(x),
                    ) {
                        final(state)@ == (KeyGenStateView { complete: true, ..sa })
                            && final(validator)@ == old(validator)@.with_local_state(
                            PeerState::Complete,
                        )
                    } else {
                        final(state)@ == initial_keygen_view() && final(validator)@ == old(
                            validator,
                        )@.with_local_state(PeerState::Canceled)
                    }
                } else {
                    final(state)@ == sa && final(validator)@ == old(validator)@
                }
            }),
    {
        let players = config.players;
        assert(state@.proofs.dom() =~= state.proofs@.dom());
        assert(state@.decommits.dom() =~= state.decommits@.dom());
        if state.proofs.len() == players as usize && state.decommits.len() == players as usize {
            let params = config.get_params();
            let all_proofs = values_of(&state.proofs);
            let points = values_of(&state.decommits);
            proof {
                lemma_values_all(state.proofs@, all_proofs@, |x: Seq<u8>| dlog_proof_verifies(x));
                lemma_values_all(state.decommits@, points@, |x: Seq<u8>| decommit_decodes(x));
                assert((forall|i: int| 0 <= i < all_proofs@.len() ==> dlog_proof_verifies(#[trigger] all_proofs@[i]@)) == all_values(state@.proofs, |x: Seq<u8>| dlog_proof_verifies(x)));
            }
            if verify_dlog_proofs(params, &all_proofs, &points) {
                state.complete = true;
                validator.set_local_complete();
            } else {
                state.reset();
                validator.set_local_canceled();
            }
        }
    }
}

/// The outgoing queue after a dealing of the party at `index`: the scheme
/// broadcast, then every other party's share addressed to it.
pub open spec fn dealing_messages(
    out: Seq<OutItem>,
    index: u16,
    vss: Seq<u8>,
    shares: Seq<Seq<u8>>,
    peers: Seq<PeerEntry>,
    ge: GossipEra,
) -> Seq<OutItem> {
    out.push((GossipMessageView::KeyGen(KeyGenMessageView::VSS(index, vss), ge), None))
        + share_messages(index, shares, peers, ge, shares.len())
}

/// Whether a node with key generation state `s`, having just recorded a
/// commitment, deals its secret: it has not dealt yet, every player has
/// committed, the threshold is below the number of players, every
/// commitment can be checked, the dealing accepts the key, decommitments and
/// commitments in key order, and the key's index is a player's.
pub open spec fn deals(config: NodeConfig, s: KeyGenStateView) -> bool {
    let idx = s.key_index();
    let cs = in_key_order(s.commits);
    &&& s.local_key is Some
    &&& !s.vsss.contains_key(idx)
    &&& s.commits.len() == config.players
    &&& config.threshold < config.players
    &&& forall|j: int| 0 <= j < cs.len() ==> commit_checkable(#[trigger] cs[j])
    &&& dealing_accepted(
        (s.local_key->0).1,
        config.threshold,
        config.players,
        in_key_order(s.decommits),
        cs,
    )
    &&& idx < config.players
}

/// How a key generation message changes a node: from `(s0, v0, o0)` to
/// `(s1, v1, o1)`, answering `r`. A commitment is refused before the node
/// has a key and ignored when known; once every player has committed, the
/// node deals its secret exactly when `deals` holds. A scheme or a share is
/// kept unless one is known from its sender. A proof is kept, and once
/// every player has proved, the key generation completes when all proofs
/// verify and starts over, canceled, when not.
pub open spec fn kgm_step(
    config: NodeConfig,
    s0: KeyGenStateView,
    v0: InnerView,
    o0: Seq<OutItem>,
    kgm: KeyGenMessageView,
    ge: GossipEra,
    s1: KeyGenStateView,
    v1: InnerView,
    o1: Seq<OutItem>,
    r: bool,
) -> bool {
    match kgm {
        KeyGenMessageView::CommitAndDecommit(from, c, d) => {
            if s0.local_key is None {
                !r && s1 == s0 && v1 == v0 && o1 == o0
            } else if s0.commits.contains_key(from) {
                r && s1 == s0 && v1 == v0 && o1 == o0
            } else {
                let sa = KeyGenStateView {
                    commits: s0.commits.insert(from, c),
                    decommits: s0.decommits.insert(from, d),
                    ..s0
                };
                let idx = s0.key_index();
                &&& r
                &&& v1 == v0
                &&& if deals(config, sa) {
                    exists|vss: Seq<u8>, shares: Seq<Seq<u8>>|
                        {
                            &&& shares.len() == config.players
                            &&& forall|j: int|
                                0 <= j < shares.len() ==> share_valid(
                                    vss,
                                    #[trigger] shares[j],
                                    (j + 1) as u16,
                                )
                            &&& s1 == (KeyGenStateView {
                                vsss: sa.vsss.insert(idx, vss),
                                secret_shares: sa.secret_shares.insert(idx, shares[idx as int]),
                                ..sa
                            })
                            &&& o1 == #[trigger] dealing_messages(o0, idx, vss, shares, v0.peers, ge)
                        }
                } else {
                    s1 == sa && o1 == o0
                }
            }
        },
        KeyGenMessageView::VSS(from, v) => {
            &&& r
            &&& v1 == v0
            &&& o1 == o0
            &&& s1 == if s0.vsss.contains_key(from) {
                s0
            } else {
                KeyGenStateView { vsss: s0.vsss.insert(from, v), ..s0 }
            }
        },
        KeyGenMessageView::SecretShare(from, x) => {
            &&& r
            &&& v1 == v0
            &&& o1 == o0
            &&& s1 == if s0.secret_shares.contains_key(from) {
                s0
            } else {
                KeyGenStateView { secret_shares: s0.secret_shares.insert(from, x), ..s0 }
            }
        },
        KeyGenMessageView::Proof(from, p) => {
            let sa = KeyGenStateView { proofs: s0.proofs.insert(from, p), ..s0 };
            &&& r
            &&& o1 == o0
            &&& if sa.proofs.len() == config.players && sa.decommits.len() == config.players {
                if all_values(sa.proofs, |x: Seq<u8>| dlog_proof_verifies(x)) && all_values(
                    sa.decommits,
                    |x: Seq<u8>| decommit_decodes(x),
                ) {
                    s1 == (KeyGenStateView { complete: true, ..sa }) && v1 == v0.with_local_state(
                        PeerState::Complete,
                    )
                } else {
                    s1 == initial_keygen_view() && v1 == v0.with_local_state(PeerState::Canceled)
                }
            } else {
                s1 == sa && v1 == v0
            }
        },
    }
}

/// A batch of received messages, each with its sender, taken by view.
pub open spec fn batch_view(batch: Seq<(GossipMessage, Option<PeerId>)>) -> Seq<
    (GossipMessageView, Option<Seq<u8>>),
> {
    batch.map_values(|e: (GossipMessage, Option<PeerId>)| (e.0@, receiver_view(e.1)))
}

/// The edge detector run over the outcomes of a batch, from `(last_ok,
/// should_rebuild, changed)`.
pub open spec fn observe_all(last_ok: bool, should_rebuild: bool, changed: bool, outcomes: Seq<bool>) -> (
    bool,
    bool,
    bool,
)
    decreases outcomes.len(),
{
    if outcomes.len() == 0 {
        (last_ok, should_rebuild, changed)
    } else {
        let (a, b, c) = observe_all(last_ok, should_rebuild, changed, outcomes.drop_last());
        spec_observe(a, b, c, outcomes.last())
    }
}

/// Whether handling the messages `msgs` in order took a node through the
/// states `ss`, gossip layers `vs` and queues `os`, answering `rs`.
pub open spec fn batch_run(
    config: NodeConfig,
    msgs: Seq<(GossipMessageView, Option<Seq<u8>>)>,
    ss: Seq<KeyGenStateView>,
    vs: Seq<InnerView>,
    os: Seq<Seq<OutItem>>,
    rs: Seq<bool>,
) -> bool {
    &&& ss.len() == msgs.len() + 1
    &&& vs.len() == msgs.len() + 1
    &&& os.len() == msgs.len() + 1
    &&& rs.len() == msgs.len()
    &&& forall|j: int|
        0 <= j < msgs.len() ==> incoming_step(
            config,
            ss[j],
            vs[j],
            os[j],
            (#[trigger] msgs[j]).0,
            msgs[j].1,
            ss[j + 1],
            vs[j + 1],
            os[j + 1],
            rs[j],
        )
}

/// A run extended by one more handled message is a run.
proof fn lemma_batch_run_push(
    config: NodeConfig,
    msgs: Seq<(GossipMessageView, Option<Seq<u8>>)>,
    m: (GossipMessageView, Option<Seq<u8>>),
    ss: Seq<KeyGenStateView>,
    vs: Seq<InnerView>,
    os: Seq<Seq<OutItem>>,
    rs: Seq<bool>,
)
    requires
        ss.len() == msgs.len() + 2,
        vs.len() == msgs.len() + 2,
        os.len() == msgs.len() + 2,
        rs.len() == msgs.len() + 1,
        batch_run(config, msgs, ss.drop_last(), vs.drop_last(), os.drop_last(), rs.drop_last()),
        incoming_step(
            config,
            ss[msgs.len() as int],
            vs[msgs.len() as int],
            os[msgs.len() as int],
            m.0,
            m.1,
            ss[msgs.len() as int + 1],
            vs[msgs.len() as int + 1],
            os[msgs.len() as int + 1],
            rs[msgs.len() as int],
        ),
    ensures
        batch_run(config, msgs.push(m), ss, vs, os, rs),
{
    let t = msgs.push(m);
    assert forall|j: int| 0 <= j < t.len() implies incoming_step(
        config,
        ss[j],
        vs[j],
        os[j],
        (#[trigger] t[j]).0,
        t[j].1,
        ss[j + 1],
        vs[j + 1],
        os[j + 1],
        rs[j],
    ) by {
        if j < msgs.len() {
            assert(t[j] == msgs[j]);
            assert(ss.drop_last()[j] == ss[j] && ss.drop_last()[j + 1] == ss[j + 1]);
            assert(vs.drop_last()[j] == vs[j] && vs.drop_last()[j + 1] == vs[j + 1]);
            assert(os.drop_last()[j] == os[j] && os.drop_last()[j + 1] == os[j + 1]);
            assert(rs.drop_last()[j] == rs[j]);
        }
    }
}

/// How a received message changes a node.
pub open spec fn incoming_step(
    config: NodeConfig,
    s0: KeyGenStateView,
    v0: InnerView,
    o0: Seq<OutItem>,
    msg: GossipMessageView,
    sender: Option<Seq<u8>>,
    s1: KeyGenStateView,
    v1: InnerView,
    o1: Seq<OutItem>,
    r: bool,
) -> bool {
    match msg {
        GossipMessageView::ConfirmPeers(c, ge) => match sender {
            None => !r && s1 == s0 && v1 == v0 && o1 == o0,
            Some(p) => r && cpm_step(config, s0, v0, o0, c, p, ge, s1, v1, o1),
        },
        GossipMessageView::KeyGen(k, ge) => {
            if v0.local_state == PeerState::Complete || v0.local_state == PeerState::Canceled {
                r && s1 == s0 && v1 == v0 && o1 == o0
            } else {
                kgm_step(config, s0, v0, o0, k, ge, s1, v1, o1, r)
            }
        },
        GossipMessageView::SigGen(_, _) => r && s1 == s0 && v1 == v0 && o1 == o0,
    }
}

/// How generating the party's shared keys changes it: from `(s0, o0,
/// rebuild0)` to `(s1, o1, rebuild1)`, the gossip layer `v` unchanged. Once
/// every scheme, share and decommitment is there and no shared keys exist,
/// the keys of `constructed_keys` are stored with a proof of the party's
/// share, and the proof is broadcast; nothing changes when there are none.
pub open spec fn gen_step(
    config: NodeConfig,
    s0: KeyGenStateView,
    v: InnerView,
    o0: Seq<OutItem>,
    rebuild0: bool,
    s1: KeyGenStateView,
    o1: Seq<OutItem>,
    rebuild1: bool,
) -> bool {
    if s0.complete || s0.vsss.len() != config.players || s0.secret_shares.len() != config.players
        || s0.decommits.len() != config.players {
        s1 == s0 && o1 == o0 && rebuild1 == rebuild0
    } else if s0.shared_keys is Some {
        &&& s1 == s0
        &&& o1 == o0
        &&& rebuild1 == (rebuild0 || s0.proofs.len() == config.players)
    } else if s0.local_key is None {
        s1 == s0 && o1 == o0 && rebuild1 == rebuild0
    } else {
        let i = s0.key_index();
        &&& rebuild1 == rebuild0
        &&& match constructed_keys(config, s0) {
            None => s1 == s0 && o1 == o0,
            Some(sk) => exists|p: Seq<u8>|
                #![trigger s0.proofs.insert(i, p)]
                {
                    &&& dlog_proof_verifies(p)
                    &&& s1 == (KeyGenStateView {
                        proofs: s0.proofs.insert(i, p),
                        shared_keys: Some(sk),
                        ..s0
                    })
                    &&& o1 == o0.push(
                        (
                            GossipMessageView::KeyGen(
                                KeyGenMessageView::Proof(i, p),
                                GossipEra { req_id: s0.req_id, peers_hash: peers_hash(v.peers) },
                            ),
                            None,
                        ),
                    )
                },
        }
    }
}

/// The shared keys the party constructs from state `s`: when every scheme
/// can be checked and every decommitment decodes, what the construction
/// gives for the party's key, the public shares of the decommitments, the
/// secret shares and the schemes, each in key order, and the party's index
/// counted from one; none otherwise.
pub open spec fn constructed_keys(config: NodeConfig, s: KeyGenStateView) -> Option<Seq<u8>> {
    let vs = in_key_order(s.vsss);
    let ds = in_key_order(s.decommits);
    if (forall|j: int| 0 <= j < vs.len() ==> vss_checkable(#[trigger] vs[j])) && (forall|j: int|
        0 <= j < ds.len() ==> decommit_decodes(#[trigger] ds[j])) {
        keypair_of(
            (s.local_key->0).1,
            config.threshold,
            config.players,
            ds.map_values(|d: Seq<u8>| decommit_point_of(d)->0),
            in_key_order(s.secret_shares),
            vs,
            (s.key_index() + 1) as u16,
        )
    } else {
        None
    }
}

/// Handling a message leaves the node's identity and the ids of its peers
/// as they were.
pub proof fn lemma_incoming_keeps_ids(
    config: NodeConfig,
    s0: KeyGenStateView,
    v0: InnerView,
    o0: Seq<OutItem>,
    msg: GossipMessageView,
    sender: Option<Seq<u8>>,
    s1: KeyGenStateView,
    v1: InnerView,
    o1: Seq<OutItem>,
    r: bool,
)
    requires
        sorted_ids(v0.peers),
        incoming_step(config, s0, v0, o0, msg, sender, s1, v1, o1, r),
    ensures
        v1.local_id == v0.local_id,
        ids_of(v1.peers) == ids_of(v0.peers),
        sorted_ids(v1.peers),
{
    let vg = InnerView {
        peers: v0.peers_with_state(
            match sender {
                Some(p) => p,
                None => Seq::empty(),
            },
            PeerState::Generating,
        ),
        ..v0
    };
    lemma_set_state_keeps_ids(
        v0.peers,
        match sender {
            Some(p) => p,
            None => Seq::empty(),
        },
        PeerState::Generating,
        v0.local_id,
    );
    lemma_set_state_keeps_ids(vg.peers, vg.local_id, PeerState::Generating, v0.local_id);
    lemma_set_state_keeps_ids(v0.peers, v0.local_id, PeerState::Complete, v0.local_id);
    lemma_set_state_keeps_ids(v0.peers, v0.local_id, PeerState::Canceled, v0.local_id);
}

/// How a confirmation message from `sender` changes a node: from `(s0, v0,
/// o0)` to `(s1, v1, o1)`.
pub open spec fn cpm_step(
    config: NodeConfig,
    s0: KeyGenStateView,
    v0: InnerView,
    o0: Seq<OutItem>,
    cpm: ConfirmPeersMessage,
    sender: Seq<u8>,
    ge: GossipEra,
    s1: KeyGenStateView,
    v1: InnerView,
    o1: Seq<OutItem>,
) -> bool {
    let my_index = rank(v0.peers, v0.local_id) as u16;
    match cpm {
        ConfirmPeersMessage::Confirming(_) => {
            &&& s1 == s0
            &&& v1 == v0
            &&& o1 == o0.push(
                (
                    GossipMessageView::ConfirmPeers(ConfirmPeersMessage::Confirmed(my_index), ge),
                    Some(sender),
                ),
            )
        },
        ConfirmPeersMessage::Confirmed(_) => {
            let vg = InnerView {
                peers: v0.peers_with_state(sender, PeerState::Generating),
                ..v0
            };
            if s0.local_key is Some {
                &&& s1 == s0
                &&& v1 == v0
                &&& o1 == o0
            } else if vg.peers.len() != config.players {
                &&& s1 == s0
                &&& v1 == vg
                &&& o1 == o0
            } else {
                let idx = rank(vg.peers, vg.local_id) as u16;
                let c = s1.commits[idx];
                let d = s1.decommits[idx];
                &&& (s1.local_key matches Some(k) && k.0 == idx)
                &&& decommit_opens(c, d)
                &&& (s1.local_key matches Some(k) && decommit_point_of(d) == Some(
                    key_public_share_of(k.1),
                ))
                &&& s1 == (KeyGenStateView {
                    local_key: s1.local_key,
                    commits: s0.commits.insert(idx, c),
                    decommits: s0.decommits.insert(idx, d),
                    ..s0
                })
                &&& v1 == vg.with_local_state(PeerState::Generating)
                &&& o1 == o0.push(
                    (
                        GossipMessageView::KeyGen(
                            KeyGenMessageView::CommitAndDecommit(idx, c, d),
                            ge,
                        ),
                        None,
                    ),
                )
            }
        },
    }
}

} // verus!
