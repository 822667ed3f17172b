use vstd::prelude::*;

use crate::bytes::{bytes_eq, bytes_lt, lemma_seq_lt_total, seq_lt};
use crate::scale::{decodes_to, frame, scale_bytes, unframe};

verus! {

/// Names whether `multihash` parses `bytes` as exactly one multihash with a
/// digest of at most 64 bytes.
pub uninterp spec fn multihash_accepts(bytes: Seq<u8>) -> bool;

/// Calls `multihash::Multihash::<64>::from_bytes`: whether the bytes are one
/// whole multihash.
#[verifier::external_body]
fn multihash_valid(bytes: &[u8]) -> (r: bool)
    ensures
        r == multihash_accepts(bytes@),
{
    multihash::Multihash::<64>::from_bytes(bytes).is_ok()
}

/// The identity of a consensus node: the multihash of its network key, held
/// as its bytes.
#[derive(Clone, Debug, PartialEq, Eq, Hash)]
pub struct NodeId {
    bytes: Vec<u8>,
}

impl View for NodeId {
    type V = Seq<u8>;

    closed spec fn view(&self) -> Seq<u8> {
        self.bytes@
    }
}

/// Whether `id` is the identity of a node.
pub open spec fn node_id_ok(id: Seq<u8>) -> bool {
    multihash_accepts(id)
}

/// What decoding an identity from `input` gives: the bytes framed at its
/// start when they are an identity; nothing when no bytes are framed there or
/// the framed bytes are no identity.
pub open spec fn node_id_decoding(input: Seq<u8>, r: Option<Seq<u8>>) -> bool {
    match r {
        Some(id) => decodes_to(input, Some(id)) && node_id_ok(id),
        None => decodes_to(input, None) || exists|v: Seq<u8>|
            #[trigger] decodes_to(input, Some(v)) && !node_id_ok(v),
    }
}

/// An identity decodes from its own encoding, also when more bytes follow.
pub proof fn law_node_id_decodes_from_its_encoding(
    id: Seq<u8>,
    rest: Seq<u8>,
    r: Option<Seq<u8>>,
)
    requires
        node_id_ok(id),
        id.len() <= u32::MAX,
        node_id_decoding(scale_bytes(id) + rest, r),
    ensures
        r == Some(id),
{
    let input = scale_bytes(id) + rest;
    match r {
        Some(w) => {},
        None => {
            if !decodes_to(input, None) {
                let v = choose|v: Seq<u8>| #[trigger] decodes_to(input, Some(v)) && !node_id_ok(v);
                assert(Some(v) == Some(id));
            }
        },
    }
}

impl NodeId {
    pub closed spec fn wf(&self) -> bool {
        multihash_accepts(self.bytes@)
    }

    /// The identity of the node with this network id, if its bytes are a
    /// multihash.
    pub fn from_peer_bytes(bytes: Vec<u8>) -> (r: Option<NodeId>)
        ensures
            match r {
                Some(id) => id@ == bytes@ && node_id_ok(bytes@),
                None => !node_id_ok(bytes@),
            },
    {
        if multihash_valid(bytes.as_slice()) {
            Some(NodeId { bytes })
        } else {
            None
        }
    }

    pub fn as_bytes(&self) -> (r: &[u8])
        ensures
            r@ == self@,
    {
        self.bytes.as_slice()
    }

    pub fn duplicate(&self) -> (r: NodeId)
        ensures
            r@ == self@,
    {
        NodeId { bytes: self.bytes.clone() }
    }

    /// Whether two identities are the same.
    pub fn same(&self, other: &NodeId) -> (r: bool)
        ensures
            r == (self@ == other@),
    {
        bytes_eq(self.bytes.as_slice(), other.bytes.as_slice())
    }

    /// Identities are ordered by their bytes.
    pub fn compare(&self, other: &NodeId) -> (r: core::cmp::Ordering)
        ensures
            seq_lt(self@, other@) ==> r == core::cmp::Ordering::Less,
            self@ == other@ ==> r == core::cmp::Ordering::Equal,
            seq_lt(other@, self@) ==> r == core::cmp::Ordering::Greater,
    {
        proof {
            lemma_seq_lt_total(self@, other@);
        }
        if bytes_lt(self.bytes.as_slice(), other.bytes.as_slice()) {
            core::cmp::Ordering::Less
        } else if bytes_eq(self.bytes.as_slice(), other.bytes.as_slice()) {
            core::cmp::Ordering::Equal
        } else {
            core::cmp::Ordering::Greater
        }
    }

    /// The SCALE encoding of the identity: its bytes, framed.
    pub fn encode(&self) -> (r: Vec<u8>)
        requires
            self@.len() <= u32::MAX,
        ensures
            r@ == scale_bytes(self@),
    {
        frame(self.bytes.as_slice())
    }

    /// The identity framed at the start of `input`, if it is one.
    pub fn decode(input: &[u8]) -> (r: Option<NodeId>)
        ensures
            node_id_decoding(
                input@,
                match r {
                    Some(id) => Some(id@),
                    None => None,
                },
            ),
    {
        let u = unframe(input);
        match u {
            Some(bytes) => {
                let ghost b = bytes@;
                assert(decodes_to(input@, Some(b)));
                NodeId::from_peer_bytes(bytes)
            },
            None => None,
        }
    }
}

/// The public key of a consensus node, held as its bytes.
pub type PublicKey = Vec<u8>;

/// How far a peer has come in joining the consensus.
#[derive(Debug)]
pub enum PeerPhase {
    Handshaking,
    PendingJoin { nid: NodeId, pk: PublicKey },
    EstablishedObserver { nid: NodeId, pk: PublicKey },
    EstablishedValidator { nid: NodeId, pk: PublicKey },
}

/// A phase taken by view.
pub enum PeerPhaseView {
    Handshaking,
    PendingJoin { nid: Seq<u8>, pk: Seq<u8> },
    EstablishedObserver { nid: Seq<u8>, pk: Seq<u8> },
    EstablishedValidator { nid: Seq<u8>, pk: Seq<u8> },
}

impl View for PeerPhase {
    type V = PeerPhaseView;

    open spec fn view(&self) -> PeerPhaseView {
        match self {
            PeerPhase::Handshaking => PeerPhaseView::Handshaking,
            PeerPhase::PendingJoin { nid, pk } => PeerPhaseView::PendingJoin { nid: nid@, pk: pk@ },
            PeerPhase::EstablishedObserver { nid, pk } => PeerPhaseView::EstablishedObserver {
                nid: nid@,
                pk: pk@,
            },
            PeerPhase::EstablishedValidator { nid, pk } => PeerPhaseView::EstablishedValidator {
                nid: nid@,
                pk: pk@,
            },
        }
    }
}

impl PeerPhaseView {
    /// The identity and key a peer has presented, if any.
    pub open spec fn identity(self) -> Option<(Seq<u8>, Seq<u8>)> {
        match self {
            PeerPhaseView::Handshaking => None,
            PeerPhaseView::PendingJoin { nid, pk } => Some((nid, pk)),
            PeerPhaseView::EstablishedObserver { nid, pk } => Some((nid, pk)),
            PeerPhaseView::EstablishedValidator { nid, pk } => Some((nid, pk)),
        }
    }
}

/// What a consensus node knows of a peer.
#[derive(Debug)]
pub struct PeerInfo {
    pub phase: PeerPhase,
}

impl PeerInfo {
    /// A peer that has just connected.
    pub fn default() -> (r: PeerInfo)
        ensures
            r.phase@ == PeerPhaseView::Handshaking,
    {
        PeerInfo { phase: PeerPhase::Handshaking }
    }

    pub fn new() -> (r: PeerInfo)
        ensures
            r.phase@ == PeerPhaseView::Handshaking,
    {
        Self::default()
    }

    /// A handshaking peer presents its identity and key and waits to join.
    pub fn to_pending(&mut self, peer_info: (NodeId, PublicKey))
        requires
            old(self).phase@ is Handshaking,
        ensures
            final(self).phase@ == (PeerPhaseView::PendingJoin {
                nid: peer_info.0@,
                pk: peer_info.1@,
            }),
    {
        self.phase = PeerPhase::PendingJoin { nid: peer_info.0, pk: peer_info.1 };
    }

    /// A pending peer joins as an observer.
    pub fn to_observer(&mut self)
        requires
            old(self).phase@ is PendingJoin,
        ensures
            final(self).phase@ == (PeerPhaseView::EstablishedObserver {
                nid: old(self).phase@->PendingJoin_nid,
                pk: old(self).phase@->PendingJoin_pk,
            }),
    {
        let next = match &self.phase {
            PeerPhase::PendingJoin { nid, pk } => PeerPhase::EstablishedObserver {
                nid: nid.duplicate(),
                pk: pk.clone(),
            },
            _ => PeerPhase::Handshaking,
        };
        self.phase = next;
    }

    /// A handshaking peer that presents its identity and key, or an
    /// observer, becomes a validator.
    pub fn to_validator(&mut self, peer_info: Option<(NodeId, PublicKey)>)
        requires
            (old(self).phase@ is Handshaking && peer_info is Some) || old(
                self,
            ).phase@ is EstablishedObserver,
        ensures
            old(self).phase@ is Handshaking ==> (peer_info matches Some(p) && final(self).phase@
                == (PeerPhaseView::EstablishedValidator { nid: p.0@, pk: p.1@ })),
            old(self).phase@ is EstablishedObserver ==> final(self).phase@ == (
            PeerPhaseView::EstablishedValidator {
                nid: old(self).phase@->EstablishedObserver_nid,
                pk: old(self).phase@->EstablishedObserver_pk,
            }),
    {
        let next = match &self.phase {
            PeerPhase::Handshaking => match peer_info {
                Some((nid, pk)) => PeerPhase::EstablishedValidator { nid, pk },
                None => PeerPhase::Handshaking,
            },
            PeerPhase::EstablishedObserver { nid, pk } => PeerPhase::EstablishedValidator {
                nid: nid.duplicate(),
                pk: pk.clone(),
            },
            _ => PeerPhase::Handshaking,
        };
        self.phase = next;
    }

    /// The identity the peer has presented, if any.
    pub fn node_id(&self) -> (r: Option<&NodeId>)
        ensures
            match self.phase@.identity() {
                Some((nid, _)) => r matches Some(n) && n@ == nid,
                None => r is None,
            },
    {
        match &self.phase {
            PeerPhase::Handshaking => None,
            PeerPhase::PendingJoin { nid, .. } => Some(nid),
            PeerPhase::EstablishedObserver { nid, .. } => Some(nid),
            PeerPhase::EstablishedValidator { nid, .. } => Some(nid),
        }
    }

    /// The key the peer has presented, if any.
    pub fn public_key(&self) -> (r: Option<&PublicKey>)
        ensures
            match self.phase@.identity() {
                Some((_, pk)) => r matches Some(k) && k@ == pk,
                None => r is None,
            },
    {
        match &self.phase {
            PeerPhase::Handshaking => None,
            PeerPhase::PendingJoin { pk, .. } => Some(pk),
            PeerPhase::EstablishedObserver { pk, .. } => Some(pk),
            PeerPhase::EstablishedValidator { pk, .. } => Some(pk),
        }
    }

    pub fn is_pending(&self) -> (r: bool)
        ensures
            r == self.phase@ is PendingJoin,
    {
        match &self.phase {
            PeerPhase::PendingJoin { .. } => true,
            _ => false,
        }
    }

    pub fn is_observer(&self) -> (r: bool)
        ensures
            r == self.phase@ is EstablishedObserver,
    {
        match &self.phase {
            PeerPhase::EstablishedObserver { .. } => true,
            _ => false,
        }
    }

    pub fn is_validator(&self) -> (r: bool)
        ensures
            r == self.phase@ is EstablishedValidator,
    {
        match &self.phase {
            PeerPhase::EstablishedValidator { .. } => true,
            _ => false,
        }
    }
}

/// Where `id` first stands in a table, or -1.
pub open spec fn find(s: Seq<(Seq<u8>, PeerPhaseView)>, id: Seq<u8>) -> int
    decreases s.len(),
{
    if s.len() == 0 {
        -1
    } else if find(s.drop_last(), id) >= 0 {
        find(s.drop_last(), id)
    } else if s.last().0 == id {
        s.len() - 1
    } else {
        -1
    }
}

/// Whether no id of a table occurs twice.
pub open spec fn unique_ids(s: Seq<(Seq<u8>, PeerPhaseView)>) -> bool {
    forall|i: int, j: int| 0 <= i < j < s.len() ==> #[trigger] s[i].0 != #[trigger] s[j].0
}

/// `find` gives the one place of an id, or -1 when it is absent.
proof fn lemma_find(s: Seq<(Seq<u8>, PeerPhaseView)>, id: Seq<u8>)
    requires
        unique_ids(s),
    ensures
        -1 <= find(s, id) < s.len(),
        find(s, id) >= 0 ==> s[find(s, id)].0 == id,
        find(s, id) == -1 ==> forall|j: int| 0 <= j < s.len() ==> #[trigger] s[j].0 != id,
        forall|j: int| 0 <= j < s.len() && #[trigger] s[j].0 == id ==> j == find(s, id),
    decreases s.len(),
{
    if s.len() > 0 {
        let t = s.drop_last();
        assert(unique_ids(t));
        lemma_find(t, id);
        assert forall|j: int| 0 <= j < s.len() && find(s, id) == -1 implies #[trigger] s[j].0 != id by {
            if j < t.len() {
                assert(t[j] == s[j]);
            }
        }
        assert forall|j: int| 0 <= j < s.len() && #[trigger] s[j].0 == id implies j == find(s, id) by {
            if j < t.len() {
                assert(t[j] == s[j]);
            } else if find(t, id) >= 0 {
                assert(t[find(t, id)] == s[find(t, id)]);
            }
        }
        if find(t, id) >= 0 {
            assert(t[find(t, id)] == s[find(t, id)]);
        }
    }
}

/// The peers of a consensus node, each with its phase.
#[derive(Debug)]
pub struct Peers {
    map: Vec<(NodeId, PeerInfo)>,
}

impl View for Peers {
    type V = Seq<(Seq<u8>, PeerPhaseView)>;

    closed spec fn view(&self) -> Seq<(Seq<u8>, PeerPhaseView)> {
        self.map@.map_values(|e: (NodeId, PeerInfo)| (e.0@, e.1.phase@))
    }
}

impl Peers {
    pub open spec fn wf(&self) -> bool {
        unique_ids(self@)
    }

    /// A node that knows no peers.
    pub fn default() -> (r: Peers)
        ensures
            r.wf(),
            r@ == Seq::<(Seq<u8>, PeerPhaseView)>::empty(),
    {
        let r = Peers { map: Vec::new() };
        assert(r@ =~= Seq::<(Seq<u8>, PeerPhaseView)>::empty());
        r
    }

    pub fn len(&self) -> (r: usize)
        ensures
            r == self@.len(),
    {
        self.map.len()
    }

    /// Where `who` stands, if it is a peer.
    fn position(&self, who: &NodeId) -> (r: Option<usize>)
        requires
            self.wf(),
        ensures
            match r {
                Some(i) => i == find(self@, who@),
                None => find(self@, who@) == -1,
            },
    {
        proof {
            lemma_find(self@, who@);
        }
        let n = self.map.len();
        let mut i: usize = 0;
        while i < n
            invariant
                n == self@.len(),
                n == self.map@.len(),
                i <= n,
                self.wf(),
                forall|j: int| 0 <= j < i ==> #[trigger] self@[j].0 != who@,
            decreases n - i,
        {
            assert(self@[i as int].0 == self.map@[i as int].0@);
            if self.map[i].0.same(who) {
                proof {
                    lemma_find(self@, who@);
                }
                return Some(i);
            }
            i = i + 1;
        }
        proof {
            lemma_find(self@, who@);
        }
        None
    }

    /// Whether `who` is a peer.
    pub fn contains(&self, who: &NodeId) -> (r: bool)
        requires
            self.wf(),
        ensures
            r == (find(self@, who@) >= 0),
    {
        self.position(who).is_some()
    }

    /// Adds `who` as a handshaking peer; a known peer starts over.
    pub fn add(&mut self, who: NodeId)
        requires
            old(self).wf(),
        ensures
            final(self).wf(),
            find(old(self)@, who@) >= 0 ==> final(self)@ == old(self)@.update(
                find(old(self)@, who@),
                (who@, PeerPhaseView::Handshaking),
            ),
            find(old(self)@, who@) == -1 ==> final(self)@ == old(self)@.push(
                (who@, PeerPhaseView::Handshaking),
            ),
    {
        let ghost s0 = self@;
        let ghost w = who@;
        proof {
            lemma_find(s0, w);
        }
        match self.position(&who) {
            Some(i) => {
                self.map.set(i, (who, PeerInfo::default()));
                assert(self@ =~= s0.update(i as int, (w, PeerPhaseView::Handshaking)));
                assert forall|a: int, b: int| 0 <= a < b < self@.len() implies #[trigger] self@[a].0
                    != #[trigger] self@[b].0 by {
                    assert(self@[a].0 == s0[a].0 && self@[b].0 == s0[b].0);
                }
            },
            None => {
                self.map.push((who, PeerInfo::default()));
                assert(self@ =~= s0.push((w, PeerPhaseView::Handshaking)));
                assert forall|a: int, b: int| 0 <= a < b < self@.len() implies #[trigger] self@[a].0
                    != #[trigger] self@[b].0 by {
                    if b == s0.len() {
                        assert(s0[a].0 != w);
                    } else {
                        assert(self@[a] == s0[a] && self@[b] == s0[b]);
                    }
                }
            },
        }
    }

    /// Forgets `who`, if it is a peer.
    pub fn del(&mut self, who: &NodeId)
        requires
            old(self).wf(),
        ensures
            final(self).wf(),
            find(old(self)@, who@) >= 0 ==> final(self)@ == old(self)@.remove(
                find(old(self)@, who@),
            ),
            find(old(self)@, who@) == -1 ==> final(self)@ == old(self)@,
    {
        let ghost s0 = self@;
        proof {
            lemma_find(s0, who@);
        }
        match self.position(who) {
            Some(i) => {
                self.map.remove(i);
                assert(self@ =~= s0.remove(i as int));
                assert forall|a: int, b: int| 0 <= a < b < self@.len() implies #[trigger] self@[a].0
                    != #[trigger] self@[b].0 by {
                    let a0 = if a < i { a } else { a + 1 };
                    let b0 = if b < i { b } else { b + 1 };
                    assert(self@[a] == s0[a0] && self@[b] == s0[b0]);
                }
            },
            None => {},
        }
    }

    /// Makes the peer `who` a validator with key `pk`, unless it is one
    /// already; returns whether it was one.
    pub fn set_validator(&mut self, who: &NodeId, pk: PublicKey) -> (r: bool)
        requires
            old(self).wf(),
            find(old(self)@, who@) >= 0,
            !(old(self)@[find(old(self)@, who@)].1 is PendingJoin),
        ensures
            final(self).wf(),
            ({
                let i = find(old(self)@, who@);
                let ph = old(self)@[i].1;
                &&& r == ph is EstablishedValidator
                &&& ph is EstablishedValidator ==> final(self)@ == old(self)@
                &&& ph is Handshaking ==> final(self)@ == old(self)@.update(
                    i,
                    (who@, PeerPhaseView::EstablishedValidator { nid: who@, pk: pk@ }),
                )
                &&& ph is EstablishedObserver ==> final(self)@ == old(self)@.update(
                    i,
                    (
                        who@,
                        PeerPhaseView::EstablishedValidator {
                            nid: ph->EstablishedObserver_nid,
                            pk: ph->EstablishedObserver_pk,
                        },
                    ),
                )
            }),
    {
        let ghost s0 = self@;
        proof {
            lemma_find(s0, who@);
        }
        let i = match self.position(who) {
            Some(i) => i,
            None => 0,
        };
        if self.map[i].1.is_validator() {
            return true;
        }
        let nid = self.map[i].0.duplicate();
        let mut info = PeerInfo { phase: PeerPhase::Handshaking };
        let next = match &self.map[i].1.phase {
            PeerPhase::Handshaking => PeerPhase::EstablishedValidator { nid: who.duplicate(), pk },
            PeerPhase::EstablishedObserver { nid, pk } => PeerPhase::EstablishedValidator {
                nid: nid.duplicate(),
                pk: pk.clone(),
            },
            _ => PeerPhase::Handshaking,
        };
        info.phase = next;
        let ghost nv = info.phase@;
        self.map.set(i, (nid, info));
        assert(self@ =~= s0.update(i as int, (who@, nv)));
        assert forall|a: int, b: int| 0 <= a < b < self@.len() implies #[trigger] self@[a].0
            != #[trigger] self@[b].0 by {
            assert(self@[a].0 == s0[a].0 && self@[b].0 == s0[b].0);
        }
        false
    }

    /// The identity and key of every validator, in table order, each
    /// identity once.
    pub fn get_validator_key_map(&self) -> (r: Vec<(NodeId, PublicKey)>)
        ensures
            r@.map_values(|e: (NodeId, PublicKey)| (e.0@, e.1@)) == validators_of(self@),
    {
        let mut out: Vec<(NodeId, PublicKey)> = Vec::new();
        let n = self.map.len();
        for i in 0..n
            invariant
                n == self.map@.len(),
                out@.map_values(|e: (NodeId, PublicKey)| (e.0@, e.1@)) == validators_of(
                    self@.take(i as int),
                ),
        {
            let ghost before = out@.map_values(|e: (NodeId, PublicKey)| (e.0@, e.1@));
            assert(self@.take(i + 1).drop_last() =~= self@.take(i as int));
            assert(self@.take(i + 1).last() == self@[i as int]);
            match &self.map[i].1.phase {
                PeerPhase::EstablishedValidator { nid, pk } => {
                    if !listed(&out, nid) {
                        out.push((nid.duplicate(), pk.clone()));
                        assert(out@.map_values(|e: (NodeId, PublicKey)| (e.0@, e.1@))
                            =~= before.push((nid@, pk@)));
                    }
                },
                _ => {},
            }
        }
        assert(self@.take(n as int) =~= self@);
        out
    }
}

/// Whether an identity already stands in a validator list.
fn listed(out: &Vec<(NodeId, PublicKey)>, id: &NodeId) -> (r: bool)
    ensures
        r == lists_id(out@.map_values(|e: (NodeId, PublicKey)| (e.0@, e.1@)), id@),
{
    let ghost v = out@.map_values(|e: (NodeId, PublicKey)| (e.0@, e.1@));
    let n = out.len();
    for i in 0..n
        invariant
            n == out@.len(),
            v == out@.map_values(|e: (NodeId, PublicKey)| (e.0@, e.1@)),
            forall|j: int| 0 <= j < i ==> #[trigger] v[j].0 != id@,
    {
        if out[i].0.same(id) {
            assert(v[i as int].0 == id@);
            return true;
        }
    }
    false
}

/// Adding a node that is not a peer and deleting it again gives back the
/// table as it was.
pub proof fn law_deleting_a_new_peer_undoes_adding_it(
    s: Seq<(Seq<u8>, PeerPhaseView)>,
    who: Seq<u8>,
)
    requires
        unique_ids(s),
        find(s, who) == -1,
    ensures
        ({
            let t = s.push((who, PeerPhaseView::Handshaking));
            &&& unique_ids(t)
            &&& find(t, who) == s.len()
            &&& t.remove(find(t, who)) == s
        }),
{
    lemma_find(s, who);
    let t = s.push((who, PeerPhaseView::Handshaking));
    assert(t.drop_last() =~= s);
    assert forall|i: int, j: int| 0 <= i < j < t.len() implies #[trigger] t[i].0 != #[trigger] t[j].0 by {
        if j < s.len() {
            assert(t[i] == s[i] && t[j] == s[j]);
        } else {
            assert(t[i] == s[i]);
        }
    }
    assert(t.remove(s.len() as int) =~= s);
}

/// Whether some entry of a validator list carries the identity `nid`.
pub open spec fn lists_id(v: Seq<(Seq<u8>, Seq<u8>)>, nid: Seq<u8>) -> bool {
    exists|j: int| 0 <= j < v.len() && #[trigger] v[j].0 == nid
}

/// The identity and key of every validator of a table, in order, each
/// identity once: with the key of the first validator that carries it.
pub open spec fn validators_of(s: Seq<(Seq<u8>, PeerPhaseView)>) -> Seq<(Seq<u8>, Seq<u8>)>
    decreases s.len(),
{
    if s.len() == 0 {
        Seq::empty()
    } else {
        let prev = validators_of(s.drop_last());
        match s.last().1 {
            PeerPhaseView::EstablishedValidator { nid, pk } => if lists_id(prev, nid) {
                prev
            } else {
                prev.push((nid, pk))
            },
            _ => prev,
        }
    }
}

/// The validator list of a table lists every validator's identity, holds
/// only identities and keys of validators, and lists no identity twice.
pub proof fn law_every_validator_is_listed(s: Seq<(Seq<u8>, PeerPhaseView)>)
    ensures
        forall|i: int|
            #![trigger s[i]]
            0 <= i < s.len() && s[i].1 is EstablishedValidator ==> lists_id(
                validators_of(s),
                s[i].1->EstablishedValidator_nid,
            ),
        forall|j: int|
            #![trigger validators_of(s)[j]]
            0 <= j < validators_of(s).len() ==> exists|i: int|
                0 <= i < s.len() && #[trigger] s[i].1 == (PeerPhaseView::EstablishedValidator {
                    nid: validators_of(s)[j].0,
                    pk: validators_of(s)[j].1,
                }),
        forall|a: int, b: int|
            0 <= a < b < validators_of(s).len() ==> #[trigger] validators_of(s)[a].0
                != #[trigger] validators_of(s)[b].0,
    decreases s.len(),
{
    if s.len() > 0 {
        let t = s.drop_last();
        law_every_validator_is_listed(t);
        let prev = validators_of(t);
        let v = validators_of(s);
        assert forall|i: int| 0 <= i < s.len() && s[i].1 is EstablishedValidator implies lists_id(
            v,
            #[trigger] s[i].1->EstablishedValidator_nid,
        ) by {
            if i < t.len() {
                assert(t[i] == s[i]);
                let nid = s[i].1->EstablishedValidator_nid;
                let j = choose|j: int| 0 <= j < prev.len() && #[trigger] prev[j].0 == nid;
                assert(v[j] == prev[j]);
            } else {
                let nid = s[i].1->EstablishedValidator_nid;
                if !lists_id(prev, nid) {
                    assert(v[prev.len() as int].0 == nid);
                }
            }
        }
        assert forall|j: int| #![trigger v[j]] 0 <= j < v.len() implies exists|i: int|
            0 <= i < s.len() && #[trigger] s[i].1 == (PeerPhaseView::EstablishedValidator {
                nid: v[j].0,
                pk: v[j].1,
            }) by {
            if j < prev.len() {
                assert(v[j] == prev[j]);
                let i = choose|i: int|
                    0 <= i < t.len() && #[trigger] t[i].1 == (PeerPhaseView::EstablishedValidator {
                        nid: prev[j].0,
                        pk: prev[j].1,
                    });
                assert(s[i] == t[i]);
            } else {
                assert(s[s.len() - 1] == s.last());
            }
        }
        assert forall|a: int, b: int| 0 <= a < b < v.len() implies #[trigger] v[a].0
            != #[trigger] v[b].0 by {
            if b < prev.len() {
                assert(v[a] == prev[a] && v[b] == prev[b]);
            } else {
                assert(v[a] == prev[a]);
            }
        }
    }
}

} // verus!
