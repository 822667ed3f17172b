use vstd::prelude::*;

use crate::bytes::{bytes_eq, bytes_lt, lemma_seq_lt_total, lemma_seq_lt_transitive, seq_lt};

verus! {

/// The index of a party in the key generation: its rank among the peers.
pub type PeerIndex = u16;

/// How far a node has come in the current key generation.
#[derive(Clone, Copy, Debug, PartialEq, Eq, Structural)]
pub enum PeerState {
    AwaitingPeers,
    Generating,
    Complete,
    Canceled,
}

/// The network identity of a node, held as its bytes.
#[derive(Clone, Debug, PartialEq, Eq, Hash)]
pub struct PeerId {
    bytes: Vec<u8>,
}

impl View for PeerId {
    type V = Seq<u8>;

    closed spec fn view(&self) -> Seq<u8> {
        self.bytes@
    }
}

impl PeerId {
    pub fn from_bytes(bytes: Vec<u8>) -> (r: PeerId)
        ensures
            r@ == bytes@,
    {
        PeerId { bytes }
    }

    pub fn as_bytes(&self) -> (r: &[u8])
        ensures
            r@ == self@,
    {
        self.bytes.as_slice()
    }

    /// Whether two identities are the same.
    pub fn same(&self, other: &PeerId) -> (r: bool)
        ensures
            r == (self@ == other@),
    {
        bytes_eq(self.bytes.as_slice(), other.bytes.as_slice())
    }

    /// A copy of the identity.
    pub fn duplicate(&self) -> (r: PeerId)
        ensures
            r@ == self@,
    {
        PeerId { bytes: self.bytes.clone() }
    }
}

/// What a node knows of a peer.
#[derive(Clone, Copy, Debug, PartialEq, Eq, Structural)]
pub struct PeerInfo {
    pub state: PeerState,
}

impl PeerInfo {
    /// A peer that has just been seen waits for the others.
    pub fn default() -> (r: PeerInfo)
        ensures
            r.state == PeerState::AwaitingPeers,
    {
        PeerInfo { state: PeerState::AwaitingPeers }
    }
}

/// An entry of the peer table, taken by view.
pub type PeerEntry = (Seq<u8>, PeerState);

/// Whether the ids of `s` are strictly increasing.
pub open spec fn sorted_ids(s: Seq<PeerEntry>) -> bool {
    forall|i: int, j: int| 0 <= i < j < s.len() ==> seq_lt(#[trigger] s[i].0, #[trigger] s[j].0)
}

/// Whether the table holds `id`.
pub open spec fn holds(s: Seq<PeerEntry>, id: Seq<u8>) -> bool {
    exists|i: int| 0 <= i < s.len() && #[trigger] s[i].0 == id
}

/// The number of ids of the table that come before `id`: its rank, which is
/// where it stands or would stand.
pub open spec fn rank(s: Seq<PeerEntry>, id: Seq<u8>) -> int
    decreases s.len(),
{
    if s.len() == 0 {
        0
    } else if seq_lt(s.last().0, id) {
        rank(s.drop_last(), id) + 1
    } else {
        rank(s.drop_last(), id)
    }
}

/// The ids of the table, in order.
pub open spec fn ids_of(s: Seq<PeerEntry>) -> Seq<Seq<u8>> {
    s.map_values(|e: PeerEntry| e.0)
}

/// The peers a node knows, ordered by id, each with its state.
pub struct Peers {
    entries: Vec<(PeerId, PeerInfo)>,
}

impl View for Peers {
    type V = Seq<PeerEntry>;

    closed spec fn view(&self) -> Seq<PeerEntry> {
        self.entries@.map_values(|e: (PeerId, PeerInfo)| (e.0@, e.1.state))
    }
}

/// In a sorted table, the entries before the rank of `id` come before it and
/// the others do not.
pub proof fn lemma_rank_splits(s: Seq<PeerEntry>, id: Seq<u8>)
    requires
        sorted_ids(s),
    ensures
        0 <= rank(s, id) <= s.len(),
        forall|j: int| 0 <= j < rank(s, id) ==> seq_lt(#[trigger] s[j].0, id),
        forall|j: int| rank(s, id) <= j < s.len() ==> !seq_lt(#[trigger] s[j].0, id),
    decreases s.len(),
{
    if s.len() > 0 {
        let t = s.drop_last();
        assert(sorted_ids(t));
        lemma_rank_splits(t, id);
        if seq_lt(s.last().0, id) {
            if rank(t, id) < t.len() {
                assert(seq_lt(t[rank(t, id)].0, s.last().0));
                lemma_seq_lt_transitive(t[rank(t, id)].0, s.last().0, id);
            }
            assert forall|j: int| 0 <= j < rank(s, id) implies seq_lt(#[trigger] s[j].0, id) by {
                if j < s.len() - 1 {
                    assert(t[j] == s[j]);
                }
            }
        } else {
            assert forall|j: int| 0 <= j < rank(s, id) implies seq_lt(#[trigger] s[j].0, id) by {
                assert(t[j] == s[j]);
            }
            assert forall|j: int| rank(s, id) <= j < s.len() implies !seq_lt(#[trigger] s[j].0, id) by {
                if j < s.len() - 1 {
                    assert(t[j] == s[j]);
                }
            }
            assert(rank(t, id) == rank(s, id));
            assert forall|j: int| rank(s, id) <= j < s.len() - 1 implies !seq_lt(
                #[trigger] s[j].0,
                id,
            ) by {
                assert(t[j] == s[j]);
            }
        }
    }
}

/// In a sorted table the rank of an id that it holds is where it stands,
/// and no other entry holds it.
pub proof fn lemma_rank_finds(s: Seq<PeerEntry>, id: Seq<u8>)
    requires
        sorted_ids(s),
    ensures
        holds(s, id) <==> (rank(s, id) < s.len() && s[rank(s, id)].0 == id),
        forall|j: int| 0 <= j < s.len() && #[trigger] s[j].0 == id ==> j == rank(s, id),
{
    lemma_rank_splits(s, id);
    lemma_seq_lt_total(id, id);
    assert forall|j: int| 0 <= j < s.len() && #[trigger] s[j].0 == id implies j == rank(s, id) by {
        if j > rank(s, id) {
            lemma_seq_lt_total(s[rank(s, id)].0, id);
            assert(seq_lt(s[rank(s, id)].0, s[j].0));
        }
    }
}

/// Tables with the same ids rank and hold every id alike.
pub proof fn lemma_same_ids(s: Seq<PeerEntry>, t: Seq<PeerEntry>, x: Seq<u8>)
    requires
        ids_of(s) == ids_of(t),
    ensures
        rank(s, x) == rank(t, x),
        holds(s, x) == holds(t, x),
        s.len() == t.len(),
    decreases s.len(),
{
    assert(ids_of(s).len() == s.len() && ids_of(t).len() == t.len());
    if s.len() > 0 {
        assert(ids_of(s.drop_last()) =~= ids_of(s).drop_last());
        assert(ids_of(t.drop_last()) =~= ids_of(t).drop_last());
        lemma_same_ids(s.drop_last(), t.drop_last(), x);
        assert(s.last().0 == ids_of(s)[s.len() - 1]);
        assert(t.last().0 == ids_of(t)[t.len() - 1]);
    }
    if holds(s, x) {
        let i = choose|i: int| 0 <= i < s.len() && #[trigger] s[i].0 == x;
        assert(ids_of(s)[i] == ids_of(t)[i]);
        assert(t[i].0 == x);
    }
    if holds(t, x) {
        let i = choose|i: int| 0 <= i < t.len() && #[trigger] t[i].0 == x;
        assert(ids_of(s)[i] == ids_of(t)[i]);
        assert(s[i].0 == x);
    }
}

/// Setting the state of a peer keeps the table sorted and every id where
/// it was.
pub proof fn lemma_set_state_keeps_ids(s: Seq<PeerEntry>, who: Seq<u8>, st: PeerState, other: Seq<u8>)
    requires
        sorted_ids(s),
    ensures
        ({
            let t = if holds(s, who) {
                s.update(rank(s, who), (who, st))
            } else {
                s
            };
            &&& sorted_ids(t)
            &&& t.len() == s.len()
            &&& ids_of(t) == ids_of(s)
            &&& holds(t, other) == holds(s, other)
            &&& rank(t, other) == rank(s, other)
        }),
{
    lemma_rank_finds(s, who);
    let t = if holds(s, who) {
        s.update(rank(s, who), (who, st))
    } else {
        s
    };
    assert(ids_of(t) =~= ids_of(s));
    lemma_same_ids(s, t, other);
    assert forall|a: int, b: int| 0 <= a < b < t.len() implies seq_lt(
        #[trigger] t[a].0,
        #[trigger] t[b].0,
    ) by {
        assert(t[a].0 == ids_of(t)[a] && t[b].0 == ids_of(t)[b]);
        assert(s[a].0 == ids_of(s)[a] && s[b].0 == ids_of(s)[b]);
    }
}

impl Peers {
    pub open spec fn wf(&self) -> bool {
        sorted_ids(self@)
    }

    /// An empty table.
    pub fn new() -> (r: Peers)
        ensures
            r.wf(),
            r@ == Seq::<PeerEntry>::empty(),
    {
        let r = Peers { entries: Vec::new() };
        assert(r@ =~= Seq::<PeerEntry>::empty());
        r
    }

    /// The number of peers.
    pub fn len(&self) -> (r: usize)
        ensures
            r == self@.len(),
    {
        self.entries.len()
    }

    /// Where `who` stands or would stand, and whether it stands there.
    fn locate(&self, who: &PeerId) -> (r: (usize, bool))
        requires
            self.wf(),
        ensures
            r.0 == rank(self@, who@),
            r.1 == holds(self@, who@),
    {
        proof {
            lemma_rank_splits(self@, who@);
            lemma_rank_finds(self@, who@);
        }
        let n = self.entries.len();
        let mut i: usize = 0;
        while i < n
            invariant
                self.wf(),
                n == self@.len(),
                i <= rank(self@, who@),
                0 <= rank(self@, who@) <= self@.len(),
                forall|j: int| rank(self@, who@) <= j < self@.len() ==> !seq_lt(
                    #[trigger] self@[j].0,
                    who@,
                ),
                forall|j: int| 0 <= j < rank(self@, who@) ==> seq_lt(#[trigger] self@[j].0, who@),
                self.entries@.len() == n,
            decreases n - i,
        {
            assert(self@[i as int].0 == self.entries@[i as int].0@);
            if !bytes_lt(self.entries[i].0.as_bytes(), who.as_bytes()) {
                let found = self.entries[i].0.same(who);
                proof {
                    lemma_rank_finds(self@, who@);
                }
                return (i, found);
            }
            i = i + 1;
        }
        proof {
            lemma_rank_finds(self@, who@);
        }
        (i, false)
    }

    /// Whether `who` is a known peer.
    pub fn contains(&self, who: &PeerId) -> (r: bool)
        requires
            self.wf(),
        ensures
            r == holds(self@, who@),
    {
        self.locate(who).1
    }

    /// Adds `who` as a peer awaiting the others; a known peer starts over.
    pub fn add(&mut self, who: PeerId)
        requires
            old(self).wf(),
        ensures
            final(self).wf(),
            holds(old(self)@, who@) ==> final(self)@ == old(self)@.update(
                rank(old(self)@, who@),
                (who@, PeerState::AwaitingPeers),
            ),
            !holds(old(self)@, who@) ==> final(self)@ == old(self)@.insert(
                rank(old(self)@, who@),
                (who@, PeerState::AwaitingPeers),
            ),
    {
        let (i, found) = self.locate(&who);
        let ghost s0 = self@;
        let ghost w = who@;
        proof {
            lemma_rank_splits(s0, w);
            lemma_rank_finds(s0, w);
        }
        if found {
            self.entries.set(i, (who, PeerInfo::default()));
            assert(self@ =~= s0.update(i as int, (w, PeerState::AwaitingPeers)));
            assert forall|a: int, b: int| 0 <= a < b < self@.len() implies seq_lt(
                #[trigger] self@[a].0,
                #[trigger] self@[b].0,
            ) by {
                assert(s0[a].0 == self@[a].0 && s0[b].0 == self@[b].0);
            }
        } else {
            self.entries.insert(i, (who, PeerInfo::default()));
            assert(self@ =~= s0.insert(i as int, (w, PeerState::AwaitingPeers)));
            assert forall|a: int, b: int| 0 <= a < b < self@.len() implies seq_lt(
                #[trigger] self@[a].0,
                #[trigger] self@[b].0,
            ) by {
                if b < i {
                } else if a < i && b == i {
                } else if a < i && b > i {
                    assert(self@[b] == s0[b - 1]);
                } else if a == i {
                    assert(self@[b] == s0[b - 1]);
                    lemma_seq_lt_total(s0[b - 1].0, w);
                } else {
                    assert(self@[a] == s0[a - 1]);
                    assert(self@[b] == s0[b - 1]);
                }
            }
        }
    }

    /// Removes `who` from the peers, if it is one.
    pub fn del(&mut self, who: &PeerId)
        requires
            old(self).wf(),
        ensures
            final(self).wf(),
            holds(old(self)@, who@) ==> final(self)@ == old(self)@.remove(rank(old(self)@, who@)),
            !holds(old(self)@, who@) ==> final(self)@ == old(self)@,
    {
        let (i, found) = self.locate(who);
        let ghost s0 = self@;
        proof {
            lemma_rank_finds(s0, who@);
        }
        if found {
            self.entries.remove(i);
            assert(self@ =~= s0.remove(i as int));
            assert forall|a: int, b: int| 0 <= a < b < self@.len() implies seq_lt(
                #[trigger] self@[a].0,
                #[trigger] self@[b].0,
            ) by {
                if a >= i {
                    assert(self@[a] == s0[a + 1]);
                }
                if b >= i {
                    assert(self@[b] == s0[b + 1]);
                }
            }
        }
    }

    /// The index of `who` among the peers.
    pub fn get_position(&self, who: &PeerId) -> (r: Option<usize>)
        requires
            self.wf(),
        ensures
            match r {
                Some(i) => holds(self@, who@) && i == rank(self@, who@) && self@[i as int].0 == who@,
                None => !holds(self@, who@),
            },
    {
        proof {
            lemma_rank_finds(self@, who@);
        }
        let (i, found) = self.locate(who);
        if found {
            Some(i)
        } else {
            None
        }
    }

    /// The peer at `index`, if there is one.
    pub fn get_peer_id_by_index(&self, index: usize) -> (r: Option<PeerId>)
        ensures
            match r {
                Some(p) => index < self@.len() && p@ == self@[index as int].0,
                None => index >= self@.len(),
            },
    {
        if index < self.entries.len() {
            Some(self.entries[index].0.duplicate())
        } else {
            None
        }
    }

    /// Sets the state of `who`, if it is a peer.
    pub fn set_state(&mut self, who: &PeerId, state: PeerState)
        requires
            old(self).wf(),
        ensures
            final(self).wf(),
            holds(old(self)@, who@) ==> final(self)@ == old(self)@.update(
                rank(old(self)@, who@),
                (who@, state),
            ),
            !holds(old(self)@, who@) ==> final(self)@ == old(self)@,
    {
        let (i, found) = self.locate(who);
        let ghost s0 = self@;
        proof {
            lemma_rank_finds(s0, who@);
        }
        if found {
            let id = self.entries[i].0.duplicate();
            self.entries.set(i, (id, PeerInfo { state }));
            assert(self@ =~= s0.update(i as int, (who@, state)));
            assert forall|a: int, b: int| 0 <= a < b < self@.len() implies seq_lt(
                #[trigger] self@[a].0,
                #[trigger] self@[b].0,
            ) by {
                assert(s0[a].0 == self@[a].0 && s0[b].0 == self@[b].0);
            }
        }
    }

    /// The state of `who`, if it is a peer.
    pub fn get_state(&self, who: &PeerId) -> (r: Option<PeerState>)
        requires
            self.wf(),
        ensures
            match r {
                Some(st) => holds(self@, who@) && st == self@[rank(self@, who@)].1,
                None => !holds(self@, who@),
            },
    {
        proof {
            lemma_rank_finds(self@, who@);
        }
        let (i, found) = self.locate(who);
        if found {
            Some(self.entries[i].1.state)
        } else {
            None
        }
    }

    /// The ids of the peers, in order.
    pub fn keys(&self) -> (r: Vec<PeerId>)
        ensures
            r@.map_values(|p: PeerId| p@) == ids_of(self@),
    {
        let mut out: Vec<PeerId> = Vec::new();
        let n = self.entries.len();
        for i in 0..n
            invariant
                n == self.entries@.len(),
                out@.len() == i,
                forall|j: int| 0 <= j < i ==> out@[j]@ == self.entries@[j].0@,
        {
            out.push(self.entries[i].0.duplicate());
        }
        assert(out@.map_values(|p: PeerId| p@) =~= ids_of(self@));
        out
    }
}

} // verus!
