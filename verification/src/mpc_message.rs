use vstd::prelude::*;

use crate::mpc_peer::PeerIndex;

verus! {

/// Extra data attached to every gossip message: the request it belongs to
/// and the hash of the peer set the sender saw.
#[derive(Clone, Copy, Debug, PartialEq, Eq, Structural)]
pub struct GossipEra {
    pub req_id: u64,
    pub peers_hash: u64,
}

/// The handshake by which the nodes agree that all players are present.
#[derive(Clone, Copy, Debug, PartialEq, Eq, Structural)]
pub enum ConfirmPeersMessage {
    Confirming(PeerIndex),
    Confirmed(PeerIndex),
}

impl ConfirmPeersMessage {
    /// The index of the sender.
    pub open spec fn spec_index(self) -> PeerIndex {
        match self {
            ConfirmPeersMessage::Confirming(i) => i,
            ConfirmPeersMessage::Confirmed(i) => i,
        }
    }

    pub fn get_index(&self) -> (r: PeerIndex)
        ensures
            r == self.spec_index(),
    {
        match self {
            ConfirmPeersMessage::Confirming(i) => *i,
            ConfirmPeersMessage::Confirmed(i) => *i,
        }
    }
}

/// The messages of the distributed key generation; each names its sender's
/// index and carries serialized protocol values.
#[derive(Debug)]
pub enum KeyGenMessage {
    /// A party's commitment and decommitment of its share of the key.
    CommitAndDecommit(PeerIndex, Vec<u8>, Vec<u8>),
    /// A party's verifiable secret sharing scheme.
    VSS(PeerIndex, Vec<u8>),
    /// The secret share that a party sends to one other party.
    SecretShare(PeerIndex, Vec<u8>),
    /// A party's proof of knowledge of its shared secret.
    Proof(PeerIndex, Vec<u8>),
}

/// A key generation message taken by view.
pub enum KeyGenMessageView {
    CommitAndDecommit(PeerIndex, Seq<u8>, Seq<u8>),
    VSS(PeerIndex, Seq<u8>),
    SecretShare(PeerIndex, Seq<u8>),
    Proof(PeerIndex, Seq<u8>),
}

impl View for KeyGenMessage {
    type V = KeyGenMessageView;

    open spec fn view(&self) -> KeyGenMessageView {
        match self {
            KeyGenMessage::CommitAndDecommit(i, c, d) => KeyGenMessageView::CommitAndDecommit(
                *i,
                c@,
                d@,
            ),
            KeyGenMessage::VSS(i, v) => KeyGenMessageView::VSS(*i, v@),
            KeyGenMessage::SecretShare(i, s) => KeyGenMessageView::SecretShare(*i, s@),
            KeyGenMessage::Proof(i, p) => KeyGenMessageView::Proof(*i, p@),
        }
    }
}

impl KeyGenMessageView {
    /// The index of the sender.
    pub open spec fn index(self) -> PeerIndex {
        match self {
            KeyGenMessageView::CommitAndDecommit(i, _, _) => i,
            KeyGenMessageView::VSS(i, _) => i,
            KeyGenMessageView::SecretShare(i, _) => i,
            KeyGenMessageView::Proof(i, _) => i,
        }
    }
}

impl KeyGenMessage {
    /// The index of the sender.
    pub fn get_index(&self) -> (r: PeerIndex)
        ensures
            r == self@.index(),
    {
        match self {
            KeyGenMessage::CommitAndDecommit(i, _, _) => *i,
            KeyGenMessage::VSS(i, _) => *i,
            KeyGenMessage::SecretShare(i, _) => *i,
            KeyGenMessage::Proof(i, _) => *i,
        }
    }
}

/// A message of the signing protocol, carried as bytes.
#[derive(Debug)]
pub struct SigGenMessage {
    pub data: Vec<u8>,
}

/// A message gossiped between the nodes of the signing network.
#[derive(Debug)]
pub enum GossipMessage {
    ConfirmPeers(ConfirmPeersMessage, GossipEra),
    KeyGen(KeyGenMessage, GossipEra),
    SigGen(SigGenMessage, GossipEra),
}

/// A gossip message taken by view.
pub enum GossipMessageView {
    ConfirmPeers(ConfirmPeersMessage, GossipEra),
    KeyGen(KeyGenMessageView, GossipEra),
    SigGen(Seq<u8>, GossipEra),
}

impl View for GossipMessage {
    type V = GossipMessageView;

    open spec fn view(&self) -> GossipMessageView {
        match self {
            GossipMessage::ConfirmPeers(c, e) => GossipMessageView::ConfirmPeers(*c, *e),
            GossipMessage::KeyGen(k, e) => GossipMessageView::KeyGen(k@, *e),
            GossipMessage::SigGen(s, e) => GossipMessageView::SigGen(s.data@, *e),
        }
    }
}

impl GossipMessageView {
    /// The era the message was sent in.
    pub open spec fn era(self) -> GossipEra {
        match self {
            GossipMessageView::ConfirmPeers(_, e) => e,
            GossipMessageView::KeyGen(_, e) => e,
            GossipMessageView::SigGen(_, e) => e,
        }
    }
}

impl GossipMessage {
    /// The hash of the peer set that the sender saw.
    pub fn get_peers_hash(&self) -> (r: u64)
        ensures
            r == self@.era().peers_hash,
    {
        match self {
            GossipMessage::ConfirmPeers(_, ge) => ge.peers_hash,
            GossipMessage::KeyGen(_, ge) => ge.peers_hash,
            GossipMessage::SigGen(_, ge) => ge.peers_hash,
        }
    }
}

} // verus!
