use vstd::prelude::*;

use crate::hbbft_peer::{find, NodeId, PeerPhaseView, Peers};
use crate::mpc_gossip::ValidationDecision;

verus! {

/// The settings of a consensus node.
#[derive(Debug)]
pub struct NodeConfig {
    pub threshold: u32,
    pub parties: u32,
    pub name: Option<String>,
}

impl NodeConfig {
    /// The node's name, or `<unknown>` when it has none.
    pub fn name(&self) -> (r: &str)
        ensures
            match self.name {
                Some(n) => r@ == n@,
                None => r@ == "<unknown>"@,
            },
    {
        match &self.name {
            Some(n) => n.as_str(),
            None => "<unknown>",
        }
    }
}

/// The settings the consensus key generation runs with: one tolerated
/// fault among three parties, unnamed.
pub fn key_gen_config() -> (r: NodeConfig)
    ensures
        r.threshold == 1,
        r.parties == 3,
        r.name is None,
{
    NodeConfig { name: None, threshold: 1, parties: 3 }
}

/// What the consensus gossip layer knows: a round marker and its peers.
#[derive(Debug)]
pub struct Inner {
    pub dhb: u64,
    pub peers: Peers,
}

impl Inner {
    pub fn default() -> (r: Inner)
        ensures
            r.dhb == 0,
            r.peers.wf(),
            r.peers@ == Seq::<(Seq<u8>, PeerPhaseView)>::empty(),
    {
        Inner { dhb: 0, peers: Peers::default() }
    }
}

/// The gossip validator of the consensus nodes.
#[derive(Debug)]
pub struct GossipValidator {
    pub inner: Inner,
}

impl GossipValidator {
    pub fn new() -> (r: GossipValidator)
        ensures
            r.inner.dhb == 0,
            r.inner.peers.wf(),
            r.inner.peers@ == Seq::<(Seq<u8>, PeerPhaseView)>::empty(),
    {
        GossipValidator { inner: Inner::default() }
    }

    /// A peer connected: it is added, handshaking; a known peer starts
    /// over.
    pub fn new_peer(&mut self, who: NodeId)
        requires
            old(self).inner.peers.wf(),
        ensures
            final(self).inner.peers.wf(),
            final(self).inner.dhb == old(self).inner.dhb,
            find(old(self).inner.peers@, who@) >= 0 ==> final(self).inner.peers@
                == old(self).inner.peers@.update(
                find(old(self).inner.peers@, who@),
                (who@, PeerPhaseView::Handshaking),
            ),
            find(old(self).inner.peers@, who@) == -1 ==> final(self).inner.peers@
                == old(self).inner.peers@.push((who@, PeerPhaseView::Handshaking)),
    {
        self.inner.peers.add(who);
    }

    /// A peer disconnected: nothing changes.
    pub fn peer_disconnected(&mut self, _who: &[u8])
        ensures
            final(self).inner.dhb == old(self).inner.dhb,
            final(self).inner.peers@ == old(self).inner.peers@,
    {
    }

    /// Every received message is processed and kept.
    pub fn validate(&self, _data: &[u8]) -> (r: ValidationDecision)
        ensures
            r == ValidationDecision::ProcessAndKeep,
    {
        ValidationDecision::ProcessAndKeep
    }

    /// Starts a round of `message_allowed` decisions, marking the round;
    /// no message is allowed.
    pub fn message_allowed(&mut self) -> (r: bool)
        ensures
            !r,
            final(self).inner.dhb == 2,
            final(self).inner.peers@ == old(self).inner.peers@,
    {
        self.inner.dhb = 2;
        false
    }

    /// Every stored message has expired.
    pub fn message_expired(&self, _data: &[u8]) -> (r: bool)
        ensures
            r,
    {
        true
    }
}

} // verus!
