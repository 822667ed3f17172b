use vstd::prelude::*;

use crate::ecdsa::shared_public_key_of;
use crate::keygen::KeyGenState;
use crate::mpc_primitives::{request_of_log, ConsensusLog, MpcRequest, MpcRequestView};

verus! {

/// The state of a signature generation: nothing is kept yet.
#[derive(Debug)]
pub struct SigGenState {}

/// The settings a signing node runs with: polls every second, and one
/// tolerated fault among three players.
pub fn mpc_node_config() -> (r: crate::mpc_gossip::NodeConfig)
    ensures
        r.duration == 1,
        r.threshold == 1,
        r.players == 3,
{
    crate::mpc_gossip::NodeConfig { duration: 1, threshold: 1, players: 3 }
}

/// Why the key generation worker stopped.
#[derive(Debug)]
pub enum Error {
    Network(String),
    Periodic,
    Client(String),
    Rebuild,
}

/// What the worker does about a command from the chain.
#[derive(Clone, Copy, Debug, PartialEq, Eq, Structural)]
pub enum WorkAction {
    /// Start the key generation of this request on the network.
    StartKeyGen(u64),
    /// Look up the public key generated for this request id on chain.
    FetchPublicKey(u64),
}

/// Records a command from the chain and says what to do about it: a key
/// request becomes the current request and starts a key generation; a
/// signature request looks up the key it names.
pub fn handle_command(state: &mut KeyGenState, command: MpcRequest) -> (r: WorkAction)
    ensures
        match command@ {
            MpcRequestView::KeyGen(id) => {
                &&& r == WorkAction::StartKeyGen(id)
                &&& final(state)@ == (crate::keygen::KeyGenStateView { req_id: id, ..old(state)@ })
            },
            MpcRequestView::SigGen(_, pk_id, _) => {
                &&& r == WorkAction::FetchPublicKey(pk_id)
                &&& final(state)@ == old(state)@
            },
        },
{
    match command {
        MpcRequest::KeyGen(id) => {
            state.req_id = id;
            WorkAction::StartKeyGen(id)
        },
        MpcRequest::SigGen(_req_id, pk_id, _) => WorkAction::FetchPublicKey(pk_id),
    }
}

/// What a poll of the worker comes to.
#[derive(Debug)]
pub enum PollDecision {
    /// Nothing to report yet.
    Pending,
    /// Rebuild the key generation and poll again later.
    Rebuild,
    /// The worker is done, with this result.
    Finish(Result<(), Error>),
}

/// What the worker reports when the key generation it drives reports
/// `outcome` (`None` while it is pending): a rebuild request rebuilds it,
/// any other end finishes the worker.
pub fn on_worker_outcome(outcome: Option<Result<(), Error>>) -> (r: PollDecision)
    ensures
        match outcome {
            None => r is Pending,
            Some(Ok(())) => r matches PollDecision::Finish(Ok(())),
            Some(Err(Error::Rebuild)) => r is Rebuild,
            Some(Err(e)) => r matches PollDecision::Finish(Err(e2)) && e2 == e,
        },
{
    match outcome {
        None => PollDecision::Pending,
        Some(Ok(())) => PollDecision::Finish(Ok(())),
        Some(Err(Error::Rebuild)) => PollDecision::Rebuild,
        Some(Err(e)) => PollDecision::Finish(Err(e)),
    }
}

/// The request id and shared public key to store offchain once the key
/// generation is complete; none before, or when the shared keys do not
/// yield a public key. A complete key generation holds its shared keys.
pub fn completed_public_key(state: &KeyGenState) -> (r: Option<(u64, Vec<u8>)>)
    requires
        state@.complete ==> state@.shared_keys is Some,
    ensures
        match r {
            Some((id, pk)) => {
                &&& state@.complete
                &&& id == state@.req_id
                &&& state@.shared_keys matches Some(sk) && shared_public_key_of(sk) == Some(pk@)
            },
            None => !state@.complete || shared_public_key_of(state@.shared_keys->0) is None,
        },
{
    if !state.complete {
        return None;
    }
    match state.shared_public_key() {
        Some(pk) => Some((state.req_id, pk)),
        None => None,
    }
}

/// The requests a node derives from an imported block: at block 2 a key
/// request with id 1234, at block 5 a request to sign `[1]` with that key
/// under id 1235, and then the request of the first signing-network log of
/// the block, if any.
pub open spec fn spec_requests_for_block(number: u64, logs: Seq<ConsensusLog>) -> Seq<
    MpcRequestView,
> {
    let fixed = if number == 2 {
        seq![MpcRequestView::KeyGen(1234)]
    } else if number == 5 {
        seq![MpcRequestView::SigGen(1235, 1234, seq![1u8])]
    } else {
        Seq::empty()
    };
    if logs.len() > 0 {
        fixed.push(request_of_log(logs[0]@))
    } else {
        fixed
    }
}

pub fn requests_for_block(number: u64, logs: &Vec<ConsensusLog>) -> (r: Vec<MpcRequest>)
    ensures
        r@.map_values(|q: MpcRequest| q@) == spec_requests_for_block(number, logs@),
{
    let mut out: Vec<MpcRequest> = Vec::new();
    if number == 2 {
        out.push(MpcRequest::KeyGen(1234));
    } else if number == 5 {
        let mut data: Vec<u8> = Vec::new();
        data.push(1u8);
        out.push(MpcRequest::SigGen(1235, 1234, data));
    }
    if logs.len() > 0 {
        out.push(logs[0].to_request());
    }
    assert(out@.map_values(|q: MpcRequest| q@) =~= spec_requests_for_block(number, logs@));
    out
}

} // verus!
