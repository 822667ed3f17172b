use vstd::prelude::*;

verus! {

/// A request for the threshold-signing network: generate a shared key, or
/// sign `data` with the shared key generated for `pk_id`.
#[derive(Debug)]
pub enum MpcRequest {
    KeyGen(u64),
    SigGen(u64, u64, Vec<u8>),
}

/// A request with its payload taken by view.
pub enum MpcRequestView {
    KeyGen(u64),
    SigGen(u64, u64, Seq<u8>),
}

impl MpcRequestView {
    /// The id of the request.
    pub open spec fn req_id(self) -> u64 {
        match self {
            MpcRequestView::KeyGen(id) => id,
            MpcRequestView::SigGen(id, _, _) => id,
        }
    }
}

impl View for MpcRequest {
    type V = MpcRequestView;

    open spec fn view(&self) -> MpcRequestView {
        match self {
            MpcRequest::KeyGen(id) => MpcRequestView::KeyGen(*id),
            MpcRequest::SigGen(id, pk_id, data) => MpcRequestView::SigGen(*id, *pk_id, data@),
        }
    }
}

impl MpcRequest {

    pub fn req_id(&self) -> (r: u64)
        ensures
            r == self@.req_id(),
    {
        match self {
            MpcRequest::KeyGen(id) => *id,
            MpcRequest::SigGen(id, _, _) => *id,
        }
    }

    pub fn duplicate(&self) -> (r: MpcRequest)
        ensures
            r@ == self@,
    {
        match self {
            MpcRequest::KeyGen(id) => MpcRequest::KeyGen(*id),
            MpcRequest::SigGen(id, pk_id, data) => MpcRequest::SigGen(*id, *pk_id, data.clone()),
        }
    }
}

/// A log that the chain deposits in a block's digest so that the nodes of
/// the signing network pick the request up.
#[derive(Debug)]
pub enum ConsensusLog {
    RequestForSig(u64, u64, Vec<u8>),
    RequestForKey(u64),
}

/// A log with its payload taken by view.
pub enum ConsensusLogView {
    RequestForSig(u64, u64, Seq<u8>),
    RequestForKey(u64),
}

impl View for ConsensusLog {
    type V = ConsensusLogView;

    open spec fn view(&self) -> ConsensusLogView {
        match self {
            ConsensusLog::RequestForSig(id, pk_id, data) => ConsensusLogView::RequestForSig(
                *id,
                *pk_id,
                data@,
            ),
            ConsensusLog::RequestForKey(id) => ConsensusLogView::RequestForKey(*id),
        }
    }
}

/// The request that a node derives from a log.
pub open spec fn request_of_log(log: ConsensusLogView) -> MpcRequestView {
    match log {
        ConsensusLogView::RequestForSig(id, pk_id, data) => MpcRequestView::SigGen(id, pk_id, data),
        ConsensusLogView::RequestForKey(id) => MpcRequestView::KeyGen(id),
    }
}

impl ConsensusLog {
    /// The request that a node derives from this log.
    pub fn to_request(&self) -> (r: MpcRequest)
        ensures
            r@ == request_of_log(self@),
    {
        match self {
            ConsensusLog::RequestForSig(id, pk_id, data) => MpcRequest::SigGen(
                *id,
                *pk_id,
                data.clone(),
            ),
            ConsensusLog::RequestForKey(id) => MpcRequest::KeyGen(*id),
        }
    }
}

/// What a node keeps in its offchain storage for a request.
#[derive(Clone, Copy, Debug, PartialEq, Eq)]
pub enum OffchainStorageType {
    LocalKeyState,
    SharedPublicKey,
    Signature,
}

} // verus!
