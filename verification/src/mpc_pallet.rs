use std::collections::{BTreeMap, BTreeSet};
use vstd::prelude::*;

use crate::mpc_primitives::{
    ConsensusLog, ConsensusLogView, MpcRequest, MpcRequestView, OffchainStorageType,
};
use crate::runtime::{ensure_signed, signer_of, AccountId, DispatchError, Origin};

verus! {

broadcast use vstd::std_specs::btree::group_btree_axioms;

/// A stored answer of the signing network.
#[derive(Debug)]
pub enum MpcResult {
    KeyGen { req_id: u64, pk: Vec<u8> },
    SigGen { req_id: u64, pk_id: u64, sig: Vec<u8> },
}

/// A stored answer with its payload taken by view.
pub enum MpcResultView {
    KeyGen { req_id: u64, pk: Seq<u8> },
    SigGen { req_id: u64, pk_id: u64, sig: Seq<u8> },
}

impl View for MpcResult {
    type V = MpcResultView;

    open spec fn view(&self) -> MpcResultView {
        match self {
            MpcResult::KeyGen { req_id, pk } => MpcResultView::KeyGen { req_id: *req_id, pk: pk@ },
            MpcResult::SigGen { req_id, pk_id, sig } => MpcResultView::SigGen {
                req_id: *req_id,
                pk_id: *pk_id,
                sig: sig@,
            },
        }
    }
}

impl MpcResultView {
    pub open spec fn req_id(self) -> u64 {
        match self {
            MpcResultView::KeyGen { req_id, .. } => req_id,
            MpcResultView::SigGen { req_id, .. } => req_id,
        }
    }

    /// The public key held by a key-generation result.
    pub open spec fn key_of(self) -> Option<Seq<u8>> {
        match self {
            MpcResultView::KeyGen { pk, .. } => Some(pk),
            MpcResultView::SigGen { .. } => None,
        }
    }
}

/// An event of the module.
#[derive(Clone, Copy, Debug, PartialEq, Eq)]
pub enum Event {
    /// A request was made: its id and the requester.
    MpcRequest(u64, AccountId),
    /// A request was answered: its id and the responder.
    MpcResponse(u64, AccountId),
}

/// A call that the offchain worker submits back to the chain.
#[derive(Debug)]
pub enum Call {
    SaveKey(u64, Vec<u8>),
    SaveSig(u64, u64, Vec<u8>),
}

/// A call with its payload taken by view.
pub enum CallView {
    SaveKey(u64, Seq<u8>),
    SaveSig(u64, u64, Seq<u8>),
}

impl View for Call {
    type V = CallView;

    open spec fn view(&self) -> CallView {
        match self {
            Call::SaveKey(req_id, pk) => CallView::SaveKey(*req_id, pk@),
            Call::SaveSig(req_id, pk_id, sig) => CallView::SaveSig(*req_id, *pk_id, sig@),
        }
    }
}

/// The bytes held by an optional vector, taken by view.
pub open spec fn opt_bytes(o: Option<Vec<u8>>) -> Option<Seq<u8>> {
    match o {
        Some(v) => Some(v@),
        None => None,
    }
}

/// The abstract storage of the module.
pub struct MpcStorage {
    pub authorities: Set<AccountId>,
    pub results: Map<u64, MpcResultView>,
    pub requests: Map<u64, MpcRequestView>,
    pub pending_req_ids: Set<u64>,
    pub active_key_ids: Set<u64>,
    pub retired_key_ids: Set<u64>,
    pub logs: Seq<ConsensusLogView>,
    pub events: Seq<Event>,
}

impl MpcStorage {
    /// What every reachable storage satisfies: the pending ids are exactly
    /// the requests, no id is both requested and answered, every entry is
    /// stored under its own id, and every active key id holds a public key.
    pub open spec fn inv(self) -> bool {
        &&& self.pending_req_ids == self.requests.dom()
        &&& forall|id: u64| #[trigger]
            self.requests.contains_key(id) ==> !self.results.contains_key(id)
        &&& forall|id: u64| #[trigger]
            self.requests.contains_key(id) ==> self.requests[id].req_id() == id
        &&& forall|id: u64| #[trigger]
            self.results.contains_key(id) ==> self.results[id].req_id() == id
        &&& forall|id: u64| #[trigger]
            self.active_key_ids.contains(id) ==> self.results.contains_key(id)
                && self.results[id].key_of() is Some
    }

    /// The public key stored for `req_id`, if its result is a generated key.
    pub open spec fn public_key(self, req_id: u64) -> Option<Seq<u8>> {
        if self.results.contains_key(req_id) {
            self.results[req_id].key_of()
        } else {
            None
        }
    }

    /// A new request recorded: pending, logged and announced.
    pub open spec fn with_request(
        self,
        req: MpcRequestView,
        log: ConsensusLogView,
        who: AccountId,
    ) -> MpcStorage {
        MpcStorage {
            requests: self.requests.insert(req.req_id(), req),
            pending_req_ids: self.pending_req_ids.insert(req.req_id()),
            logs: self.logs.push(log),
            events: self.events.push(Event::MpcRequest(req.req_id(), who)),
            ..self
        }
    }

    /// An answer recorded: the request no longer pending, the result stored
    /// and the response announced.
    pub open spec fn with_result(self, res: MpcResultView, who: AccountId) -> MpcStorage {
        MpcStorage {
            requests: self.requests.remove(res.req_id()),
            pending_req_ids: self.pending_req_ids.remove(res.req_id()),
            results: self.results.insert(res.req_id(), res),
            active_key_ids: if res.key_of() is Some {
                self.active_key_ids.insert(res.req_id())
            } else {
                self.active_key_ids
            },
            events: self.events.push(Event::MpcResponse(res.req_id(), who)),
            ..self
        }
    }
}

/// The outcome of a key request: the storage after it and what it returns.
pub open spec fn spec_request_key(s: MpcStorage, origin: Origin, req_id: u64) -> (
    MpcStorage,
    Result<(), DispatchError>,
) {
    match signer_of(origin) {
        None => (s, Err(DispatchError::BadOrigin)),
        Some(who) => if s.requests.contains_key(req_id) || s.results.contains_key(req_id) {
            (s, Err(DispatchError::ReqIdExists))
        } else {
            (
                s.with_request(
                    MpcRequestView::KeyGen(req_id),
                    ConsensusLogView::RequestForKey(req_id),
                    who,
                ),
                Ok(()),
            )
        },
    }
}

/// The outcome of a signature request.
pub open spec fn spec_request_sig(
    s: MpcStorage,
    origin: Origin,
    req_id: u64,
    pk_id: u64,
    data: Seq<u8>,
) -> (MpcStorage, Result<(), DispatchError>) {
    match signer_of(origin) {
        None => (s, Err(DispatchError::BadOrigin)),
        Some(who) => if s.requests.contains_key(req_id) || s.results.contains_key(req_id) {
            (s, Err(DispatchError::ReqIdExists))
        } else {
            (
                s.with_request(
                    MpcRequestView::SigGen(req_id, pk_id, data),
                    ConsensusLogView::RequestForSig(req_id, pk_id, data),
                    who,
                ),
                Ok(()),
            )
        },
    }
}

/// The outcome of saving a generated key.
pub open spec fn spec_save_key(s: MpcStorage, origin: Origin, req_id: u64, data: Seq<u8>) -> (
    MpcStorage,
    Result<(), DispatchError>,
) {
    match signer_of(origin) {
        None => (s, Err(DispatchError::BadOrigin)),
        Some(who) => if s.results.contains_key(req_id) {
            (s, Err(DispatchError::ResultExists))
        } else {
            (s.with_result(MpcResultView::KeyGen { req_id, pk: data }, who), Ok(()))
        },
    }
}

/// The outcome of saving a signature.
pub open spec fn spec_save_sig(
    s: MpcStorage,
    origin: Origin,
    req_id: u64,
    pk_id: u64,
    sig: Seq<u8>,
) -> (MpcStorage, Result<(), DispatchError>) {
    match signer_of(origin) {
        None => (s, Err(DispatchError::BadOrigin)),
        Some(who) => if !s.requests.contains_key(req_id) {
            (s, Err(DispatchError::ReqIdNotFound))
        } else if s.results.contains_key(req_id) {
            (s, Err(DispatchError::ReqIdExists))
        } else {
            (s.with_result(MpcResultView::SigGen { req_id, pk_id, sig }, who), Ok(()))
        },
    }
}

/// The outcome of adding an authority.
pub open spec fn spec_add_authority(s: MpcStorage, origin: Origin, who: AccountId) -> (
    MpcStorage,
    Result<(), DispatchError>,
) {
    match signer_of(origin) {
        None => (s, Err(DispatchError::BadOrigin)),
        Some(_) => (MpcStorage { authorities: s.authorities.insert(who), ..s }, Ok(())),
    }
}

/// The outcome of dispatching a call submitted by the offchain worker.
pub open spec fn spec_dispatch(s: MpcStorage, origin: Origin, call: CallView) -> (
    MpcStorage,
    Result<(), DispatchError>,
) {
    match call {
        CallView::SaveKey(req_id, pk) => spec_save_key(s, origin, req_id, pk),
        CallView::SaveSig(req_id, pk_id, sig) => spec_save_sig(s, origin, req_id, pk_id, sig),
    }
}

/// The on-chain module that records requests for keys and signatures and
/// the answers of the signing network.
pub struct MpcModule {
    authorities: BTreeSet<AccountId>,
    results: BTreeMap<u64, MpcResult>,
    requests: BTreeMap<u64, MpcRequest>,
    pending_req_ids: BTreeSet<u64>,
    active_key_ids: BTreeSet<u64>,
    retired_key_ids: BTreeSet<u64>,
    logs: Vec<ConsensusLog>,
    events: Vec<Event>,
}

impl View for MpcModule {
    type V = MpcStorage;

    closed spec fn view(&self) -> MpcStorage {
        MpcStorage {
            authorities: self.authorities@,
            results: self.results@.map_values(|r: MpcResult| r@),
            requests: self.requests@.map_values(|r: MpcRequest| r@),
            pending_req_ids: self.pending_req_ids@,
            active_key_ids: self.active_key_ids@,
            retired_key_ids: self.retired_key_ids@,
            logs: self.logs@.map_values(|l: ConsensusLog| l@),
            events: self.events@,
        }
    }
}

/// The key under which a node keeps what answers `req` in its offchain
/// storage: the request's id and the kind of value.
pub open spec fn spec_offchain_lookup(req: MpcRequestView) -> (u64, OffchainStorageType) {
    match req {
        MpcRequestView::KeyGen(id) => (id, OffchainStorageType::SharedPublicKey),
        MpcRequestView::SigGen(id, _, _) => (id, OffchainStorageType::Signature),
    }
}

/// Where the offchain worker looks for the answer to `req`.
pub fn offchain_lookup(req: &MpcRequest) -> (r: (u64, OffchainStorageType))
    ensures
        r == spec_offchain_lookup(req@),
{
    match req {
        MpcRequest::KeyGen(id) => (*id, OffchainStorageType::SharedPublicKey),
        MpcRequest::SigGen(id, _, _) => (*id, OffchainStorageType::Signature),
    }
}

/// The call that answers `req` with the value found in offchain storage.
pub open spec fn spec_offchain_call(req: MpcRequestView, value: Seq<u8>) -> CallView {
    match req {
        MpcRequestView::KeyGen(id) => CallView::SaveKey(id, value),
        MpcRequestView::SigGen(id, pk_id, _) => CallView::SaveSig(id, pk_id, value),
    }
}

/// The requests the offchain worker answers in every block.
pub fn offchain_requests() -> (r: Vec<MpcRequest>)
    ensures
        r@.len() == 1,
        r@[0]@ == MpcRequestView::KeyGen(1234),
{
    let mut out: Vec<MpcRequest> = Vec::new();
    out.push(MpcRequest::KeyGen(1234));
    out
}

/// The call the offchain worker submits for `req`, given what its offchain
/// storage holds under the key of `offchain_lookup(req)`: none when it holds
/// nothing.
pub fn save_offchain_result(req: &MpcRequest, stored: Option<Vec<u8>>) -> (r: Option<Call>)
    ensures
        match stored {
            Some(value) => r is Some && r->0@ == spec_offchain_call(req@, value@),
            None => r is None,
        },
{
    match stored {
        Some(value) => match req {
            MpcRequest::KeyGen(req_id) => Some(call_save_key(*req_id, value)),
            MpcRequest::SigGen(req_id, pk_id, _) => Some(call_save_sig(*req_id, *pk_id, value)),
        },
        None => None,
    }
}

/// The call that saves a signature.
pub fn call_save_sig(req_id: u64, pk_id: u64, sig: Vec<u8>) -> (r: Call)
    ensures
        r@ == CallView::SaveSig(req_id, pk_id, sig@),
{
    Call::SaveSig(req_id, pk_id, sig)
}

/// The call that saves a generated key.
pub fn call_save_key(req_id: u64, pk: Vec<u8>) -> (r: Call)
    ensures
        r@ == CallView::SaveKey(req_id, pk@),
{
    Call::SaveKey(req_id, pk)
}

impl MpcModule {
    pub open spec fn wf(&self) -> bool {
        self@.inv()
    }

    /// A module with empty storage.
    pub fn new() -> (m: MpcModule)
        ensures
            m.wf(),
            m@.authorities == Set::<AccountId>::empty(),
            m@.results == Map::<u64, MpcResultView>::empty(),
            m@.requests == Map::<u64, MpcRequestView>::empty(),
            m@.pending_req_ids == Set::<u64>::empty(),
            m@.active_key_ids == Set::<u64>::empty(),
            m@.retired_key_ids == Set::<u64>::empty(),
            m@.logs == Seq::<ConsensusLogView>::empty(),
            m@.events == Seq::<Event>::empty(),
    {
        let m = MpcModule {
            authorities: BTreeSet::new(),
            results: BTreeMap::new(),
            requests: BTreeMap::new(),
            pending_req_ids: BTreeSet::new(),
            active_key_ids: BTreeSet::new(),
            retired_key_ids: BTreeSet::new(),
            logs: Vec::new(),
            events: Vec::new(),
        };
        assert(m@.results =~= Map::<u64, MpcResultView>::empty());
        assert(m@.requests =~= Map::<u64, MpcRequestView>::empty());
        assert(m@.logs =~= Seq::<ConsensusLogView>::empty());
        m
    }

    /// Whether a request with this id is recorded.
    pub fn request_exists(&self, req_id: u64) -> (r: bool)
        ensures
            r == self@.requests.contains_key(req_id),
    {
        self.requests.contains_key(&req_id)
    }

    /// Whether a result with this id is recorded.
    pub fn result_exists(&self, req_id: u64) -> (r: bool)
        ensures
            r == self@.results.contains_key(req_id),
    {
        self.results.contains_key(&req_id)
    }

    /// Whether `who` is an authority.
    pub fn is_authority(&self, who: AccountId) -> (r: bool)
        ensures
            r == self@.authorities.contains(who),
    {
        self.authorities.contains(&who)
    }

    /// The public key generated for `req_id`, if one is stored.
    pub fn get_public_key(&self, req_id: u64) -> (r: Option<Vec<u8>>)
        ensures
            opt_bytes(r) == self@.public_key(req_id),
    {
        match self.results.get(&req_id) {
            Some(res) => match res {
                MpcResult::KeyGen { pk, .. } => Some(pk.clone()),
                MpcResult::SigGen { .. } => None,
            },
            None => None,
        }
    }

    /// The result stored for `req_id`, with its payload copied.
    pub fn result_of(&self, req_id: u64) -> (r: Option<MpcResult>)
        ensures
            match r {
                Some(res) => self@.results.contains_key(req_id) && res@ == self@.results[req_id],
                None => !self@.results.contains_key(req_id),
            },
    {
        match self.results.get(&req_id) {
            Some(MpcResult::KeyGen { req_id, pk }) => Some(
                MpcResult::KeyGen { req_id: *req_id, pk: pk.clone() },
            ),
            Some(MpcResult::SigGen { req_id, pk_id, sig }) => Some(
                MpcResult::SigGen { req_id: *req_id, pk_id: *pk_id, sig: sig.clone() },
            ),
            None => None,
        }
    }

    /// The request recorded under `req_id`, with its payload copied.
    pub fn request_of(&self, req_id: u64) -> (r: Option<MpcRequest>)
        ensures
            match r {
                Some(req) => self@.requests.contains_key(req_id) && req@ == self@.requests[req_id],
                None => !self@.requests.contains_key(req_id),
            },
    {
        match self.requests.get(&req_id) {
            Some(req) => Some(req.duplicate()),
            None => None,
        }
    }

    /// The logs deposited so far, copied.
    pub fn logs(&self) -> (r: Vec<ConsensusLog>)
        ensures
            r@.map_values(|l: ConsensusLog| l@) == self@.logs,
    {
        let mut out: Vec<ConsensusLog> = Vec::new();
        let n = self.logs.len();
        for i in 0..n
            invariant
                n == self.logs@.len(),
                out@.len() == i,
                forall|j: int| 0 <= j < i ==> out@[j]@ == self.logs@[j]@,
        {
            let l = match &self.logs[i] {
                ConsensusLog::RequestForSig(a, b, d) => ConsensusLog::RequestForSig(*a, *b, d.clone()),
                ConsensusLog::RequestForKey(a) => ConsensusLog::RequestForKey(*a),
            };
            out.push(l);
        }
        assert(out@.map_values(|l: ConsensusLog| l@) =~= self@.logs);
        out
    }

    /// The events emitted so far.
    pub fn events(&self) -> (r: Vec<Event>)
        ensures
            r@ == self@.events,
    {
        self.events.clone()
    }

    fn record_request(&mut self, req: MpcRequest, log: ConsensusLog, who: AccountId)
        requires
            old(self).wf(),
            !old(self)@.requests.contains_key(req@.req_id()),
            !old(self)@.results.contains_key(req@.req_id()),
        ensures
            final(self).wf(),
            final(self)@ == old(self)@.with_request(req@, log@, who),
    {
        let id = req.req_id();
        let ghost s0 = self@;
        self.pending_req_ids.insert(id);
        self.requests.insert(id, req);
        let ghost l = log@;
        self.logs.push(log);
        assert(self@.logs =~= s0.logs.push(l));
        self.events.push(Event::MpcRequest(id, who));
        assert(self@.requests =~= s0.requests.insert(id, req@));
        assert(self@ == s0.with_request(req@, log@, who));
    }

    fn record_result(&mut self, res: MpcResult, who: AccountId)
        requires
            old(self).wf(),
            !old(self)@.results.contains_key(res@.req_id()),
        ensures
            final(self).wf(),
            final(self)@ == old(self)@.with_result(res@, who),
    {
        let ghost s0 = self@;
        let (id, is_key) = match &res {
            MpcResult::KeyGen { req_id, .. } => (*req_id, true),
            MpcResult::SigGen { req_id, .. } => (*req_id, false),
        };
        self.pending_req_ids.remove(&id);
        self.requests.remove(&id);
        if is_key {
            self.active_key_ids.insert(id);
        }
        self.results.insert(id, res);
        self.events.push(Event::MpcResponse(id, who));
        assert(self@.requests =~= s0.requests.remove(id));
        assert(self@.results =~= s0.results.insert(id, res@));
        assert(self@ == s0.with_result(res@, who));
    }

    /// Records a request for a new shared key and deposits the log that
    /// tells the signing network about it.
    pub fn request_key(&mut self, origin: Origin, req_id: u64) -> (r: Result<(), DispatchError>)
        requires
            old(self).wf(),
        ensures
            final(self).wf(),
            (final(self)@, r) == spec_request_key(old(self)@, origin, req_id),
    {
        let who = ensure_signed(origin)?;
        if self.requests.contains_key(&req_id) {
            return Err(DispatchError::ReqIdExists);
        }
        if self.results.contains_key(&req_id) {
            return Err(DispatchError::ReqIdExists);
        }
        self.record_request(MpcRequest::KeyGen(req_id), ConsensusLog::RequestForKey(req_id), who);
        Ok(())
    }

    /// Saves a generated shared key as the answer to `req_id`.
    pub fn save_key(&mut self, origin: Origin, req_id: u64, data: Vec<u8>) -> (r: Result<
        (),
        DispatchError,
    >)
        requires
            old(self).wf(),
        ensures
            final(self).wf(),
            (final(self)@, r) == spec_save_key(old(self)@, origin, req_id, data@),
    {
        let who = ensure_signed(origin)?;
        if self.results.contains_key(&req_id) {
            return Err(DispatchError::ResultExists);
        }
        self.record_result(MpcResult::KeyGen { req_id, pk: data }, who);
        Ok(())
    }

    /// Records a request to sign `data` with the key generated for `pk_id`
    /// and deposits the log that tells the signing network about it.
    pub fn request_sig(&mut self, origin: Origin, req_id: u64, pk_id: u64, data: Vec<u8>) -> (r:
        Result<(), DispatchError>)
        requires
            old(self).wf(),
        ensures
            final(self).wf(),
            (final(self)@, r) == spec_request_sig(old(self)@, origin, req_id, pk_id, data@),
    {
        let who = ensure_signed(origin)?;
        if self.requests.contains_key(&req_id) {
            return Err(DispatchError::ReqIdExists);
        }
        if self.results.contains_key(&req_id) {
            return Err(DispatchError::ReqIdExists);
        }
        let logged = data.clone();
        self.record_request(
            MpcRequest::SigGen(req_id, pk_id, data),
            ConsensusLog::RequestForSig(req_id, pk_id, logged),
            who,
        );
        Ok(())
    }

    /// Saves a signature as the answer to the pending request `req_id`.
    pub fn save_sig(&mut self, origin: Origin, req_id: u64, pk_id: u64, sig: Vec<u8>) -> (r:
        Result<(), DispatchError>)
        requires
            old(self).wf(),
        ensures
            final(self).wf(),
            (final(self)@, r) == spec_save_sig(old(self)@, origin, req_id, pk_id, sig@),
    {
        let who = ensure_signed(origin)?;
        if !self.requests.contains_key(&req_id) {
            return Err(DispatchError::ReqIdNotFound);
        }
        if self.results.contains_key(&req_id) {
            return Err(DispatchError::ReqIdExists);
        }
        self.record_result(MpcResult::SigGen { req_id, pk_id, sig }, who);
        Ok(())
    }

    /// Adds `who` to the authorities.
    pub fn add_authority(&mut self, origin: Origin, who: AccountId) -> (r: Result<
        (),
        DispatchError,
    >)
        requires
            old(self).wf(),
        ensures
            final(self).wf(),
            (final(self)@, r) == spec_add_authority(old(self)@, origin, who),
    {
        let _me = ensure_signed(origin)?;
        if !self.is_authority(who) {
            self.authorities.insert(who);
        }
        proof {
            assert(self@.authorities =~= old(self)@.authorities.insert(who));
            assert(self@ == (MpcStorage { authorities: old(self)@.authorities.insert(who), ..old(self)@ }));
        }
        Ok(())
    }

    /// Dispatches a call that the offchain worker submitted.
    pub fn dispatch(&mut self, origin: Origin, call: Call) -> (r: Result<(), DispatchError>)
        requires
            old(self).wf(),
        ensures
            final(self).wf(),
            (final(self)@, r) == spec_dispatch(old(self)@, origin, call@),
    {
        match call {
            Call::SaveKey(req_id, pk) => self.save_key(origin, req_id, pk),
            Call::SaveSig(req_id, pk_id, sig) => self.save_sig(origin, req_id, pk_id, sig),
        }
    }

    /// Deposits the log of a key request.
    pub fn send_keygen_log(&mut self, id: u64)
        requires
            old(self).wf(),
        ensures
            final(self).wf(),
            final(self)@ == (MpcStorage {
                logs: old(self)@.logs.push(ConsensusLogView::RequestForKey(id)),
                ..old(self)@
            }),
    {
        self.deposit_log(ConsensusLog::RequestForKey(id));
    }

    /// Deposits the log of a signature request.
    pub fn send_siggen_log(&mut self, req_id: u64, pk_id: u64, data: Vec<u8>)
        requires
            old(self).wf(),
        ensures
            final(self).wf(),
            final(self)@ == (MpcStorage {
                logs: old(self)@.logs.push(ConsensusLogView::RequestForSig(req_id, pk_id, data@)),
                ..old(self)@
            }),
    {
        self.deposit_log(ConsensusLog::RequestForSig(req_id, pk_id, data));
    }

    /// Deposits a log in the block's digest.
    pub fn deposit_log(&mut self, log: ConsensusLog)
        requires
            old(self).wf(),
        ensures
            final(self).wf(),
            final(self)@ == (MpcStorage { logs: old(self)@.logs.push(log@), ..old(self)@ }),
    {
        let ghost l = log@;
        self.logs.push(log);
        assert(self@.logs =~= old(self)@.logs.push(l));
    }
}

} // verus!
