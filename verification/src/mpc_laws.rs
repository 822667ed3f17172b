use vstd::prelude::*;

use crate::mpc_pallet::{
    spec_add_authority, spec_dispatch, spec_offchain_call, spec_request_key, spec_request_sig,
    spec_save_key, spec_save_sig, CallView, MpcResultView, MpcStorage,
};
use crate::mpc_primitives::MpcRequestView;
use crate::runtime::{signer_of, AccountId, DispatchError, Origin};

verus! {

/// A key saved for a request is what `get_public_key` returns for it
/// afterwards.
pub proof fn law_saved_key_is_read_back(s: MpcStorage, who: AccountId, req_id: u64, data: Seq<u8>)
    requires
        s.inv(),
        !s.results.contains_key(req_id),
    ensures
        spec_save_key(s, Origin::Signed(who), req_id, data).1 == Ok::<(), DispatchError>(()),
        spec_save_key(s, Origin::Signed(who), req_id, data).0.public_key(req_id) == Some(data),
        spec_save_key(s, Origin::Signed(who), req_id, data).0.inv(),
{
}

/// A signature saved for a request leaves no public key under its id.
pub proof fn law_saved_signature_holds_no_key(
    s: MpcStorage,
    who: AccountId,
    req_id: u64,
    pk_id: u64,
    sig: Seq<u8>,
)
    requires
        s.inv(),
        s.requests.contains_key(req_id),
    ensures
        spec_save_sig(s, Origin::Signed(who), req_id, pk_id, sig).1 == Ok::<(), DispatchError>(()),
        spec_save_sig(s, Origin::Signed(who), req_id, pk_id, sig).0.public_key(req_id) == None::<
            Seq<u8>,
        >,
{
}

/// Every call that is not signed by an account is refused with `BadOrigin`
/// and changes nothing.
pub proof fn law_unsigned_calls_are_refused(
    s: MpcStorage,
    origin: Origin,
    req_id: u64,
    pk_id: u64,
    data: Seq<u8>,
    who: AccountId,
    call: CallView,
)
    requires
        signer_of(origin) is None,
    ensures
        spec_request_key(s, origin, req_id) == (s, Err::<(), DispatchError>(DispatchError::BadOrigin)),
        spec_request_sig(s, origin, req_id, pk_id, data) == (s, Err::<(), DispatchError>(
            DispatchError::BadOrigin,
        )),
        spec_save_key(s, origin, req_id, data) == (s, Err::<(), DispatchError>(
            DispatchError::BadOrigin,
        )),
        spec_save_sig(s, origin, req_id, pk_id, data) == (s, Err::<(), DispatchError>(
            DispatchError::BadOrigin,
        )),
        spec_add_authority(s, origin, who) == (s, Err::<(), DispatchError>(
            DispatchError::BadOrigin,
        )),
        spec_dispatch(s, origin, call) == (s, Err::<(), DispatchError>(DispatchError::BadOrigin)),
{
}

/// A refused call leaves the storage, its logs and its events as they were.
pub proof fn law_refused_calls_change_nothing(
    s: MpcStorage,
    origin: Origin,
    req_id: u64,
    pk_id: u64,
    data: Seq<u8>,
    call: CallView,
)
    ensures
        spec_request_key(s, origin, req_id).1 is Err ==> spec_request_key(s, origin, req_id).0 == s,
        spec_request_sig(s, origin, req_id, pk_id, data).1 is Err ==> spec_request_sig(
            s,
            origin,
            req_id,
            pk_id,
            data,
        ).0 == s,
        spec_dispatch(s, origin, call).1 is Err ==> spec_dispatch(s, origin, call).0 == s,
{
}

/// Once an id has an answer, no request can reuse it and no second answer
/// replaces the first.
pub proof fn law_answered_ids_are_final(
    s: MpcStorage,
    origin: Origin,
    req_id: u64,
    pk_id: u64,
    data: Seq<u8>,
    call: CallView,
)
    requires
        s.inv(),
        s.results.contains_key(req_id),
    ensures
        spec_request_key(s, origin, req_id).1 is Err,
        spec_request_sig(s, origin, req_id, pk_id, data).1 is Err,
        spec_save_key(s, origin, req_id, data).1 is Err,
        spec_save_sig(s, origin, req_id, pk_id, data).1 is Err,
        spec_dispatch(s, origin, call).0.results.contains_key(req_id),
        spec_dispatch(s, origin, call).0.results[req_id] == s.results[req_id],
{
}

/// A new request is pending until it is answered, and answering it clears it.
pub proof fn law_request_then_answer(
    s: MpcStorage,
    who: AccountId,
    responder: AccountId,
    req_id: u64,
    pk_id: u64,
    data: Seq<u8>,
    answer: Seq<u8>,
)
    requires
        s.inv(),
        !s.requests.contains_key(req_id),
        !s.results.contains_key(req_id),
    ensures
        ({
            let (s1, r1) = spec_request_key(s, Origin::Signed(who), req_id);
            let (s2, r2) = spec_save_key(s1, Origin::Signed(responder), req_id, answer);
            &&& r1 == Ok::<(), DispatchError>(())
            &&& s1.pending_req_ids.contains(req_id)
            &&& s1.requests[req_id] == MpcRequestView::KeyGen(req_id)
            &&& r2 == Ok::<(), DispatchError>(())
            &&& !s2.pending_req_ids.contains(req_id)
            &&& s2.active_key_ids.contains(req_id)
            &&& s2.public_key(req_id) == Some(answer)
        }),
        ({
            let (s1, r1) = spec_request_sig(s, Origin::Signed(who), req_id, pk_id, data);
            let (s2, r2) = spec_save_sig(s1, Origin::Signed(responder), req_id, pk_id, answer);
            &&& r1 == Ok::<(), DispatchError>(())
            &&& s1.requests[req_id] == MpcRequestView::SigGen(req_id, pk_id, data)
            &&& r2 == Ok::<(), DispatchError>(())
            &&& !s2.pending_req_ids.contains(req_id)
            &&& !s2.requests.contains_key(req_id)
        }),
{
}

/// The call the offchain worker builds from what it found for a key request
/// stores that value as the request's public key.
pub proof fn law_offchain_answer_is_stored(
    s: MpcStorage,
    who: AccountId,
    req_id: u64,
    value: Seq<u8>,
)
    requires
        s.inv(),
        !s.results.contains_key(req_id),
    ensures
        ({
            let call = spec_offchain_call(MpcRequestView::KeyGen(req_id), value);
            let (s1, r) = spec_dispatch(s, Origin::Signed(who), call);
            &&& r == Ok::<(), DispatchError>(())
            &&& s1.public_key(req_id) == Some(value)
        }),
{
}

/// A signature call the offchain worker submits answers the request it
/// names first: dispatching `SaveSig(req_id, pk_id, sig)` while `req_id` is
/// pending succeeds, stores that signature under `req_id` with the key id
/// `pk_id`, leaves `req_id` no longer pending, and leaves every other result
/// and request as it was.
pub proof fn law_dispatched_signature_answers_its_request(
    s: MpcStorage,
    who: AccountId,
    req_id: u64,
    pk_id: u64,
    sig: Seq<u8>,
)
    requires
        s.inv(),
        s.requests.contains_key(req_id),
    ensures
        ({
            let (s1, r) = spec_dispatch(s, Origin::Signed(who), CallView::SaveSig(req_id, pk_id, sig));
            &&& r == Ok::<(), DispatchError>(())
            &&& s1.results.contains_key(req_id)
            &&& s1.results[req_id] == (MpcResultView::SigGen { req_id, pk_id, sig })
            &&& !s1.pending_req_ids.contains(req_id)
            &&& !s1.requests.contains_key(req_id)
            &&& forall|id: u64| id != req_id ==> (s1.results.contains_key(id)
                == s.results.contains_key(id) && s1.requests.contains_key(id)
                == s.requests.contains_key(id))
        }),
{
}

/// An added authority is an authority afterwards.
pub proof fn law_added_authority_is_known(s: MpcStorage, signer: AccountId, who: AccountId)
    ensures
        spec_add_authority(s, Origin::Signed(signer), who).1 == Ok::<(), DispatchError>(()),
        spec_add_authority(s, Origin::Signed(signer), who).0.authorities.contains(who),
{
}

} // verus!
