use mpc_consensus::mpc_pallet::{
    call_save_key, call_save_sig, offchain_lookup, offchain_requests, save_offchain_result, Call,
    Event, MpcModule, MpcResult,
};
use mpc_consensus::mpc_primitives::{ConsensusLog, MpcRequest, OffchainStorageType};
use mpc_consensus::runtime::{ensure_signed, DispatchError, Origin};

const ALICE: u64 = 1;
const BOB: u64 = 2;

#[test]
fn requested_key_is_logged_and_pending() {
    let mut m = MpcModule::new();
    assert_eq!(m.request_key(Origin::Signed(ALICE), 7), Ok(()));
    assert!(m.request_exists(7));
    assert!(!m.result_exists(7));
    assert!(matches!(m.request_of(7), Some(MpcRequest::KeyGen(7))));
    let logs = m.logs();
    assert_eq!(logs.len(), 1);
    assert!(matches!(logs[0], ConsensusLog::RequestForKey(7)));
    assert_eq!(m.events(), vec![Event::MpcRequest(7, ALICE)]);
}

#[test]
fn saved_key_is_read_back() {
    let mut m = MpcModule::new();
    m.request_key(Origin::Signed(ALICE), 7).unwrap();
    assert_eq!(m.save_key(Origin::Signed(BOB), 7, vec![4, 5, 6]), Ok(()));
    assert_eq!(m.get_public_key(7), Some(vec![4, 5, 6]));
    assert!(!m.request_exists(7));
    assert!(m.result_exists(7));
    match m.result_of(7) {
        Some(MpcResult::KeyGen { req_id, pk }) => {
            assert_eq!(req_id, 7);
            assert_eq!(pk, vec![4, 5, 6]);
        }
        other => panic!("unexpected result {:?}", other),
    }
    assert_eq!(m.events(), vec![Event::MpcRequest(7, ALICE), Event::MpcResponse(7, BOB)]);
}

#[test]
fn a_key_can_be_saved_without_a_request() {
    let mut m = MpcModule::new();
    assert_eq!(m.save_key(Origin::Signed(BOB), 3, vec![1]), Ok(()));
    assert_eq!(m.get_public_key(3), Some(vec![1]));
}

#[test]
fn request_ids_are_used_once() {
    let mut m = MpcModule::new();
    m.request_key(Origin::Signed(ALICE), 7).unwrap();
    assert_eq!(m.request_key(Origin::Signed(ALICE), 7), Err(DispatchError::ReqIdExists));
    assert_eq!(
        m.request_sig(Origin::Signed(ALICE), 7, 1, vec![9]),
        Err(DispatchError::ReqIdExists)
    );
    m.save_key(Origin::Signed(BOB), 7, vec![1]).unwrap();
    assert_eq!(m.request_key(Origin::Signed(ALICE), 7), Err(DispatchError::ReqIdExists));
    assert_eq!(m.logs().len(), 1);
}

#[test]
fn a_result_is_saved_once() {
    let mut m = MpcModule::new();
    m.save_key(Origin::Signed(BOB), 7, vec![1]).unwrap();
    assert_eq!(m.save_key(Origin::Signed(BOB), 7, vec![2]), Err(DispatchError::ResultExists));
    assert_eq!(m.get_public_key(7), Some(vec![1]));
}

#[test]
fn signature_answers_its_pending_request() {
    let mut m = MpcModule::new();
    m.save_key(Origin::Signed(BOB), 1234, vec![1, 1]).unwrap();
    assert_eq!(m.request_sig(Origin::Signed(ALICE), 1235, 1234, vec![1]), Ok(()));
    let logs = m.logs();
    assert!(matches!(&logs[0], ConsensusLog::RequestForSig(1235, 1234, d) if d == &vec![1]));
    assert_eq!(m.save_sig(Origin::Signed(BOB), 1235, 1234, vec![8, 8]), Ok(()));
    assert!(!m.request_exists(1235));
    assert_eq!(m.get_public_key(1235), None);
    match m.result_of(1235) {
        Some(MpcResult::SigGen { req_id, pk_id, sig }) => {
            assert_eq!((req_id, pk_id, sig), (1235, 1234, vec![8, 8]));
        }
        other => panic!("unexpected result {:?}", other),
    }
}

#[test]
fn signature_without_request_is_refused() {
    let mut m = MpcModule::new();
    assert_eq!(
        m.save_sig(Origin::Signed(BOB), 5, 1, vec![1]),
        Err(DispatchError::ReqIdNotFound)
    );
    m.request_sig(Origin::Signed(ALICE), 5, 1, vec![1]).unwrap();
    m.save_sig(Origin::Signed(BOB), 5, 1, vec![2]).unwrap();
    assert_eq!(
        m.save_sig(Origin::Signed(BOB), 5, 1, vec![3]),
        Err(DispatchError::ReqIdNotFound)
    );
}

#[test]
fn unsigned_calls_are_refused_and_change_nothing() {
    let mut m = MpcModule::new();
    for origin in [Origin::Root, Origin::Unsigned] {
        assert_eq!(m.request_key(origin, 1), Err(DispatchError::BadOrigin));
        assert_eq!(m.save_key(origin, 1, vec![1]), Err(DispatchError::BadOrigin));
        assert_eq!(m.request_sig(origin, 2, 1, vec![1]), Err(DispatchError::BadOrigin));
        assert_eq!(m.save_sig(origin, 2, 1, vec![1]), Err(DispatchError::BadOrigin));
        assert_eq!(m.add_authority(origin, 9), Err(DispatchError::BadOrigin));
    }
    assert!(m.logs().is_empty());
    assert!(m.events().is_empty());
    assert!(!m.request_exists(1));
    assert!(!m.result_exists(1));
    assert!(!m.is_authority(9));
}

#[test]
fn added_authority_is_known() {
    let mut m = MpcModule::new();
    assert!(!m.is_authority(BOB));
    assert_eq!(m.add_authority(Origin::Signed(ALICE), BOB), Ok(()));
    assert!(m.is_authority(BOB));
    assert_eq!(m.add_authority(Origin::Signed(ALICE), BOB), Ok(()));
    assert!(m.is_authority(BOB));
    assert!(!m.is_authority(ALICE));
}

#[test]
fn dispatch_runs_the_call() {
    let mut m = MpcModule::new();
    assert_eq!(m.dispatch(Origin::Signed(BOB), call_save_key(4, vec![3])), Ok(()));
    assert_eq!(m.get_public_key(4), Some(vec![3]));
    assert_eq!(
        m.dispatch(Origin::Signed(BOB), call_save_sig(5, 4, vec![3])),
        Err(DispatchError::ReqIdNotFound)
    );
    assert_eq!(
        m.dispatch(Origin::Unsigned, call_save_key(6, vec![3])),
        Err(DispatchError::BadOrigin)
    );
}

#[test]
fn logs_are_deposited_in_order() {
    let mut m = MpcModule::new();
    m.send_keygen_log(3);
    m.send_siggen_log(4, 3, vec![1, 2]);
    m.deposit_log(ConsensusLog::RequestForKey(5));
    let logs = m.logs();
    assert_eq!(logs.len(), 3);
    assert!(matches!(logs[0], ConsensusLog::RequestForKey(3)));
    assert!(matches!(&logs[1], ConsensusLog::RequestForSig(4, 3, d) if d == &vec![1, 2]));
    assert!(matches!(logs[2], ConsensusLog::RequestForKey(5)));
    assert!(m.events().is_empty());
    assert!(!m.request_exists(3));
}

#[test]
fn offchain_worker_answers_key_request_1234() {
    let reqs = offchain_requests();
    assert_eq!(reqs.len(), 1);
    assert!(matches!(reqs[0], MpcRequest::KeyGen(1234)));
    assert_eq!(offchain_lookup(&reqs[0]), (1234, OffchainStorageType::SharedPublicKey));
    assert_eq!(
        offchain_lookup(&MpcRequest::SigGen(9, 1234, vec![1])),
        (9, OffchainStorageType::Signature)
    );
}

#[test]
fn offchain_result_becomes_the_saving_call() {
    let key_req = MpcRequest::KeyGen(1234);
    assert!(save_offchain_result(&key_req, None).is_none());
    match save_offchain_result(&key_req, Some(vec![2, 2])) {
        Some(Call::SaveKey(id, pk)) => assert_eq!((id, pk), (1234, vec![2, 2])),
        other => panic!("unexpected call {:?}", other),
    }
    let sig_req = MpcRequest::SigGen(9, 1234, vec![1]);
    match save_offchain_result(&sig_req, Some(vec![3])) {
        Some(Call::SaveSig(id, pk_id, sig)) => assert_eq!((id, pk_id, sig), (9, 1234, vec![3])),
        other => panic!("unexpected call {:?}", other),
    }
}

#[test]
fn offchain_answer_is_stored_on_chain() {
    let mut m = MpcModule::new();
    m.request_key(Origin::Signed(ALICE), 1234).unwrap();
    let call = save_offchain_result(&MpcRequest::KeyGen(1234), Some(vec![7; 65])).unwrap();
    assert_eq!(m.dispatch(Origin::Signed(BOB), call), Ok(()));
    assert_eq!(m.get_public_key(1234), Some(vec![7; 65]));
}

#[test]
fn every_dispatch_error_has_its_message() {
    assert_eq!(DispatchError::BadOrigin.message(), "bad origin: expected to be a signed origin");
    assert_eq!(DispatchError::ReqIdExists.message(), "req id exists");
    assert_eq!(DispatchError::ResultExists.message(), "result exists for the req id");
    assert_eq!(DispatchError::ReqIdNotFound.message(), "req id does not exist");
    assert_eq!(DispatchError::TickerExists.message(), "ticker already exists");
    assert_eq!(DispatchError::TickerNotFound.message(), "ticker does not exist!");
}

#[test]
fn only_signed_origins_have_a_signer() {
    assert_eq!(ensure_signed(Origin::Signed(5)), Ok(5));
    assert_eq!(ensure_signed(Origin::Root), Err(DispatchError::BadOrigin));
    assert_eq!(ensure_signed(Origin::Unsigned), Err(DispatchError::BadOrigin));
}

#[test]
fn consensus_log_becomes_its_request() {
    assert!(matches!(ConsensusLog::RequestForKey(3).to_request(), MpcRequest::KeyGen(3)));
    let r = ConsensusLog::RequestForSig(4, 3, vec![1]).to_request();
    assert!(matches!(&r, MpcRequest::SigGen(4, 3, d) if d == &vec![1]));
    assert_eq!(r.req_id(), 4);
    assert!(matches!(r.duplicate(), MpcRequest::SigGen(4, 3, _)));
}
