use mpc_consensus::keygen::KeyGenState;
use mpc_consensus::mpc_primitives::{ConsensusLog, MpcRequest};
use mpc_consensus::mpc_work::{
    handle_command, mpc_node_config, on_worker_outcome, requests_for_block, Error, PollDecision,
    WorkAction,
};

#[test]
fn node_runs_one_of_three() {
    let cfg = mpc_node_config();
    assert_eq!((cfg.duration, cfg.threshold, cfg.players), (1, 1, 3));
}

#[test]
fn key_request_starts_a_key_generation() {
    let mut state = KeyGenState::default();
    assert_eq!(handle_command(&mut state, MpcRequest::KeyGen(77)), WorkAction::StartKeyGen(77));
    assert_eq!(state.req_id, 77);
    assert_eq!(
        handle_command(&mut state, MpcRequest::SigGen(78, 77, vec![1])),
        WorkAction::FetchPublicKey(77)
    );
    assert_eq!(state.req_id, 77);
}

#[test]
fn rebuild_outcome_rebuilds_and_others_finish() {
    assert!(matches!(on_worker_outcome(None), PollDecision::Pending));
    assert!(matches!(on_worker_outcome(Some(Err(Error::Rebuild))), PollDecision::Rebuild));
    assert!(matches!(on_worker_outcome(Some(Ok(()))), PollDecision::Finish(Ok(()))));
    assert!(matches!(
        on_worker_outcome(Some(Err(Error::Network("gone".to_string())))),
        PollDecision::Finish(Err(Error::Network(ref s))) if s == "gone"
    ));
    assert!(matches!(
        on_worker_outcome(Some(Err(Error::Periodic))),
        PollDecision::Finish(Err(Error::Periodic))
    ));
}

#[test]
fn fixed_requests_come_at_blocks_two_and_five() {
    let none: Vec<ConsensusLog> = Vec::new();
    let at2 = requests_for_block(2, &none);
    assert_eq!(at2.len(), 1);
    assert!(matches!(at2[0], MpcRequest::KeyGen(1234)));
    let at5 = requests_for_block(5, &none);
    assert_eq!(at5.len(), 1);
    assert!(matches!(&at5[0], MpcRequest::SigGen(1235, 1234, d) if d == &vec![1]));
    assert!(requests_for_block(3, &none).is_empty());
}

#[test]
fn first_log_of_a_block_becomes_a_request() {
    let logs = vec![ConsensusLog::RequestForKey(9), ConsensusLog::RequestForKey(10)];
    let reqs = requests_for_block(7, &logs);
    assert_eq!(reqs.len(), 1);
    assert!(matches!(reqs[0], MpcRequest::KeyGen(9)));
    let at2 = requests_for_block(2, &vec![ConsensusLog::RequestForSig(4, 9, vec![2])]);
    assert_eq!(at2.len(), 2);
    assert!(matches!(&at2[1], MpcRequest::SigGen(4, 9, d) if d == &vec![2]));
}
