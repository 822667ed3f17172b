use mpc_consensus::htlc_pallet::{HtlcModule, Owner};
use mpc_consensus::runtime::{DispatchError, Origin};

#[test]
fn created_token_is_known_and_cannot_be_created_again() {
    let mut m = HtlcModule::new();
    assert!(!m.token_exists(b"DOT"));
    assert_eq!(m.create_token(Origin::Signed(1), b"DOT".to_vec(), 16, Ok(())), Ok(()));
    assert!(m.token_exists(b"DOT"));
    assert_eq!(m.token_of(b"DOT"), Some(16));
    assert_eq!(
        m.create_token(Origin::Signed(2), b"DOT".to_vec(), 17, Ok(())),
        Err(DispatchError::TickerExists)
    );
    assert_eq!(m.token_of(b"DOT"), Some(16));
}

#[test]
fn token_creation_needs_a_signed_origin() {
    let mut m = HtlcModule::new();
    assert_eq!(
        m.create_token(Origin::Unsigned, b"KSM".to_vec(), 16, Ok(())),
        Err(DispatchError::BadOrigin)
    );
    assert!(!m.token_exists(b"KSM"));
}

#[test]
fn token_is_recorded_only_when_its_asset_was_created() {
    let mut m = HtlcModule::new();
    let refused = DispatchError::Module("asset id in use");
    assert_eq!(m.create_token(Origin::Signed(1), b"KSM".to_vec(), 16, Err(refused)), Err(refused));
    assert!(!m.token_exists(b"KSM"));
    assert_eq!(refused.message(), "asset id in use");
}

#[test]
fn created_asset_is_owned_by_its_creator() {
    let opts = HtlcModule::get_default_asset_options(5);
    assert_eq!(opts.initial_issuance, 0);
    assert_eq!(opts.permissions.update, Owner::Address(5));
    assert_eq!(opts.permissions.mint, Owner::Address(5));
    assert_eq!(opts.permissions.burn, Owner::Address(5));
    let m = HtlcModule::new();
    assert_eq!(m.prepare_create_token(Origin::Signed(5), b"X"), Ok((5, opts)));
}

#[test]
fn contract_needs_an_existing_token() {
    let mut m = HtlcModule::new();
    let hash = HtlcModule::hash_of(b"secret");
    assert_eq!(
        m.create_htlc(Origin::Signed(1), b"DOT", 2, 100, hash, 1000),
        Err(DispatchError::TickerNotFound)
    );
    assert_eq!(
        m.create_htlc(Origin::Root, b"DOT", 2, 100, hash, 1000),
        Err(DispatchError::BadOrigin)
    );
    m.create_token(Origin::Signed(1), b"DOT".to_vec(), 16, Ok(())).unwrap();
    assert_eq!(m.create_htlc(Origin::Signed(1), b"DOT", 2, 100, hash, 1000), Ok(16));
    assert!(!m.htlc_exists(&hash));
}

#[test]
fn secrets_are_hashed_with_sha256() {
    let empty = HtlcModule::hash_of(b"");
    assert_eq!(empty[..4], [0xe3, 0xb0, 0xc4, 0x42]);
    assert_eq!(empty[28..], [0x78, 0x52, 0xb8, 0x55]);
    let abc = HtlcModule::hash_of(b"abc");
    assert_eq!(abc[..4], [0xba, 0x78, 0x16, 0xbf]);
    assert_ne!(abc.to_vec(), b"abc".to_vec());
}

#[test]
fn remaining_calls_accept_signed_origins() {
    let m = HtlcModule::new();
    assert_eq!(m.mint(1, 2, 3), Ok(()));
    assert_eq!(m.claim(Origin::Signed(1), b"DOT", b"s"), Ok(()));
    assert_eq!(m.refund(Origin::Signed(1), [0; 32]), Ok(()));
    assert_eq!(m.do_something(Origin::Signed(1), 4), Ok(()));
    assert_eq!(m.do_something(Origin::Unsigned, 4), Err(DispatchError::BadOrigin));
}
