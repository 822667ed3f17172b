use std::collections::BTreeMap;

use hbbft::crypto::{PublicKey, SecretKey};
use hbbft::sync_key_gen::{Part, SyncKeyGen};

use mpc_consensus::hbbft_message::{InstanceId, KeyGenMessage};
use mpc_consensus::hbbft_peer::NodeId;
use mpc_consensus::scale::{frame, unframe};

#[test]
fn test_message_encode_decode() {
    let (threshold, node_num) = (1, 4);

    // Individual key pairs for encryption; these are not suitable for threshold schemes.
    let sec_keys: Vec<SecretKey> = (0..node_num).map(|_| SecretKey::random()).collect();
    let pub_keys: BTreeMap<usize, PublicKey> = sec_keys
        .iter()
        .map(SecretKey::public_key)
        .enumerate()
        .collect();

    let sk = sec_keys[0].clone();
    let skg = SyncKeyGen::new(0, sk, pub_keys.clone(), threshold, &mut rand::thread_rng()).unwrap();
    let kgm = KeyGenMessage::Part(skg.1.unwrap());

    let serialized = match &kgm {
        KeyGenMessage::Part(part) => bincode::serialize(part).unwrap(),
        KeyGenMessage::Ack(ack) => bincode::serialize(ack).unwrap(),
    };
    let encoded: Vec<u8> = KeyGenMessage::encode_serialized(&serialized);
    let decoded_bytes = KeyGenMessage::decode_serialized(encoded.as_slice()).unwrap();
    let decoded = KeyGenMessage::Part(bincode::deserialize::<Part>(&decoded_bytes).unwrap());

    match (kgm, decoded) {
        (KeyGenMessage::Part(a), KeyGenMessage::Part(b)) => assert_eq!(a, b),
        _ => panic!("the message changed its kind"),
    }
}

#[test]
fn framing_short_payload_has_one_length_byte() {
    assert_eq!(frame(&[1, 2, 3]), vec![12, 1, 2, 3]);
    assert_eq!(frame(&[]), vec![0]);
}

#[test]
fn framing_uses_two_length_bytes_from_64() {
    let payload = vec![7u8; 64];
    let framed = frame(&payload);
    assert_eq!(&framed[..2], &[1, 1]);
    assert_eq!(framed.len(), 66);
    assert_eq!(&framed[2..], payload.as_slice());
}

#[test]
fn framing_uses_four_length_bytes_from_16384() {
    let payload = vec![9u8; 16384];
    let framed = frame(&payload);
    assert_eq!(&framed[..4], &[2, 0, 1, 0]);
    assert_eq!(framed.len(), 16388);
}

#[test]
fn unframing_reads_the_prefix_and_ignores_the_rest() {
    assert_eq!(unframe(&[12, 1, 2, 3, 99, 98]), Some(vec![1, 2, 3]));
    assert_eq!(unframe(&[0]), Some(vec![]));
}

#[test]
fn unframing_refuses_truncated_input() {
    assert_eq!(unframe(&[12, 1, 2]), None);
    assert_eq!(unframe(&[]), None);
}

#[test]
fn unframing_inverts_framing() {
    let payload: Vec<u8> = (0..200u32).map(|x| (x * 7 % 256) as u8).collect();
    let mut framed = frame(&payload);
    framed.extend_from_slice(&[5, 5, 5]);
    assert_eq!(unframe(&framed), Some(payload));
}

#[test]
fn decode_serialized_refuses_garbage() {
    assert!(KeyGenMessage::decode_serialized(&[40, 1]).is_none());
}

fn sample_multihash() -> Vec<u8> {
    // identity hash (code 0x00) with a 4-byte digest
    vec![0x00, 0x04, 1, 2, 3, 4]
}

#[test]
fn node_id_accepts_a_multihash_and_round_trips() {
    let id = NodeId::from_peer_bytes(sample_multihash()).unwrap();
    assert_eq!(id.as_bytes(), sample_multihash().as_slice());
    let encoded = id.encode();
    assert_eq!(encoded[0], 24);
    let back = NodeId::decode(&encoded).unwrap();
    assert!(back.same(&id));
    let instance = InstanceId::Node(back);
    assert!(matches!(instance, InstanceId::Node(_)));
}

#[test]
fn node_id_refuses_bytes_that_are_no_multihash() {
    assert!(NodeId::from_peer_bytes(vec![0x00, 0x05, 1, 2]).is_none());
    assert!(NodeId::from_peer_bytes(vec![]).is_none());
    assert!(NodeId::decode(&frame(&[0x00, 0x05, 1])).is_none());
}

#[test]
fn node_ids_are_ordered_by_their_bytes() {
    let a = NodeId::from_peer_bytes(vec![0x00, 0x01, 1]).unwrap();
    let b = NodeId::from_peer_bytes(vec![0x00, 0x01, 2]).unwrap();
    assert_eq!(a.compare(&b), std::cmp::Ordering::Less);
    assert_eq!(b.compare(&a), std::cmp::Ordering::Greater);
    assert_eq!(a.compare(&a.duplicate()), std::cmp::Ordering::Equal);
}
