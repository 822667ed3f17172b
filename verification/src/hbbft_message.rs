use vstd::prelude::*;

use hbbft::sync_key_gen::{Ack, Part};

use crate::hbbft_peer::NodeId;
use crate::scale::{decodes_to, frame, scale_bytes, unframe};

verus! {

#[verifier::external_type_specification]
#[verifier::external_body]
pub struct ExPart(Part);

#[verifier::external_type_specification]
#[verifier::external_body]
pub struct ExAck(Ack);

/// A message of the synchronous key generation of the consensus: a node's
/// part, or its acknowledgement of another's.
#[derive(Debug)]
pub enum KeyGenMessage {
    Part(Part),
    Ack(Ack),
}

/// Which key generation a message belongs to.
#[derive(Debug)]
pub enum InstanceId {
    Builtin,
    Node(NodeId),
}

impl KeyGenMessage {
    /// The wire form of a message whose bincode serialization is
    /// `serialized`: the serialization framed as a SCALE byte string.
    pub fn encode_serialized(serialized: &[u8]) -> (r: Vec<u8>)
        requires
            serialized@.len() <= u32::MAX,
        ensures
            r@ == scale_bytes(serialized@),
    {
        frame(serialized)
    }

    /// The bincode serialization of the message at the start of `input`, if
    /// one is framed there.
    pub fn decode_serialized(input: &[u8]) -> (r: Option<Vec<u8>>)
        ensures
            decodes_to(
                input@,
                match r {
                    Some(v) => Some(v@),
                    None => None,
                },
            ),
    {
        unframe(input)
    }
}

} // verus!
