use vstd::prelude::*;

verus! {

/// The SCALE compact encoding of a length `n` (at most `u32::MAX`): one
/// byte for `n < 2^6`, two little-endian bytes of `4n + 1` for `n < 2^14`,
/// four little-endian bytes of `4n + 2` for `n < 2^30`, and otherwise the
/// byte 3 followed by the four little-endian bytes of `n`.
pub open spec fn compact_prefix(n: nat) -> Seq<u8> {
    if n < 64 {
        seq![(n * 4) as u8]
    } else if n < 0x4000 {
        let v = n * 4 + 1;
        seq![(v % 256) as u8, (v / 256) as u8]
    } else if n < 0x4000_0000 {
        let v = n * 4 + 2;
        seq![(v % 256) as u8, ((v / 256) % 256) as u8, ((v / 0x1_0000) % 256) as u8, (v / 0x100_0000) as u8]
    } else {
        seq![3u8, (n % 256) as u8, ((n / 256) % 256) as u8, ((n / 0x1_0000) % 256) as u8, (n / 0x100_0000) as u8]
    }
}

/// The SCALE encoding of a byte string: its compact length, then its bytes.
pub open spec fn scale_bytes(p: Seq<u8>) -> Seq<u8> {
    compact_prefix(p.len()) + p
}

/// Calls `parity_scale_codec::Encode::encode` on a byte slice: the compact
/// encoding of its length followed by its bytes. The codec panics on slices
/// longer than `u32::MAX`.
#[verifier::external_body]
pub(crate) fn encode_bytes(payload: &[u8]) -> (r: Vec<u8>)
    requires
        payload@.len() <= u32::MAX,
    ensures
        r@ == scale_bytes(payload@),
{
    parity_scale_codec::Encode::encode(payload)
}

/// What decoding `input` may give: input that begins with the encoding of
/// `p` gives `p`; whatever decodes was encoded at the start of the input.
pub open spec fn decodes_to(input: Seq<u8>, r: Option<Seq<u8>>) -> bool {
    &&& forall|p: Seq<u8>, rest: Seq<u8>|
        p.len() <= u32::MAX && input == #[trigger] (scale_bytes(p) + rest) ==> r == Some(p)
    &&& r matches Some(v) ==> v.len() <= u32::MAX && scale_bytes(v).len() <= input.len() && input
        == scale_bytes(v) + input.skip(scale_bytes(v).len() as int)
}

/// Decoding has one outcome.
pub proof fn lemma_decodes_to_unique(input: Seq<u8>, a: Option<Seq<u8>>, b: Option<Seq<u8>>)
    requires
        decodes_to(input, a),
        decodes_to(input, b),
    ensures
        a == b,
{
    match a {
        Some(v) => {
            let rest = input.skip(scale_bytes(v).len() as int);
            assert(input == scale_bytes(v) + rest);
        },
        None => {},
    }
    match b {
        Some(v) => {
            let rest = input.skip(scale_bytes(v).len() as int);
            assert(input == scale_bytes(v) + rest);
        },
        None => {},
    }
}

/// Calls `<Vec<u8> as parity_scale_codec::Decode>::decode` on `input`: reads
/// a canonical compact length, then that many bytes, and leaves the rest of
/// the input unread. Claims that input that begins with an encoding decodes
/// to its bytes, and that whatever decodes was so encoded.
#[verifier::external_body]
pub(crate) fn decode_bytes(input: &[u8]) -> (r: Option<Vec<u8>>)
    ensures
        decodes_to(
            input@,
            match r {
                Some(v) => Some(v@),
                None => None,
            },
        ),
{
    <Vec<u8> as parity_scale_codec::Decode>::decode(&mut &input[..]).ok()
}

/// Frames a byte string as SCALE does.
pub fn frame(payload: &[u8]) -> (r: Vec<u8>)
    requires
        payload@.len() <= u32::MAX,
    ensures
        r@ == scale_bytes(payload@),
{
    encode_bytes(payload)
}

/// The byte string framed at the start of `input`, if one is.
pub fn unframe(input: &[u8]) -> (r: Option<Vec<u8>>)
    ensures
        decodes_to(
            input@,
            match r {
                Some(v) => Some(v@),
                None => None,
            },
        ),
{
    decode_bytes(input)
}

/// Unframing gives back what was framed, also when more bytes follow.
pub proof fn law_unframe_inverts_frame(p: Seq<u8>, rest: Seq<u8>, r: Option<Seq<u8>>)
    requires
        p.len() <= u32::MAX,
        decodes_to(scale_bytes(p) + rest, r),
    ensures
        r == Some(p),
{
}

} // verus!
