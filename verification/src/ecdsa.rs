use vstd::prelude::*;

use curv::arithmetic::Converter;
use curv::cryptographic_primitives::secret_sharing::feldman_vss::VerifiableSS;
use curv::elliptic::curves::Secp256k1;
use serde_json::{from_slice as de, to_vec as ser};
use multi_party_ecdsa::protocols::multi_party_ecdsa::gg_2018::party_i::{
    KeyGenBroadcastMessage1 as Commit, KeyGenDecommitMessage1 as Decommit, Keys,
    Parameters as EcdsaParameters, SharedKeys,
};

use crate::mpc_gossip::Parameters;

verus! {

/// A party's own key for the key generation: its index, and the key itself
/// serialized as JSON, the form in which every protocol value is held
/// (bincode cannot read curv's points and scalars back: their deserializers
/// accept only a map, and bincode hands them a sequence). Only
/// `create_keys` makes one, so the bytes always hold a key that
/// `Keys::create` drew for that index.
#[derive(Clone, Debug)]
pub struct LocalKey {
    party_index: u16,
    keys: Vec<u8>,
}

impl View for LocalKey {
    type V = (u16, Seq<u8>);

    closed spec fn view(&self) -> (u16, Seq<u8>) {
        (self.party_index, self.keys@)
    }
}

impl LocalKey {
    /// The index of the party the key was drawn for.
    pub fn party_index(&self) -> (r: u16)
        ensures
            r == self@.0,
    {
        self.party_index
    }

    /// The key, serialized as JSON.
    pub fn keys(&self) -> (r: &[u8])
        ensures
            r@ == self@.1,
    {
        self.keys.as_slice()
    }
}

/// The byte strings of a list, taken by view.
pub open spec fn byte_seqs(v: Seq<Vec<u8>>) -> Seq<Seq<u8>> {
    v.map_values(|x: Vec<u8>| x@)
}

/// Names whether `multi_party_ecdsa`'s `DLogProof::verify` accepts the proof
/// that `proof` holds as JSON; false when the bytes do not decode.
pub uninterp spec fn dlog_proof_verifies(proof: Seq<u8>) -> bool;

/// Names whether `decommit` decodes from JSON as a key generation
/// decommitment.
pub uninterp spec fn decommit_decodes(decommit: Seq<u8>) -> bool;

/// Names the uncompressed encoding of the shared public key `y` that
/// `shared_keys` holds as JSON; none when the bytes do not decode.
pub uninterp spec fn shared_public_key_of(shared_keys: Seq<u8>) -> Option<Seq<u8>>;

/// Calls `Keys::create(index)`, which draws a fresh random key for the party
/// at `index`, and serializes it to JSON, which does not fail for a key (its
/// fields are a scalar, a point, Paillier keys and an integer). Claims that a
/// key comes back and carries `index`: what `create` stores as
/// `party_index`.
#[verifier::external_body]
pub(crate) fn create_keys(index: u16) -> (r: Option<LocalKey>)
    ensures
        r is Some,
        r matches Some(k) ==> k@.0 == index,
{
    let keys = Keys::create(index);
    match ser(&keys) {
        Ok(bytes) => Some(LocalKey { party_index: keys.party_index, keys: bytes }),
        Err(_) => None,
    }
}

/// Names the public share `y_i` of the key that `keys` holds as JSON,
/// written back as JSON.
pub uninterp spec fn key_public_share_of(keys: Seq<u8>) -> Seq<u8>;

/// Names whether the commitment and the decommitment decode from JSON and
/// the hash commitment of the decommitment's public share with its blinding
/// factor (`HashCommitment::create_commitment_with_user_defined_randomness`)
/// is the commitment's `com`: whether the decommitment opens the commitment.
pub uninterp spec fn decommit_opens(commit: Seq<u8>, decommit: Seq<u8>) -> bool;

/// Calls `Keys::phase1_broadcast_phase3_proof_of_correct_key`, which commits
/// to the party's public share with a random blinding factor and proves its
/// Paillier key correct; returns the commitment and the decommitment
/// serialized. The key was drawn by `Keys::create` and reads back from its
/// JSON, and the messages serialize, so both come back. The blinding factor
/// is random, but whatever it is, the decommitment carries the key's public
/// share and opens the commitment, which is the hash of that share and that
/// factor.
#[verifier::external_body]
pub(crate) fn broadcast_commitment(key: &LocalKey) -> (r: Option<(Vec<u8>, Vec<u8>)>)
    ensures
        r is Some,
        r matches Some((c, d)) ==> decommit_opens(c@, d@),
        r matches Some((c, d)) ==> decommit_point_of(d@) == Some(key_public_share_of(key@.1)),
{
    let keys: Keys = de(&key.keys).ok()?;
    let (commit, decommit) = keys.phase1_broadcast_phase3_proof_of_correct_key();
    Some((ser(&commit).ok()?, ser(&decommit).ok()?))
}

/// Names the decimal text, as ASCII bytes, of the Paillier modulus `e.n` and
/// of each root in `correct_key_proof.sigma_vec` of the key generation
/// commitment that `commit` holds as JSON; none when the bytes are no
/// commitment.
pub uninterp spec fn commit_fields_of(commit: Seq<u8>) -> Option<(Seq<u8>, Seq<Seq<u8>>)>;

/// Reads a commitment from JSON and writes out its Paillier modulus and the
/// roots of its correct-key proof in decimal.
#[verifier::external_body]
pub(crate) fn read_commit(commit: &[u8]) -> (r: Option<(Vec<u8>, Vec<Vec<u8>>)>)
    ensures
        match r {
            Some((n, roots)) => commit_fields_of(commit@) == Some((n@, byte_seqs(roots@))),
            None => commit_fields_of(commit@) is None,
        },
{
    let c: Commit = de(commit).ok()?;
    let roots = c.correct_key_proof.sigma_vec.iter().map(|x| x.to_str_radix(10).into_bytes()).collect();
    Some((c.e.n.to_str_radix(10).into_bytes(), roots))
}

/// The number of roots that zk-paillier's check of a correct-key proof reads.
pub const CORRECT_KEY_ROOTS: usize = 11;

/// Whether a decimal text is that of a positive integer.
pub open spec fn positive_decimal(t: Seq<u8>) -> bool {
    t.len() > 0 && t[0] != 45u8 && t != seq![48u8]
}

/// Whether zk-paillier can check the commitment without failing: it decodes,
/// its Paillier modulus is positive, and its proof has every root the check
/// reads.
pub open spec fn commit_checkable(commit: Seq<u8>) -> bool {
    match commit_fields_of(commit) {
        Some((n, roots)) => positive_decimal(n) && roots.len() >= CORRECT_KEY_ROOTS,
        None => false,
    }
}

/// Whether every commitment can be checked.
pub fn commits_checkable(commits: &Vec<Vec<u8>>) -> (r: bool)
    ensures
        r == forall|i: int| 0 <= i < commits@.len() ==> commit_checkable(#[trigger] commits@[i]@),
{
    let n = commits.len();
    for i in 0..n
        invariant
            n == commits@.len(),
            forall|j: int| 0 <= j < i ==> commit_checkable(#[trigger] commits@[j]@),
    {
        let ok = match read_commit(commits[i].as_slice()) {
            Some((m, roots)) => m.len() > 0 && m[0] != 45u8 && !(m.len() == 1 && m[0] == 48u8)
                && roots.len() >= CORRECT_KEY_ROOTS,
            None => false,
        };
        if !ok {
            proof {
                match commit_fields_of(commits@[i as int]@) {
                    Some((m, _)) => {
                        if m.len() == 1 && m[0] == 48u8 {
                            assert(m == seq![48u8]);
                        }
                    },
                    None => {},
                }
            }
            return false;
        }
        proof {
            match commit_fields_of(commits@[i as int]@) {
                Some((m, _)) => {
                    if m == seq![48u8] {
                        assert(m.len() == 1 && m[0] == 48u8);
                    }
                },
                None => {},
            }
        }
    }
    true
}

/// Names whether the key, the decommitments and the commitments decode from
/// JSON and `Keys::phase1_verify_com_phase3_verify_correct_key_phase2_distribute`
/// accepts them with `threshold` and `share_count`: every decommitment opens
/// its commitment and every correct-key proof verifies.
pub uninterp spec fn dealing_accepted(
    keys: Seq<u8>,
    threshold: u16,
    share_count: u16,
    decommits: Seq<Seq<u8>>,
    commits: Seq<Seq<u8>>,
) -> bool;

/// Names whether the secret sharing scheme and the share decode from JSON
/// and `VerifiableSS::validate_share` accepts the share for the party at
/// `index` (counted from one).
pub uninterp spec fn share_valid(vss: Seq<u8>, share: Seq<u8>, index: u16) -> bool;

/// Calls `Keys::phase1_verify_com_phase3_verify_correct_key_phase2_distribute`,
/// which checks every party's commitment and deals the party's secret into
/// `share_count` random shares. The function asserts that both lists hold
/// `share_count` entries and that `threshold < share_count`, and the check of
/// a commitment that opens fails unless the commitment is checkable. Claims
/// that a dealing comes back exactly when the inputs are accepted (serializing
/// the scheme and shares does not fail), with one share per party and the
/// key's index. The scheme and the shares are random, but the shares are the
/// random polynomial's values at `1..=share_count` and the scheme commits to
/// its coefficients, so each share checks against the scheme at its party's
/// index.
#[verifier::external_body]
pub(crate) fn distribute_shares(
    key: &LocalKey,
    params: Parameters,
    decommits: &Vec<Vec<u8>>,
    commits: &Vec<Vec<u8>>,
) -> (r: Option<(Vec<u8>, Vec<Vec<u8>>, u16)>)
    requires
        decommits@.len() == params.share_count,
        commits@.len() == params.share_count,
        params.threshold < params.share_count,
        forall|i: int| 0 <= i < commits@.len() ==> commit_checkable(#[trigger] commits@[i]@),
    ensures
        r is Some <==> dealing_accepted(
            key@.1,
            params.threshold,
            params.share_count,
            byte_seqs(decommits@),
            byte_seqs(commits@),
        ),
        r matches Some((_, shares, index)) ==> shares@.len() == params.share_count && index
            == key@.0,
        r matches Some((vss, shares, _)) ==> forall|j: int|
            0 <= j < shares@.len() ==> share_valid(vss@, #[trigger] shares@[j]@, (j + 1) as u16),
{
    let k: Keys = de(&key.keys).ok()?;
    let d: Vec<_> = decommits.iter().map(|x| de(x)).collect::<Result<_, _>>().ok()?;
    let c: Vec<_> = commits.iter().map(|x| de(x)).collect::<Result<_, _>>().ok()?;
    let p = EcdsaParameters { threshold: params.threshold, share_count: params.share_count };
    let (v, s, i) = k.phase1_verify_com_phase3_verify_correct_key_phase2_distribute(&p, &d, &c).ok()?;
    Some((ser(&v).ok()?, s.iter().map(ser).collect::<Result<_, _>>().ok()?, i))
}

/// Names the public share `y_i` of the decommitment that `decommit` holds
/// as JSON, written back as JSON; none when the bytes are no decommitment.
pub uninterp spec fn decommit_point_of(decommit: Seq<u8>) -> Option<Seq<u8>>;

/// Reads a decommitment from JSON and writes back its public share `y_i`.
/// Writing a point to JSON does not fail (its serialization is a curve name
/// and bytes), so the share comes back exactly when the bytes decode.
#[verifier::external_body]
pub(crate) fn decommit_point(decommit: &[u8]) -> (r: Option<Vec<u8>>)
    ensures
        match r {
            Some(p) => decommit_point_of(decommit@) == Some(p@),
            None => decommit_point_of(decommit@) is None,
        },
        r is Some <==> decommit_decodes(decommit@),
{
    ser(&de::<Decommit>(decommit).ok()?.y_i).ok()
}

/// Names the compressed encodings of the point commitments of the secret
/// sharing scheme that `vss` holds as JSON; none when the bytes are no
/// scheme.
pub uninterp spec fn vss_commitments_of(vss: Seq<u8>) -> Option<Seq<Seq<u8>>>;

/// Reads a secret sharing scheme from JSON and writes out its point
/// commitments.
#[verifier::external_body]
pub(crate) fn read_vss_commitments(vss: &[u8]) -> (r: Option<Vec<Vec<u8>>>)
    ensures
        match r {
            Some(c) => vss_commitments_of(vss@) == Some(byte_seqs(c@)),
            None => vss_commitments_of(vss@) is None,
        },
{
    let v: VerifiableSS<Secp256k1> = de(vss).ok()?;
    Some(v.commitments.iter().map(|p| p.to_bytes(true).to_vec()).collect())
}

/// Whether a share can be checked against the scheme: it decodes and holds a
/// commitment, the first of which the check reads.
pub open spec fn vss_checkable(vss: Seq<u8>) -> bool {
    vss_commitments_of(vss) matches Some(c) && c.len() > 0
}

/// Whether every scheme can be checked.
pub fn vsss_checkable(vsss: &Vec<Vec<u8>>) -> (r: bool)
    ensures
        r == forall|i: int| 0 <= i < vsss@.len() ==> vss_checkable(#[trigger] vsss@[i]@),
{
    let n = vsss.len();
    for i in 0..n
        invariant
            n == vsss@.len(),
            forall|j: int| 0 <= j < i ==> vss_checkable(#[trigger] vsss@[j]@),
    {
        let ok = match read_vss_commitments(vsss[i].as_slice()) {
            Some(c) => c.len() > 0,
            None => false,
        };
        if !ok {
            return false;
        }
    }
    true
}

/// Names the shared keys, as JSON, that
/// `Keys::phase2_verify_vss_construct_keypair_phase3_pok_dlog` constructs
/// for the party at `index` (counted from one) when the key, the public
/// shares, the secret shares and the schemes decode and every share is valid
/// for its scheme and public share; none otherwise. The shared keys are the
/// sums of the public and of the secret shares, so they depend on these
/// arguments alone.
pub uninterp spec fn keypair_of(
    keys: Seq<u8>,
    threshold: u16,
    share_count: u16,
    points: Seq<Seq<u8>>,
    secret_shares: Seq<Seq<u8>>,
    vsss: Seq<Seq<u8>>,
    index: u16,
) -> Option<Seq<u8>>;

/// Calls `Keys::phase2_verify_vss_construct_keypair_phase3_pok_dlog` with the
/// party's key, `threshold` and `share_count` parties: it checks the received shares
/// against the schemes, sums them into the party's share of the key and
/// proves knowledge of it with a random proof. The function asserts that the
/// three lists hold `share_count` entries, and reads the first commitment of every
/// scheme. Claims that the shared keys come back exactly as named; the proof
/// is random, but it is an honest proof of knowledge of the party's share,
/// so it verifies.
#[verifier::external_body]
pub(crate) fn construct_keypair(
    key: &LocalKey,
    threshold: u16,
    share_count: u16,
    points: &Vec<Vec<u8>>,
    secret_shares: &Vec<Vec<u8>>,
    vsss: &Vec<Vec<u8>>,
    index: u16,
) -> (r: Option<(Vec<u8>, Vec<u8>)>)
    requires
        points@.len() == share_count,
        secret_shares@.len() == share_count,
        vsss@.len() == share_count,
        forall|i: int| 0 <= i < vsss@.len() ==> vss_checkable(#[trigger] vsss@[i]@),
    ensures
        keypair_of(
            key@.1,
            threshold,
            share_count,
            byte_seqs(points@),
            byte_seqs(secret_shares@),
            byte_seqs(vsss@),
            index,
        ) == match r {
            Some((sk, _)) => Some(sk@),
            None => None,
        },
        r matches Some((_, proof)) ==> dlog_proof_verifies(proof@),
{
    let k: Keys = de(&key.keys).ok()?;
    let y = points.iter().map(|x| de(x).ok()).collect::<Option<Vec<_>>>()?;
    let s = secret_shares.iter().map(|x| de(x).ok()).collect::<Option<Vec<_>>>()?;
    let v = vsss.iter().map(|x| de(x).ok()).collect::<Option<Vec<_>>>()?;
    let p = &EcdsaParameters { threshold, share_count };
    let (sk, pf) = k.phase2_verify_vss_construct_keypair_phase3_pok_dlog(p, &y, &s, &v, index).ok()?;
    Some((ser(&sk).ok()?, ser(&pf).ok()?))
}

/// Calls `Keys::verify_dlog_proofs`, which accepts when every proof
/// verifies; it asserts that both lists hold `share_count` entries and reads
/// nothing of the public shares but their number. Claims exactly that, with
/// values that do not decode counted as failures.
#[verifier::external_body]
pub(crate) fn verify_dlog_proofs(
    params: Parameters,
    proofs: &Vec<Vec<u8>>,
    decommits: &Vec<Vec<u8>>,
) -> (r: bool)
    requires
        proofs@.len() == params.share_count,
        decommits@.len() == params.share_count,
    ensures
        r == ((forall|i: int| 0 <= i < proofs@.len() ==> dlog_proof_verifies(#[trigger] proofs@[i]@))
            && (forall|i: int| 0 <= i < decommits@.len() ==> decommit_decodes(#[trigger] decommits@[i]@))),
{
    let pr: Result<Vec<_>, _> = proofs.iter().map(|x| de(x)).collect();
    let y: Result<Vec<_>, _> = decommits.iter().map(|x| de(x).map(|d: Decommit| d.y_i)).collect();
    let p = EcdsaParameters { threshold: params.threshold, share_count: params.share_count };
    match (pr, y) {
        (Ok(pr), Ok(y)) => Keys::verify_dlog_proofs(&p, &pr, &y).is_ok(),
        _ => false,
    }
}

/// Calls `Point::to_bytes(false)` on the shared public key `y` of the shared
/// keys that `shared_keys` holds: its 65-byte uncompressed encoding.
#[verifier::external_body]
pub(crate) fn shared_public_key(shared_keys: &Vec<u8>) -> (r: Option<Vec<u8>>)
    ensures
        match r {
            Some(pk) => shared_public_key_of(shared_keys@) == Some(pk@) && pk@.len() == 65,
            None => shared_public_key_of(shared_keys@) is None,
        },
{
    let keys: SharedKeys = de(shared_keys).ok()?;
    Some(keys.y.to_bytes(false).to_vec())
}

} // verus!
