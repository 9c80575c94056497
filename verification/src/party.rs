//! The threshold-ECDSA primitives that a ceremony is built from.
//!
//! Everything in this module is a thin, trusted layer over `multi_party_ecdsa`
//! and `curv`: the verifier takes the contracts stated here on faith. The
//! artifacts are opaque to the rest of the library, which only stores them,
//! forwards them and hands them back to the functions below.

use crate::peer_map::PeerIndex;
use curv::arithmetic::traits::Zero;
use curv::cryptographic_primitives::proofs::sigma_dlog::DLogProof;
use curv::cryptographic_primitives::secret_sharing::feldman_vss::VerifiableSS;
use curv::elliptic::curves::{Point, Scalar, Secp256k1};
use curv::BigInt;
use multi_party_ecdsa::protocols::multi_party_ecdsa::gg_2018::party_i::{
    KeyGenBroadcastMessage1 as KeyGenCommit, KeyGenDecommitMessage1 as KeyGenDecommit, Keys,
    Parameters, SharedKeys,
};
use multi_party_ecdsa::Error as PartyError;
use sha2::Sha256;
use vstd::prelude::*;

verus! {

/// `multi_party_ecdsa`'s first-round broadcast: a commitment to a party's
/// public point together with its Paillier key and correct-key proof.
#[verifier::external_type_specification]
#[verifier::external_body]
pub struct ExKeyGenCommit(KeyGenCommit);

/// `multi_party_ecdsa`'s first-round decommitment: blinding factor and public
/// point.
#[verifier::external_type_specification]
#[verifier::external_body]
pub struct ExKeyGenDecommit(KeyGenDecommit);

/// `multi_party_ecdsa`'s result of key construction: the shared public key and
/// this party's share of the private key.
#[verifier::external_type_specification]
#[verifier::external_body]
pub struct ExSharedKeys(SharedKeys);

/// `multi_party_ecdsa`'s error code.
#[verifier::external_type_specification]
#[verifier::external_body]
pub struct ExPartyError(PartyError);

/// A party's private first-round material, `multi_party_ecdsa`'s `Keys`: its
/// secret scalar, public point and Paillier key pair. `Keys` is generic over a
/// curve trait of `curv`, which the verifier cannot be told of, so the value
/// is held in a struct that the verifier does not look into.
#[verifier::external_body]
#[derive(Debug)]
pub struct KeyMaterial {
    pub inner: Keys,
}

/// A Feldman verifiable-secret-sharing scheme, `curv`'s `VerifiableSS` over
/// secp256k1: the commitments to the coefficients of a party's polynomial.
/// Held, like `KeyMaterial`, in a struct that the verifier does not look into.
#[verifier::external_body]
#[derive(Debug)]
pub struct VssScheme {
    pub inner: VerifiableSS<Secp256k1>,
}

/// One evaluation of a party's secret polynomial, a secp256k1 scalar of
/// `curv`. Held, like `KeyMaterial`, in a struct that the verifier does not
/// look into.
#[verifier::external_body]
#[derive(Debug)]
pub struct Share {
    pub inner: Scalar<Secp256k1>,
}

/// A proof of knowledge of a discrete logarithm, `curv`'s `DLogProof` over
/// secp256k1 with SHA-256. Held, like `KeyMaterial`, in a struct that the
/// verifier does not look into.
#[verifier::external_body]
#[derive(Debug)]
pub struct KeyProof {
    pub inner: DLogProof<Secp256k1, Sha256>,
}

/// A point of secp256k1, `curv`'s `Point`. Held, like `KeyMaterial`, in a
/// struct that the verifier does not look into.
#[verifier::external_body]
#[derive(Debug)]
pub struct PublicPoint {
    pub inner: Point<Secp256k1>,
}

/// The shape of a ceremony: any `threshold + 1` of `share_count` parties can
/// sign together.
#[derive(Debug, PartialEq, Eq, Structural, Copy, Clone)]
pub struct Params {
    pub threshold: u16,
    pub share_count: u16,
}

/// The number of coefficient commitments that a sharing scheme carries.
pub uninterp spec fn vss_commitment_count(v: VssScheme) -> nat;

/// The number of responses in the correct-key proof of a commitment message.
pub uninterp spec fn key_proof_len(c: KeyGenCommit) -> nat;

/// Whether the Paillier modulus of a commitment message is above zero.
pub uninterp spec fn modulus_positive(c: KeyGenCommit) -> bool;

/// Whether every decommitment opens the commitment that stands at its place,
/// and every commitment message proves its Paillier key correct.
pub uninterp spec fn commitments_open(
    decommits: Seq<KeyGenDecommit>,
    commits: Seq<KeyGenCommit>,
) -> bool;

/// Whether every share is valid, at the given place, for the sharing scheme
/// that stands at its place, and every scheme commits to the public point of
/// the decommitment that stands at its place.
pub uninterp spec fn shares_valid(
    decommits: Seq<KeyGenDecommit>,
    shares: Seq<Share>,
    schemes: Seq<VssScheme>,
    index: u16,
) -> bool;

/// Whether every proof verifies.
pub uninterp spec fn proofs_valid(proofs: Seq<KeyProof>) -> bool;

/// The party index that first-round material was made for.
pub uninterp spec fn key_index(key: KeyMaterial) -> u16;

/// Whether first-round material is as `Keys::create` made it, with a Paillier
/// key pair of two fresh primes.
pub uninterp spec fn key_as_created(key: KeyMaterial) -> bool;

/// The sum of the public points of decommitments.
pub uninterp spec fn summed_point(decommits: Seq<KeyGenDecommit>) -> PublicPoint;

/// The shared public key that constructed key material carries.
pub uninterp spec fn shared_key_point(keys: SharedKeys) -> PublicPoint;

/// The number of responses that `zk_paillier` reads from a correct-key proof
/// when it verifies one.
pub const KEY_PROOF_ROUNDS: usize = 11;

/// The derived `Clone` of `KeyGenBroadcastMessage1` copies every field: the
/// copy equals the message it was made from.
pub assume_specification[ <KeyGenCommit as Clone>::clone ](c: &KeyGenCommit) -> (r: KeyGenCommit)
    ensures
        r == *c,
;

/// The derived `Clone` of `KeyGenDecommitMessage1` copies every field: the
/// copy equals the message it was made from.
pub assume_specification[ <KeyGenDecommit as Clone>::clone ](d: &KeyGenDecommit) -> (r:
    KeyGenDecommit)
    ensures
        r == *d,
;

impl Clone for VssScheme {
    /// Calls the derived `Clone` of `VerifiableSS`, which copies every field:
    /// the copy equals the scheme it was made from.
    #[verifier::external_body]
    fn clone(&self) -> (r: Self)
        ensures
            r == *self,
    {
        VssScheme { inner: self.inner.clone() }
    }
}

impl Clone for Share {
    /// Calls the `Clone` of `Scalar`, which copies the scalar: the copy equals
    /// the share it was made from.
    #[verifier::external_body]
    fn clone(&self) -> (r: Self)
        ensures
            r == *self,
    {
        Share { inner: self.inner.clone() }
    }
}

impl Clone for KeyProof {
    /// Calls the derived `Clone` of `DLogProof`, which copies every field: the
    /// copy equals the proof it was made from.
    #[verifier::external_body]
    fn clone(&self) -> (r: Self)
        ensures
            r == *self,
    {
        KeyProof { inner: self.inner.clone() }
    }
}

/// Reads the length of `VerifiableSS::commitments`.
#[verifier::external_body]
pub(crate) fn commitment_count(v: &VssScheme) -> (n: usize)
    ensures
        n == vss_commitment_count(*v),
{
    v.inner.commitments.len()
}

/// Reads the length of `NiCorrectKeyProof::sigma_vec` in a commitment message.
#[verifier::external_body]
pub(crate) fn proof_len(c: &KeyGenCommit) -> (n: usize)
    ensures
        n == key_proof_len(*c),
{
    c.correct_key_proof.sigma_vec.len()
}

/// Compares the Paillier modulus `EncryptionKey::n` of a commitment message
/// with `BigInt::zero()`.
#[verifier::external_body]
pub(crate) fn modulus_is_positive(c: &KeyGenCommit) -> (b: bool)
    ensures
        b == modulus_positive(*c),
{
    c.e.n > BigInt::zero()
}

/// Calls `Keys::create`, which draws a fresh secret scalar and a fresh
/// Paillier key pair at random. Whatever is drawn, the material is as
/// `Keys::create` made it, for the index given.
#[verifier::external_body]
pub(crate) fn create_keys(index: PeerIndex) -> (key: KeyMaterial)
    ensures
        key_as_created(key),
        key_index(key) == index,
{
    KeyMaterial { inner: Keys::create(index) }
}

/// Calls `Keys::phase1_broadcast_phase3_proof_of_correct_key`, which blinds
/// the party's public point with a random factor. Its proof of the Paillier
/// key unwraps inverses that only a proper key pair has; the precondition
/// asks for material as `Keys::create` made it. Nothing is claimed of the
/// result.
#[verifier::external_body]
pub(crate) fn phase1_broadcast(key: &KeyMaterial) -> (r: (KeyGenCommit, KeyGenDecommit))
    requires
        key_as_created(*key),
{
    key.inner.phase1_broadcast_phase3_proof_of_correct_key()
}

/// Calls `Keys::phase1_verify_com_phase3_verify_correct_key_phase2_distribute`.
/// It asserts that both slices hold `share_count` messages and that
/// `threshold < share_count`, and reads eleven responses and a positive
/// modulus from each commitment message; the precondition asks for all of
/// that. It succeeds exactly when all commitments open and all Paillier keys
/// are proved correct, which the two slices decide. A success returns one
/// share for each of the `share_count` parties and the party index of the
/// key material. The sharing polynomial is drawn at random: nothing more is
/// claimed of the scheme and the shares.
#[verifier::external_body]
pub(crate) fn verify_and_distribute(
    key: &KeyMaterial,
    shape: Params,
    decommits: &Vec<KeyGenDecommit>,
    commits: &Vec<KeyGenCommit>,
) -> (r: Result<(VssScheme, Vec<Share>, PeerIndex), PartyError>)
    requires
        shape.threshold < shape.share_count,
        decommits@.len() == shape.share_count,
        commits@.len() == shape.share_count,
        forall|i: int|
            0 <= i < commits@.len() ==> key_proof_len(#[trigger] commits@[i]) >= KEY_PROOF_ROUNDS
                && modulus_positive(commits@[i]),
    ensures
        r is Ok <==> commitments_open(decommits@, commits@),
        r matches Ok(made) ==> made.1@.len() == shape.share_count && made.2 == key_index(*key),
{
    let params = Parameters { threshold: shape.threshold, share_count: shape.share_count };
    key.inner.phase1_verify_com_phase3_verify_correct_key_phase2_distribute(
        &params,
        decommits,
        commits,
    ).map(
        |(vss, shares, index)|
            (
                VssScheme { inner: vss },
                shares.into_iter().map(|s| Share { inner: s }).collect(),
                index,
            ),
    )
}

/// Calls `Keys::phase2_verify_vss_construct_keypair_phase3_pok_dlog` with the
/// public points of the decommitments. It asserts that the three slices hold
/// `share_count` values and reads the first commitment of every scheme; the
/// precondition asks for both. It succeeds exactly when all shares and
/// schemes are valid, which the three slices and the place decide. The
/// shared public key of a success is the sum of the public points of the
/// decommitments. The proof is made with a random nonce: nothing is claimed
/// of it, nor of the share of the private key.
#[verifier::external_body]
pub(crate) fn verify_and_construct(
    key: &KeyMaterial,
    shape: Params,
    decommits: &Vec<KeyGenDecommit>,
    shares: &Vec<Share>,
    schemes: &Vec<VssScheme>,
    index: u16,
) -> (r: Result<(SharedKeys, KeyProof), PartyError>)
    requires
        decommits@.len() == shape.share_count,
        shares@.len() == shape.share_count,
        schemes@.len() == shape.share_count,
        forall|i: int| 0 <= i < schemes@.len() ==> vss_commitment_count(#[trigger] schemes@[i]) > 0,
    ensures
        r is Ok <==> shares_valid(decommits@, shares@, schemes@, index),
        r matches Ok(made) ==> shared_key_point(made.0) == summed_point(decommits@),
{
    let params = Parameters { threshold: shape.threshold, share_count: shape.share_count };
    let ys: Vec<_> = decommits.iter().map(|d| d.y_i.clone()).collect();
    let ss: Vec<_> = shares.iter().map(|s| s.inner.clone()).collect();
    let vs: Vec<_> = schemes.iter().map(|v| v.inner.clone()).collect();
    key.inner.phase2_verify_vss_construct_keypair_phase3_pok_dlog(&params, &ys, &ss, &vs, index)
        .map(|(keys, proof)| (keys, KeyProof { inner: proof }))
}

/// Calls `Keys::verify_dlog_proofs` with the public points of the
/// decommitments. It asserts that both slices hold `share_count` values; the
/// precondition asks for that. It succeeds exactly when every proof verifies,
/// which the proofs alone decide.
#[verifier::external_body]
pub(crate) fn verify_proofs(
    shape: Params,
    proofs: &Vec<KeyProof>,
    decommits: &Vec<KeyGenDecommit>,
) -> (r: Result<(), PartyError>)
    requires
        proofs@.len() == shape.share_count,
        decommits@.len() == shape.share_count,
    ensures
        r is Ok <==> proofs_valid(proofs@),
{
    let params = Parameters { threshold: shape.threshold, share_count: shape.share_count };
    let ps: Vec<_> = proofs.iter().map(|p| p.inner.clone()).collect();
    let ys: Vec<_> = decommits.iter().map(|d| d.y_i.clone()).collect();
    Keys::verify_dlog_proofs(&params, &ps, &ys)
}

/// Copies the shared public key `SharedKeys::y` out of constructed key
/// material: the result is that field, a function of the key material alone.
#[verifier::external_body]
pub(crate) fn shared_point(keys: &SharedKeys) -> (y: PublicPoint)
    ensures
        y == shared_key_point(*keys),
{
    PublicPoint { inner: keys.y.clone() }
}

} // verus!
