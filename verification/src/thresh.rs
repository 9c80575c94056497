//! Keys and signatures of the threshold signature scheme, as raw bytes, and
//! the key pair that makes them.

use crate::bytes::{copy_bytes, lex_less, rank_bytes, Rank};
use bip39::{Language, Mnemonic, MnemonicType};
use std::cmp::Ordering;
use parity_scale_codec::Encode;
use rand::distributions::Standard;
use rand::{Rng, SeedableRng};
use rand_chacha::ChaChaRng;
use substrate_bip39::seed_from_entropy;
use threshold_crypto::serde_impl::SerdeSecret;
use threshold_crypto::{PublicKey, SecretKey, Signature as RawSignature};
use vstd::prelude::*;
use vstd::std_specs::cmp::{PartialEqSpecImpl, PartialOrdSpecImpl};

verus! {

/// Length of a secret seed in bytes.
pub const SEED_SIZE: usize = 32;

/// Length of a public key in bytes.
pub const PK_SIZE: usize = 48;

/// Length of a signature in bytes.
pub const SIG_SIZE: usize = 96;

/// A secret seed.
pub type Seed = [u8; SEED_SIZE];

/// A threshold-scheme public key, held as its 48 raw bytes.
#[derive(Clone, Debug, Eq, Ord, Hash)]
pub struct Public(pub [u8; PK_SIZE]);

/// A threshold-scheme signature, held as its 96 raw bytes.
#[derive(Debug, Eq, Hash)]
pub struct Signature(pub [u8; SIG_SIZE]);

/// Why a secret could not be made from a text or from bytes.
#[derive(Clone, Copy, PartialEq, Eq, Structural, Debug)]
pub enum SecretStringError {
    /// The overall format was invalid.
    InvalidFormat,
    /// The seed phrase provided is not a valid BIP39 phrase.
    InvalidPhrase,
    /// The supplied password was invalid.
    InvalidPassword,
    /// The seed is invalid (bad content).
    InvalidSeed,
    /// The seed has an invalid length.
    InvalidSeedLength,
    /// The derivation path was invalid.
    InvalidPath,
}

/// One step of a derivation path, with its 32-byte chain code.
#[derive(Clone, Copy, Debug)]
pub enum DeriveJunction {
    /// A step that the public key can follow. Not supported by this scheme.
    Soft([u8; 32]),
    /// A step that only the secret key can follow.
    Hard([u8; 32]),
}

/// Why a textual public key was rejected.
#[derive(Clone, Copy, PartialEq, Eq, Structural, Debug)]
pub enum PublicError {
    /// Bad alphabet.
    BadBase58,
    /// Bad length.
    BadLength,
    /// Unknown version.
    UnknownVersion,
    /// Invalid checksum.
    InvalidChecksum,
}

/// Why a key derivation failed.
#[derive(Clone, Copy, PartialEq, Eq, Structural, Debug)]
pub enum DeriveError {
    /// A soft key was found in the path (and is unsupported).
    SoftKeyInPath,
}

impl Public {
    /// Wraps 48 raw bytes as a public key.
    pub fn from_raw(data: [u8; PK_SIZE]) -> (r: Self)
        ensures
            r.0 == data,
    {
        Public(data)
    }

    /// The raw bytes of the key.
    pub fn as_array_ref(&self) -> (r: &[u8; PK_SIZE])
        ensures
            *r == self.0,
    {
        &self.0
    }

    /// Builds a key from a slice, which must hold exactly 48 bytes.
    pub fn from_slice(data: &[u8]) -> (r: Self)
        requires
            data@.len() == PK_SIZE,
        ensures
            r.0@ == data@,
    {
        Public(copy_bytes::<PK_SIZE>(data))
    }

    /// Builds a key from a slice, or fails when its length is not 48.
    pub fn try_from_slice(data: &[u8]) -> (r: Result<Self, ()>)
        ensures
            r is Ok <==> data@.len() == PK_SIZE,
            r matches Ok(p) ==> p.0@ == data@,
    {
        if data.len() == PK_SIZE {
            Ok(Public(copy_bytes::<PK_SIZE>(data)))
        } else {
            Err(())
        }
    }

    /// The key as an owned array.
    pub fn into_raw(self) -> (r: [u8; PK_SIZE])
        ensures
            r == self.0,
    {
        self.0
    }
}

impl PartialEq for Public {
    fn eq(&self, other: &Self) -> (r: bool) {
        rank_bytes(self.0.as_slice(), other.0.as_slice()) == Rank::Same
    }
}

impl PartialEqSpecImpl for Public {
    open spec fn obeys_eq_spec() -> bool {
        true
    }

    /// Two keys are equal when they hold the same bytes.
    open spec fn eq_spec(&self, other: &Self) -> bool {
        self.0@ == other.0@
    }
}

impl PartialOrd for Public {
    fn partial_cmp(&self, other: &Self) -> (r: Option<Ordering>) {
        match rank_bytes(self.0.as_slice(), other.0.as_slice()) {
            Rank::Below => Some(Ordering::Less),
            Rank::Same => Some(Ordering::Equal),
            Rank::Above => Some(Ordering::Greater),
        }
    }
}

impl PartialOrdSpecImpl for Public {
    open spec fn obeys_partial_cmp_spec() -> bool {
        true
    }

    /// Keys are ordered as their bytes are, lexicographically.
    open spec fn partial_cmp_spec(&self, other: &Self) -> Option<Ordering> {
        if lex_less(self.0@, other.0@) {
            Some(Ordering::Less)
        } else if self.0@ == other.0@ {
            Some(Ordering::Equal)
        } else {
            Some(Ordering::Greater)
        }
    }
}

impl PartialEq for Signature {
    fn eq(&self, other: &Self) -> (r: bool) {
        rank_bytes(self.0.as_slice(), other.0.as_slice()) == Rank::Same
    }
}

impl PartialEqSpecImpl for Signature {
    open spec fn obeys_eq_spec() -> bool {
        true
    }

    /// Two signatures are equal when they hold the same bytes.
    open spec fn eq_spec(&self, other: &Self) -> bool {
        self.0@ == other.0@
    }
}

impl From<[u8; PK_SIZE]> for Public {
    fn from(x: [u8; PK_SIZE]) -> (r: Self) {
        Public(x)
    }
}

impl vstd::std_specs::convert::FromSpecImpl<[u8; PK_SIZE]> for Public {
    open spec fn obeys_from_spec() -> bool {
        true
    }

    open spec fn from_spec(x: [u8; PK_SIZE]) -> Self {
        Public(x)
    }
}

impl From<Public> for [u8; PK_SIZE] {
    fn from(x: Public) -> (r: Self) {
        x.0
    }
}

impl vstd::std_specs::convert::FromSpecImpl<Public> for [u8; PK_SIZE] {
    open spec fn obeys_from_spec() -> bool {
        true
    }

    open spec fn from_spec(x: Public) -> Self {
        x.0
    }
}

impl From<Signature> for [u8; SIG_SIZE] {
    fn from(x: Signature) -> (r: Self) {
        x.0
    }
}

impl vstd::std_specs::convert::FromSpecImpl<Signature> for [u8; SIG_SIZE] {
    open spec fn obeys_from_spec() -> bool {
        true
    }

    open spec fn from_spec(x: Signature) -> Self {
        x.0
    }
}

impl Default for Public {
    fn default() -> (r: Self)
        ensures
            r.0@ == Seq::new(PK_SIZE as nat, |i: int| 0u8),
    {
        let r = Public([0u8; PK_SIZE]);
        assert(r.0@ =~= Seq::new(PK_SIZE as nat, |i: int| 0u8));
        r
    }
}

impl Signature {
    /// Wraps 96 raw bytes as a signature.
    pub fn from_raw(data: [u8; SIG_SIZE]) -> (r: Signature)
        ensures
            r.0 == data,
    {
        Signature(data)
    }

    /// Builds a signature from a slice, or fails when its length is not 96.
    pub fn try_from_slice(data: &[u8]) -> (r: Result<Self, ()>)
        ensures
            r is Ok <==> data@.len() == SIG_SIZE,
            r matches Ok(s) ==> s.0@ == data@,
    {
        if data.len() == SIG_SIZE {
            Ok(Signature(copy_bytes::<SIG_SIZE>(data)))
        } else {
            Err(())
        }
    }

    /// The signature as an owned array.
    pub fn into_raw(self) -> (r: [u8; SIG_SIZE])
        ensures
            r == self.0,
    {
        self.0
    }

    /// The raw bytes of the signature.
    pub fn as_array_ref(&self) -> (r: &[u8; SIG_SIZE])
        ensures
            *r == self.0,
    {
        &self.0
    }
}

impl Clone for Signature {
    fn clone(&self) -> (r: Self)
        ensures
            r.0 == self.0,
    {
        Signature(self.0)
    }
}

impl Default for Signature {
    fn default() -> (r: Self)
        ensures
            r.0@ == Seq::new(SIG_SIZE as nat, |i: int| 0u8),
    {
        let r = Signature([0u8; SIG_SIZE]);
        assert(r.0@ =~= Seq::new(SIG_SIZE as nat, |i: int| 0u8));
        r
    }
}

/// `threshold_crypto`'s public key, a point of the first group of BLS12-381.
#[verifier::external_type_specification]
#[verifier::external_body]
pub struct ExPublicKey(PublicKey);

/// `threshold_crypto`'s secret key, an element of the scalar field of
/// BLS12-381.
#[verifier::external_type_specification]
#[verifier::external_body]
pub struct ExSecretKey(SecretKey);

/// `threshold_crypto`'s signature, a point of the second group of BLS12-381.
#[verifier::external_type_specification]
#[verifier::external_body]
pub struct ExRawSignature(RawSignature);

/// The secret key that a ChaCha generator seeded with `seed` yields first.
pub uninterp spec fn seeded_secret(seed: Seq<u8>) -> SecretKey;

/// The bytes that a secret key serialises to.
pub uninterp spec fn secret_bytes(secret: SecretKey) -> Seq<u8>;

/// The secret key that bytes deserialise to, if they are one.
pub uninterp spec fn decoded_secret(bytes: Seq<u8>) -> Option<SecretKey>;

/// The public key that belongs to a secret key.
pub uninterp spec fn public_key_of(secret: SecretKey) -> PublicKey;

/// The compressed form of a public key.
pub uninterp spec fn public_key_bytes(key: PublicKey) -> Seq<u8>;

/// The public key that 48 bytes stand for, if they stand for one.
pub uninterp spec fn decoded_public(bytes: Seq<u8>) -> Option<PublicKey>;

/// The signature that 96 bytes stand for, if they stand for one.
pub uninterp spec fn decoded_signature(bytes: Seq<u8>) -> Option<RawSignature>;

/// The signature of a message under a secret key.
pub uninterp spec fn signed(secret: SecretKey, message: Seq<u8>) -> RawSignature;

/// The compressed form of a signature.
pub uninterp spec fn signature_bytes(signature: RawSignature) -> Seq<u8>;

/// Whether a signature is that of a message under the secret key of a public
/// key.
pub uninterp spec fn signature_valid(key: PublicKey, signature: RawSignature, message: Seq<u8>) -> bool;

/// The BLAKE2b hash of 32 bytes of a message, without key.
pub uninterp spec fn blake2b_256_of(data: Seq<u8>) -> Seq<u8>;

/// The entropy that an English BIP39 phrase encodes, if it is one.
pub uninterp spec fn phrase_entropy(phrase: Seq<char>) -> Option<Seq<u8>>;

/// The 64-byte seed that entropy and password stretch to, if the entropy has
/// a valid length.
pub uninterp spec fn stretched_seed(entropy: Seq<u8>, password: Seq<char>) -> Option<Seq<u8>>;

/// Seeds `rand_chacha`'s `ChaChaRng` with `ChaChaRng::from_seed` and draws one
/// secret key from it with `Rng::sample`: the key is a function of the seed.
#[verifier::external_body]
fn sample_secret(seed: &Seed) -> (secret: SecretKey)
    ensures
        secret == seeded_secret(seed@),
{
    ChaChaRng::from_seed(*seed).sample(Standard)
}

/// Calls `bincode::serialize` on a secret key in `SerdeSecret`: the four
/// 64-bit limbs of the key's field element, 32 bytes, a function of the key,
/// which `bincode::deserialize` reads back as the same key.
#[verifier::external_body]
fn secret_to_bytes(secret: &SecretKey) -> (bytes: Vec<u8>)
    ensures
        bytes@ == secret_bytes(*secret),
        bytes@.len() == SEED_SIZE,
        decoded_secret(bytes@) == Some(*secret),
{
    bincode::serialize(&SerdeSecret(secret)).unwrap_or_default()
}

/// Calls `bincode::deserialize` for a secret key, dropping the reason of a
/// failure: the outcome is a function of the bytes.
#[verifier::external_body]
fn secret_from_bytes(bytes: &[u8]) -> (secret: Option<SecretKey>)
    ensures
        secret == decoded_secret(bytes@),
{
    bincode::deserialize(bytes).ok()
}

/// Calls `SecretKey::public_key`: the key is a function of the secret key.
#[verifier::external_body]
fn public_of(secret: &SecretKey) -> (key: PublicKey)
    ensures
        key == public_key_of(*secret),
{
    secret.public_key()
}

/// Calls `PublicKey::to_bytes`: the compressed form of the key.
#[verifier::external_body]
fn public_to_bytes(key: &PublicKey) -> (bytes: [u8; PK_SIZE])
    ensures
        bytes@ == public_key_bytes(*key),
{
    key.to_bytes()
}

/// Calls `PublicKey::from_bytes`, dropping the reason of a failure: the
/// outcome is a function of the bytes.
#[verifier::external_body]
fn public_from_bytes(bytes: &[u8; PK_SIZE]) -> (key: Option<PublicKey>)
    ensures
        key == decoded_public(bytes@),
{
    PublicKey::from_bytes(bytes).ok()
}

/// Calls `Signature::from_bytes`, dropping the reason of a failure: the
/// outcome is a function of the bytes.
#[verifier::external_body]
fn signature_from_bytes(bytes: &[u8; SIG_SIZE]) -> (signature: Option<RawSignature>)
    ensures
        signature == decoded_signature(bytes@),
{
    RawSignature::from_bytes(bytes).ok()
}

/// Calls `SecretKey::sign`: the signature is a function of key and message.
#[verifier::external_body]
fn sign_message(secret: &SecretKey, message: &[u8]) -> (signature: RawSignature)
    ensures
        signature == signed(*secret, message@),
{
    secret.sign(message)
}

/// Calls `Signature::to_bytes`: the compressed form of the signature.
#[verifier::external_body]
fn signature_to_bytes(signature: &RawSignature) -> (bytes: [u8; SIG_SIZE])
    ensures
        bytes@ == signature_bytes(*signature),
{
    signature.to_bytes()
}

/// Calls `PublicKey::verify`: the verdict is a function of key, signature and
/// message.
#[verifier::external_body]
fn verify_signature(key: &PublicKey, signature: &RawSignature, message: &[u8]) -> (valid: bool)
    ensures
        valid == signature_valid(*key, *signature, message@),
{
    key.verify(signature, message)
}

/// Calls `blake2_rfc::blake2b::blake2b` for 32 bytes of output, without key.
#[verifier::external_body]
fn blake2b_256(data: &[u8]) -> (hash: Seed)
    ensures
        hash@ == blake2b_256_of(data@),
{
    let mut hash = [0u8; SEED_SIZE];
    hash.copy_from_slice(blake2_rfc::blake2b::blake2b(SEED_SIZE, &[], data).as_bytes());
    hash
}

/// Calls `Mnemonic::from_phrase` for the English word list and copies out
/// `Mnemonic::entropy`, dropping the reason of a failure: the outcome is a
/// function of the phrase.
#[verifier::external_body]
fn mnemonic_entropy(phrase: &str) -> (entropy: Option<Vec<u8>>)
    ensures
        match entropy {
            Some(bytes) => phrase_entropy(phrase@) == Some(bytes@),
            None => phrase_entropy(phrase@) is None,
        },
{
    Mnemonic::from_phrase(phrase, Language::English).ok().map(|m| m.entropy().to_vec())
}

/// Calls `substrate_bip39::seed_from_entropy`, dropping the reason of a
/// failure: the outcome is a function of entropy and password, and it fails
/// on nothing but an entropy of the wrong length.
#[verifier::external_body]
fn entropy_to_seed(entropy: &[u8], password: &str) -> (seed: Option<[u8; 64]>)
    ensures
        match seed {
            Some(bytes) => stretched_seed(entropy@, password@) == Some(bytes@),
            None => stretched_seed(entropy@, password@) is None,
        },
        seed is Some <==> stretchable(entropy@.len()),
{
    seed_from_entropy(entropy, password).ok()
}

/// Calls `Mnemonic::new` for twelve English words, drawn at random, and copies
/// out `Mnemonic::phrase`. Whatever is drawn, the phrase is made of 16 bytes
/// of entropy and their checksum, so it is an English BIP39 phrase that
/// encodes 16 bytes.
#[verifier::external_body]
fn fresh_phrase() -> (phrase: String)
    ensures
        phrase_entropy(phrase@) is Some,
        phrase_entropy(phrase@)->0.len() == 16,
{
    Mnemonic::new(MnemonicType::Words12, Language::English).phrase().to_owned()
}

/// The lengths of entropy that can be stretched to a seed: those of the
/// five sizes of BIP39 phrases.
pub open spec fn stretchable(len: nat) -> bool {
    16 <= len <= 32 && len % 4 == 0
}

/// What the codec writes for a tag of fewer than 64 bytes, a seed and a chain
/// code: the length of the tag in compact form, one byte holding four times
/// the length, then the tag, the seed and the chain code as they are.
pub open spec fn encoded_junction(tag: Seq<u8>, seed: Seq<u8>, cc: Seq<u8>) -> Seq<u8> {
    seq![(tag.len() * 4) as u8] + tag + seed + cc
}

/// Calls `Encode::encode` of `parity_scale_codec` on the tuple of tag, seed
/// and chain code: a byte slice is written as its compact length and its
/// bytes, an array as its bytes, a tuple as its parts one after the other.
#[verifier::external_body]
fn encode_junction(tag: &[u8], seed: &Seed, cc: &[u8; 32]) -> (data: Vec<u8>)
    requires
        tag@.len() < 64,
    ensures
        data@ == encoded_junction(tag@, seed@, cc@),
{
    (tag, seed, cc).encode()
}

/// The text that marks a hard derivation of this scheme, "threshold_crypto".
pub open spec fn junction_tag() -> Seq<u8> {
    seq![
        0x74u8, 0x68, 0x72, 0x65, 0x73, 0x68, 0x6f, 0x6c, 0x64, 0x5f, 0x63, 0x72, 0x79, 0x70, 0x74,
        0x6f,
    ]
}

/// What is hashed for one hard derivation: the tag with its length in front,
/// as the compact integer 16, then the seed, then the chain code.
pub open spec fn junction_input(seed: Seq<u8>, cc: Seq<u8>) -> Seq<u8> {
    seq![0x40u8] + junction_tag() + seed + cc
}

/// The seed that one hard derivation makes of a seed.
pub open spec fn hard_step(seed: Seq<u8>, cc: Seq<u8>) -> Seq<u8> {
    blake2b_256_of(junction_input(seed, cc))
}

/// The chain code of a junction.
pub open spec fn chain_code(j: DeriveJunction) -> Seq<u8> {
    match j {
        DeriveJunction::Soft(cc) => cc@,
        DeriveJunction::Hard(cc) => cc@,
    }
}

/// The seed that the first `n` junctions of a path make of a seed.
pub open spec fn walked(seed: Seq<u8>, path: Seq<DeriveJunction>, n: int) -> Seq<u8>
    decreases n,
{
    if n <= 0 {
        seed
    } else {
        hard_step(walked(seed, path, n - 1), chain_code(path[n - 1]))
    }
}

/// Whether a path holds a soft junction.
pub open spec fn has_soft(path: Seq<DeriveJunction>) -> bool {
    exists|i: int| 0 <= i < path.len() && #[trigger] path[i] is Soft
}

/// Derives a seed by a single hard junction.
pub fn derive_hard_junction(secret_seed: &Seed, cc: &[u8; 32]) -> (r: Seed)
    ensures
        r@ == hard_step(secret_seed@, cc@),
{
    let tag: [u8; 16] = [
        0x74, 0x68, 0x72, 0x65, 0x73, 0x68, 0x6f, 0x6c, 0x64, 0x5f, 0x63, 0x72, 0x79, 0x70, 0x74,
        0x6f,
    ];
    assert(tag@ =~= junction_tag());
    let data = encode_junction(tag.as_slice(), secret_seed, cc);
    assert(data@ =~= junction_input(secret_seed@, cc@));
    blake2b_256(data.as_slice())
}

/// The derived `Clone` of `threshold_crypto`'s `SecretKey` copies the field
/// element: the copy equals the key it was made from.
pub assume_specification[ <SecretKey as Clone>::clone ](secret: &SecretKey) -> (r: SecretKey)
    ensures
        r == *secret,
;

/// The derived `Clone` of `threshold_crypto`'s `PublicKey` copies the point:
/// the copy equals the key it was made from.
pub assume_specification[ <PublicKey as Clone>::clone ](key: &PublicKey) -> (r: PublicKey)
    ensures
        r == *key,
;

/// A key pair of the threshold signature scheme.
pub struct Pair {
    /// Public
    pub public: PublicKey,
    /// Secret key
    pub secret: SecretKey,
}

impl Clone for Pair {
    fn clone(&self) -> (r: Self)
        ensures
            r.public == self.public,
            r.secret == self.secret,
    {
        Pair { public: self.public.clone(), secret: self.secret.clone() }
    }
}

impl Pair {
    /// The key pair of a seed: its secret key is the first that a ChaCha
    /// generator seeded with the seed yields.
    pub fn from_seed(seed: &Seed) -> (r: Pair)
        ensures
            r.secret == seeded_secret(seed@),
            r.public == public_key_of(r.secret),
    {
        let secret = sample_secret(seed);
        let bytes = secret_to_bytes(&secret);
        match Self::from_seed_slice(bytes.as_slice()) {
            Ok(pair) => pair,
            Err(_) => Pair { public: public_of(&secret), secret },
        }
    }

    /// The key pair whose secret key the 32 bytes are.
    pub fn from_seed_slice(seed: &[u8]) -> (r: Result<Pair, SecretStringError>)
        ensures
            match r {
                Ok(pair) => {
                    &&& seed@.len() == SEED_SIZE
                    &&& decoded_secret(seed@) == Some(pair.secret)
                    &&& pair.public == public_key_of(pair.secret)
                },
                Err(e) => if seed@.len() != SEED_SIZE {
                    e == SecretStringError::InvalidSeedLength
                } else {
                    e == SecretStringError::InvalidSeed && decoded_secret(seed@) is None
                },
            },
    {
        if seed.len() != SEED_SIZE {
            return Err(SecretStringError::InvalidSeedLength);
        }
        match secret_from_bytes(seed) {
            Some(secret) => Ok(Pair { public: public_of(&secret), secret }),
            None => Err(SecretStringError::InvalidSeed),
        }
    }

    /// The seed that a phrase and a password stand for: the first half of
    /// the seed that the phrase's entropy and the password stretch to.
    pub open spec fn phrase_seed(phrase: Seq<char>, password: Seq<char>) -> Option<Seq<u8>> {
        match phrase_entropy(phrase) {
            Some(entropy) => match stretched_seed(entropy, password) {
                Some(big) => Some(big.take(SEED_SIZE as int)),
                None => None,
            },
            None => None,
        }
    }

    /// The key pair and seed of an English BIP39 phrase and a password; no
    /// password counts as the empty one.
    pub fn from_phrase(phrase: &str, password: Option<&str>) -> (r: Result<
        (Pair, Seed),
        SecretStringError,
    >)
        ensures
            match r {
                Ok(made) => {
                    &&& Self::phrase_seed(phrase@, Self::password_text(password)) == Some(made.1@)
                    &&& made.0.secret == seeded_secret(made.1@)
                    &&& made.0.public == public_key_of(made.0.secret)
                },
                Err(e) => match phrase_entropy(phrase@) {
                    None => e == SecretStringError::InvalidPhrase,
                    Some(entropy) => e == SecretStringError::InvalidSeed && stretched_seed(
                        entropy,
                        Self::password_text(password),
                    ) is None && !stretchable(entropy.len()),
                },
            },
    {
        let entropy = match mnemonic_entropy(phrase) {
            Some(entropy) => entropy,
            None => {
                return Err(SecretStringError::InvalidPhrase);
            },
        };
        let word = match password {
            Some(word) => word,
            None => "",
        };
        proof {
            reveal_strlit("");
            assert(word@ =~= Self::password_text(password));
        }
        let big_seed = match entropy_to_seed(entropy.as_slice(), word) {
            Some(big_seed) => big_seed,
            None => {
                return Err(SecretStringError::InvalidSeed);
            },
        };
        let mut seed: Seed = [0u8; SEED_SIZE];
        let mut i: usize = 0;
        while i < SEED_SIZE
            invariant
                i <= SEED_SIZE,
                forall|j: int| 0 <= j < i ==> seed@[j] == big_seed@[j],
            decreases SEED_SIZE - i,
        {
            seed[i] = big_seed[i];
            i += 1;
        }
        assert(seed@ =~= big_seed@.take(SEED_SIZE as int));
        Ok((Self::from_seed(&seed), seed))
    }

    /// The text of a password; that of none is empty.
    pub open spec fn password_text(password: Option<&str>) -> Seq<char> {
        match password {
            Some(word) => word@,
            None => Seq::empty(),
        }
    }

    /// A key pair from a fresh phrase of twelve words, with the phrase and
    /// the seed. The phrase is drawn at random; whatever it is, pair and seed
    /// are those that the phrase and the password stand for.
    pub fn generate_with_phrase(password: Option<&str>) -> (r: (Pair, String, Seed))
        ensures
            phrase_entropy(r.1@) is Some,
            phrase_entropy(r.1@)->0.len() == 16,
            Self::phrase_seed(r.1@, Self::password_text(password)) == Some(r.2@),
            r.0.secret == seeded_secret(r.2@),
            r.0.public == public_key_of(r.0.secret),
    {
        let phrase = fresh_phrase();
        match Self::from_phrase(phrase.as_str(), password) {
            Ok((pair, seed)) => (pair, phrase, seed),
            Err(_) => {
                // A phrase of 16 bytes of entropy is never refused.
                assert(false);
                unreached()
            },
        }
    }

    /// The key pair at the end of a derivation path, with its seed. Every
    /// junction must be hard. The empty path leads to this key pair itself.
    pub fn derive(&self, path: &Vec<DeriveJunction>, _seed: Option<Seed>) -> (r: Result<
        (Pair, Option<Seed>),
        DeriveError,
    >)
        ensures
            r is Err <==> has_soft(path@),
            r matches Ok(made) ==> {
                &&& made.1 matches Some(seed)
                &&& seed@ == walked(secret_bytes(self.secret), path@, path@.len() as int)
                &&& made.0.secret == (if path@.len() == 0 {
                    self.secret
                } else {
                    seeded_secret(seed@)
                })
                &&& made.0.public == public_key_of(made.0.secret)
            },
    {
        let raw = self.to_raw_vec();
        let mut acc: Seed = [0u8; SEED_SIZE];
        let mut i: usize = 0;
        while i < SEED_SIZE
            invariant
                i <= SEED_SIZE,
                raw@.len() == SEED_SIZE,
                forall|j: int| 0 <= j < i ==> acc@[j] == raw@[j],
            decreases SEED_SIZE - i,
        {
            acc[i] = raw[i];
            i += 1;
        }
        assert(acc@ =~= raw@);
        let mut n: usize = 0;
        while n < path.len()
            invariant
                n <= path@.len(),
                acc@ == walked(secret_bytes(self.secret), path@, n as int),
                forall|j: int| 0 <= j < n ==> !(#[trigger] path@[j] is Soft),
            decreases path@.len() - n,
        {
            match path[n] {
                DeriveJunction::Soft(_) => {
                    assert(path@[n as int] is Soft);
                    return Err(DeriveError::SoftKeyInPath);
                },
                DeriveJunction::Hard(cc) => {
                    acc = derive_hard_junction(&acc, &cc);
                },
            }
            n += 1;
        }
        if path.len() == 0 {
            match Self::from_seed_slice(&acc) {
                Ok(pair) => Ok((pair, Some(acc))),
                Err(_) => Ok((Self::from_seed(&acc), Some(acc))),
            }
        } else {
            Ok((Self::from_seed(&acc), Some(acc)))
        }
    }

    /// The public key of the pair, as raw bytes.
    pub fn public(&self) -> (r: Public)
        ensures
            r.0@ == public_key_bytes(self.public),
    {
        Public(public_to_bytes(&self.public))
    }

    /// Signs a message.
    pub fn sign(&self, message: &[u8]) -> (r: Signature)
        ensures
            r.0@ == signature_bytes(signed(self.secret, message@)),
    {
        Signature(signature_to_bytes(&sign_message(&self.secret, message)))
    }

    /// Whether a signature is that of a message under a public key.
    pub fn verify(sig: &Signature, message: &[u8], pubkey: &Public) -> (valid: bool)
        ensures
            valid == Self::valid_bytes(sig.0@, message@, pubkey.0@),
    {
        Self::verify_weak(sig.0.as_slice(), message, pubkey.0.as_slice())
    }

    /// Whether 96 bytes are a signature of a message under the public key
    /// that 48 bytes stand for: both must stand for what they are meant to
    /// be, and the signature must be valid.
    pub open spec fn valid_bytes(sig: Seq<u8>, message: Seq<u8>, pubkey: Seq<u8>) -> bool {
        match (decoded_public(pubkey), decoded_signature(sig)) {
            (Some(key), Some(signature)) => signature_valid(key, signature, message),
            _ => false,
        }
    }

    /// Whether a signature is that of a message under a public key, all as
    /// slices. The signature must hold 96 bytes and the key 48.
    pub fn verify_weak(sig: &[u8], message: &[u8], pubkey: &[u8]) -> (valid: bool)
        requires
            sig@.len() == SIG_SIZE,
            pubkey@.len() == PK_SIZE,
        ensures
            valid == Self::valid_bytes(sig@, message@, pubkey@),
    {
        let pk_arr = copy_bytes::<PK_SIZE>(pubkey);
        let sig_arr = copy_bytes::<SIG_SIZE>(sig);
        match (public_from_bytes(&pk_arr), signature_from_bytes(&sig_arr)) {
            (Some(key), Some(signature)) => verify_signature(&key, &signature, message),
            _ => false,
        }
    }

    /// The secret key as bytes.
    pub fn to_raw_vec(&self) -> (r: Vec<u8>)
        ensures
            r@ == secret_bytes(self.secret),
            r@.len() == SEED_SIZE,
            decoded_secret(r@) == Some(self.secret),
    {
        secret_to_bytes(&self.secret)
    }
}

impl Public {
    /// The key that `threshold_crypto` knows by these bytes, if they stand
    /// for one.
    pub fn to_public_key(&self) -> (r: Option<PublicKey>)
        ensures
            r == decoded_public(self.0@),
    {
        public_from_bytes(&self.0)
    }

    /// The raw bytes of a key of `threshold_crypto`.
    pub fn from_public_key(key: &PublicKey) -> (r: Public)
        ensures
            r.0@ == public_key_bytes(*key),
    {
        Public(public_to_bytes(key))
    }
}

} // verus!
