use keygen::thresh::{
    derive_hard_junction, DeriveError, DeriveJunction, Pair, Public, SecretStringError, Signature,
};
use bip39::{Language, Mnemonic};
use parity_scale_codec::Encode;
use rand::{thread_rng, RngCore};

const PHRASE: &str =
    "abandon abandon abandon abandon abandon abandon abandon abandon abandon abandon abandon about";

fn hex(bytes: &[u8]) -> String {
    bytes.iter().map(|b| format!("{:02x}", b)).collect()
}

#[test]
fn test_seed() {
    let mut seed = [0u8; 32];
    thread_rng().fill_bytes(&mut seed);

    let first = Pair::from_seed(&seed);
    let second = Pair::from_seed(&seed);

    assert_eq!(first.public(), second.public());
}

#[test]
fn different_seeds_give_different_keys() {
    let first = Pair::from_seed(&[1u8; 32]);
    let second = Pair::from_seed(&[2u8; 32]);
    assert_ne!(first.public(), second.public());
    assert_ne!(first.to_raw_vec(), second.to_raw_vec());
    // The secret key is drawn from a generator, it is not the seed itself.
    assert_ne!(first.to_raw_vec(), vec![1u8; 32]);
    assert_ne!(first.public().0.to_vec(), first.sign(b"m").0[..48].to_vec());
}

#[test]
fn a_secret_key_comes_back_from_its_bytes() {
    let pair = Pair::from_seed(&[7u8; 32]);
    let raw = pair.to_raw_vec();
    assert_eq!(raw.len(), 32);
    let again = Pair::from_seed_slice(&raw).unwrap();
    assert_eq!(again.public(), pair.public());
    assert_eq!(again.to_raw_vec(), raw);
    assert_eq!(again.secret, pair.secret);
    assert_eq!(again.public, pair.secret.public_key());
}

#[test]
fn seeds_of_the_wrong_length_or_content_are_rejected() {
    assert_eq!(Pair::from_seed_slice(&[0u8; 31]).err(), Some(SecretStringError::InvalidSeedLength));
    assert_eq!(Pair::from_seed_slice(&[0u8; 33]).err(), Some(SecretStringError::InvalidSeedLength));
    assert_eq!(Pair::from_seed_slice(&[]).err(), Some(SecretStringError::InvalidSeedLength));
    // A number above the order of the scalar field is no secret key.
    assert_eq!(Pair::from_seed_slice(&[0xffu8; 32]).err(), Some(SecretStringError::InvalidSeed));
    assert!(Pair::from_seed_slice(&[0u8; 32]).is_ok());
}

#[test]
fn a_signature_verifies_under_its_key_only() {
    let pair = Pair::from_seed(&[3u8; 32]);
    let other = Pair::from_seed(&[4u8; 32]);
    let sig = pair.sign(b"message");
    assert_eq!(sig, pair.sign(b"message"));
    assert_ne!(sig, pair.sign(b"massage"));
    assert!(Pair::verify(&sig, b"message", &pair.public()));
    assert!(!Pair::verify(&sig, b"massage", &pair.public()));
    assert!(!Pair::verify(&sig, b"message", &other.public()));
    assert!(Pair::verify_weak(&sig.0, b"message", &pair.public().0));
    assert!(!Pair::verify_weak(&sig.0, b"", &pair.public().0));
}

#[test]
fn bytes_that_are_no_key_or_no_signature_do_not_verify() {
    let pair = Pair::from_seed(&[3u8; 32]);
    let sig = pair.sign(b"message");
    assert!(!Pair::verify(&sig, b"message", &Public::from_raw([0xffu8; 48])));
    assert!(!Pair::verify(&Signature::from_raw([0xffu8; 96]), b"message", &pair.public()));
    assert!(Public::from_raw([0xffu8; 48]).to_public_key().is_none());
    assert_eq!(pair.public().to_public_key(), Some(pair.public));
    assert_eq!(Public::from_public_key(&pair.public), pair.public());
}

#[test]
fn a_phrase_gives_its_seed() {
    let (pair, seed) = Pair::from_phrase(PHRASE, Some("Substrate")).unwrap();
    assert_eq!(hex(&seed), "44e9d125f037ac1d51f0a7d3649689d422c2af8b1ec8e00d71db4d7bf6d127e3");
    assert_eq!(pair.public(), Pair::from_seed(&seed).public());
    let (plain, plain_seed) = Pair::from_phrase(PHRASE, None).unwrap();
    let (empty, empty_seed) = Pair::from_phrase(PHRASE, Some("")).unwrap();
    assert_eq!(plain_seed, empty_seed);
    assert_eq!(plain.public(), empty.public());
    assert_ne!(plain_seed, seed);
}

#[test]
fn a_phrase_must_be_valid() {
    assert_eq!(Pair::from_phrase("abandon abandon", None).err(), Some(SecretStringError::InvalidPhrase));
    assert_eq!(Pair::from_phrase("", None).err(), Some(SecretStringError::InvalidPhrase));
    let wrong_checksum =
        "abandon abandon abandon abandon abandon abandon abandon abandon abandon abandon abandon abandon";
    assert_eq!(Pair::from_phrase(wrong_checksum, None).err(), Some(SecretStringError::InvalidPhrase));
}

#[test]
fn a_fresh_phrase_leads_back_to_its_pair() {
    let (pair, phrase, seed) = Pair::generate_with_phrase(Some("word"));
    assert_eq!(phrase.split(' ').count(), 12);
    let entropy = Mnemonic::from_phrase(&phrase, Language::English).unwrap();
    assert_eq!(entropy.entropy().len(), 16);
    let (again, again_seed) = Pair::from_phrase(&phrase, Some("word")).unwrap();
    assert_eq!(seed, again_seed);
    assert_eq!(pair.public(), again.public());
    let (next, other, _) = Pair::generate_with_phrase(None);
    assert_ne!(phrase, other);
    assert_ne!(pair.public(), next.public());
}

#[test]
fn phrases_of_every_length_are_stretched() {
    let long = "abandon abandon abandon abandon abandon abandon abandon abandon abandon abandon abandon abandon abandon abandon abandon abandon abandon agent";
    let (_, seed) = Pair::from_phrase(long, Some("Substrate")).unwrap();
    assert_eq!(hex(&seed), "44e9d125f037ac1d51f0a7d3649689d422c2af8b1ec8e00d71db4d7bf6d127e3");
}

#[test]
fn a_copy_of_a_pair_is_the_same_pair() {
    let pair = Pair::from_seed(&[8u8; 32]);
    let copy = pair.clone();
    assert_eq!(copy.public, pair.public);
    assert_eq!(copy.secret, pair.secret);
    assert_eq!(copy.public(), pair.public());
    assert_eq!(copy.sign(b"m"), pair.sign(b"m"));
}

#[test]
fn a_hard_junction_hashes_tag_seed_and_chain_code() {
    let once = derive_hard_junction(&[1u8; 32], &[2u8; 32]);
    assert_eq!(hex(&once), "90ee0791cb26686e446f6c8cde402e7fe9c7e4a3340777c0851463dc3851e667");
    let twice = derive_hard_junction(&once, &[3u8; 32]);
    assert_eq!(hex(&twice), "44c26d36c99c8b4c73f0a23ca4642fd3859c5d03d8df2998c9038d7c6be76c11");
}

#[test]
fn derivation_walks_the_path() {
    let pair = Pair::from_seed_slice(&{
        let mut s = [0u8; 32];
        s[0] = 1;
        s
    })
    .unwrap();
    let mut raw = [0u8; 32];
    raw.copy_from_slice(&pair.to_raw_vec());
    // The empty path leads to the pair itself, with its secret as seed.
    let (same, seed) = pair.derive(&Vec::new(), None).unwrap();
    assert_eq!(same.public(), pair.public());
    assert_eq!(seed, Some(raw));
    // A hard path leads to the pair of the derived seed.
    let path = vec![DeriveJunction::Hard([2u8; 32]), DeriveJunction::Hard([3u8; 32])];
    let (derived, seed) = pair.derive(&path, Some([9u8; 32])).unwrap();
    let expected = derive_hard_junction(&derive_hard_junction(&raw, &[2u8; 32]), &[3u8; 32]);
    assert_eq!(seed, Some(expected));
    assert_eq!(derived.public(), Pair::from_seed(&expected).public());
    assert_ne!(derived.public(), pair.public());
}

#[test]
fn a_soft_junction_is_refused_wherever_it_stands() {
    let pair = Pair::from_seed(&[5u8; 32]);
    for path in [
        vec![DeriveJunction::Soft([0u8; 32])],
        vec![DeriveJunction::Hard([1u8; 32]), DeriveJunction::Soft([0u8; 32])],
        vec![DeriveJunction::Soft([0u8; 32]), DeriveJunction::Hard([1u8; 32])],
    ] {
        assert!(matches!(pair.derive(&path, None), Err(DeriveError::SoftKeyInPath)));
    }
}

#[test]
fn a_hard_junction_hashes_what_the_codec_writes() {
    let seed = [11u8; 32];
    let cc = [12u8; 32];
    let encoded = ("threshold_crypto", seed, cc).encode();
    assert_eq!(encoded.len(), 1 + 16 + 32 + 32);
    assert_eq!(encoded[0], 0x40);
    let expected = blake2_rfc::blake2b::blake2b(32, &[], &encoded);
    assert_eq!(&derive_hard_junction(&seed, &cc)[..], expected.as_bytes());
}
