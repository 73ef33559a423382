use ed25519_dalek::SigningKey;
use rand::rngs::OsRng;
use sha2::{Digest, Sha256};

use nebula::crypto::{crypto_hash, is_valid_public_key, sign_data, signer_public_bytes, verify_data};
use nebula::hexcode::{hex_decode, hex_encode};
use nebula::math::{governance_voting_outcome, staking_yield, voting_power};

#[test]
fn hex_encoding_matches_the_reference() {
    let bytes = [0u8, 1, 0x0f, 0x10, 0xab, 0xff];
    assert_eq!(hex_encode(&bytes), hex::encode(bytes));
    assert_eq!(hex_encode(&[]), "");
}

#[test]
fn hex_decoding_round_trips_and_rejects_junk() {
    let bytes = vec![0xde, 0xad, 0xbe, 0xef];
    let text = hex_encode(&bytes);
    assert_eq!(hex_decode(&text), Some(bytes.clone()));
    assert_eq!(hex_decode("DEADBEEF"), Some(bytes));
    assert_eq!(hex_decode("abc"), None);
    assert_eq!(hex_decode("zz"), None);
    assert_eq!(hex_decode("ü0"), None);
    assert_eq!(hex_decode(""), Some(Vec::new()));
}

#[test]
fn crypto_hash_matches_the_reference_digest() {
    let data = b"stake-weighted consensus";
    let expected: [u8; 32] = Sha256::digest(data).into();
    assert_eq!(crypto_hash(data), expected);
    assert_ne!(crypto_hash(b"a"), crypto_hash(b"b"));
}

#[test]
fn signatures_verify_only_for_the_signer_and_message() {
    let key = SigningKey::generate(&mut OsRng);
    let other = SigningKey::generate(&mut OsRng);
    let public = signer_public_bytes(&key);
    let message = b"transfer 40";
    let signature = sign_data(&key, message);
    assert_eq!(signature.len(), 64);
    assert!(verify_data(&public, message, &signature));
    assert!(!verify_data(&public, b"transfer 41", &signature));
    assert!(!verify_data(&signer_public_bytes(&other), message, &signature));
    assert!(!verify_data(&public, message, &[]));
    assert!(is_valid_public_key(&public));
    assert!(!is_valid_public_key(&[1, 2, 3]));
}

#[test]
fn voting_power_and_yield_round_to_nearest() {
    assert_eq!(voting_power(100, 100), 100);
    assert_eq!(voting_power(7, 150), 11);
    assert_eq!(voting_power(0, 100), 0);
    assert_eq!(staking_yield(100, 5), 5);
    assert_eq!(staking_yield(30, 5), 2);
    assert_eq!(staking_yield(29, 5), 1);
}

#[test]
fn governance_voting_outcome_sums_signed_power() {
    assert_eq!(governance_voting_outcome(&[]), 0);
    assert_eq!(governance_voting_outcome(&[(10, 1), (3, -1)]), 7);
    assert_eq!(governance_voting_outcome(&[(30, 1), (10, -1), (25, -1)]), -5);
    assert_eq!(governance_voting_outcome(&[(5, 0)]), 0);
}
