use vstd::prelude::*;
use ed25519_dalek::Signer;
use ed25519_dalek::Verifier;
use sha2::Digest;
use crate::hexcode::{hex_encode, hex_seq};

verus! {

/// The SHA-256 digest of a byte sequence, as the sha2 crate computes it:
/// a function of the input bytes alone.
pub uninterp spec fn sha256_of(data: Seq<u8>) -> Seq<u8>;

/// Relies on sha2's `Sha256`: one 32-byte digest, the same for the same
/// input bytes on every call.
#[verifier::external_body]
pub fn crypto_hash(data: &[u8]) -> (r: [u8; 32])
    ensures
        r@ == sha256_of(data@),
{
    let mut hasher = sha2::Sha256::new();
    hasher.update(data);
    hasher.finalize().into()
}

#[verifier::external_type_specification]
#[verifier::external_body]
pub struct ExSigningKey(ed25519_dalek::SigningKey);

/// The 32 public-key bytes of an Ed25519 signing key: dalek keeps the
/// verifying half as a function of the secret half.
pub uninterp spec fn signer_public_key(key: ed25519_dalek::SigningKey) -> Seq<u8>;

/// Whether `signature` is an Ed25519 signature on `message` that dalek's
/// verification accepts under the public key bytes `public_key`:
/// deterministic in its three arguments.
pub uninterp spec fn ed25519_verifies(
    public_key: Seq<u8>,
    message: Seq<u8>,
    signature: Seq<u8>,
) -> bool;

/// Whether bytes decode to a well-formed Ed25519 public key: a function of
/// the bytes alone.
pub uninterp spec fn valid_ed25519_key(bytes: Seq<u8>) -> bool;

/// Relies on `SigningKey::verifying_key` and `VerifyingKey::to_bytes`: the
/// 32-byte public half of the key, whose bytes `VerifyingKey::from_bytes`
/// accepts back.
#[verifier::external_body]
pub fn signer_public_bytes(key: &ed25519_dalek::SigningKey) -> (r: Vec<u8>)
    ensures
        r@ == signer_public_key(*key),
        r@.len() == 32,
        valid_ed25519_key(r@),
{
    key.verifying_key().to_bytes().to_vec()
}

/// The 64 signature bytes that RFC 8032 signing produces for a key and a
/// message: dalek's signing is deterministic in both.
pub uninterp spec fn ed25519_signature(key: ed25519_dalek::SigningKey, message: Seq<u8>) -> Seq<
    u8,
>;

/// Relies on `Signer::sign` (deterministic RFC 8032 signing): a 64-byte
/// signature that dalek's own verification accepts under the signer's
/// public key.
#[verifier::external_body]
pub fn sign_data(signing_key: &ed25519_dalek::SigningKey, message: &[u8]) -> (r: Vec<u8>)
    ensures
        r@ == ed25519_signature(*signing_key, message@),
        r@.len() == 64,
        ed25519_verifies(signer_public_key(*signing_key), message@, r@),
{
    let signature = signing_key.sign(message);
    signature.to_bytes().to_vec()
}

/// Relies on `VerifyingKey::from_bytes`, `Signature::try_from` and
/// `Verifier::verify`: acceptance depends on the key bytes, message and
/// signature alone; malformed key or signature bytes are rejected.
#[verifier::external_body]
pub fn verify_data(public_key: &[u8], message: &[u8], signature: &[u8]) -> (r: bool)
    ensures
        r == ed25519_verifies(public_key@, message@, signature@),
{
    let key = <&[u8; 32]>::try_from(public_key)
        .ok()
        .and_then(|b| ed25519_dalek::VerifyingKey::from_bytes(b).ok());
    match (key, ed25519_dalek::Signature::try_from(signature).ok()) {
        (Some(key), Some(sig)) => key.verify(message, &sig).is_ok(),
        _ => false,
    }
}

/// Relies on `VerifyingKey::from_bytes`: whether the bytes are a
/// well-formed 32-byte Ed25519 public key.
#[verifier::external_body]
pub fn is_valid_public_key(bytes: &[u8]) -> (r: bool)
    ensures
        r == valid_ed25519_key(bytes@),
{
    match <&[u8; 32]>::try_from(bytes) {
        Ok(b) => ed25519_dalek::VerifyingKey::from_bytes(b).is_ok(),
        Err(_) => false,
    }
}

/// The ledger address derived from a signing key: the lower-case
/// hexadecimal rendering of its 32 public-key bytes.
pub open spec fn address_of_key(key: ed25519_dalek::SigningKey) -> Seq<char> {
    hex_seq(signer_public_key(key))
}

/// Computes the caller's ledger address from its signing key.
pub fn signer_address(key: &ed25519_dalek::SigningKey) -> (r: String)
    ensures
        r@ == address_of_key(*key),
        r@.len() == 64,
{
    let bytes = signer_public_bytes(key);
    hex_encode(bytes.as_slice())
}

} // verus!
