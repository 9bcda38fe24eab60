//! Trusted boundary to the cryptography crates: ed25519 key derivation,
//! signing and verification, and the SHA3-256 digest.

use vstd::prelude::*;
use ed25519_dalek::Signer;
use ed25519_dalek::Verifier;
use sha3::Digest;

verus! {

/// The 32-byte ed25519 verifying key that belongs to the pair seeded by the
/// given 32 bytes; a function of the seed alone (RFC 8032 key generation).
pub uninterp spec fn public_key_of(seed: Seq<u8>) -> Seq<u8>;

/// The 64-byte ed25519 signature over `message` by the pair seeded by the
/// given 32 bytes; signing is deterministic, so this is a function of the
/// seed and the message alone.
pub uninterp spec fn signature_of(seed: Seq<u8>, message: Seq<u8>) -> Seq<u8>;

/// Whether ed25519 signature verification accepts `signature` for `message`
/// under the 32-byte verifying key `public_key`.
pub uninterp spec fn signature_checks(public_key: Seq<u8>, message: Seq<u8>, signature: Seq<u8>) -> bool;

/// The 32-byte SHA3-256 digest of `data`.
pub uninterp spec fn sha3_256_of(data: Seq<u8>) -> Seq<u8>;

/// Relies on `ed25519_dalek::SigningKey::from_bytes` and
/// `ed25519_dalek::VerifyingKey::to_bytes`: the verifying key of the pair
/// seeded by the given 32 bytes, derived from the seed alone.
#[verifier::external_body]
pub(crate) fn derive_public_key(seed: &Vec<u8>) -> (r: Vec<u8>)
    requires
        seed@.len() == 32,
    ensures
        r@ == public_key_of(seed@),
        r@.len() == 32,
{
    let secret: [u8; 32] = seed.as_slice().try_into().unwrap();
    let sk = ed25519_dalek::SigningKey::from_bytes(&secret);
    sk.verifying_key().to_bytes().to_vec()
}

/// Relies on `ed25519_dalek::Signer::sign` for `SigningKey`: deterministic
/// RFC 8032 signing, whose output the crate's `Verifier::verify` accepts
/// under the matching verifying key.
#[verifier::external_body]
pub(crate) fn sign_message(seed: &Vec<u8>, message: &Vec<u8>) -> (r: Vec<u8>)
    requires
        seed@.len() == 32,
    ensures
        r@ == signature_of(seed@, message@),
        r@.len() == 64,
        signature_checks(public_key_of(seed@), message@, r@),
{
    let secret: [u8; 32] = seed.as_slice().try_into().unwrap();
    let sk = ed25519_dalek::SigningKey::from_bytes(&secret);
    sk.sign(message.as_slice()).to_bytes().to_vec()
}

/// Relies on `ed25519_dalek::Verifier::verify` for `VerifyingKey`: whether
/// the signature is valid for the message under the key. A key that is not a
/// valid curve point accepts nothing.
#[verifier::external_body]
pub(crate) fn ed25519_verify(public_key: &Vec<u8>, message: &Vec<u8>, signature: &Vec<u8>) -> (r: bool)
    requires
        public_key@.len() == 32,
        signature@.len() == 64,
    ensures
        r == signature_checks(public_key@, message@, signature@),
{
    let pk: [u8; 32] = public_key.as_slice().try_into().unwrap();
    let sig: [u8; 64] = signature.as_slice().try_into().unwrap();
    match ed25519_dalek::VerifyingKey::from_bytes(&pk) {
        Ok(vk) => vk.verify(message.as_slice(), &ed25519_dalek::Signature::from_bytes(&sig)).is_ok(),
        Err(_) => false,
    }
}

/// Relies on `sha3::Sha3_256::digest`: the 32-byte SHA3-256 digest of the
/// input, a function of the input bytes alone.
#[verifier::external_body]
pub(crate) fn sha3_256(data: &Vec<u8>) -> (r: Vec<u8>)
    ensures
        r@ == sha3_256_of(data@),
        r@.len() == 32,
{
    sha3::Sha3_256::digest(data.as_slice()).to_vec()
}

} // verus!
