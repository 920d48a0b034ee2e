//! Ed25519 signatures and the randomness keys are made from, as the crates
//! `ed25519-dalek` and `getrandom` provide them.

use vstd::prelude::*;
use ed25519_dalek::Signer;
use ed25519_dalek::Verifier;

verus! {

/// The public key that `ed25519-dalek` derives from a 32-byte secret key.
pub uninterp spec fn spec_ed25519_public(secret: Seq<u8>) -> Seq<u8>;

/// The signature that `ed25519-dalek` makes of `message` with a 32-byte
/// secret key. Ed25519 signing uses no randomness.
pub uninterp spec fn spec_ed25519_sign(secret: Seq<u8>, message: Seq<u8>) -> Seq<u8>;

/// Whether `ed25519-dalek` accepts `signature` as one of `message` under
/// `public`.
pub uninterp spec fn spec_ed25519_verify(public: Seq<u8>, message: Seq<u8>, signature: Seq<u8>) -> bool;

/// Calls `SigningKey::from_bytes` and `SigningKey::verifying_key`. The
/// contract names the public key and records that it has 32 bytes.
#[verifier::external_body]
pub(crate) fn ed25519_public(secret: &[u8]) -> (public: Vec<u8>)
    requires
        secret@.len() == 32,
    ensures
        public@ == spec_ed25519_public(secret@),
        public@.len() == 32,
{
    let seed: [u8; 32] = secret.try_into().unwrap();
    ed25519_dalek::SigningKey::from_bytes(&seed).verifying_key().to_bytes().to_vec()
}

/// Calls `Signer::sign` of `SigningKey`. The contract names the signature,
/// records that it has 64 bytes, and that it verifies under the public key
/// that belongs to the secret key.
#[verifier::external_body]
pub(crate) fn ed25519_sign(secret: &[u8], message: &[u8]) -> (signature: Vec<u8>)
    requires
        secret@.len() == 32,
    ensures
        signature@ == spec_ed25519_sign(secret@, message@),
        signature@.len() == 64,
        spec_ed25519_verify(spec_ed25519_public(secret@), message@, signature@),
{
    let seed: [u8; 32] = secret.try_into().unwrap();
    ed25519_dalek::SigningKey::from_bytes(&seed).sign(message).to_bytes().to_vec()
}

/// Calls `Verifier::verify` of `VerifyingKey`. A public key or a signature
/// that `ed25519-dalek` cannot read counts as a signature that does not
/// verify.
#[verifier::external_body]
pub(crate) fn ed25519_verify(public: &[u8], message: &[u8], signature: &[u8]) -> (ok: bool)
    ensures
        ok == spec_ed25519_verify(public@, message@, signature@),
{
    let key = match ed25519_dalek::VerifyingKey::try_from(public) {
        Ok(key) => key,
        Err(_) => return false,
    };
    let signature = match ed25519_dalek::Signature::from_slice(signature) {
        Ok(signature) => signature,
        Err(_) => return false,
    };
    key.verify(message, &signature).is_ok()
}

/// Calls `getrandom::getrandom` on a buffer of `len` bytes. Nothing is known
/// of the bytes but their number; `None` stands for a failure of the source.
#[verifier::external_body]
pub(crate) fn random_bytes(len: usize) -> (bytes: Option<Vec<u8>>)
    ensures
        bytes is Some ==> bytes->0@.len() == len,
{
    let mut buffer: Vec<u8> = vec![0u8; len];
    match getrandom::getrandom(&mut buffer) {
        Ok(()) => Some(buffer),
        Err(_) => None,
    }
}

} // verus!
