//! The check of a detached signature. The signature scheme itself is not verified: what this
//! file says of it is believed.

use vstd::prelude::*;
use sodiumoxide::crypto::sign;
use crate::types::{PUBLIC_KEY_LENGTH, SIGNATURE_LENGTH};

verus! {

/// Whether the Ed25519 signature `signature`, of 64 bytes, is a signature of `message` under
/// the public key `public_key`, of 32 bytes.
pub uninterp spec fn ed25519_verifies(signature: Seq<u8>, message: Seq<u8>, public_key: Seq<u8>)
    -> bool;

/// Whether `signature` is a valid detached signature of `message` under `public_key`: both have
/// the length that the scheme gives them, and the signature verifies.
pub open spec fn signature_verifies(signature: Seq<u8>, message: Seq<u8>, public_key: Seq<u8>)
    -> bool {
    &&& signature.len() == SIGNATURE_LENGTH
    &&& public_key.len() == PUBLIC_KEY_LENGTH
    &&& ed25519_verifies(signature, message, public_key)
}

/// Calls `sodiumoxide::crypto::sign::verify_detached` on the signature and the key that the
/// bytes make, and answers as it does. A signature that `Signature::from_bytes` does not take,
/// because the top bits of its last byte are set, does not verify.
#[verifier::external_body]
fn verify_detached(signature: &[u8], message: &[u8], public_key: &[u8]) -> (valid: bool)
    requires
        signature.len() == SIGNATURE_LENGTH,
        public_key.len() == PUBLIC_KEY_LENGTH,
    ensures
        valid == ed25519_verifies(signature@, message@, public_key@),
{
    match (sign::Signature::from_bytes(signature), sign::PublicKey::from_slice(public_key)) {
        (Ok(signature), Some(public_key)) => sign::verify_detached(&signature, message, &public_key),
        _ => false,
    }
}

/// Checks a detached signature over `message` against `public_key`. A signature or a key of
/// the wrong length is not valid.
pub fn check_signature(signature: &Vec<u8>, message: &Vec<u8>, public_key: &Vec<u8>) -> (valid:
    bool)
    ensures
        valid == signature_verifies(signature@, message@, public_key@),
{
    if signature.len() != SIGNATURE_LENGTH || public_key.len() != PUBLIC_KEY_LENGTH {
        return false;
    }
    verify_detached(signature.as_slice(), message.as_slice(), public_key.as_slice())
}

} // verus!
