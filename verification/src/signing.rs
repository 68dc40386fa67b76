//! Ed25519 signing: generation, storage form and use of the identity's
//! asymmetric key pair, through `ring`.
//!
//! The key pair travels as its PKCS#8 v2 document bytes — plain values the
//! contracts can speak of. Ed25519 is deterministic (RFC 8032), so what a
//! document signs, and the public key it carries, are functions of the
//! document alone.

use vstd::prelude::*;

use crate::errors::Error;

use ring::rand::SystemRandom;
use ring::signature::{self, KeyPair, UnparsedPublicKey};

verus! {

/// Whether `ring::signature::Ed25519KeyPair::from_pkcs8` accepts the
/// document: acceptance is a pure function of the bytes.
pub uninterp spec fn ed25519_pkcs8_valid(doc: Seq<u8>) -> bool;

/// The signature the key pair decoded from `doc` produces for `msg`.
/// Ed25519 signing is deterministic, so this is a function of the two alone.
pub uninterp spec fn ed25519_sign(doc: Seq<u8>, msg: Seq<u8>) -> Seq<u8>;

/// The public key carried by the document `doc`.
pub uninterp spec fn ed25519_public(doc: Seq<u8>) -> Seq<u8>;

/// Whether Ed25519 verification accepts `sig` as a signature of `msg` under
/// `public_key`: a pure function of the three values.
pub uninterp spec fn ed25519_verifies(public_key: Seq<u8>, msg: Seq<u8>, sig: Seq<u8>) -> bool;

/// Relies on `ring::signature::Ed25519KeyPair::generate_pkcs8`: a fresh key
/// pair from system randomness, serialized as a PKCS#8 v2 document that
/// `from_pkcs8` accepts; ring's document buffer caps its length well below
/// 256 bytes. An error means the system's randomness source failed.
#[verifier::external_body]
pub(crate) fn generate_pkcs8_document() -> (r: Result<Vec<u8>, Error>)
    ensures
        r matches Ok(d) ==> ed25519_pkcs8_valid(d@) && d@.len() <= 256,
        r matches Err(e) ==> e == Error::CryptoError,
{
    let rng = SystemRandom::new();
    match signature::Ed25519KeyPair::generate_pkcs8(&rng) {
        Ok(doc) => Ok(doc.as_ref().to_vec()),
        Err(_) => Err(Error::CryptoError),
    }
}

/// Relies on `ring::signature::Ed25519KeyPair::from_pkcs8`: acceptance is a
/// pure function of the document bytes.
#[verifier::external_body]
pub(crate) fn pkcs8_accepted(doc: &[u8]) -> (r: bool)
    ensures
        r == ed25519_pkcs8_valid(doc@),
{
    signature::Ed25519KeyPair::from_pkcs8(doc).is_ok()
}

/// Relies on `ring::signature::Ed25519KeyPair::sign` (after `from_pkcs8`):
/// the 64-byte deterministic Ed25519 signature of `msg` under the document's
/// key, which verifies under the document's public key.
#[verifier::external_body]
pub(crate) fn sign_message(doc: &[u8], msg: &[u8]) -> (r: Vec<u8>)
    requires
        ed25519_pkcs8_valid(doc@),
    ensures
        r@ == ed25519_sign(doc@, msg@),
        r@.len() == 64,
        ed25519_verifies(ed25519_public(doc@), msg@, r@),
{
    let key_pair = signature::Ed25519KeyPair::from_pkcs8(doc).expect("accepted document");
    key_pair.sign(msg).as_ref().to_vec()
}

/// Relies on `ring::signature::KeyPair::public_key` for Ed25519 (after
/// `from_pkcs8`): the 32-byte public key carried by the document.
#[verifier::external_body]
pub(crate) fn public_key_of(doc: &[u8]) -> (r: Vec<u8>)
    requires
        ed25519_pkcs8_valid(doc@),
    ensures
        r@ == ed25519_public(doc@),
        r@.len() == 32,
{
    let key_pair = signature::Ed25519KeyPair::from_pkcs8(doc).expect("accepted document");
    key_pair.public_key().as_ref().to_vec()
}

/// Relies on `ring::signature::UnparsedPublicKey::verify` with `ED25519`:
/// acceptance is a pure function of public key, message and signature.
#[verifier::external_body]
pub(crate) fn verify_signature(public_key: &[u8], msg: &[u8], sig: &[u8]) -> (r: bool)
    ensures
        r == ed25519_verifies(public_key@, msg@, sig@),
{
    UnparsedPublicKey::new(&signature::ED25519, public_key).verify(msg, sig).is_ok()
}

} // verus!
