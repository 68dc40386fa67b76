//! Authenticated symmetric encryption of byte payloads at rest.
//!
//! A `KeyVault` holds the process-wide 256-bit key and produces opaque blobs
//! laid out as `nonce || ciphertext_with_tag`, with a fresh 96-bit random
//! nonce for every encryption.

use vstd::prelude::*;

use crate::errors::{CryptoError, Error};

use aes_gcm::aead::{Aead, Generate};
use aes_gcm::{Aes256Gcm, KeyInit, Nonce};

verus! {

/// What AES-256-GCM produces for a given key, nonce and plaintext: the
/// ciphertext with the 16-byte authentication tag appended. The algorithm is
/// deterministic, so the result is a function of these three values alone.
pub uninterp spec fn gcm_seal(key: Seq<u8>, nonce: Seq<u8>, plaintext: Seq<u8>) -> Seq<u8>;

/// Relies on the operating system's secure randomness source, through
/// `aes_gcm::aead::Generate` for `[u8; 12]`, to draw a fresh 96-bit nonce.
/// Nothing can be promised of the value itself; an error means the system's
/// randomness source failed.
#[verifier::external_body]
pub fn generate_nonce() -> (r: Result<Vec<u8>, Error>)
    ensures
        r matches Ok(n) ==> n@.len() == 12,
        r matches Err(e) ==> e == Error::CryptoError,
{
    let bytes: [u8; 12] = match Generate::try_generate() {
        Ok(b) => b,
        Err(_) => return Err(Error::CryptoError),
    };
    Ok(bytes.to_vec())
}

/// Relies on `aes_gcm::Aes256Gcm` encryption (through the `Aead` trait): the
/// result is `gcm_seal` of key, nonce and plaintext, it is 16 bytes (one tag)
/// longer than the plaintext, and encryption succeeds for any plaintext well
/// below the AES-GCM length cap of about 2^36 bytes.
#[verifier::external_body]
fn aes256_gcm_seal(key: &[u8], nonce: &[u8], plaintext: &[u8]) -> (r: Result<Vec<u8>, ()>)
    requires
        key@.len() == 32,
        nonce@.len() == 12,
    ensures
        r matches Ok(c) ==> c@ == gcm_seal(key@, nonce@, plaintext@) && c@.len() == plaintext@.len() + 16,
        plaintext@.len() < 0x1_0000_0000 ==> r is Ok,
{
    let cipher = match Aes256Gcm::new_from_slice(key) {
        Ok(c) => c,
        Err(_) => return Err(()),
    };
    let nonce = match <&Nonce<_>>::try_from(nonce) {
        Ok(n) => n,
        Err(_) => return Err(()),
    };
    cipher.encrypt(nonce, plaintext).map_err(|_| ())
}

/// Relies on `aes_gcm::Aes256Gcm` decryption (through the `Aead` trait):
/// it returns a plaintext exactly when the input is `gcm_seal` of that
/// plaintext under the same key and nonce, and the tag check makes the
/// sealing injective in the plaintext, so the plaintext handed back is the
/// one that was sealed.
#[verifier::external_body]
fn aes256_gcm_open(key: &[u8], nonce: &[u8], ciphertext: &[u8]) -> (r: Result<Vec<u8>, ()>)
    requires
        key@.len() == 32,
        nonce@.len() == 12,
    ensures
        r matches Ok(p) ==> ciphertext@ == gcm_seal(key@, nonce@, p@),
        r matches Ok(p) ==> forall|q: Seq<u8>| ciphertext@ == gcm_seal(key@, nonce@, q) ==> q == p@,
        r is Err ==> forall|p: Seq<u8>| ciphertext@ != gcm_seal(key@, nonce@, p),
{
    let cipher = match Aes256Gcm::new_from_slice(key) {
        Ok(c) => c,
        Err(_) => return Err(()),
    };
    let nonce = match <&Nonce<_>>::try_from(nonce) {
        Ok(n) => n,
        Err(_) => return Err(()),
    };
    cipher.decrypt(nonce, ciphertext).map_err(|_| ())
}

/// The blob `blob` opens to `plaintext` under `key`: it is long enough to
/// carry a nonce, and what follows the nonce is the seal of `plaintext`
/// under that nonce.
pub open spec fn blob_opens_to(key: Seq<u8>, blob: Seq<u8>, plaintext: Seq<u8>) -> bool {
    &&& blob.len() >= 12
    &&& blob.skip(12) == gcm_seal(key, blob.take(12), plaintext)
}

/// The blob produced when `plaintext` is sealed under `key` with `nonce`.
pub open spec fn sealed_blob(key: Seq<u8>, nonce: Seq<u8>, plaintext: Seq<u8>) -> Seq<u8> {
    nonce + gcm_seal(key, nonce, plaintext)
}

/// Performs authenticated encryption and decryption of arbitrary byte
/// payloads under one 256-bit symmetric key.
pub struct KeyVault {
    key: Vec<u8>,
}

impl KeyVault {
    /// The vault holds a key of exactly 32 bytes.
    pub closed spec fn wf(&self) -> bool {
        self.key@.len() == 32
    }

    /// The key material, for stating what blobs open to.
    pub closed spec fn key(&self) -> Seq<u8> {
        self.key@
    }

    /// Builds a vault from configured key material. A key that is not
    /// exactly 32 bytes is a fatal configuration error.
    pub fn new(key: Vec<u8>) -> (r: Result<KeyVault, Error>)
        ensures
            key@.len() == 32 ==> (r matches Ok(v) && v.wf() && v.key() == key@),
            key@.len() != 32 ==> (r matches Err(e) && e == Error::ConfigError),
    {
        if key.len() != 32 {
            Err(Error::ConfigError)
        } else {
            Ok(KeyVault { key })
        }
    }

    /// Encrypts `plaintext` into a fresh blob `nonce || ciphertext_with_tag`.
    /// The nonce is drawn anew from system randomness on every call; an error
    /// is possible only if that randomness source fails.
    pub fn encrypt(&self, plaintext: &[u8]) -> (r: Result<Vec<u8>, Error>)
        requires
            self.wf(),
            plaintext@.len() < 0x1_0000_0000,
        ensures
            r matches Ok(blob) ==> {
                &&& blob@.len() == plaintext@.len() + 28
                &&& blob@ == sealed_blob(self.key(), blob@.take(12), plaintext@)
                &&& blob_opens_to(self.key(), blob@, plaintext@)
            },
            r matches Err(e) ==> e == Error::CryptoError,
    {
        let nonce = generate_nonce()?;
        let sealed = match aes256_gcm_seal(self.key.as_slice(), nonce.as_slice(), plaintext) {
            Ok(c) => c,
            Err(_) => {
                return Err(Error::CryptoError);
            },
        };
        let mut blob = nonce;
        let mut tail = sealed;
        blob.append(&mut tail);
        proof {
            assert(blob@.take(12) =~= blob@.subrange(0, 12));
            assert(blob@.take(12) =~= nonce@);
            assert(blob@.skip(12) =~= gcm_seal(self.key(), nonce@, plaintext@));
        }
        Ok(blob)
    }

    /// Decrypts a blob produced by `encrypt`. All-or-nothing: the result is
    /// the exact payload that was sealed, or `AuthenticationFailed` when the
    /// blob is shorter than one nonce or its tag does not verify.
    pub fn decrypt(&self, blob: &[u8]) -> (r: Result<Vec<u8>, CryptoError>)
        requires
            self.wf(),
        ensures
            r matches Ok(p) ==> blob_opens_to(self.key(), blob@, p@),
            forall|p: Seq<u8>|
                blob_opens_to(self.key(), blob@, p) ==> (r matches Ok(v) && v@ == p),
            r matches Err(e) ==> e == CryptoError::AuthenticationFailed,
    {
        if blob.len() < 12 {
            return Err(CryptoError::AuthenticationFailed);
        }
        let (nonce, ciphertext) = blob.split_at(12);
        match aes256_gcm_open(self.key.as_slice(), nonce, ciphertext) {
            Ok(p) => Ok(p),
            Err(_) => Err(CryptoError::AuthenticationFailed),
        }
    }
}

/// Round trip: every blob that `encrypt` can produce for a payload opens
/// back to exactly that payload, whatever nonce was drawn.
pub proof fn lemma_encrypt_decrypt_round_trip(key: Seq<u8>, nonce: Seq<u8>, plaintext: Seq<u8>)
    requires
        nonce.len() == 12,
    ensures
        blob_opens_to(key, sealed_blob(key, nonce, plaintext), plaintext),
{
    let blob = sealed_blob(key, nonce, plaintext);
    assert(blob.take(12) =~= nonce);
    assert(blob.skip(12) =~= gcm_seal(key, nonce, plaintext));
}

} // verus!
