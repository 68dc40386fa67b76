//! Challenge-response authentication against the stored key, and the
//! time-bounded sessions it issues.

use vstd::prelude::*;

use crate::errors::Error;
use crate::identity::{format_identity_id, hyphenated_of, lemma_hyphenated_len, new_identity_id};
use crate::signing::{
    ed25519_pkcs8_valid, pkcs8_accepted, public_key_of, sign_message, verify_signature,
};
use crate::store::{first_identity_of, stored_key_opens_to, IdentityStore};
use crate::vault::KeyVault;

verus! {

/// How long an issued session stays valid, in seconds: three hours.
pub const SESSION_VALIDITY_SECS: u64 = 10800;

/// A time-bounded authorization token issued after successful
/// authentication. Held by the caller, never persisted here; it dies
/// semantically once `expires_at` has passed, checked on demand by
/// `validate_session`.
pub struct Session {
    pub token: String,
    pub client_id: u128,
    pub expires_at: u64,
}

/// A session is valid exactly while the current time has not reached
/// `expires_at`: strictly before expiry it is valid, at and after it is
/// not — validity flips exactly at the boundary.
pub fn validate_session(session: &Session, now: u64) -> (r: bool)
    ensures
        r == (session.expires_at > now),
{
    session.expires_at > now
}

/// The decimal ASCII digits of a number, most significant first, without
/// leading zeroes (a single `'0'` for zero).
pub open spec fn decimal_digits_of(n: nat) -> Seq<u8>
    decreases n,
{
    if n < 10 {
        seq![(48 + n) as u8]
    } else {
        decimal_digits_of(n / 10).push((48 + n % 10) as u8)
    }
}

fn push_decimal_digits(n: u64, out: &mut Vec<u8>)
    ensures
        final(out)@ == old(out)@ + decimal_digits_of(n as nat),
    decreases n,
{
    if n < 10 {
        out.push((n + 48) as u8);
        proof {
            assert(out@ =~= old(out)@ + decimal_digits_of(n as nat));
        }
    } else {
        push_decimal_digits(n / 10, out);
        out.push((n % 10 + 48) as u8);
        proof {
            assert(out@ =~= old(out)@ + decimal_digits_of(n as nat));
        }
    }
}

/// The challenge value that is signed during authentication: the current
/// unix timestamp, textually encoded in decimal ASCII.
pub fn timestamp_challenge(now: u64) -> (r: Vec<u8>)
    ensures
        r@ == decimal_digits_of(now as nat),
{
    let mut out: Vec<u8> = Vec::new();
    push_decimal_digits(now, &mut out);
    out
}

/// Mints a session for an authenticated identity: a fresh random token,
/// the identity's id, and an expiry one validity window from `now`.
fn generate_session(client_id: u128, now: u64) -> (s: Session)
    requires
        now <= u64::MAX - SESSION_VALIDITY_SECS,
    ensures
        s.client_id == client_id,
        s.expires_at == now + SESSION_VALIDITY_SECS,
        s.token@.len() == 36,
{
    let token_id = new_identity_id();
    let token = format_identity_id(token_id);
    proof {
        lemma_hyphenated_len(token_id);
    }
    Session { token, client_id, expires_at: now + SESSION_VALIDITY_SECS }
}

/// Resolves the single existing identity from the store's entries, or
/// fails with `NoIdentity` when none is discoverable.
pub fn get_client_id_from_private_key(store: &IdentityStore) -> (r: Result<u128, Error>)
    ensures
        r matches Ok(id) ==> first_identity_of(store.entries@) == Some(id),
        r matches Err(e) ==> e == Error::NoIdentity && first_identity_of(store.entries@) is None,
        first_identity_of(store.entries@) matches Some(id) ==> r == Ok::<u128, Error>(id),
{
    match store.find_existing() {
        Some(id) => Ok(id),
        None => Err(Error::NoIdentity),
    }
}

/// Proves possession of the stored private key and issues a session.
///
/// The identity is resolved, its key blob loaded and decrypted, the current
/// timestamp signed with the key and the signature self-verified against
/// the key's own public key; then a session is minted carrying a fresh
/// random token, the identity's id, and an expiry three hours from `now`.
///
/// Succeeds whenever an identity exists whose stored blob decodes and
/// decrypts under the vault's key to an acceptable key document — the
/// self-verification step never fails on such a key, so `SignatureError`
/// is never returned. On failure: `NoIdentity` exactly when no identity is
/// discoverable, otherwise the loading failure (`IoError`, `FormatError`,
/// `CryptoError`), with `FormatError` also standing for a decrypted
/// document the signer rejects.
pub fn authenticate_client(store: &IdentityStore, vault: &KeyVault, now: u64) -> (r: Result<
    Session,
    Error,
>)
    requires
        vault.wf(),
        now <= u64::MAX - SESSION_VALIDITY_SECS,
    ensures
        r == Err::<Session, Error>(Error::NoIdentity) <==> first_identity_of(
            store.entries@,
        ) is None,
        r matches Ok(s) ==> {
            &&& first_identity_of(store.entries@) == Some(s.client_id)
            &&& s.expires_at == now + SESSION_VALIDITY_SECS
            &&& s.token@.len() == 36
            &&& (exists|doc: Seq<u8>|
                ed25519_pkcs8_valid(doc) && stored_key_opens_to(
                    store.entries@,
                    vault.key(),
                    hyphenated_of(s.client_id),
                    doc,
                ))
        },
        forall|id: u128, doc: Seq<u8>|
            first_identity_of(store.entries@) == Some(id) && ed25519_pkcs8_valid(doc)
                && stored_key_opens_to(store.entries@, vault.key(), hyphenated_of(id), doc)
                ==> r is Ok,
        r matches Err(e) ==> (e == Error::NoIdentity || e == Error::IoError || e
            == Error::FormatError || e == Error::CryptoError),
{
    let client_id = match get_client_id_from_private_key(store) {
        Ok(id) => id,
        Err(e) => {
            return Err(e);
        },
    };
    let locator = format_identity_id(client_id);
    let private_key = match store.load_private_key(vault, &locator) {
        Ok(k) => k,
        Err(e) => {
            return Err(e);
        },
    };
    if !pkcs8_accepted(private_key.as_slice()) {
        return Err(Error::FormatError);
    }
    let challenge = timestamp_challenge(now);
    let signature = sign_message(private_key.as_slice(), challenge.as_slice());
    let public_key = public_key_of(private_key.as_slice());
    if !verify_signature(public_key.as_slice(), challenge.as_slice(), signature.as_slice()) {
        return Err(Error::SignatureError);
    }
    Ok(generate_session(client_id, now))
}

} // verus!
