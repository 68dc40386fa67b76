//! Creation of the one local identity: key pair generation orchestrated
//! with encrypted storage.

use vstd::prelude::*;

use crate::errors::Error;
use crate::identity::{format_identity_id, hyphenated_of, new_identity_id};
use crate::signing::{ed25519_pkcs8_valid, generate_pkcs8_document};
use crate::store::{
    entry_identity, first_identity_of, identity_count, lemma_first_identity_push,
    lemma_first_identity_some, lemma_identity_count_push, lemma_lookup_none,
    lemma_no_identity_count_zero, lookup_entry, stored_key_opens_to, IdentityStore,
};
use crate::vault::KeyVault;

verus! {

/// The single local cryptographic principal: its identifier and the locator
/// of its encrypted private key, populated at creation.
pub struct Identity {
    pub id: u128,
    pub locator: String,
}

/// Whether an identity is already discoverable in the store.
pub fn has_identity(store: &IdentityStore) -> (r: bool)
    ensures
        r == (first_identity_of(store.entries@) is Some),
{
    store.find_existing().is_some()
}

/// Generates a fresh Ed25519 key pair and stores its private document
/// encrypted under a new subdirectory named by `client_id`, returning the
/// locator. An error is possible only if system randomness fails, and
/// leaves the store unchanged.
pub fn generate_key_pair(store: &mut IdentityStore, vault: &KeyVault, client_id: u128) -> (r:
    Result<String, Error>)
    requires
        vault.wf(),
    ensures
        r matches Ok(locator) ==> {
            &&& locator@ == hyphenated_of(client_id)
            &&& final(store).entries@.len() == old(store).entries@.len() + 1
            &&& final(store).entries@.drop_last() == old(store).entries@
            &&& final(store).entries@.last().name@ == hyphenated_of(client_id)
            &&& entry_identity(final(store).entries@.last()) == Some(client_id)
            &&& lookup_entry(old(store).entries@, hyphenated_of(client_id)) is None ==> (
            exists|doc: Seq<u8>|
                ed25519_pkcs8_valid(doc) && stored_key_opens_to(
                    final(store).entries@,
                    vault.key(),
                    hyphenated_of(client_id),
                    doc,
                ))
        },
        r matches Err(e) ==> e == Error::CryptoError && *final(store) == *old(store),
{
    let doc = generate_pkcs8_document()?;
    match store.store_private_key(vault, doc.as_slice(), client_id) {
        Ok(locator) => Ok(locator),
        Err(e) => Err(e),
    }
}

/// Loads and decrypts the private key of the given identity: the stored key
/// document comes back exactly as it was stored. Fails with `NotFound` when
/// the identity has no stored subdirectory at all, with `IoError` when the
/// subdirectory exists but holds no key file, and otherwise with the
/// decoding or decryption failure (`FormatError`, `CryptoError`).
pub fn load_private_key(store: &IdentityStore, vault: &KeyVault, identity_id: u128) -> (r: Result<
    Vec<u8>,
    Error,
>)
    requires
        vault.wf(),
    ensures
        r matches Ok(k) ==> stored_key_opens_to(
            store.entries@,
            vault.key(),
            hyphenated_of(identity_id),
            k@,
        ),
        forall|k: Seq<u8>|
            stored_key_opens_to(store.entries@, vault.key(), hyphenated_of(identity_id), k) ==> (
            r matches Ok(v) && v@ == k),
        r == Err::<Vec<u8>, Error>(Error::NotFound) <==> lookup_entry(
            store.entries@,
            hyphenated_of(identity_id),
        ) is None,
        r matches Err(e) ==> (e == Error::NotFound || e == Error::IoError || e
            == Error::FormatError || e == Error::CryptoError),
{
    let locator = format_identity_id(identity_id);
    if !store.has_entry(&locator) {
        return Err(Error::NotFound);
    }
    store.load_private_key(vault, &locator)
}

/// Creates the single local identity: fails with `AlreadyExists` when any
/// identity is discoverable, otherwise generates a key pair, encrypts and
/// stores it under a freshly minted identifier, and returns the `Identity`
/// with its locator populated.
///
/// The store travels behind an exclusive mutable borrow for the whole
/// check-then-persist sequence, so two creations cannot interleave: after
/// any sequence of calls exactly one identity exists once one call has
/// succeeded, and every failing call leaves the store exactly as it was.
pub fn create_identity(store: &mut IdentityStore, vault: &KeyVault) -> (r: Result<Identity, Error>)
    requires
        vault.wf(),
    ensures
        r matches Err(_) ==> *final(store) == *old(store),
        first_identity_of(old(store).entries@) is Some ==> (r matches Err(e) && e
            == Error::AlreadyExists),
        r == Err::<Identity, Error>(Error::AlreadyExists) ==> first_identity_of(
            old(store).entries@,
        ) is Some,
        r matches Err(e) ==> (e == Error::AlreadyExists || e == Error::CryptoError),
        r matches Ok(ident) ==> {
            &&& first_identity_of(old(store).entries@) is None
            &&& identity_count(old(store).entries@) == 0
            &&& final(store).entries@.len() == old(store).entries@.len() + 1
            &&& final(store).entries@.drop_last() == old(store).entries@
            &&& identity_count(final(store).entries@) == 1
            &&& first_identity_of(final(store).entries@) == Some(ident.id)
            &&& final(store).entries@.last().name@ == hyphenated_of(ident.id)
            &&& ident.locator@ == hyphenated_of(ident.id)
            &&& (exists|doc: Seq<u8>|
                ed25519_pkcs8_valid(doc) && stored_key_opens_to(
                    final(store).entries@,
                    vault.key(),
                    hyphenated_of(ident.id),
                    doc,
                ))
        },
{
    match store.find_existing() {
        Some(_) => {
            return Err(Error::AlreadyExists);
        },
        None => {},
    }
    let id = new_identity_id();
    let locator = match generate_key_pair(store, vault, id) {
        Ok(l) => l,
        Err(e) => {
            return Err(e);
        },
    };
    proof {
        let s_old = old(store).entries@;
        let e = store.entries@.last();
        assert(store.entries@ =~= s_old.push(e));
        lemma_no_identity_count_zero(s_old);
        lemma_identity_count_push(s_old, e);
        lemma_first_identity_push(s_old, e);
        // No old entry can carry the new directory name: such an entry would
        // itself parse as this identity, yet the scan found none.
        assert forall|j: int| 0 <= j < s_old.len() implies (#[trigger] s_old[j]).name@
            != hyphenated_of(id) by {
            if s_old[j].name@ == hyphenated_of(id) {
                assert(entry_identity(s_old[j]) == entry_identity(e));
                lemma_first_identity_some(s_old, j);
            }
        }
        lemma_lookup_none(s_old, hyphenated_of(id));
    }
    Ok(Identity { id, locator })
}

} // verus!
