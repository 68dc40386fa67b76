//! Filesystem-backed persistence of the one identity, modelled as plain
//! values.
//!
//! The application's data directory holds zero or one identity subdirectory
//! named by the identity's UUID, each holding one fixed file with the
//! text-encoded `nonce || ciphertext_with_tag` blob of the private key.
//! `IdentityStore` carries that layout as data — one entry per
//! subdirectory, with the key file's text content — so every rule about it
//! is verified here; the application shell mirrors the entries to disk and
//! surfaces its own I/O failures.

use vstd::prelude::*;

use crate::errors::Error;
use crate::identity::{format_identity_id, hyphenated_of, parse_identity_id, uuid_str_value};
use crate::vault::{blob_opens_to, KeyVault};

use base64::Engine;

verus! {

/// What base64's standard alphabet with padding encodes a byte sequence to.
/// Encoding is a pure function of the bytes alone.
pub uninterp spec fn b64_of(bytes: Seq<u8>) -> Seq<char>;

/// Relies on `base64::engine::general_purpose::STANDARD.encode`: the result
/// is the standard padded base64 text of the input bytes.
#[verifier::external_body]
fn b64_encode(bytes: &[u8]) -> (r: String)
    ensures
        r@ == b64_of(bytes@),
{
    base64::engine::general_purpose::STANDARD.encode(bytes)
}

/// Relies on `base64::engine::general_purpose::STANDARD.decode`: it requires
/// canonical padding, so it inverts `encode` exactly — it succeeds precisely
/// on the strings some byte sequence encodes to, and returns that sequence.
#[verifier::external_body]
fn b64_decode(text: &str) -> (r: Result<Vec<u8>, ()>)
    ensures
        r matches Ok(v) ==> text@ == b64_of(v@),
        r matches Ok(v) ==> forall|q: Seq<u8>| text@ == b64_of(q) ==> q == v@,
        r is Err ==> forall|bs: Seq<u8>| text@ != b64_of(bs),
{
    match base64::engine::general_purpose::STANDARD.decode(text) {
        Ok(v) => Ok(v),
        Err(_) => Err(()),
    }
}

/// One immediate subdirectory of the data directory: its name, and the text
/// content of its private-key file if that file exists.
pub struct StoreEntry {
    pub name: String,
    pub key_file: Option<String>,
}

/// The identity the subdirectory stands for: the identifier its name parses
/// to, or nothing when the name is no UUID.
pub open spec fn entry_identity(e: StoreEntry) -> Option<u128> {
    uuid_str_value(e.name@)
}

/// The identity of the first entry whose name parses as a UUID — what a
/// directory scan finds.
pub open spec fn first_identity_of(s: Seq<StoreEntry>) -> Option<u128>
    decreases s.len(),
{
    if s.len() == 0 {
        None
    } else if entry_identity(s[0]) is Some {
        entry_identity(s[0])
    } else {
        first_identity_of(s.drop_first())
    }
}

/// How many entries name an identity.
pub open spec fn identity_count(s: Seq<StoreEntry>) -> nat
    decreases s.len(),
{
    if s.len() == 0 {
        0
    } else {
        (if entry_identity(s[0]) is Some {
            1nat
        } else {
            0nat
        }) + identity_count(s.drop_first())
    }
}

/// The first entry with the given directory name, if any.
pub open spec fn lookup_entry(s: Seq<StoreEntry>, name: Seq<char>) -> Option<StoreEntry>
    decreases s.len(),
{
    if s.len() == 0 {
        None
    } else if s[0].name@ == name {
        Some(s[0])
    } else {
        lookup_entry(s.drop_first(), name)
    }
}

/// The text stored in the key file of the entry named `name`, if that entry
/// and its file exist.
pub open spec fn stored_text(s: Seq<StoreEntry>, name: Seq<char>) -> Option<Seq<char>> {
    match lookup_entry(s, name) {
        None => None,
        Some(e) => match e.key_file {
            None => None,
            Some(t) => Some(t@),
        },
    }
}

/// The key bytes `k` are what the entry named `name` holds: its stored text
/// decodes to a blob that opens to `k` under `key`.
pub open spec fn stored_key_opens_to(
    s: Seq<StoreEntry>,
    key: Seq<u8>,
    name: Seq<char>,
    k: Seq<u8>,
) -> bool {
    exists|blob: Seq<u8>|
        {
            &&& stored_text(s, name) == Some(b64_of(blob))
            &&& blob_opens_to(key, blob, k)
        }
}

proof fn lemma_first_identity_none(s: Seq<StoreEntry>)
    requires
        forall|j: int| 0 <= j < s.len() ==> entry_identity(#[trigger] s[j]) is None,
    ensures
        first_identity_of(s) is None,
    decreases s.len(),
{
    if s.len() > 0 {
        lemma_first_identity_none(s.drop_first());
    }
}

proof fn lemma_first_identity_found(s: Seq<StoreEntry>, i: int)
    requires
        0 <= i < s.len(),
        entry_identity(s[i]) is Some,
        forall|j: int| 0 <= j < i ==> entry_identity(#[trigger] s[j]) is None,
    ensures
        first_identity_of(s) == entry_identity(s[i]),
    decreases i,
{
    if i > 0 {
        lemma_first_identity_found(s.drop_first(), i - 1);
    }
}

pub proof fn lemma_lookup_none(s: Seq<StoreEntry>, name: Seq<char>)
    requires
        forall|j: int| 0 <= j < s.len() ==> (#[trigger] s[j]).name@ != name,
    ensures
        lookup_entry(s, name) is None,
    decreases s.len(),
{
    if s.len() > 0 {
        lemma_lookup_none(s.drop_first(), name);
    }
}

proof fn lemma_lookup_found(s: Seq<StoreEntry>, name: Seq<char>, i: int)
    requires
        0 <= i < s.len(),
        s[i].name@ == name,
        forall|j: int| 0 <= j < i ==> (#[trigger] s[j]).name@ != name,
    ensures
        lookup_entry(s, name) == Some(s[i]),
    decreases i,
{
    if i > 0 {
        lemma_lookup_found(s.drop_first(), name, i - 1);
    }
}

/// An entry that names an identity means the scan finds one.
pub proof fn lemma_first_identity_some(s: Seq<StoreEntry>, i: int)
    requires
        0 <= i < s.len(),
        entry_identity(s[i]) is Some,
    ensures
        first_identity_of(s) is Some,
    decreases i,
{
    if entry_identity(s[0]) is Some {
    } else {
        lemma_first_identity_some(s.drop_first(), i - 1);
    }
}

/// Appending an entry changes a lookup only where nothing of that name was
/// found before.
proof fn lemma_lookup_push(s: Seq<StoreEntry>, e: StoreEntry, name: Seq<char>)
    ensures
        lookup_entry(s.push(e), name) == (if lookup_entry(s, name) is Some {
            lookup_entry(s, name)
        } else if e.name@ == name {
            Some(e)
        } else {
            None
        }),
    decreases s.len(),
{
    if s.len() == 0 {
        assert(s.push(e)[0] == e);
        assert(s.push(e).drop_first() =~= Seq::<StoreEntry>::empty());
    } else {
        assert(s.push(e)[0] == s[0]);
        assert(s.push(e).drop_first() =~= s.drop_first().push(e));
        lemma_lookup_push(s.drop_first(), e, name);
    }
}

/// Appending an entry changes the scan's result only where no identity was
/// found before.
pub proof fn lemma_first_identity_push(s: Seq<StoreEntry>, e: StoreEntry)
    ensures
        first_identity_of(s.push(e)) == (if first_identity_of(s) is Some {
            first_identity_of(s)
        } else {
            entry_identity(e)
        }),
    decreases s.len(),
{
    if s.len() == 0 {
        assert(s.push(e)[0] == e);
        assert(s.push(e).drop_first() =~= Seq::<StoreEntry>::empty());
        assert(first_identity_of(Seq::<StoreEntry>::empty()) is None);
    } else {
        assert(s.push(e)[0] == s[0]);
        assert(s.push(e).drop_first() =~= s.drop_first().push(e));
        lemma_first_identity_push(s.drop_first(), e);
    }
}

/// Appending an entry raises the identity count by one exactly when the
/// entry names an identity.
pub proof fn lemma_identity_count_push(s: Seq<StoreEntry>, e: StoreEntry)
    ensures
        identity_count(s.push(e)) == identity_count(s) + (if entry_identity(e) is Some {
            1nat
        } else {
            0nat
        }),
    decreases s.len(),
{
    if s.len() == 0 {
        assert(s.push(e)[0] == e);
        assert(s.push(e).drop_first() =~= Seq::<StoreEntry>::empty());
        assert(identity_count(Seq::<StoreEntry>::empty()) == 0);
    } else {
        assert(s.push(e)[0] == s[0]);
        assert(s.push(e).drop_first() =~= s.drop_first().push(e));
        lemma_identity_count_push(s.drop_first(), e);
    }
}

/// The scan finds no identity exactly when no entry names one, that is,
/// when the identity count is zero.
pub proof fn lemma_no_identity_count_zero(s: Seq<StoreEntry>)
    ensures
        (first_identity_of(s) is None) <==> identity_count(s) == 0,
    decreases s.len(),
{
    if s.len() > 0 {
        lemma_no_identity_count_zero(s.drop_first());
    }
}

/// The model of the application data directory: one entry per immediate
/// subdirectory, in scan order.
pub struct IdentityStore {
    pub entries: Vec<StoreEntry>,
}

impl IdentityStore {
    /// A store with no entries at all — a fresh data directory.
    pub fn empty() -> (r: IdentityStore)
        ensures
            r.entries@.len() == 0,
    {
        IdentityStore { entries: Vec::new() }
    }

    /// Scans the entries for the first whose directory name parses as a
    /// UUID and returns that identity, or nothing when no entry does.
    pub fn find_existing(&self) -> (r: Option<u128>)
        ensures
            r == first_identity_of(self.entries@),
    {
        let n = self.entries.len();
        let mut i: usize = 0;
        while i < n
            invariant
                n == self.entries@.len(),
                0 <= i <= n,
                forall|j: int| 0 <= j < i ==> entry_identity(#[trigger] self.entries@[j]) is None,
            decreases n - i,
        {
            let parsed = parse_identity_id(self.entries[i].name.as_str());
            match parsed {
                Some(id) => {
                    proof {
                        lemma_first_identity_found(self.entries@, i as int);
                    }
                    return Some(id);
                },
                None => {},
            }
            i += 1;
        }
        proof {
            lemma_first_identity_none(self.entries@);
        }
        None
    }

    /// Records a new identity subdirectory named by `identity_id`, holding
    /// the text-encoded blob, and returns the locator (the directory name)
    /// for later retrieval.
    pub fn persist(&mut self, identity_id: u128, blob: &Vec<u8>) -> (locator: String)
        ensures
            final(self).entries@.len() == old(self).entries@.len() + 1,
            final(self).entries@.drop_last() == old(self).entries@,
            final(self).entries@.last().name@ == hyphenated_of(identity_id),
            entry_identity(final(self).entries@.last()) == Some(identity_id),
            final(self).entries@.last().key_file matches Some(t) && t@ == b64_of(blob@),
            locator@ == hyphenated_of(identity_id),
    {
        let name = format_identity_id(identity_id);
        let locator = name.clone();
        let text = b64_encode(blob.as_slice());
        let entry = StoreEntry { name, key_file: Some(text) };
        self.entries.push(entry);
        proof {
            assert(final(self).entries@.drop_last() =~= old(self).entries@);
        }
        locator
    }

    /// Whether any entry carries the given directory name.
    pub fn has_entry(&self, name: &String) -> (r: bool)
        ensures
            r == (lookup_entry(self.entries@, name@) is Some),
    {
        let n = self.entries.len();
        let mut i: usize = 0;
        while i < n
            invariant
                n == self.entries@.len(),
                0 <= i <= n,
                forall|j: int| 0 <= j < i ==> (#[trigger] self.entries@[j]).name@ != name@,
            decreases n - i,
        {
            if self.entries[i].name == *name {
                proof {
                    lemma_lookup_found(self.entries@, name@, i as int);
                }
                return true;
            }
            i += 1;
        }
        proof {
            lemma_lookup_none(self.entries@, name@);
        }
        false
    }

    /// Reads and decodes the blob stored under `locator`: `IoError` when no
    /// entry of that name or no key file exists, `FormatError` when the
    /// stored text is not canonical base64.
    pub fn load(&self, locator: &String) -> (r: Result<Vec<u8>, Error>)
        ensures
            r matches Ok(b) ==> stored_text(self.entries@, locator@) == Some(b64_of(b@)),
            forall|bs: Seq<u8>|
                stored_text(self.entries@, locator@) == Some(b64_of(bs)) ==> (r matches Ok(v)
                    && v@ == bs),
            r == Err::<Vec<u8>, Error>(Error::IoError) <==> stored_text(
                self.entries@,
                locator@,
            ) is None,
            r == Err::<Vec<u8>, Error>(Error::FormatError) ==> (stored_text(
                self.entries@,
                locator@,
            ) matches Some(t) && (forall|bs: Seq<u8>| t != b64_of(bs))),
            r matches Err(e) ==> (e == Error::IoError || e == Error::FormatError),
    {
        let n = self.entries.len();
        let mut i: usize = 0;
        while i < n
            invariant
                n == self.entries@.len(),
                0 <= i <= n,
                forall|j: int| 0 <= j < i ==> (#[trigger] self.entries@[j]).name@ != locator@,
            decreases n - i,
        {
            if self.entries[i].name == *locator {
                proof {
                    lemma_lookup_found(self.entries@, locator@, i as int);
                }
                match &self.entries[i].key_file {
                    None => {
                        return Err(Error::IoError);
                    },
                    Some(text) => {
                        match b64_decode(text.as_str()) {
                            Ok(bytes) => {
                                return Ok(bytes);
                            },
                            Err(_) => {
                                return Err(Error::FormatError);
                            },
                        }
                    },
                }
            }
            i += 1;
        }
        proof {
            lemma_lookup_none(self.entries@, locator@);
        }
        Err(Error::IoError)
    }

    /// Encrypts a private key under the vault's key and records it under a
    /// new subdirectory named by `client_id`, returning the locator. An
    /// error is possible only if system randomness fails, and leaves the
    /// store unchanged — no partial state survives a failure.
    pub fn store_private_key(
        &mut self,
        vault: &KeyVault,
        private_key: &[u8],
        client_id: u128,
    ) -> (r: Result<String, Error>)
        requires
            vault.wf(),
            private_key@.len() < 0x1_0000_0000,
        ensures
            r matches Ok(locator) ==> {
                &&& locator@ == hyphenated_of(client_id)
                &&& final(self).entries@.len() == old(self).entries@.len() + 1
                &&& final(self).entries@.drop_last() == old(self).entries@
                &&& final(self).entries@.last().name@ == hyphenated_of(client_id)
                &&& entry_identity(final(self).entries@.last()) == Some(client_id)
                &&& final(self).entries@.last().key_file matches Some(t) && (exists|blob: Seq<u8>|
                    t@ == b64_of(blob) && blob_opens_to(vault.key(), blob, private_key@))
                &&& lookup_entry(old(self).entries@, hyphenated_of(client_id)) is None
                    ==> stored_key_opens_to(
                    final(self).entries@,
                    vault.key(),
                    hyphenated_of(client_id),
                    private_key@,
                )
            },
            r matches Err(e) ==> e == Error::CryptoError && *final(self) == *old(self),
    {
        let blob = match vault.encrypt(private_key) {
            Ok(b) => b,
            Err(_) => {
                return Err(Error::CryptoError);
            },
        };
        let locator = self.persist(client_id, &blob);
        proof {
            let s_old = old(self).entries@;
            let e = self.entries@.last();
            assert(self.entries@ =~= s_old.push(e));
            lemma_lookup_push(s_old, e, hyphenated_of(client_id));
            if lookup_entry(s_old, hyphenated_of(client_id)) is None {
                assert(stored_text(self.entries@, hyphenated_of(client_id)) == Some(
                    b64_of(blob@),
                ));
                assert(blob_opens_to(vault.key(), blob@, private_key@));
            }
        }
        Ok(locator)
    }

    /// Loads the blob under `locator` and decrypts it: the stored private
    /// key comes back exactly as it went in, or the call fails with
    /// `IoError`, `FormatError` or `CryptoError` — never with garbage key
    /// material.
    pub fn load_private_key(&self, vault: &KeyVault, locator: &String) -> (r: Result<
        Vec<u8>,
        Error,
    >)
        requires
            vault.wf(),
        ensures
            r matches Ok(k) ==> stored_key_opens_to(self.entries@, vault.key(), locator@, k@),
            forall|k: Seq<u8>|
                stored_key_opens_to(self.entries@, vault.key(), locator@, k) ==> (r matches Ok(v)
                    && v@ == k),
            r == Err::<Vec<u8>, Error>(Error::IoError) <==> stored_text(
                self.entries@,
                locator@,
            ) is None,
            r matches Err(e) ==> (e == Error::IoError || e == Error::FormatError || e
                == Error::CryptoError),
    {
        let blob = match self.load(locator) {
            Ok(b) => b,
            Err(e) => {
                return Err(e);
            },
        };
        match vault.decrypt(blob.as_slice()) {
            Ok(k) => Ok(k),
            Err(_) => Err(Error::CryptoError),
        }
    }
}

} // verus!
