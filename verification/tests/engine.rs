use identity_engine::errors::{CryptoError, Error};
use identity_engine::manager::{create_identity, has_identity};
use identity_engine::session::{
    authenticate_client, get_client_id_from_private_key, timestamp_challenge, validate_session,
    Session,
};
use identity_engine::store::{IdentityStore, StoreEntry};
use identity_engine::vault::{generate_nonce, KeyVault};

fn test_vault() -> KeyVault {
    KeyVault::new(vec![7u8; 32]).expect("32-byte key")
}

fn session_with_expiry(expires_at: u64) -> Session {
    Session { token: String::from("token"), client_id: 1, expires_at }
}

#[test]
fn vault_rejects_short_key() {
    assert!(matches!(KeyVault::new(vec![0u8; 31]), Err(Error::ConfigError)));
    assert!(matches!(KeyVault::new(vec![0u8; 33]), Err(Error::ConfigError)));
    assert!(KeyVault::new(vec![0u8; 32]).is_ok());
}

#[test]
fn encrypt_decrypt_round_trip() {
    let vault = test_vault();
    for payload in [&b""[..], &b"x"[..], &b"a longer payload with some content"[..]] {
        let blob = vault.encrypt(payload).expect("encryption succeeds");
        assert_eq!(blob.len(), payload.len() + 28);
        let back = vault.decrypt(&blob).expect("decryption succeeds");
        assert_eq!(back, payload);
    }
}

#[test]
fn tamper_detection_every_bit() {
    let vault = test_vault();
    let blob = vault.encrypt(b"attack at dawn").expect("encryption succeeds");
    // Flip every single bit of the ciphertext-plus-tag region in turn.
    for byte in 12..blob.len() {
        for bit in 0..8 {
            let mut tampered = blob.clone();
            tampered[byte] ^= 1 << bit;
            match vault.decrypt(&tampered) {
                Err(CryptoError::AuthenticationFailed) => {}
                Ok(_) => panic!("tampered blob decrypted"),
            }
        }
    }
}

#[test]
fn decrypt_rejects_short_blob() {
    let vault = test_vault();
    for len in 0..12 {
        let short = vec![0u8; len];
        assert!(matches!(
            vault.decrypt(&short),
            Err(CryptoError::AuthenticationFailed)
        ));
    }
}

#[test]
fn nonce_uniqueness() {
    let vault = test_vault();
    let a = vault.encrypt(b"same payload").expect("encryption succeeds");
    let b = vault.encrypt(b"same payload").expect("encryption succeeds");
    assert_ne!(&a[..12], &b[..12], "nonces must differ");
    assert_ne!(&a[12..], &b[12..], "ciphertexts must differ");
}

#[test]
fn generated_nonce_is_twelve_bytes() {
    assert_eq!(generate_nonce().expect("randomness available").len(), 12);
}

#[test]
fn single_identity_invariant() {
    let vault = test_vault();
    let mut store = IdentityStore::empty();
    let first = create_identity(&mut store, &vault).expect("first creation succeeds");
    assert_eq!(store.entries.len(), 1);
    let second = create_identity(&mut store, &vault);
    assert!(matches!(second, Err(Error::AlreadyExists)));
    assert_eq!(store.entries.len(), 1, "failed creation leaves the store unchanged");
    assert_eq!(store.entries[0].name, first.locator);
}

#[test]
fn session_expiry_boundary() {
    let now: u64 = 1_700_000_000;
    assert!(!validate_session(&session_with_expiry(now - 1), now));
    assert!(!validate_session(&session_with_expiry(now), now));
    assert!(validate_session(&session_with_expiry(now + 1), now));
    assert!(validate_session(&session_with_expiry(now + 10800), now));
}

#[test]
fn create_identity_end_to_end() {
    let vault = test_vault();
    let mut store = IdentityStore::empty();
    assert!(!has_identity(&store));
    let ident = create_identity(&mut store, &vault).expect("creation succeeds");
    assert_eq!(ident.locator.len(), 36, "locator populated with the directory name");
    assert_eq!(store.entries[0].name, ident.locator);
    assert!(store.entries[0].key_file.is_some());
    assert!(has_identity(&store));
    assert_eq!(get_client_id_from_private_key(&store).expect("id found"), ident.id);
}

#[test]
fn authenticate_end_to_end() {
    let vault = test_vault();
    let mut store = IdentityStore::empty();
    let ident = create_identity(&mut store, &vault).expect("creation succeeds");
    let now: u64 = 1_700_000_000;
    let session = authenticate_client(&store, &vault, now).expect("authentication succeeds");
    assert_eq!(session.client_id, ident.id);
    assert!(session.expires_at >= now + 10799 && session.expires_at <= now + 10801);
    assert_eq!(session.token.len(), 36);
}

#[test]
fn authenticate_without_identity_fails() {
    let vault = test_vault();
    let store = IdentityStore::empty();
    let r = authenticate_client(&store, &vault, 1_700_000_000);
    assert!(matches!(r, Err(Error::NoIdentity)));
}

#[test]
fn authenticate_with_wrong_vault_key_fails() {
    let vault = test_vault();
    let mut store = IdentityStore::empty();
    create_identity(&mut store, &vault).expect("creation succeeds");
    let other = KeyVault::new(vec![8u8; 32]).expect("32-byte key");
    let r = authenticate_client(&store, &other, 1_700_000_000);
    assert!(matches!(r, Err(Error::CryptoError)));
}

#[test]
fn load_private_key_rejects_truncated_blob() {
    let vault = test_vault();
    let name = String::from("6ba7b810-9dad-11d1-80b4-00c04fd430c8");
    // "AAECAwQFBgcICQ==" is the base64 of ten bytes: fewer than one nonce.
    let store = IdentityStore {
        entries: vec![StoreEntry {
            name: name.clone(),
            key_file: Some(String::from("AAECAwQFBgcICQ==")),
        }],
    };
    match store.load_private_key(&vault, &name) {
        Err(Error::FormatError) | Err(Error::CryptoError) => {}
        other => panic!("expected FormatError or CryptoError, got {:?}", other),
    }
}

#[test]
fn load_private_key_rejects_corrupt_encoding() {
    let vault = test_vault();
    let name = String::from("6ba7b810-9dad-11d1-80b4-00c04fd430c8");
    let store = IdentityStore {
        entries: vec![StoreEntry {
            name: name.clone(),
            key_file: Some(String::from("!!!not base64!!!")),
        }],
    };
    assert!(matches!(
        store.load_private_key(&vault, &name),
        Err(Error::FormatError)
    ));
}

#[test]
fn load_private_key_reports_missing_file() {
    let vault = test_vault();
    let name = String::from("6ba7b810-9dad-11d1-80b4-00c04fd430c8");
    let store = IdentityStore {
        entries: vec![StoreEntry { name: name.clone(), key_file: None }],
    };
    assert!(matches!(
        store.load_private_key(&vault, &name),
        Err(Error::IoError)
    ));
    let empty = IdentityStore::empty();
    assert!(matches!(
        empty.load_private_key(&vault, &name),
        Err(Error::IoError)
    ));
}

#[test]
fn store_private_key_names_directory_after_client() {
    let vault = test_vault();
    let mut store = IdentityStore::empty();
    let id: u128 = 0x00112233_4455_6677_8899_aabbccddeeff;
    let locator = store
        .store_private_key(&vault, b"top secret key bytes", id)
        .expect("storing succeeds");
    assert_eq!(locator, "00112233-4455-6677-8899-aabbccddeeff");
    assert_eq!(store.entries[0].name, locator);
    let back = store
        .load_private_key(&vault, &locator)
        .expect("loading succeeds");
    assert_eq!(back, b"top secret key bytes");
}

#[test]
fn persist_encodes_blob_as_base64() {
    let mut store = IdentityStore::empty();
    let locator = store.persist(1, &vec![0u8, 1, 2]);
    assert_eq!(locator, "00000000-0000-0000-0000-000000000001");
    assert_eq!(store.entries[0].key_file.as_deref(), Some("AAEC"));
}

#[test]
fn find_existing_skips_foreign_directories() {
    let store = IdentityStore {
        entries: vec![
            StoreEntry { name: String::from("cache"), key_file: None },
            StoreEntry { name: String::from("not-a-uuid-at-all"), key_file: None },
            StoreEntry {
                name: String::from("6ba7b810-9dad-11d1-80b4-00c04fd430c8"),
                key_file: None,
            },
        ],
    };
    let found = store.find_existing().expect("identity directory found");
    assert_eq!(found, 0x6ba7b810_9dad_11d1_80b4_00c04fd430c8);
}

#[test]
fn load_private_key_by_identity() {
    let vault = test_vault();
    let mut store = IdentityStore::empty();
    let ident = create_identity(&mut store, &vault).expect("creation succeeds");
    let key = identity_engine::manager::load_private_key(&store, &vault, ident.id)
        .expect("key loads back");
    assert!(!key.is_empty());
    let other_id = ident.id.wrapping_add(1);
    assert!(matches!(
        identity_engine::manager::load_private_key(&store, &vault, other_id),
        Err(Error::NotFound)
    ));
}

#[test]
fn timestamp_challenge_is_decimal_ascii() {
    assert_eq!(timestamp_challenge(1_700_000_000), b"1700000000".to_vec());
    assert_eq!(timestamp_challenge(0), b"0".to_vec());
    assert_eq!(timestamp_challenge(10), b"10".to_vec());
    assert_eq!(timestamp_challenge(u64::MAX), b"18446744073709551615".to_vec());
}
