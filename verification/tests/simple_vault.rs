use prusia_vault::error::VaultError;
use prusia_vault::simple::{key_from_clock, nonce_from_clock, Secret, SimpleVault};
use prusia_vault::VaultConfig;
use sha2::{Digest, Sha256};

fn vault_in(dir: &std::path::Path) -> SimpleVault {
    SimpleVault::with_config(VaultConfig {
        data_dir: Some(dir.to_path_buf()),
        ..Default::default()
    })
}

fn password_key(password: &str) -> Vec<u8> {
    let mut hasher = Sha256::new();
    hasher.update(password.as_bytes());
    hasher.update(b"prusia-vault-v1-salt");
    hasher.update(b"zero-trust-prusia");
    hasher.finalize().to_vec()
}

#[test]
fn test_vault_lifecycle() {
    let dir = tempfile::tempdir().unwrap();
    let config = VaultConfig {
        data_dir: Some(dir.path().to_path_buf()),
        ..Default::default()
    };

    let mut vault = SimpleVault::with_config(config);

    // Should not be initialized
    assert!(!vault.is_initialized());

    // Initialize (nothing stored yet, so nothing to restore)
    assert!(vault.initialize("test-password", None).is_none());
    assert!(vault.is_initialized());

    // Store and retrieve
    vault.store("test-key", "test-value").unwrap();
    let value = vault.retrieve("test-key").unwrap();
    assert_eq!(value, "test-value");

    // List
    let keys = vault.list();
    assert_eq!(keys, vec!["test-key".to_string()]);

    // Delete
    vault.delete("test-key").unwrap();
    assert!(vault.retrieve("test-key").is_err());

    // Wipe
    vault.store("another-key", "another-value").unwrap();
    vault.wipe().unwrap();
    assert!(!vault.is_initialized());
    assert!(vault.list().is_empty());
}

#[test]
fn simple_store_before_initialize_is_refused() {
    let dir = tempfile::tempdir().unwrap();
    let mut vault = vault_in(dir.path());
    assert!(matches!(vault.store("k", "v"), Err(VaultError::NotInitialized)));
    assert!(matches!(vault.retrieve("k"), Err(VaultError::NotInitialized)));
    assert!(matches!(vault.delete("k"), Err(VaultError::NotInitialized)));
    assert!(matches!(vault.generate_api_key("svc"), Err(VaultError::NotInitialized)));
    assert!(vault.list().is_empty());
}

#[test]
fn simple_missing_key_is_not_found() {
    let dir = tempfile::tempdir().unwrap();
    let mut vault = vault_in(dir.path());
    vault.initialize("pw", None);
    match vault.retrieve("nope") {
        Err(VaultError::SecretNotFound(k)) => assert_eq!(k, "nope"),
        other => panic!("unexpected {:?}", other),
    }
    match vault.delete("nope") {
        Err(VaultError::SecretNotFound(k)) => assert_eq!(k, "nope"),
        other => panic!("unexpected {:?}", other),
    }
}

#[test]
fn simple_store_overwrites_and_keeps_order() {
    let dir = tempfile::tempdir().unwrap();
    let mut vault = vault_in(dir.path());
    vault.initialize("pw", None);
    vault.store("a", "1").unwrap();
    vault.store("b", "2").unwrap();
    vault.store("a", "3").unwrap();
    assert_eq!(vault.list(), vec!["a".to_string(), "b".to_string()]);
    assert_eq!(vault.retrieve("a").unwrap(), "3");
    assert_eq!(vault.retrieve("b").unwrap(), "2");
    vault.delete("a").unwrap();
    assert_eq!(vault.list(), vec!["b".to_string()]);
    assert_eq!(vault.retrieve("b").unwrap(), "2");
}

#[test]
fn simple_unicode_and_empty_values_read_back() {
    let dir = tempfile::tempdir().unwrap();
    let mut vault = vault_in(dir.path());
    vault.initialize("pässwörd", None);
    vault.store("empty", "").unwrap();
    vault.store("uni", "héllo wörld ✓").unwrap();
    assert_eq!(vault.retrieve("empty").unwrap(), "");
    assert_eq!(vault.retrieve("uni").unwrap(), "héllo wörld ✓");
}

#[test]
fn simple_vault_file_roundtrip() {
    let dir = tempfile::tempdir().unwrap();
    let mut vault = vault_in(dir.path());
    vault.initialize("pw", None);
    let data = b"{\"some\":\"json\"}".to_vec();
    let frame = vault.encrypt_vault(&data).unwrap();
    assert_eq!(frame.len(), 16 + data.len() + 32);
    // the checksum is SHA-256 of the data followed by the password key
    let mut hasher = Sha256::new();
    hasher.update(&data);
    hasher.update(password_key("pw"));
    assert_eq!(&frame[frame.len() - 32..], hasher.finalize().as_slice());
    // the middle is not the plaintext
    assert_ne!(&frame[16..16 + data.len()], data.as_slice());
    assert_eq!(vault.decrypt_vault(&frame).unwrap(), data);

    // reopening with the same password gives the contents back
    let mut reopened = vault_in(dir.path());
    assert_eq!(reopened.initialize("pw", Some(&frame)), Some(data.clone()));
    // another password does not open it
    let mut other = vault_in(dir.path());
    assert_eq!(other.initialize("other", Some(&frame)), None);
    // an empty file gives nothing
    let mut empty = vault_in(dir.path());
    assert_eq!(empty.initialize("pw", Some(&[])), None);
}

#[test]
fn simple_tampered_frame_fails_checksum() {
    let dir = tempfile::tempdir().unwrap();
    let mut vault = vault_in(dir.path());
    vault.initialize("pw", None);
    let mut frame = vault.encrypt_vault(b"secret data").unwrap();
    frame[17] ^= 1;
    assert!(matches!(vault.decrypt_vault(&frame), Err(VaultError::ChecksumMismatch)));
}

#[test]
fn simple_short_frame_is_invalid() {
    let dir = tempfile::tempdir().unwrap();
    let mut vault = vault_in(dir.path());
    vault.initialize("pw", None);
    match vault.decrypt_vault(&[0u8; 47]) {
        Err(VaultError::Decryption(m)) => assert_eq!(m, "Invalid encrypted data"),
        other => panic!("unexpected {:?}", other),
    }
}

#[test]
fn simple_restore_then_read() {
    let dir = tempfile::tempdir().unwrap();
    let mut vault = vault_in(dir.path());
    vault.initialize("pw", None);
    vault.store("k", "value").unwrap();
    let snapshot: Vec<(String, Secret)> = {
        let t = vault.secrets();
        (0..t.len()).map(|i| t.entry_at(i).clone()).collect()
    };
    let mut other = vault_in(dir.path());
    other.initialize("pw", None);
    other.restore_secrets(snapshot);
    assert_eq!(other.retrieve("k").unwrap(), "value");
    assert_eq!(other.list(), vec!["k".to_string()]);
}

#[test]
fn simple_invalid_utf8_secret_is_other_error() {
    let dir = tempfile::tempdir().unwrap();
    let mut vault = vault_in(dir.path());
    vault.initialize("pw", None);
    vault.store("k", "ab").unwrap();
    // keep the stored nonce and keystream, but claim a plaintext that is
    // not UTF-8 and encrypt it the same way
    let mut s = vault.secrets().entry_at(0).1.clone();
    let key = password_key("pw");
    let bad = vec![0xffu8, 0xfe];
    s.encrypted_value = bad
        .iter()
        .enumerate()
        .map(|(i, b)| b ^ key[i % key.len()] ^ s.nonce[i % s.nonce.len()])
        .collect();
    s.value = bad;
    vault.restore_secrets(vec![("k".to_string(), s)]);
    assert!(matches!(vault.retrieve("k"), Err(VaultError::Other(_))));
}

#[test]
fn simple_generate_api_key_is_stored() {
    let dir = tempfile::tempdir().unwrap();
    let mut vault = vault_in(dir.path());
    vault.initialize("pw", None);
    let key = vault.generate_api_key("github").unwrap();
    assert_eq!(key.len(), 32);
    assert!(key
        .chars()
        .all(|c| c.is_ascii_alphanumeric() || c == '-' || c == '_'));
    assert_eq!(vault.retrieve("github_api_key").unwrap(), key);
}

#[test]
fn simple_nonce_from_clock_exact() {
    assert_eq!(
        nonce_from_clock(&[1, 2, 3], 123456789, 16),
        vec![63, 117, 171, 225, 39, 93, 147, 201, 15, 69, 123, 177, 247, 45, 99, 153]
    );
}

#[test]
fn simple_key_from_clock_exact() {
    assert_eq!(key_from_clock(987654321, 32), "abEde9khyj27mutoXWVsvS72PyyP6NSD");
}

#[test]
fn simple_default_dir_is_under_prusia_vault() {
    let vault = SimpleVault::new();
    assert!(vault.data_dir().ends_with("prusia-vault/simple"));
    assert!(!vault.is_initialized());
}

#[test]
fn simple_store_at_records_time() {
    let dir = tempfile::tempdir().unwrap();
    let mut vault = vault_in(dir.path());
    vault.initialize("pw", None);
    vault.store_at("k", "v", 777).unwrap();
    assert_eq!(vault.retrieve("k").unwrap(), "v");
    let s = Secret::new_at("a".to_string(), vec![1], vec![2], vec![3], 5);
    assert_eq!(s.created_at, 5);
    assert_eq!(s.updated_at, 5);
}
