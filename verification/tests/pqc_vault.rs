use aes_gcm::aead::{Aead, KeyInit};
use prusia_vault::error::VaultError;
use prusia_vault::VaultConfig;
use prusia_vault::pqc::{compute_hash, fill_from_clock, seal_master_key, PqcVault, SessionKey};
use base64::Engine;

fn unlock(vault: &mut PqcVault, passphrase: &str) {
    let material = PqcVault::prepare_keypair(passphrase, None, None).unwrap();
    vault.install_keypair(material.public_key, material.secret_key);
    let plan = vault.prepare_master_key(None, None).unwrap();
    vault.install_master_key(plan.master_key);
}

#[test]
fn test_pqc_vault_basic() {
    let dir = tempfile::tempdir().unwrap();
    let mut vault = PqcVault::new(dir.path().to_path_buf());

    // Should not be initialized yet
    assert!(!vault.is_initialized());

    // Initialize
    unlock(&mut vault, "test-passphrase");
    assert!(vault.is_initialized());

    // Store and retrieve a secret
    vault.store_secret("test-key", "test-value").unwrap();
    let value = vault.retrieve_secret("test-key").unwrap();
    assert_eq!(value, "test-value");

    // List secrets
    let secrets = vault.list_secrets();
    assert_eq!(secrets, vec!["test-key".to_string()]);

    // Delete secret
    vault.delete_secret("test-key").unwrap();
    assert!(vault.retrieve_secret("test-key").is_err());

    // Session key operations
    vault.store_session_key("session-1", &[1, 2, 3, 4]).unwrap();
    let key = vault.get_session_key("session-1").unwrap();
    assert!(key.is_some());

    let sessions = vault.list_sessions();
    assert_eq!(sessions.len(), 1);

    // Wipe
    vault.wipe().unwrap();
    assert!(!vault.is_initialized());
}

#[test]
fn pqc_not_initialized_errors() {
    let dir = tempfile::tempdir().unwrap();
    let mut vault = PqcVault::new(dir.path().to_path_buf());
    assert!(matches!(vault.store_secret("k", "v"), Err(VaultError::NotInitialized)));
    assert!(matches!(vault.retrieve_secret("k"), Err(VaultError::NotInitialized)));
    assert!(matches!(vault.delete_secret("k"), Err(VaultError::NotInitialized)));
    assert!(matches!(vault.store_session_key("s", &[1]), Err(VaultError::NotInitialized)));
    assert!(matches!(vault.get_session_key("s"), Err(VaultError::NotInitialized)));
    assert!(matches!(vault.get_entry("s"), Err(VaultError::NotInitialized)));
    assert!(matches!(vault.rotate_session_key("s"), Err(VaultError::NotInitialized)));
    assert!(matches!(vault.encrypt_data(b"x"), Err(VaultError::NotInitialized)));
    assert!(!vault.is_tpm_available());
}

#[test]
fn pqc_session_key_roundtrip_and_fingerprint() {
    let dir = tempfile::tempdir().unwrap();
    let mut vault = PqcVault::new(dir.path().to_path_buf());
    unlock(&mut vault, "pp");
    vault.store_session_key("s1", &[9, 8, 7, 6, 5]).unwrap();
    assert_eq!(vault.get_session_key("s1").unwrap(), Some(vec![9, 8, 7, 6, 5]));
    assert_eq!(vault.get_session_key("missing").unwrap(), None);
    let entry = vault.get_entry("s1").unwrap().unwrap();
    let expected = base64::engine::general_purpose::STANDARD.encode(&compute_hash(&[9, 8, 7, 6, 5])[..16]);
    assert_eq!(entry.key_fingerprint, expected);
    assert_eq!(entry.rotation_count, 0);
    assert_eq!(entry.encrypted_key.len(), 12 + 5 + 16);
    let sessions = vault.list_sessions();
    assert_eq!(sessions[0].0, "s1");
    assert_eq!(sessions[0].1, expected);
}

#[test]
fn pqc_rotate_counts_and_reseals() {
    let dir = tempfile::tempdir().unwrap();
    let mut vault = PqcVault::new(dir.path().to_path_buf());
    unlock(&mut vault, "pp");
    vault.store_session_key("s1", &[1, 2, 3]).unwrap();
    assert_eq!(vault.rotate_session_key("s1").unwrap(), Some("s1".to_string()));
    assert_eq!(vault.rotate_session_key("none").unwrap(), None);
    let entry = vault.get_entry("s1").unwrap().unwrap();
    assert_eq!(entry.rotation_count, 1);
    let expected = base64::engine::general_purpose::STANDARD.encode(&compute_hash(&entry.encrypted_key)[..16]);
    assert_eq!(entry.key_fingerprint, expected);
    assert_eq!(vault.get_session_key("s1").unwrap(), Some(vec![0u8; 32]));
}

#[test]
fn pqc_short_ciphertext_is_rejected() {
    let dir = tempfile::tempdir().unwrap();
    let mut vault = PqcVault::new(dir.path().to_path_buf());
    unlock(&mut vault, "pp");
    match vault.decrypt_data(&[0u8; 11]) {
        Err(VaultError::Decryption(m)) => assert_eq!(m, "Ciphertext too short"),
        other => panic!("unexpected {:?}", other),
    }
    let mut sealed = vault.encrypt_data(b"hello").unwrap();
    assert_eq!(vault.decrypt_data(&sealed).unwrap(), b"hello".to_vec());
    sealed[13] ^= 1;
    match vault.decrypt_data(&sealed) {
        Err(VaultError::Decryption(m)) => assert_eq!(m, "Decryption failed"),
        other => panic!("unexpected {:?}", other),
    }
}

#[test]
fn pqc_keypair_reload_and_wrong_passphrase() {
    let made = PqcVault::prepare_keypair("pp", Some("pp"), None).unwrap();
    assert_eq!(made.public_key.len(), 800);
    assert_eq!(made.secret_key.len(), 1632);
    let stored = made.new_keypair.clone().unwrap();
    assert_eq!(stored.salt.len(), 16);
    let reloaded = PqcVault::prepare_keypair("pp", Some("pp"), Some(stored.clone())).unwrap();
    assert_eq!(reloaded.public_key, made.public_key);
    assert_eq!(reloaded.secret_key, made.secret_key);
    assert!(reloaded.new_keypair.is_none());
    assert!(matches!(
        PqcVault::prepare_keypair("pp", Some("other"), Some(stored.clone())),
        Err(VaultError::InvalidCredentials)
    ));
    // with no environment passphrase the one asked with is used
    let again = PqcVault::prepare_keypair("pp", None, Some(stored.clone())).unwrap();
    assert_eq!(again.public_key, made.public_key);
    assert_eq!(again.secret_key, made.secret_key);
    match PqcVault::prepare_keypair("wrong", None, Some(stored)) {
        Err(VaultError::PqcError(m)) => assert!(m.starts_with("Failed to decrypt PQC secret key: ")),
        other => panic!("unexpected {:?}", other.is_ok()),
    }
}

#[test]
fn pqc_keypair_without_environment_passphrase() {
    let made = PqcVault::prepare_keypair("test-passphrase", None, None).unwrap();
    let stored = made.new_keypair.clone().unwrap();
    let reloaded = PqcVault::prepare_keypair("test-passphrase", Some("test-passphrase"), Some(stored)).unwrap();
    assert_eq!(reloaded.secret_key, made.secret_key);
}

#[test]
fn pqc_master_key_wrap_unwrap() {
    let dir = tempfile::tempdir().unwrap();
    let mut vault = PqcVault::new(dir.path().to_path_buf());
    match vault.encrypt_master_key_with_pqc(&[7u8; 32]) {
        Err(VaultError::PqcError(m)) => assert_eq!(m, "PQC public key not initialized"),
        _ => panic!("expected an error"),
    }
    let material = PqcVault::prepare_keypair("pp", None, None).unwrap();
    vault.install_keypair(material.public_key.clone(), material.secret_key);
    let wrapped = vault.encrypt_master_key_with_pqc(&[7u8; 32]).unwrap();
    assert_eq!(wrapped.version, 1);
    assert_eq!(wrapped.public_key, material.public_key);
    assert_eq!(wrapped.encrypted_secret_key.len(), 768);
    assert!(wrapped.nonce.is_empty());
    assert_eq!(vault.decrypt_master_key_with_pqc(&wrapped).unwrap(), vec![7u8; 32]);

    // a stored wrapped key is unwrapped again, with its identifier
    let plan = vault.prepare_master_key(Some(wrapped), None).unwrap();
    assert_eq!(plan.master_key.key, vec![7u8; 32]);
    let expected_id = base64::engine::general_purpose::STANDARD.encode(&compute_hash(&[7u8; 32])[..8]);
    assert_eq!(plan.master_key.key_id, expected_id);
    assert!(plan.encrypted.is_none());
    assert!(!plan.remove_plain);
}

#[test]
fn pqc_generate_master_key_has_id() {
    let mk = PqcVault::generate_master_key().unwrap();
    assert_eq!(mk.key.len(), 32);
    let expected_id = base64::engine::general_purpose::STANDARD.encode(&compute_hash(&mk.key)[..8]);
    assert_eq!(mk.key_id, expected_id);
}

#[test]
fn pqc_compute_hash_exact() {
    assert_eq!(
        compute_hash(&[1, 2, 3, 4, 5, 6, 7, 8, 9]),
        vec![107, 11, 233, 107, 192, 109, 181, 141, 60, 110, 243, 114, 165, 79, 245, 58]
    );
    assert_eq!(
        compute_hash(&[0xff; 70]),
        vec![106, 9, 230, 98, 187, 103, 174, 129, 60, 110, 243, 110, 165, 79, 245, 54]
    );
    assert_eq!(
        compute_hash(&[]),
        vec![106, 9, 230, 103, 187, 103, 174, 133, 60, 110, 243, 114, 165, 79, 245, 58]
    );
    // bytes past the last whole word do not count
    assert_eq!(compute_hash(&[1, 2, 3, 4, 5, 6, 7, 8, 9]), compute_hash(&[1, 2, 3, 4, 5, 6, 7, 8]));
}

#[test]
fn pqc_fill_from_clock_exact() {
    assert_eq!(fill_from_clock(42, 8), vec![106, 213, 60, 171, 198, 121, 144, 86]);
}

#[test]
fn pqc_session_key_expiry() {
    let key = SessionKey {
        session_id: "s".to_string(),
        encryption_key: vec![],
        mac_key: vec![],
        created_at: 0,
        last_used: 0,
        rotation_count: 0,
        expires_at: Some(100),
    };
    assert!(!key.is_expired(100));
    assert!(key.is_expired(101));
    let never = SessionKey { expires_at: None, ..key };
    assert!(!never.is_expired(i64::MAX));
}

#[test]
fn pqc_migrates_plain_master_key() {
    let dir = tempfile::tempdir().unwrap();
    let mut vault = PqcVault::new(dir.path().to_path_buf());
    let material = PqcVault::prepare_keypair("pp", None, None).unwrap();
    vault.install_keypair(material.public_key, material.secret_key);
    let plain = PqcVault::generate_master_key().unwrap();
    let plan = vault.prepare_master_key(None, Some(plain.clone())).unwrap();
    assert!(plan.remove_plain);
    assert_eq!(plan.master_key.key, plain.key);
    let wrapped = plan.encrypted.unwrap();
    assert_eq!(vault.decrypt_master_key_with_pqc(&wrapped).unwrap(), plain.key);
}

#[test]
fn pqc_tpm_follows_config_and_presence() {
    let dir = tempfile::tempdir().unwrap();
    let asked = VaultConfig { data_dir: None, use_tpm: true, key_rotation_interval: None };
    let on = PqcVault::with_tpm_presence(dir.path().to_path_buf(), asked.clone(), true);
    assert!(on.is_tpm_available());
    let absent = PqcVault::with_tpm_presence(dir.path().to_path_buf(), asked, false);
    assert!(!absent.is_tpm_available());
    let not_asked = VaultConfig { data_dir: None, use_tpm: false, key_rotation_interval: None };
    let off = PqcVault::with_tpm_presence(dir.path().to_path_buf(), not_asked, true);
    assert!(!off.is_tpm_available());
}

#[test]
fn pqc_timestamped_store_records_time() {
    let dir = tempfile::tempdir().unwrap();
    let mut vault = PqcVault::new(dir.path().to_path_buf());
    unlock(&mut vault, "pp");
    vault.store_session_key_at("s", &[1, 2], 1234).unwrap();
    let entry = vault.get_entry("s").unwrap().unwrap();
    assert_eq!(entry.created_at, 1234);
    assert_eq!(entry.last_used, 0);
    assert_eq!(vault.list_sessions()[0].2, 1234);
    vault.store_secret_at("k", "v", 99).unwrap();
    assert_eq!(vault.retrieve_secret("k").unwrap(), "v");
}

#[test]
fn pqc_wiped_vault_refuses_until_unlocked() {
    let dir = tempfile::tempdir().unwrap();
    let mut vault = PqcVault::new(dir.path().to_path_buf());
    unlock(&mut vault, "pp");
    vault.store_secret("k", "v").unwrap();
    vault.wipe().unwrap();
    assert!(matches!(vault.store_secret("k", "v"), Err(VaultError::NotInitialized)));
    assert!(matches!(vault.retrieve_secret("k"), Err(VaultError::NotInitialized)));
    assert!(vault.list_secrets().is_empty());
    unlock(&mut vault, "pp");
    assert!(matches!(vault.retrieve_secret("k"), Err(VaultError::SecretNotFound(_))));
}

#[test]
fn pqc_timestamped_use_and_rotation() {
    let dir = tempfile::tempdir().unwrap();
    let mut vault = PqcVault::new(dir.path().to_path_buf());
    unlock(&mut vault, "pp");
    vault.store_session_key_at("s", &[5, 6, 7], 10).unwrap();
    assert_eq!(vault.get_session_key_at("s", 20).unwrap(), Some(vec![5, 6, 7]));
    assert_eq!(vault.get_entry("s").unwrap().unwrap().last_used, 20);
    assert_eq!(vault.rotate_session_key_at("s", 30).unwrap(), Some("s".to_string()));
    let entry = vault.get_entry("s").unwrap().unwrap();
    assert_eq!(entry.last_used, 30);
    assert_eq!(entry.created_at, 10);
    assert_eq!(entry.rotation_count, 1);
}

#[test]
fn pqc_seal_master_key_keeps_ciphertext_and_secret() {
    let pk = vec![1u8; 800];
    let ct = vec![2u8; 768];
    let shared = [3u8; 32];
    let e = seal_master_key(&pk, ct.clone(), &shared, &[7u8; 32]).unwrap();
    assert_eq!(e.version, 1);
    assert_eq!(e.public_key, pk);
    assert_eq!(e.encrypted_secret_key, ct);
    assert!(e.nonce.is_empty());
    assert_eq!(e.encrypted_master_key.len(), 12 + 32 + 16);
    let cipher = aes_gcm::Aes256Gcm::new_from_slice(&shared).unwrap();
    let nonce = aes_gcm::Nonce::from_slice(&e.encrypted_master_key[..12]);
    let opened = cipher.decrypt(nonce, &e.encrypted_master_key[12..]).unwrap();
    assert_eq!(opened, vec![7u8; 32]);
}

#[test]
fn pqc_new_keypair_secret_key_carries_public_key() {
    let made = PqcVault::prepare_keypair("pp", None, None).unwrap();
    assert_eq!(&made.secret_key[768..1568], &made.public_key[..]);
}
