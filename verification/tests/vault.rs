use prusia_vault::error::VaultError;
use prusia_vault::table::KeyedTable;
use prusia_vault::{Vault, VaultConfig};

#[test]
fn vault_simple_usage() {
    let dir = tempfile::tempdir().unwrap();
    let mut vault = Vault::simple_with_config(VaultConfig {
        data_dir: Some(dir.path().to_path_buf()),
        ..Default::default()
    });
    assert_eq!(vault.backend_type(), "simple");
    assert!(!vault.is_initialized());
    if let Vault::Simple(v) = &mut vault {
        v.initialize("my-secret-password", None);
    }
    assert!(vault.is_initialized());
    vault.store("api_key", "secret-value").unwrap();
    assert_eq!(vault.retrieve("api_key").unwrap(), "secret-value");
    assert_eq!(vault.list(), vec!["api_key".to_string()]);
    assert!(vault.list_sessions().is_empty());
    assert!(!vault.is_tpm_available());
    match vault.store_session_key("s", &[1]) {
        Err(VaultError::UnsupportedOperation(m)) => assert_eq!(m, "Session keys require PQC backend"),
        other => panic!("unexpected {:?}", other),
    }
    match vault.rotate_session_key("s") {
        Err(VaultError::UnsupportedOperation(m)) => assert_eq!(m, "Session key rotation requires PQC backend"),
        other => panic!("unexpected {:?}", other),
    }
    vault.delete("api_key").unwrap();
    assert!(vault.list().is_empty());
    vault.wipe().unwrap();
    assert!(!vault.is_initialized());
}

#[test]
fn vault_pqc_usage() {
    let dir = tempfile::tempdir().unwrap();
    let mut vault = Vault::pqc(dir.path().to_path_buf());
    assert_eq!(vault.backend_type(), "pqc");
    if let Vault::Pqc(v) = &mut vault {
        let material = prusia_vault::pqc::PqcVault::prepare_keypair("pqc-passphrase", None, None).unwrap();
        v.install_keypair(material.public_key, material.secret_key);
        let plan = v.prepare_master_key(None, None).unwrap();
        v.install_master_key(plan.master_key);
    }
    assert!(vault.is_initialized());
    vault.store_session_key("session-1", &[1, 2, 3, 4]).unwrap();
    assert_eq!(vault.get_session_key("session-1").unwrap(), Some(vec![1, 2, 3, 4]));
    assert_eq!(vault.list_sessions().len(), 1);
    vault.store("k", "v").unwrap();
    assert_eq!(vault.retrieve("k").unwrap(), "v");
    vault.wipe().unwrap();
    assert!(!vault.is_initialized());
    assert!(vault.list().is_empty());
}

#[test]
fn vault_config_default() {
    let c = VaultConfig::default();
    assert!(c.data_dir.is_none());
    assert!(!c.use_tpm);
    assert!(c.key_rotation_interval.is_none());
}

#[test]
fn vault_error_from_string_is_other() {
    let e: VaultError = VaultError::from("boom".to_string());
    assert!(matches!(e, VaultError::Other(m) if m == "boom"));
}

#[test]
fn table_keeps_first_position_and_last_value() {
    let mut t: KeyedTable<u32> = KeyedTable::new();
    t.insert("x".to_string(), 1);
    t.insert("y".to_string(), 2);
    t.insert("x".to_string(), 3);
    assert_eq!(t.keys(), vec!["x".to_string(), "y".to_string()]);
    assert_eq!(t.get("x"), Some(&3));
    assert_eq!(t.remove("x"), Some(3));
    assert_eq!(t.remove("x"), None);
    assert_eq!(t.keys(), vec!["y".to_string()]);
    let u = KeyedTable::from_pairs(vec![("a".to_string(), 1u32), ("b".to_string(), 2), ("a".to_string(), 5)]);
    assert_eq!(u.get("a"), Some(&5));
    assert_eq!(u.keys(), vec!["a".to_string(), "b".to_string()]);
}
