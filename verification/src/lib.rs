//! Unified secure vault with two backends: a password-based one and a
//! post-quantum one whose master key is wrapped with Kyber-512 and AES-GCM.

use crate::error::{VaultError, VaultResult};
use crate::pqc::{session_listing, PqcVault};
use crate::simple::SimpleVault;
use vstd::prelude::*;
use vstd::string::StringSliceAdditionalSpecFns;

pub mod bytes;
pub mod error;
pub mod pqc;
pub mod primitives;
pub mod simple;
pub mod table;

verus! {

/// Vault configuration options.
#[derive(Debug, Clone)]
pub struct VaultConfig {
    /// Data directory for vault storage
    pub data_dir: Option<std::path::PathBuf>,
    /// Whether to use TPM if available
    pub use_tpm: bool,
    /// Auto-rotate keys after this many seconds
    pub key_rotation_interval: Option<u64>,
}

impl Default for VaultConfig {
    fn default() -> (r: Self)
        ensures
            r.data_dir is None,
            !r.use_tpm,
            r.key_rotation_interval is None,
    {
        VaultConfig { data_dir: None, use_tpm: false, key_rotation_interval: None }
    }
}

/// What storing `value` under `key` does, by backend.
pub open spec fn vault_store_outcome(before: Vault, after: Vault, key: Seq<char>, value: Seq<u8>, r: VaultResult<()>) -> bool {
    match (before, after) {
        (Vault::Simple(a), Vault::Simple(b)) => crate::simple::store_outcome(a, b, key, value, r),
        (Vault::Pqc(a), Vault::Pqc(b)) => crate::pqc::store_secret_outcome(a, b, key, value, r),
        _ => false,
    }
}

/// What reading back `key` gives, by backend.
pub open spec fn vault_retrieve_outcome(v: Vault, key: Seq<char>, r: VaultResult<String>) -> bool {
    match v {
        Vault::Simple(s) => crate::simple::retrieve_outcome(s, key, r),
        Vault::Pqc(p) => crate::pqc::retrieve_secret_outcome(p, key, r),
    }
}

/// A value stored under a key in an initialized vault, when the store
/// succeeds, reads back as that value, whichever the backend.
pub proof fn law_vault_store_then_retrieve(
    before: Vault,
    after: Vault,
    key: Seq<char>,
    value: Seq<char>,
    stored: VaultResult<()>,
    read: VaultResult<String>,
)
    requires
        before.wf(),
        before.is_init(),
        vault_store_outcome(before, after, key, vstd::utf8::encode_utf8(value), stored),
        stored is Ok,
        vault_retrieve_outcome(after, key, read),
    ensures
        read matches Ok(t) && t@ == value,
{
    match (before, after) {
        (Vault::Simple(a), Vault::Simple(b)) => {
            crate::simple::law_store_then_retrieve(a, b, key, value, stored, read);
        },
        (Vault::Pqc(a), Vault::Pqc(b)) => {
            crate::pqc::law_store_secret_then_retrieve(a, b, key, value, stored, read);
        },
        _ => {},
    }
}

/// Main vault interface over the two backends.
pub enum Vault {
    /// Simple password-based vault
    Simple(SimpleVault),
    /// PQC-enhanced vault
    Pqc(PqcVault),
}

impl Vault {
    /// The backend's invariant holds.
    pub open spec fn wf(&self) -> bool {
        match self {
            Vault::Simple(v) => v.wf(),
            Vault::Pqc(v) => v.wf(),
        }
    }

    /// Whether the backend is initialized.
    pub open spec fn is_init(&self) -> bool {
        match self {
            Vault::Simple(v) => v.is_init(),
            Vault::Pqc(v) => v.is_init(),
        }
    }

    /// The keys of the stored secrets, in the order they were first stored.
    pub open spec fn secret_order(&self) -> Seq<Seq<char>> {
        match self {
            Vault::Simple(v) => v.secret_order(),
            Vault::Pqc(v) => v.secret_order(),
        }
    }

    /// Create a new simple vault with default configuration.
    pub fn simple() -> (v: Self)
        ensures
            v is Simple,
            v.wf(),
            !v.is_init(),
            v.secret_order() == Seq::<Seq<char>>::empty(),
    {
        Vault::Simple(SimpleVault::new())
    }

    /// Create a new simple vault with custom configuration.
    pub fn simple_with_config(config: VaultConfig) -> (v: Self)
        ensures
            v is Simple,
            v.wf(),
            !v.is_init(),
            v.secret_order() == Seq::<Seq<char>>::empty(),
            config.data_dir matches Some(d) ==> (v matches Vault::Simple(s) && s.dir() == d),
    {
        Vault::Simple(SimpleVault::with_config(config))
    }

    /// Create a new PQC vault with default configuration.
    pub fn pqc(data_dir: std::path::PathBuf) -> (v: Self)
        ensures
            v is Pqc,
            v.wf(),
            !v.is_init(),
            v.secret_order() == Seq::<Seq<char>>::empty(),
            v matches Vault::Pqc(p) && p.dir() == data_dir && !p.tpm(),
    {
        Vault::Pqc(PqcVault::new(data_dir))
    }

    /// Create a new PQC vault with custom configuration.
    pub fn pqc_with_config(data_dir: std::path::PathBuf, config: VaultConfig) -> (v: Self)
        ensures
            v is Pqc,
            v.wf(),
            !v.is_init(),
            v.secret_order() == Seq::<Seq<char>>::empty(),
            v matches Vault::Pqc(p) && p.dir() == data_dir && (p.tpm() ==> config.use_tpm),
    {
        Vault::Pqc(PqcVault::with_config(data_dir, config))
    }

    /// Check if the vault is initialized.
    pub fn is_initialized(&self) -> (r: bool)
        ensures
            r == self.is_init(),
    {
        match self {
            Vault::Simple(v) => v.is_initialized(),
            Vault::Pqc(v) => v.is_initialized(),
        }
    }

    /// Store a secret with the given key.  The caller writes the backend's
    /// data out afterwards.
    pub fn store(&mut self, key: &str, value: &str) -> (r: VaultResult<()>)
        requires
            old(self).wf(),
        ensures
            vault_store_outcome(*old(self), *final(self), key@, value.spec_bytes(), r),
    {
        match self {
            Vault::Simple(v) => v.store(key, value),
            Vault::Pqc(v) => v.store_secret(key, value),
        }
    }

    /// Retrieve a secret by key.
    pub fn retrieve(&self, key: &str) -> (r: VaultResult<String>)
        requires
            self.wf(),
        ensures
            vault_retrieve_outcome(*self, key@, r),
    {
        match self {
            Vault::Simple(v) => v.retrieve(key),
            Vault::Pqc(v) => v.retrieve_secret(key),
        }
    }

    /// Delete a secret by key.  The caller writes the backend's data out
    /// afterwards.
    pub fn delete(&mut self, key: &str) -> (r: VaultResult<()>)
        requires
            old(self).wf(),
        ensures
            match (*old(self), *final(self)) {
                (Vault::Simple(a), Vault::Simple(b)) => crate::simple::delete_outcome(a, b, key@, r),
                (Vault::Pqc(a), Vault::Pqc(b)) => crate::pqc::delete_secret_outcome(a, b, key@, r),
                _ => false,
            },
    {
        match self {
            Vault::Simple(v) => v.delete(key),
            Vault::Pqc(v) => v.delete_secret(key),
        }
    }

    /// List all stored secret keys, in the order they were first stored.
    pub fn list(&self) -> (r: Vec<String>)
        requires
            self.wf(),
        ensures
            r@.map_values(|s: String| s@) == self.secret_order(),
    {
        match self {
            Vault::Simple(v) => v.list(),
            Vault::Pqc(v) => v.list_secrets(),
        }
    }

    /// Wipe all vault data held in memory.  The caller removes the files.
    pub fn wipe(&mut self) -> (r: VaultResult<()>)
        requires
            old(self).wf(),
        ensures
            match (*old(self), *final(self)) {
                (Vault::Simple(a), Vault::Simple(b)) => crate::simple::wipe_outcome(a, b, r),
                (Vault::Pqc(a), Vault::Pqc(b)) => crate::pqc::wipe_outcome(a, b, r),
                _ => false,
            },
    {
        match self {
            Vault::Simple(v) => v.wipe(),
            Vault::Pqc(v) => v.wipe(),
        }
    }

    /// The backend type as a string.
    pub fn backend_type(&self) -> (r: &'static str)
        ensures
            self is Simple ==> r@ == "simple"@,
            self is Pqc ==> r@ == "pqc"@,
    {
        match self {
            Vault::Simple(_) => "simple",
            Vault::Pqc(_) => "pqc",
        }
    }

    /// Store a session key (PQC backend only).  The caller writes the
    /// entries out afterwards.
    pub fn store_session_key(&mut self, session_id: &str, key_data: &[u8]) -> (r: VaultResult<()>)
        requires
            old(self).wf(),
        ensures
            match (*old(self), *final(self)) {
                (Vault::Simple(a), Vault::Simple(b)) => a == b && (r matches Err(
                    VaultError::UnsupportedOperation(m),
                ) && m@ == "Session keys require PQC backend"@),
                (Vault::Pqc(a), Vault::Pqc(b)) => crate::pqc::store_session_outcome(
                    a,
                    b,
                    session_id@,
                    key_data@,
                    r,
                ),
                _ => false,
            },
    {
        match self {
            Vault::Pqc(v) => v.store_session_key(session_id, key_data),
            _ => Err(VaultError::UnsupportedOperation("Session keys require PQC backend".to_owned())),
        }
    }

    /// Get a session key (PQC backend only).
    pub fn get_session_key(&mut self, session_id: &str) -> (r: VaultResult<Option<Vec<u8>>>)
        requires
            old(self).wf(),
        ensures
            match (*old(self), *final(self)) {
                (Vault::Simple(a), Vault::Simple(b)) => a == b && (r matches Err(
                    VaultError::UnsupportedOperation(m),
                ) && m@ == "Session keys require PQC backend"@),
                (Vault::Pqc(a), Vault::Pqc(b)) => crate::pqc::get_session_outcome(a, b, session_id@, r),
                _ => false,
            },
    {
        match self {
            Vault::Pqc(v) => v.get_session_key(session_id),
            _ => Err(VaultError::UnsupportedOperation("Session keys require PQC backend".to_owned())),
        }
    }

    /// Rotate a session key (PQC backend only).  The caller writes the
    /// entries out afterwards.
    pub fn rotate_session_key(&mut self, session_id: &str) -> (r: VaultResult<Option<String>>)
        requires
            old(self).wf(),
            *old(self) matches Vault::Pqc(p) ==> (p.is_init() && p.entry_map().dom().contains(
                session_id@,
            ) ==> p.entry_map()[session_id@].rotation_count < u32::MAX),
        ensures
            match (*old(self), *final(self)) {
                (Vault::Simple(a), Vault::Simple(b)) => a == b && (r matches Err(
                    VaultError::UnsupportedOperation(m),
                ) && m@ == "Session key rotation requires PQC backend"@),
                (Vault::Pqc(a), Vault::Pqc(b)) => crate::pqc::rotate_session_outcome(
                    a,
                    b,
                    session_id@,
                    r,
                ),
                _ => false,
            },
    {
        match self {
            Vault::Pqc(v) => v.rotate_session_key(session_id),
            _ => Err(VaultError::UnsupportedOperation("Session key rotation requires PQC backend".to_owned())),
        }
    }

    /// List all sessions (PQC backend only; none for the simple backend).
    pub fn list_sessions(&self) -> (r: Vec<(String, String, i64)>)
        requires
            self.wf(),
        ensures
            self is Simple ==> r@.len() == 0,
            self matches Vault::Pqc(p) ==> session_listing(*p, r@),
    {
        match self {
            Vault::Pqc(v) => v.list_sessions(),
            _ => Vec::new(),
        }
    }

    /// Check if TPM is available (PQC backend only).
    pub fn is_tpm_available(&self) -> (r: bool)
        ensures
            self is Simple ==> !r,
            self matches Vault::Pqc(p) ==> r == p.tpm(),
    {
        match self {
            Vault::Pqc(v) => v.is_tpm_available(),
            _ => false,
        }
    }
}

} // verus!
