//! Error types for the vault.

use vstd::prelude::*;

verus! {

#[verifier::external_type_specification]
#[verifier::external_body]
pub struct ExIoError(std::io::Error);

#[verifier::external_type_specification]
#[verifier::external_body]
pub struct ExJsonError(serde_json::Error);

#[verifier::external_type_specification]
#[verifier::external_body]
pub struct ExBase64DecodeError(base64::DecodeError);

/// Result type for vault operations.
pub type VaultResult<T> = Result<T, VaultError>;

/// Main error type for vault operations.
#[derive(Debug)]
pub enum VaultError {
    /// I/O errors
    Io(std::io::Error),
    /// JSON serialization/deserialization errors
    Json(serde_json::Error),
    /// Base64 encoding/decoding errors
    Base64(base64::DecodeError),
    /// Encryption errors
    Encryption(String),
    /// Decryption errors
    Decryption(String),
    /// Checksum mismatch
    ChecksumMismatch,
    /// Vault not initialized
    NotInitialized,
    /// Secret not found
    SecretNotFound(String),
    /// Session not found
    SessionNotFound(String),
    /// Invalid password or passphrase
    InvalidCredentials,
    /// PQC-specific errors
    PqcError(String),
    /// TPM-specific errors
    TpmError(String),
    /// Unsupported operation for the current backend
    UnsupportedOperation(String),
    /// Other errors
    Other(String),
}

impl From<String> for VaultError {
    fn from(s: String) -> (r: Self) {
        VaultError::Other(s)
    }
}

impl vstd::std_specs::convert::FromSpecImpl<String> for VaultError {
    open spec fn obeys_from_spec() -> bool {
        true
    }

    open spec fn from_spec(s: String) -> VaultError {
        VaultError::Other(s)
    }
}

} // verus!
