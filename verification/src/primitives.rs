//! The cryptographic and system primitives the vault builds on.  Each
//! function here makes one call into `sha2`, `aes-gcm`, `getrandom`,
//! `pqcrypto-kyber`, `base64`, `dirs` or the standard library, and its
//! contract is trusted, not proved.

use aes_gcm::aead::{Aead, KeyInit};
use sha2::Digest;
use pqcrypto_traits::kem::{Ciphertext, PublicKey, SecretKey, SharedSecret};
use vstd::prelude::*;
use vstd::utf8::{decode_utf8, valid_utf8};

verus! {

#[verifier::external_type_specification]
#[verifier::external_body]
pub struct ExPathBuf(std::path::PathBuf);

/// SHA-256 of a byte string.
pub uninterp spec fn sha256_digest(data: Seq<u8>) -> Seq<u8>;

/// AES-256-GCM sealing (ciphertext followed by the 16-byte tag) of
/// `plaintext` under `key` and `nonce`, with empty associated data.
pub uninterp spec fn aes256gcm_seal(key: Seq<u8>, nonce: Seq<u8>, plaintext: Seq<u8>) -> Seq<u8>;

/// AES-256-GCM opening of `ciphertext` under `key` and `nonce`: the
/// plaintext, or `None` when the tag does not verify.
pub uninterp spec fn aes256gcm_open(key: Seq<u8>, nonce: Seq<u8>, ciphertext: Seq<u8>) -> Option<Seq<u8>>;

/// The Kyber-512 shared secret that decapsulating `ciphertext` with
/// `secret_key` yields.
pub uninterp spec fn kyber512_decaps(ciphertext: Seq<u8>, secret_key: Seq<u8>) -> Seq<u8>;

/// Whether (`ciphertext`, `shared_secret`) is a pair that Kyber-512
/// encapsulation to `public_key` can give (each call draws its own coins).
pub uninterp spec fn kyber512_encapsulates(public_key: Seq<u8>, ciphertext: Seq<u8>, shared_secret: Seq<u8>) -> bool;

/// The public key a Kyber-512 secret key carries: key generation copies it
/// in after the 768 bytes of the IND-CPA secret key.
pub open spec fn kyber512_public_part(secret_key: Seq<u8>) -> Seq<u8> {
    secret_key.subrange(768, 768 + KYBER_PUBLIC_KEY_BYTES as int)
}

/// Standard (padded) base64 text of a byte string.
pub uninterp spec fn base64_standard(data: Seq<u8>) -> Seq<char>;

/// Largest plaintext, in bytes, that AES-GCM accepts.
pub const AES_GCM_MAX_PLAINTEXT: u64 = 0x10_0000_0000;

/// Kyber-512 public key length.
pub const KYBER_PUBLIC_KEY_BYTES: usize = 800;

/// Kyber-512 secret key length.
pub const KYBER_SECRET_KEY_BYTES: usize = 1632;

/// Kyber-512 ciphertext length.
pub const KYBER_CIPHERTEXT_BYTES: usize = 768;

/// Kyber-512 shared secret length.
pub const KYBER_SHARED_SECRET_BYTES: usize = 32;

/// `sha2::Sha256` over `data`: its 32-byte digest, named `sha256_digest`.
#[verifier::external_body]
pub(crate) fn sha256(data: &[u8]) -> (r: Vec<u8>)
    ensures
        r@ == sha256_digest(data@),
        r@.len() == 32,
{
    sha2::Sha256::digest(data).to_vec()
}

/// `aes_gcm::Aes256Gcm::encrypt` with a 32-byte key and a 12-byte nonce.
/// It fails only when the plaintext is longer than the limit of AES-GCM
/// (the error's text is handed back); otherwise it returns the sealed bytes,
/// 16 longer than the plaintext, which open again to the plaintext.
#[verifier::external_body]
pub(crate) fn aes256gcm_encrypt(key: &[u8], nonce: &[u8], plaintext: &[u8]) -> (r: Result<Vec<u8>, String>)
    requires
        key@.len() == 32,
        nonce@.len() == 12,
    ensures
        r is Ok <==> plaintext@.len() <= AES_GCM_MAX_PLAINTEXT,
        r matches Ok(c) ==> {
            &&& c@ == aes256gcm_seal(key@, nonce@, plaintext@)
            &&& c@.len() == plaintext@.len() + 16
            &&& aes256gcm_open(key@, nonce@, c@) == Some(plaintext@)
        },
{
    let cipher = aes_gcm::Aes256Gcm::new(aes_gcm::Key::<aes_gcm::Aes256Gcm>::from_slice(key));
    match cipher.encrypt(aes_gcm::Nonce::from_slice(nonce), plaintext) {
        Ok(c) => Ok(c),
        Err(e) => Err(e.to_string()),
    }
}

/// `aes_gcm::Aes256Gcm::decrypt` with a 32-byte key and a 12-byte nonce:
/// the plaintext exactly when `aes256gcm_open` gives one.
#[verifier::external_body]
pub(crate) fn aes256gcm_decrypt(key: &[u8], nonce: &[u8], ciphertext: &[u8]) -> (r: Result<Vec<u8>, String>)
    requires
        key@.len() == 32,
        nonce@.len() == 12,
    ensures
        r is Ok <==> aes256gcm_open(key@, nonce@, ciphertext@) is Some,
        r matches Ok(p) ==> aes256gcm_open(key@, nonce@, ciphertext@) == Some(p@),
{
    let cipher = aes_gcm::Aes256Gcm::new(aes_gcm::Key::<aes_gcm::Aes256Gcm>::from_slice(key));
    match cipher.decrypt(aes_gcm::Nonce::from_slice(nonce), ciphertext) {
        Ok(p) => Ok(p),
        Err(e) => Err(e.to_string()),
    }
}

/// `getrandom::getrandom` into a fresh buffer of `len` bytes.  The bytes
/// are random; on failure the error's text is handed back.
#[verifier::external_body]
pub(crate) fn random_bytes(len: usize) -> (r: Result<Vec<u8>, String>)
    ensures
        r matches Ok(v) ==> v@.len() == len,
{
    let mut buf = vec![0u8; len];
    match getrandom::getrandom(&mut buf) {
        Ok(()) => Ok(buf),
        Err(e) => Err(e.to_string()),
    }
}

/// `pqcrypto_kyber::kyber512::keypair`: a fresh random key pair, as
/// (public key bytes, secret key bytes); the secret key carries the public
/// key at bytes 768 to 1568.
#[verifier::external_body]
pub(crate) fn generate_kyber_keypair() -> (r: (Vec<u8>, Vec<u8>))
    ensures
        r.0@.len() == KYBER_PUBLIC_KEY_BYTES,
        r.1@.len() == KYBER_SECRET_KEY_BYTES,
        r.0@ == kyber512_public_part(r.1@),
{
    let (pk, sk) = pqcrypto_kyber::kyber512::keypair();
    (pk.as_bytes().to_vec(), sk.as_bytes().to_vec())
}

/// `pqcrypto_kyber::kyber512::encapsulate` to the public key `pk`, as
/// (ciphertext, shared secret).  It fails exactly when `pk` does not have
/// the length of a Kyber-512 public key; the secret is random, and the pair
/// returned is one that encapsulation to `pk` can give.
#[verifier::external_body]
pub(crate) fn kyber_encapsulate(pk: &[u8]) -> (r: Result<(Vec<u8>, Vec<u8>), String>)
    ensures
        r is Ok <==> pk@.len() == KYBER_PUBLIC_KEY_BYTES,
        r matches Ok((ct, ss)) ==> ct@.len() == KYBER_CIPHERTEXT_BYTES && ss@.len()
            == KYBER_SHARED_SECRET_BYTES && kyber512_encapsulates(pk@, ct@, ss@),
{
    let public_key = match pqcrypto_kyber::kyber512::PublicKey::from_bytes(pk) {
        Ok(k) => k,
        Err(e) => return Err(format!("Invalid public key: {}", e)),
    };
    let (ss, ct) = pqcrypto_kyber::kyber512::encapsulate(&public_key);
    Ok((ct.as_bytes().to_vec(), ss.as_bytes().to_vec()))
}

/// `pqcrypto_kyber::kyber512::decapsulate` of `ct` with `sk`.  It fails
/// exactly when either has the wrong length for Kyber-512; otherwise the
/// 32-byte secret is `kyber512_decaps(ct, sk)`.
#[verifier::external_body]
pub(crate) fn kyber_decapsulate(ct: &[u8], sk: &[u8]) -> (r: Result<Vec<u8>, String>)
    ensures
        r is Ok <==> (sk@.len() == KYBER_SECRET_KEY_BYTES && ct@.len() == KYBER_CIPHERTEXT_BYTES),
        r matches Ok(ss) ==> ss@ == kyber512_decaps(ct@, sk@) && ss@.len()
            == KYBER_SHARED_SECRET_BYTES,
{
    let secret_key = match pqcrypto_kyber::kyber512::SecretKey::from_bytes(sk) {
        Ok(k) => k,
        Err(e) => return Err(format!("Invalid secret key: {}", e)),
    };
    let ciphertext = match pqcrypto_kyber::kyber512::Ciphertext::from_bytes(ct) {
        Ok(c) => c,
        Err(e) => return Err(format!("Invalid ciphertext: {}", e)),
    };
    let ss = pqcrypto_kyber::kyber512::decapsulate(&ciphertext, &secret_key);
    Ok(ss.as_bytes().to_vec())
}

/// `base64::engine::general_purpose::STANDARD.encode(data)`.
#[verifier::external_body]
pub(crate) fn base64_encode(data: &[u8]) -> (r: String)
    ensures
        r@ == base64_standard(data@),
{
    base64::Engine::encode(&base64::engine::general_purpose::STANDARD, data)
}

/// Seconds since the Unix epoch by the system clock (0 when the clock is
/// before the epoch).  Nothing is promised of the value.
#[verifier::external_body]
pub(crate) fn current_timestamp() -> i64 {
    std::time::SystemTime::now()
        .duration_since(std::time::UNIX_EPOCH)
        .map(|d| d.as_secs() as i64)
        .unwrap_or(0)
}

/// Nanoseconds since the Unix epoch by the system clock, truncated to 64
/// bits; `None` when the clock is before the epoch.  Nothing is promised of
/// the value.
#[verifier::external_body]
pub(crate) fn clock_nanos() -> Option<u64> {
    match std::time::SystemTime::now().duration_since(std::time::UNIX_EPOCH) {
        Ok(d) => Some(d.as_nanos() as u64),
        Err(_) => None,
    }
}

/// `dirs::data_local_dir()`: the platform's local data directory, if it
/// has one.  It depends on the environment; nothing is promised.
#[verifier::external_body]
pub(crate) fn local_data_dir() -> Option<std::path::PathBuf> {
    dirs::data_local_dir()
}

/// `std::path::PathBuf::from(s)`.
#[verifier::external_body]
pub(crate) fn path_from(s: &str) -> std::path::PathBuf {
    std::path::PathBuf::from(s)
}

/// `std::path::Path::join`.
#[verifier::external_body]
pub(crate) fn path_join(base: &std::path::PathBuf, part: &str) -> std::path::PathBuf {
    base.join(part)
}

/// `std::path::Path::exists` for the path `p`: whether something is there.
/// It depends on the machine; nothing is promised.
#[verifier::external_body]
pub(crate) fn path_exists(p: &str) -> bool {
    std::path::Path::new(p).exists()
}

/// `String::from_utf8`: the text the bytes encode when they are valid
/// UTF-8; otherwise the error's text.
#[verifier::external_body]
pub(crate) fn string_from_utf8(bytes: Vec<u8>) -> (r: Result<String, String>)
    ensures
        r is Ok <==> valid_utf8(bytes@),
        r matches Ok(s) ==> s@ == decode_utf8(bytes@),
{
    match String::from_utf8(bytes) {
        Ok(s) => Ok(s),
        Err(e) => Err(e.to_string()),
    }
}

} // verus!
