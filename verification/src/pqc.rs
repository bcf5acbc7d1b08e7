//! PQC (post-quantum cryptography) vault backend.

use crate::bytes::{append_bytes, concat_str, copy_bytes, str_bytes};
use crate::error::{VaultError, VaultResult};
use crate::primitives::{
    aes256gcm_decrypt, aes256gcm_encrypt, aes256gcm_open, aes256gcm_seal, base64_encode,
    base64_standard, clock_nanos, current_timestamp, generate_kyber_keypair, kyber512_decaps,
    kyber512_encapsulates, kyber512_public_part,
    kyber_decapsulate, kyber_encapsulate, path_exists, random_bytes, sha256, sha256_digest,
    string_from_utf8, AES_GCM_MAX_PLAINTEXT, KYBER_CIPHERTEXT_BYTES, KYBER_PUBLIC_KEY_BYTES,
    KYBER_SECRET_KEY_BYTES, KYBER_SHARED_SECRET_BYTES,
};
use crate::table::{lemma_keys_of_match_map, lemma_position_unique, pairs_map, KeyedTable};
use crate::VaultConfig;
use vstd::prelude::*;
use vstd::string::StringSliceAdditionalSpecFns;
use vstd::utf8::{decode_utf8, encode_utf8, valid_utf8};

verus! {

// ---------------------------------------------------------------------------
// Key fingerprints
// ---------------------------------------------------------------------------

/// Starting value of lane `lane` of the fingerprint hash.
pub open spec fn hash_init(lane: int) -> u32 {
    if lane == 0 {
        0x6a09e667u32
    } else if lane == 1 {
        0xbb67ae85u32
    } else if lane == 2 {
        0x3c6ef372u32
    } else {
        0xa54ff53au32
    }
}

/// The big-endian 32-bit word at word index `k` of `data`.
pub open spec fn be_word(data: Seq<u8>, k: int) -> u32 {
    (data[4 * k] as int * 0x100_0000 + data[4 * k + 1] as int * 0x1_0000 + data[4 * k + 2] as int
        * 0x100 + data[4 * k + 3] as int) as u32
}

/// Lane `lane` of the fingerprint hash after the first `n` whole words of
/// `data`: its starting value plus, wrapping at 2^32, every word whose
/// index is congruent to `lane` modulo 4.
pub open spec fn hash_lane(data: Seq<u8>, lane: int, n: nat) -> u32
    decreases n,
{
    if n == 0 {
        hash_init(lane)
    } else {
        let prev = hash_lane(data, lane, (n - 1) as nat);
        if (n - 1) % 4 == lane {
            vstd::wrapping::u32_specs::wrapping_add(prev, be_word(data, n - 1))
        } else {
            prev
        }
    }
}

/// Byte `b` (0 = most significant) of the big-endian encoding of `w`.
pub open spec fn be_byte(w: u32, b: int) -> u8 {
    if b == 0 {
        (w / 0x100_0000) as u8
    } else if b == 1 {
        ((w / 0x1_0000) % 0x100) as u8
    } else if b == 2 {
        ((w / 0x100) % 0x100) as u8
    } else {
        (w % 0x100) as u8
    }
}

/// The 16-byte fingerprint hash of `data`: the four lanes, each in
/// big-endian order.  Bytes past the last whole 4-byte word do not count.
pub open spec fn fingerprint_hash(data: Seq<u8>) -> Seq<u8> {
    Seq::new(16, |i: int| be_byte(hash_lane(data, i / 4, data.len() / 4), i % 4))
}

fn word_at(data: &[u8], k: usize) -> (w: u32)
    requires
        4 * k + 4 <= data@.len(),
    ensures
        w == be_word(data@, k as int),
{
    let len = data.len();
    assert(4 * k + 4 <= len);
    let i = 4 * k;
    (data[i] as u32) * 0x100_0000 + (data[i + 1] as u32) * 0x1_0000 + (data[i + 2] as u32) * 0x100
        + (data[i + 3] as u32)
}

fn push_be_bytes(out: &mut Vec<u8>, w: u32)
    ensures
        final(out)@ == old(out)@ + seq![be_byte(w, 0), be_byte(w, 1), be_byte(w, 2), be_byte(w, 3)],
{
    out.push((w / 0x100_0000) as u8);
    out.push(((w / 0x1_0000) % 0x100) as u8);
    out.push(((w / 0x100) % 0x100) as u8);
    out.push((w % 0x100) as u8);
}

/// The fingerprint hash used for key identifiers: four 32-bit lanes, each
/// accumulating (wrapping) the big-endian words of the input that fall to
/// it, over 64-byte chunks of which only whole 4-byte words count.
pub fn compute_hash(data: &[u8]) -> (r: Vec<u8>)
    ensures
        r@ == fingerprint_hash(data@),
        r@.len() == 16,
{
    let mut h0: u32 = 0x6a09e667u32;
    let mut h1: u32 = 0xbb67ae85u32;
    let mut h2: u32 = 0x3c6ef372u32;
    let mut h3: u32 = 0xa54ff53au32;
    let n_words = data.len() / 4;
    let mut k: usize = 0;
    while k < n_words
        invariant
            n_words == data@.len() / 4,
            k <= n_words,
            h0 == hash_lane(data@, 0, k as nat),
            h1 == hash_lane(data@, 1, k as nat),
            h2 == hash_lane(data@, 2, k as nat),
            h3 == hash_lane(data@, 3, k as nat),
        decreases n_words - k,
    {
        let w = word_at(data, k);
        let lane = k % 4;
        if lane == 0 {
            h0 = h0.wrapping_add(w);
        } else if lane == 1 {
            h1 = h1.wrapping_add(w);
        } else if lane == 2 {
            h2 = h2.wrapping_add(w);
        } else {
            h3 = h3.wrapping_add(w);
        }
        k = k + 1;
    }
    let mut r: Vec<u8> = Vec::new();
    push_be_bytes(&mut r, h0);
    push_be_bytes(&mut r, h1);
    push_be_bytes(&mut r, h2);
    push_be_bytes(&mut r, h3);
    assert(r@ =~= fingerprint_hash(data@));
    r
}

// ---------------------------------------------------------------------------
// AES-GCM frames, passphrase keys, nonces
// ---------------------------------------------------------------------------

/// Length of the AES-GCM nonce at the front of a frame.
pub const AEAD_NONCE_LEN: usize = 12;

/// What a frame (12-byte nonce, then sealed bytes) opens to under `key`.
pub open spec fn aead_unframe(key: Seq<u8>, frame: Seq<u8>) -> Option<Seq<u8>> {
    if frame.len() < AEAD_NONCE_LEN {
        None
    } else {
        aes256gcm_open(
            key,
            frame.subrange(0, AEAD_NONCE_LEN as int),
            frame.subrange(AEAD_NONCE_LEN as int, frame.len() as int),
        )
    }
}

/// `frame` is a nonce followed by the AES-GCM sealing of `plaintext` under
/// `key` with that nonce; it opens to `plaintext`.
pub open spec fn aead_sealed(key: Seq<u8>, frame: Seq<u8>, plaintext: Seq<u8>) -> bool {
    &&& frame.len() == AEAD_NONCE_LEN + plaintext.len() + 16
    &&& frame.subrange(AEAD_NONCE_LEN as int, frame.len() as int) == aes256gcm_seal(
        key,
        frame.subrange(0, AEAD_NONCE_LEN as int),
        plaintext,
    )
    &&& aead_unframe(key, frame) == Some(plaintext)
}

/// The key a passphrase and salt give: SHA-256 of the passphrase followed by
/// the salt.
pub open spec fn passphrase_key(passphrase: Seq<char>, salt: Seq<u8>) -> Seq<u8> {
    sha256_digest(encode_utf8(passphrase) + salt)
}

/// The identifier of a master key: base64 of the first 8 bytes of its
/// fingerprint hash.
pub open spec fn key_id_of(key: Seq<u8>) -> Seq<char> {
    base64_standard(fingerprint_hash(key).subrange(0, 8))
}

/// The fingerprint of key material: base64 of the first 16 bytes of its
/// fingerprint hash.
pub open spec fn fingerprint_of(data: Seq<u8>) -> Seq<char> {
    base64_standard(fingerprint_hash(data).subrange(0, 16))
}

/// Seal `plaintext` under a 32-byte `key` with a fresh random nonce, giving
/// the nonce followed by the sealed bytes.  It fails only when no random
/// nonce can be had, or when the plaintext is too long for AES-GCM; the
/// error's text says which.
fn encrypt(plaintext: &[u8], key: &[u8]) -> (r: Result<Vec<u8>, String>)
    requires
        key@.len() == 32,
    ensures
        r matches Ok(c) ==> aead_sealed(key@, c@, plaintext@),
        plaintext@.len() > AES_GCM_MAX_PLAINTEXT ==> r is Err,
        r matches Err(m) ==> "Random generation failed: "@.is_prefix_of(m@) || (plaintext@.len()
            > AES_GCM_MAX_PLAINTEXT && "Encryption error: "@.is_prefix_of(m@)),
{
    let nonce = match random_bytes(AEAD_NONCE_LEN) {
        Ok(n) => n,
        Err(m) => {
            let msg = concat_str("Random generation failed: ", m.as_str());
            assert("Random generation failed: "@ =~= msg@.subrange(0, "Random generation failed: "@.len() as int));
            return Err(msg);
        },
    };
    let ciphertext = match aes256gcm_encrypt(key, nonce.as_slice(), plaintext) {
        Ok(c) => c,
        Err(m) => {
            let msg = concat_str("Encryption error: ", m.as_str());
            assert("Encryption error: "@ =~= msg@.subrange(0, "Encryption error: "@.len() as int));
            return Err(msg);
        },
    };
    let mut result = copy_bytes(nonce.as_slice());
    append_bytes(&mut result, ciphertext.as_slice());
    assert(result@.subrange(0, AEAD_NONCE_LEN as int) =~= nonce@);
    assert(result@.subrange(AEAD_NONCE_LEN as int, result@.len() as int) =~= ciphertext@);
    Ok(result)
}

/// Open a frame (nonce, then sealed bytes) under a 32-byte `key`.
fn decrypt(ciphertext: &[u8], key: &[u8]) -> (r: Result<Vec<u8>, String>)
    requires
        key@.len() == 32,
    ensures
        ciphertext@.len() < AEAD_NONCE_LEN ==> (r matches Err(m) && m@ == "Ciphertext too short"@),
        r is Ok <==> aead_unframe(key@, ciphertext@) is Some,
        r matches Ok(p) ==> aead_unframe(key@, ciphertext@) == Some(p@),
{
    let len = ciphertext.len();
    if len < AEAD_NONCE_LEN {
        return Err("Ciphertext too short".to_owned());
    }
    let nonce_bytes = &ciphertext[0..AEAD_NONCE_LEN];
    let data = &ciphertext[AEAD_NONCE_LEN..len];
    match aes256gcm_decrypt(key, nonce_bytes, data) {
        Ok(p) => Ok(p),
        Err(m) => Err(concat_str("Decryption error: ", m.as_str())),
    }
}

/// The 32-byte key for a passphrase and salt.
fn derive_key_from_passphrase(passphrase: &str, salt: &[u8]) -> (k: Vec<u8>)
    ensures
        k@ == passphrase_key(passphrase@, salt@),
        k@.len() == 32,
{
    let mut input = str_bytes(passphrase);
    append_bytes(&mut input, salt);
    sha256(input.as_slice())
}

/// The bytes that clock reading `seed` gives when random bytes cannot be had.
pub open spec fn clock_fill(seed: u64, len: nat) -> Seq<u8> {
    Seq::new(
        len,
        |i: int|
            {
                let val = vstd::wrapping::u64_specs::wrapping_mul(
                    vstd::wrapping::u64_specs::wrapping_mul(seed, (i + 1) as u64),
                    1103515245,
                );
                ((val >> 16u64) ^ val) as u8
            },
    )
}

/// The fallback bytes that clock reading `seed` gives.
pub fn fill_from_clock(seed: u64, len: usize) -> (r: Vec<u8>)
    ensures
        r@ == clock_fill(seed, len as nat),
{
    let mut out: Vec<u8> = Vec::new();
    let mut i: usize = 0;
    while i < len
        invariant
            i <= len,
            out@ =~= clock_fill(seed, i as nat),
        decreases len - i,
    {
        let val = seed.wrapping_mul(i as u64 + 1).wrapping_mul(1103515245);
        out.push(((val >> 16u64) ^ val) as u8);
        i = i + 1;
    }
    out
}

/// `len` random bytes, or bytes from the clock when the system has no
/// randomness to give.
pub fn generate_nonce(len: usize) -> (r: Vec<u8>)
    ensures
        r@.len() == len,
{
    match random_bytes(len) {
        Ok(v) => v,
        Err(_) => {
            // A clock before the epoch seeds with zero.
            let seed = match clock_nanos() {
                Some(t) => t,
                None => 0,
            };
            fill_from_clock(seed, len)
        },
    }
}

// ---------------------------------------------------------------------------
// Stored records
// ---------------------------------------------------------------------------

/// Session key for PQC encryption.
#[derive(Debug, Clone)]
pub struct SessionKey {
    /// Unique session identifier
    pub session_id: String,
    /// Encryption key material
    pub encryption_key: Vec<u8>,
    /// MAC key for integrity verification
    pub mac_key: Vec<u8>,
    /// Unix timestamp when key was created
    pub created_at: i64,
    /// Unix timestamp of last key usage
    pub last_used: i64,
    /// Number of times key has been rotated
    pub rotation_count: u32,
    /// Optional expiration timestamp
    pub expires_at: Option<i64>,
}

/// Whether a key with expiry `expires_at` has expired at time `now`: it has
/// an expiry and `now` is past it.
pub open spec fn expired_at(expires_at: Option<i64>, now: i64) -> bool {
    match expires_at {
        Some(e) => now > e,
        None => false,
    }
}

impl SessionKey {
    /// Whether the session key has expired at time `now`: it has an expiry
    /// and `now` is past it.
    pub fn is_expired(&self, now: i64) -> (r: bool)
        ensures
            r == expired_at(self.expires_at, now),
    {
        match self.expires_at {
            Some(e) => now > e,
            None => false,
        }
    }
}

/// Vault entry for storing encrypted session keys.
#[derive(Debug, Clone)]
pub struct VaultEntry {
    /// Unique session identifier
    pub session_id: String,
    /// Encrypted key material
    pub encrypted_key: Vec<u8>,
    /// Fingerprint of the encryption key
    pub key_fingerprint: String,
    /// Unix timestamp when entry was created
    pub created_at: i64,
    /// Unix timestamp of last access
    pub last_used: i64,
    /// Number of times key has been rotated
    pub rotation_count: u32,
    /// Whether key is protected by TPM
    pub tpm_protected: bool,
}

/// A vault entry as plain values.
pub struct VaultEntryView {
    /// Unique session identifier
    pub session_id: Seq<char>,
    /// Encrypted key material
    pub encrypted_key: Seq<u8>,
    /// Fingerprint of the encryption key
    pub key_fingerprint: Seq<char>,
    /// Unix timestamp when entry was created
    pub created_at: i64,
    /// Unix timestamp of last access
    pub last_used: i64,
    /// Number of times key has been rotated
    pub rotation_count: u32,
    /// Whether key is protected by TPM
    pub tpm_protected: bool,
}

impl View for VaultEntry {
    type V = VaultEntryView;

    open spec fn view(&self) -> VaultEntryView {
        VaultEntryView {
            session_id: self.session_id@,
            encrypted_key: self.encrypted_key@,
            key_fingerprint: self.key_fingerprint@,
            created_at: self.created_at,
            last_used: self.last_used,
            rotation_count: self.rotation_count,
            tpm_protected: self.tpm_protected,
        }
    }
}

impl VaultEntry {
    /// A copy of the entry.
    pub fn duplicate(&self) -> (r: VaultEntry)
        ensures
            r@ == self@,
    {
        VaultEntry {
            session_id: self.session_id.clone(),
            encrypted_key: copy_bytes(self.encrypted_key.as_slice()),
            key_fingerprint: self.key_fingerprint.clone(),
            created_at: self.created_at,
            last_used: self.last_used,
            rotation_count: self.rotation_count,
            tpm_protected: self.tpm_protected,
        }
    }
}

/// The vault's master key.
#[derive(Debug, Clone)]
pub struct MasterKey {
    /// Key bytes
    pub key: Vec<u8>,
    /// Unix timestamp when the key was created or loaded
    pub created_at: i64,
    /// Identifier derived from the key
    pub key_id: String,
}

/// The Kyber key pair as stored: the secret key sealed under a passphrase key.
#[derive(Debug, Clone)]
pub struct PqcKeyPair {
    /// Kyber public key
    pub public_key: Vec<u8>,
    /// Kyber secret key, sealed under the passphrase key
    pub encrypted_secret_key: Vec<u8>,
    /// Salt of the passphrase key
    pub salt: Vec<u8>,
}

/// The master key as stored: sealed under a Kyber shared secret.
#[derive(Debug, Clone)]
pub struct PqcEncryptedMasterKey {
    /// Format version
    pub version: u8,
    /// Kyber public key the shared secret was encapsulated to
    pub public_key: Vec<u8>,
    /// Kyber ciphertext of the shared secret
    pub encrypted_secret_key: Vec<u8>,
    /// Master key sealed under the shared secret (nonce in front)
    pub encrypted_master_key: Vec<u8>,
    /// Unused; the nonce travels in `encrypted_master_key`
    pub nonce: Vec<u8>,
}

/// Secret entry in the vault.
#[derive(Debug, Clone)]
pub struct Secret {
    /// Secret identifier
    pub key: String,
    /// Encrypted secret value
    pub encrypted_value: Vec<u8>,
    /// Nonce for encryption
    pub nonce: Vec<u8>,
    /// Creation timestamp
    pub created_at: i64,
    /// Additional metadata
    pub metadata: Vec<(String, String)>,
}

/// The Kyber key pair to use, and the stored form of a newly made one.
pub struct PqcKeyMaterial {
    /// Kyber public key
    pub public_key: Vec<u8>,
    /// Kyber secret key
    pub secret_key: Vec<u8>,
    /// The key pair to store, when it was newly made
    pub new_keypair: Option<PqcKeyPair>,
}

/// The master key to use, and what to store for it.
pub struct MasterKeyPlan {
    /// The master key
    pub master_key: MasterKey,
    /// Its wrapped form, to store when it is new or migrated
    pub encrypted: Option<PqcEncryptedMasterKey>,
    /// Whether the plain master key file is to be removed
    pub remove_plain: bool,
}

/// Seal `master_key` under the Kyber shared secret `shared_secret`, into the
/// record that keeps it with the public key and the Kyber ciphertext the
/// secret was encapsulated in.  It fails only when no random nonce can be
/// had, or when the master key is too long for AES-GCM.
pub fn seal_master_key(public_key: &[u8], ciphertext: Vec<u8>, shared_secret: &[u8], master_key: &[u8]) -> (r: VaultResult<PqcEncryptedMasterKey>)
    requires
        shared_secret@.len() == KYBER_SHARED_SECRET_BYTES,
    ensures
        r matches Ok(e) ==> sealed_master(e, public_key@, ciphertext@, shared_secret@, master_key@),
        r matches Err(x) ==> x matches VaultError::PqcError(m) && (("AES encryption failed: "@
            + "Random generation failed: "@).is_prefix_of(m@) || master_key@.len() > AES_GCM_MAX_PLAINTEXT),
        master_key@.len() > AES_GCM_MAX_PLAINTEXT ==> r is Err,
{
    let encrypted_master_key = match encrypt(master_key, shared_secret) {
        Ok(c) => c,
        Err(m) => {
            let msg = concat_str("AES encryption failed: ", m.as_str());
            proof {
                if "Random generation failed: "@.is_prefix_of(m@) {
                    lemma_prefix_extend("AES encryption failed: "@, "Random generation failed: "@, m@);
                }
            }
            return Err(VaultError::PqcError(msg));
        },
    };
    Ok(PqcEncryptedMasterKey {
        version: 1,
        public_key: copy_bytes(public_key),
        encrypted_secret_key: ciphertext,
        encrypted_master_key,
        nonce: Vec::new(),
    })
}

/// `e` is the record that sealing `master_key` under `shared_secret`, with
/// Kyber ciphertext `ciphertext` for public key `pk`, makes: version 1, the
/// public key, the ciphertext, no separate nonce, and the sealed master key.
pub open spec fn sealed_master(e: PqcEncryptedMasterKey, pk: Seq<u8>, ciphertext: Seq<u8>, shared_secret: Seq<u8>, master_key: Seq<u8>) -> bool {
    &&& e.version == 1
    &&& e.public_key@ == pk
    &&& e.encrypted_secret_key@ == ciphertext
    &&& e.nonce@.len() == 0
    &&& aead_sealed(shared_secret, e.encrypted_master_key@, master_key)
}

/// `e` wraps `master_key` for public key `pk`: its ciphertext and a 32-byte
/// shared secret are a pair that Kyber encapsulation to `pk` gives, and the
/// master key is sealed under that secret.
pub open spec fn wraps(e: PqcEncryptedMasterKey, pk: Seq<u8>, master_key: Seq<u8>) -> bool {
    &&& e.encrypted_secret_key@.len() == KYBER_CIPHERTEXT_BYTES
    &&& exists|ss: Seq<u8>|
        #[trigger] kyber512_encapsulates(pk, e.encrypted_secret_key@, ss) && ss.len() == 32
            && sealed_master(e, pk, e.encrypted_secret_key@, ss, master_key)
}

/// `pk` and `sk` are a Kyber-512 key pair: the secret key carries the
/// public key.
pub open spec fn kyber_pair(pk: Seq<u8>, sk: Seq<u8>) -> bool {
    sk.len() == KYBER_SECRET_KEY_BYTES && pk == kyber512_public_part(sk)
}

/// Decapsulating with `sk` recovers the shared secret of every
/// encapsulation to its public key.  This is Kyber's correctness, which
/// holds except with a negligible probability of decapsulation failure; it
/// is taken as a premise where needed, never assumed.
pub open spec fn decapsulation_recovers(sk: Seq<u8>) -> bool {
    forall|ct: Seq<u8>, ss: Seq<u8>|
        #[trigger] kyber512_encapsulates(kyber512_public_part(sk), ct, ss) ==> kyber512_decaps(ct, sk) == ss
}

/// What unwrapping `e` with secret key `sk` gives: the master key sealed
/// under the shared secret that decapsulation recovers.
pub open spec fn master_unwrap(sk: Seq<u8>, e: PqcEncryptedMasterKey) -> Option<Seq<u8>> {
    if sk.len() == KYBER_SECRET_KEY_BYTES && e.encrypted_secret_key@.len() == KYBER_CIPHERTEXT_BYTES {
        aead_unframe(kyber512_decaps(e.encrypted_secret_key@, sk), e.encrypted_master_key@)
    } else {
        None
    }
}

/// `m` is the master key record for `key`: its identifier is derived from it.
pub open spec fn master_record(m: MasterKey, key: Seq<u8>) -> bool {
    m.key@ == key && m.key_id@ == key_id_of(key)
}

/// `e` is the entry that storing `key_data` for `session_id` makes under
/// `master_key`.
pub open spec fn session_entry(e: VaultEntry, session_id: Seq<char>, key_data: Seq<u8>, master_key: Seq<u8>, tpm: bool) -> bool {
    &&& e.session_id@ == session_id
    &&& aead_sealed(master_key, e.encrypted_key@, key_data)
    &&& e.key_fingerprint@ == fingerprint_of(key_data)
    &&& e.last_used == 0
    &&& e.rotation_count == 0
    &&& e.tpm_protected == tpm
}

/// `s` is the secret that storing `value` under `key` makes with `master_key`.
pub open spec fn sealed_pqc_secret(s: Secret, key: Seq<char>, value: Seq<u8>, master_key: Seq<u8>) -> bool {
    &&& s.key@ == key
    &&& s.nonce@.len() == AEAD_NONCE_LEN
    &&& aead_sealed(master_key, s.nonce@ + s.encrypted_value@, value)
    &&& s.metadata@.len() == 0
}

/// What reading back secret `s` under `master_key` gives.
pub open spec fn pqc_read_back(master_key: Seq<u8>, s: Secret, r: VaultResult<String>) -> bool {
    let frame = s.nonce@ + s.encrypted_value@;
    match aead_unframe(master_key, frame) {
        None => r matches Err(VaultError::Decryption(_)),
        Some(p) => if valid_utf8(p) {
            r matches Ok(t) && t@ == decode_utf8(p)
        } else {
            r matches Err(VaultError::Other(_))
        },
    }
}

/// What storing `key_data` for `session_id` does: refused when not
/// initialized or when sealing fails (nothing changes); otherwise the entry
/// sealed for the key data under the master key is kept, the id keeping its
/// place or going last.
pub open spec fn store_session_outcome(before: PqcVault, after: PqcVault, session_id: Seq<char>, key_data: Seq<u8>, r: VaultResult<()>) -> bool {
    &&& after.wf()
    &&& after.same_keys(&before)
    &&& after.secret_map() == before.secret_map()
    &&& after.secret_order() == before.secret_order()
    &&& r is Err ==> after.entry_map() == before.entry_map() && after.entry_order()
            == before.entry_order()
    &&& r matches Err(x) ==> seal_error(before, key_data.len(), x)
    &&& seal_fails(before, key_data.len()) ==> r is Err
    &&& r is Ok ==> before.is_init() && exists|e: VaultEntry|
            #[trigger] session_entry(e, session_id, key_data, before.master_bytes(), before.tpm())
                && after.entry_map() == before.entry_map().insert(session_id, e)
    &&& r is Ok && before.entry_map().dom().contains(session_id) ==> after.entry_order()
            == before.entry_order()
    &&& r is Ok && !before.entry_map().dom().contains(session_id) ==> after.entry_order()
            == before.entry_order().push(session_id)
}

/// What getting the session key of `session_id` gives: the key data its entry
/// opens to under the master key, the entry then recording the time of use;
/// `None` when absent.
pub open spec fn get_session_outcome(before: PqcVault, after: PqcVault, session_id: Seq<char>, r: VaultResult<Option<Vec<u8>>>) -> bool {
    &&& after.wf()
    &&& after.same_keys(&before)
    &&& after.secret_map() == before.secret_map()
    &&& after.secret_order() == before.secret_order()
    &&& after.entry_order() == before.entry_order()
    &&& after.entry_map().dom() == before.entry_map().dom()
    &&& !before.is_init() ==> (r matches Err(VaultError::NotInitialized))
    &&& before.is_init() && !before.entry_map().dom().contains(session_id) ==> (r matches Ok(
            None,
        ))
    &&& (r is Err || (r matches Ok(None))) ==> after.entry_map() == before.entry_map()
    &&& before.is_init() && before.entry_map().dom().contains(session_id) ==> {
            let e = before.entry_map()[session_id];
            &&& e.encrypted_key@.len() < AEAD_NONCE_LEN ==> (r matches Err(
                VaultError::Decryption(_),
            ))
            &&& e.encrypted_key@.len() >= AEAD_NONCE_LEN && before.master_bytes().len() != 32
                ==> (r matches Err(VaultError::Decryption(_)))
            &&& e.encrypted_key@.len() >= AEAD_NONCE_LEN && before.master_bytes().len()
                == 32 ==> match aead_unframe(before.master_bytes(), e.encrypted_key@) {
                Some(p) => r matches Ok(Some(k)) && k@ == p,
                None => r matches Err(VaultError::Decryption(_)),
            }
            &&& r matches Ok(Some(_)) ==> {
                let n = after.entry_map()[session_id]@;
                &&& after.entry_map() == before.entry_map().insert(
                    session_id,
                    after.entry_map()[session_id],
                )
                &&& n.session_id == e@.session_id
                &&& n.encrypted_key == e@.encrypted_key
                &&& n.key_fingerprint == e@.key_fingerprint
                &&& n.created_at == e@.created_at
                &&& n.rotation_count == e@.rotation_count
                &&& n.tpm_protected == e@.tpm_protected
            }
        }
}

/// What rotating the session key of `session_id` does: the rotation is
/// counted and the time recorded; on success the entry holds a new all-zero
/// 32-byte key sealed under the master key, fingerprinted by its sealed
/// bytes.
pub open spec fn rotate_session_outcome(before: PqcVault, after: PqcVault, session_id: Seq<char>, r: VaultResult<Option<String>>) -> bool {
    &&& after.wf()
    &&& after.same_keys(&before)
    &&& after.secret_map() == before.secret_map()
    &&& after.secret_order() == before.secret_order()
    &&& after.entry_order() == before.entry_order()
    &&& after.entry_map().dom() == before.entry_map().dom()
    &&& !before.is_init() ==> (r matches Err(VaultError::NotInitialized))
            && after.entry_map() == before.entry_map()
    &&& before.is_init() && !before.entry_map().dom().contains(session_id) ==> (r matches Ok(
            None,
        )) && after.entry_map() == before.entry_map()
    &&& before.is_init() && before.entry_map().dom().contains(session_id) ==> {
            let e = before.entry_map()[session_id]@;
            let n = after.entry_map()[session_id]@;
            &&& after.entry_map() == before.entry_map().insert(
                session_id,
                after.entry_map()[session_id],
            )
            &&& n.session_id == e.session_id
            &&& n.created_at == e.created_at
            &&& n.tpm_protected == e.tpm_protected
            &&& n.rotation_count == e.rotation_count + 1
            &&& r matches Ok(o) ==> (o matches Some(id) && id@ == session_id && aead_sealed(
                before.master_bytes(),
                n.encrypted_key,
                Seq::new(32, |i: int| 0u8),
            ) && n.key_fingerprint == fingerprint_of(n.encrypted_key))
            &&& r is Err ==> n.encrypted_key == e.encrypted_key && n.key_fingerprint
                == e.key_fingerprint
            &&& before.master_bytes().len() != 32 ==> r is Err
        }
    &&& r matches Err(x) ==> seal_error(before, 32, x)
}

/// What storing `value` under `key` does: refused when not initialized or
/// when sealing fails (nothing changes); otherwise a secret sealed for the
/// value under the master key is kept, the key keeping its place or going
/// last.
pub open spec fn store_secret_outcome(before: PqcVault, after: PqcVault, key: Seq<char>, value: Seq<u8>, r: VaultResult<()>) -> bool {
    &&& after.wf()
    &&& after.same_keys(&before)
    &&& after.entry_map() == before.entry_map()
    &&& after.entry_order() == before.entry_order()
    &&& r is Err ==> after.secret_map() == before.secret_map() && after.secret_order()
            == before.secret_order()
    &&& r matches Err(x) ==> seal_error(before, value.len(), x)
    &&& seal_fails(before, value.len()) ==> r is Err
    &&& r is Ok ==> before.is_init() && exists|s: Secret|
            #[trigger] sealed_pqc_secret(s, key, value, before.master_bytes())
                && after.secret_map() == before.secret_map().insert(key, s)
    &&& r is Ok && before.secret_map().dom().contains(key) ==> after.secret_order()
            == before.secret_order()
    &&& r is Ok && !before.secret_map().dom().contains(key) ==> after.secret_order()
            == before.secret_order().push(key)
}

/// What reading back `key` gives.
pub open spec fn retrieve_secret_outcome(v: PqcVault, key: Seq<char>, r: VaultResult<String>) -> bool {
    &&& !v.is_init() ==> (r matches Err(VaultError::NotInitialized))
    &&& v.is_init() && !v.secret_map().dom().contains(key) ==> (r matches Err(
            VaultError::SecretNotFound(m),
        ) && m@ == key)
    &&& v.is_init() && v.secret_map().dom().contains(key) && v.master_bytes().len()
            == 32 ==> pqc_read_back(v.master_bytes(), v.secret_map()[key], r)
    &&& v.is_init() && v.secret_map().dom().contains(key) && v.master_bytes().len()
            != 32 ==> (r matches Err(VaultError::Decryption(_)))
}

/// What deleting `key` does: refused (nothing changes) when not initialized
/// or absent; otherwise the key is gone.
pub open spec fn delete_secret_outcome(before: PqcVault, after: PqcVault, key: Seq<char>, r: VaultResult<()>) -> bool {
    &&& after.wf()
    &&& after.same_keys(&before)
    &&& after.entry_map() == before.entry_map()
    &&& after.entry_order() == before.entry_order()
    &&& !before.is_init() ==> (r matches Err(VaultError::NotInitialized)) && after.secret_map()
            == before.secret_map()
    &&& before.is_init() && !before.secret_map().dom().contains(key) ==> (r matches Err(
            VaultError::SecretNotFound(m),
        ) && m@ == key) && after.secret_map() == before.secret_map()
    &&& before.is_init() && before.secret_map().dom().contains(key) ==> r is Ok
            && after.secret_map() == before.secret_map().remove(key) && exists|i: int|
            0 <= i < before.secret_order().len() && #[trigger] before.secret_order()[i] == key
                && after.secret_order() == before.secret_order().remove(i)
    &&& r is Err ==> after.secret_order() == before.secret_order()
}

/// What wiping does: no entries, no secrets, no keys, not initialized.
pub open spec fn wipe_outcome(before: PqcVault, after: PqcVault, r: VaultResult<()>) -> bool {
    &&& after.wf()
    &&& r is Ok
    &&& !after.is_init()
    &&& after.public_key() is None
    &&& after.secret_key() is None
    &&& after.entry_map() == Map::<Seq<char>, VaultEntry>::empty()
    &&& after.secret_map() == Map::<Seq<char>, Secret>::empty()
    &&& after.entry_order() == Seq::<Seq<char>>::empty()
    &&& after.secret_order() == Seq::<Seq<char>>::empty()
    &&& after.tpm() == before.tpm()
    &&& after.dir() == before.dir()
}

/// Wrapping a master key of `len` bytes for public key `pk` surely fails:
/// no public key is loaded, it has the wrong length, or the master key is
/// too long for AES-GCM.
pub open spec fn wrap_fails(pk: Option<Seq<u8>>, len: nat) -> bool {
    match pk {
        None => true,
        Some(p) => p.len() != KYBER_PUBLIC_KEY_BYTES || len > AES_GCM_MAX_PLAINTEXT,
    }
}

/// The errors wrapping a master key of `len` bytes for public key `pk` can
/// give: a missing key, a key of the wrong length, or else only a failed
/// random draw (or a master key too long for AES-GCM).
pub open spec fn wrap_error(pk: Option<Seq<u8>>, len: nat, x: VaultError) -> bool {
    match pk {
        None => x matches VaultError::PqcError(m) && m@ == "PQC public key not initialized"@,
        Some(p) => if p.len() != KYBER_PUBLIC_KEY_BYTES {
            x matches VaultError::PqcError(m) && "Kyber encapsulation failed: "@.is_prefix_of(m@)
        } else {
            x matches VaultError::PqcError(m) && (("AES encryption failed: "@
                + "Random generation failed: "@).is_prefix_of(m@) || len > AES_GCM_MAX_PLAINTEXT)
        },
    }
}

/// Sealing `len` bytes under the master key of `v` surely fails: not
/// initialized, a master key of the wrong length, or data too long for
/// AES-GCM.
pub open spec fn seal_fails(v: PqcVault, len: nat) -> bool {
    !v.is_init() || v.master_bytes().len() != 32 || len > AES_GCM_MAX_PLAINTEXT
}

/// The errors sealing `len` bytes under the master key of `v` can give: not
/// initialized, a master key of the wrong length, or else only a failed
/// random draw (or data too long for AES-GCM).
pub open spec fn seal_error(v: PqcVault, len: nat, x: VaultError) -> bool {
    if !v.is_init() {
        x matches VaultError::NotInitialized
    } else if v.master_bytes().len() != 32 {
        x matches VaultError::Encryption(m) && m@ == "Invalid master key length"@
    } else {
        x matches VaultError::Encryption(m) && ("random generation failed: "@.is_prefix_of(m@)
            || len > AES_GCM_MAX_PLAINTEXT)
    }
}

/// The passphrase the Kyber key pair is sealed under: the one set in the
/// environment, or else the one asked with.
pub open spec fn effective_passphrase(passphrase: Seq<char>, env_passphrase: Option<&str>) -> Seq<char> {
    match env_passphrase {
        Some(p) => p@,
        None => passphrase,
    }
}

/// What preparing the Kyber key pair gives, for the passphrase asked
/// with, the passphrase set in the environment (if any), and the stored key
/// pair.  A stored pair is opened only when the environment passphrase,
/// where set, equals the one asked with; a new pair fails only when no
/// random nonce can be had.
pub open spec fn keypair_outcome(passphrase: Seq<char>, env_passphrase: Option<&str>, stored: Option<PqcKeyPair>, r: VaultResult<PqcKeyMaterial>) -> bool {
    let p = effective_passphrase(passphrase, env_passphrase);
    match stored {
        Some(kp) => if p != passphrase {
            r matches Err(VaultError::InvalidCredentials)
        } else {
            match aead_unframe(passphrase_key(p, kp.salt@), kp.encrypted_secret_key@) {
                Some(sk) => r matches Ok(m) && m.public_key@ == kp.public_key@ && m.secret_key@
                    == sk && m.new_keypair is None,
                None => r matches Err(VaultError::PqcError(m))
                    && "Failed to decrypt PQC secret key: "@.is_prefix_of(m@),
            }
        },
        None => {
            &&& r matches Ok(m) ==> {
                &&& m.public_key@.len() == KYBER_PUBLIC_KEY_BYTES
                &&& m.secret_key@.len() == KYBER_SECRET_KEY_BYTES
                &&& kyber_pair(m.public_key@, m.secret_key@)
                &&& match m.new_keypair {
                    Some(kp) => kp.public_key@ == m.public_key@ && kp.salt@.len() == 16
                        && aead_sealed(passphrase_key(p, kp.salt@), kp.encrypted_secret_key@, m.secret_key@),
                    None => false,
                }
            }
            &&& r matches Err(x) ==> (x matches VaultError::PqcError(m)
                && ("Failed to encrypt PQC secret key: "@ + "Random generation failed: "@).is_prefix_of(
                m@,
            ))
        },
    }
}

/// `r` lists the sessions of `v`: for each session id in the order first
/// stored, the entry's own session id, fingerprint and creation time.  Where
/// every entry is filed under its own session id, the ids listed are the
/// session ids themselves.
pub open spec fn session_listing(v: PqcVault, r: Seq<(String, String, i64)>) -> bool {
    &&& r.len() == v.entry_order().len()
    &&& forall|i: int|
        #![trigger r[i]]
        0 <= i < r.len() ==> {
            let e = v.entry_map()[v.entry_order()[i]];
            &&& r[i].0@ == e.session_id@
            &&& r[i].1@ == e.key_fingerprint@
            &&& r[i].2 == e.created_at
        }
    &&& v.ids_match() ==> forall|i: int| #![trigger r[i]] 0 <= i < r.len() ==> r[i].0@ == v.entry_order()[i]
}

/// What preparing the master key gives, with the loaded Kyber keys `pk` and
/// `sk`, from the stored wrapped master key or else the stored plain one:
/// the stored wrapped key unwrapped; the plain key migrated (wrapped, the
/// plain file to go); or a fresh key, wrapped.
pub open spec fn master_plan_outcome(pk: Option<Seq<u8>>, sk: Option<Seq<u8>>, stored_encrypted: Option<PqcEncryptedMasterKey>, stored_plain: Option<MasterKey>, r: VaultResult<MasterKeyPlan>) -> bool {
    match (stored_encrypted, stored_plain) {
        (Some(e), _) => {
            &&& sk is None ==> (r matches Err(VaultError::PqcError(m)) && m@
                == "PQC secret key not initialized"@)
            &&& sk matches Some(k) ==> {
                &&& r is Ok <==> master_unwrap(k, e) is Some
                &&& r matches Ok(plan) ==> master_unwrap(k, e) == Some(plan.master_key.key@)
                    && master_record(plan.master_key, plan.master_key.key@)
                    && plan.encrypted is None && !plan.remove_plain
            }
            &&& r is Err ==> (r matches Err(VaultError::PqcError(_)))
        },
        (None, Some(m)) => {
            &&& r matches Err(x) ==> wrap_error(pk, m.key@.len(), x)
            &&& wrap_fails(pk, m.key@.len()) ==> r is Err
            &&& r matches Ok(plan) ==> {
                &&& plan.master_key == m
                &&& plan.remove_plain
                &&& match (pk, plan.encrypted) {
                    (Some(p), Some(e)) => wraps(e, p, m.key@),
                    _ => false,
                }
            }
        },
        (None, None) => {
            &&& r matches Ok(plan) ==> {
                &&& plan.master_key.key@.len() == 32
                &&& master_record(plan.master_key, plan.master_key.key@)
                &&& !plan.remove_plain
                &&& match (pk, plan.encrypted) {
                    (Some(p), Some(e)) => wraps(e, p, plan.master_key.key@),
                    _ => false,
                }
            }
            &&& r matches Err(x) ==> (x matches VaultError::Encryption(msg)
                && "random generation failed: "@.is_prefix_of(msg@)) || wrap_error(
                pk,
                32,
                x,
            )
            &&& wrap_fails(pk, 32) ==> r is Err
        },
    }
}

/// `after` is `before` with the Kyber key pair (`pk`, `sk`) taken into use.
pub open spec fn keypair_installed(before: PqcVault, after: PqcVault, pk: Seq<u8>, sk: Seq<u8>) -> bool {
    &&& after.wf()
    &&& after.public_key() == Some(pk)
    &&& after.secret_key() == Some(sk)
    &&& after.master() == before.master()
    &&& after.is_init() == before.is_init()
    &&& after.tpm() == before.tpm()
    &&& after.dir() == before.dir()
    &&& after.entry_map() == before.entry_map()
    &&& after.entry_order() == before.entry_order()
    &&& after.secret_map() == before.secret_map()
    &&& after.secret_order() == before.secret_order()
}

/// `after` is `before` with master key `m` taken into use: initialized.
pub open spec fn master_installed(before: PqcVault, after: PqcVault, m: MasterKey) -> bool {
    &&& after.wf()
    &&& after.master() == Some(m)
    &&& after.is_init()
    &&& after.public_key() == before.public_key()
    &&& after.secret_key() == before.secret_key()
    &&& after.tpm() == before.tpm()
    &&& after.dir() == before.dir()
    &&& after.entry_map() == before.entry_map()
    &&& after.entry_order() == before.entry_order()
    &&& after.secret_map() == before.secret_map()
    &&& after.secret_order() == before.secret_order()
}

/// A prefix of a text stays a prefix after the same text is put in front of
/// both.
pub proof fn lemma_prefix_extend(x: Seq<char>, a: Seq<char>, b: Seq<char>)
    requires
        a.is_prefix_of(b),
    ensures
        (x + a).is_prefix_of(x + b),
{
    assert((x + a) =~= (x + b).subrange(0, (x + a).len() as int));
}

// ---------------------------------------------------------------------------
// The vault
// ---------------------------------------------------------------------------

/// PQC vault.
pub struct PqcVault {
    entries: KeyedTable<VaultEntry>,
    master_key: Option<MasterKey>,
    pq_public_key: Option<Vec<u8>>,
    pq_secret_key: Option<Vec<u8>>,
    use_tpm: bool,
    data_dir: std::path::PathBuf,
    secrets: KeyedTable<Secret>,
}

impl PqcVault {
    /// Neither table repeats a key, and a vault with a master key has its
    /// Kyber key pair loaded.
    pub closed spec fn wf(&self) -> bool {
        &&& self.entries.wf()
        &&& self.secrets.wf()
        &&& self.master_key is Some ==> self.pq_public_key is Some && self.pq_secret_key is Some
    }

    /// An initialized vault has its Kyber key pair loaded.
    pub proof fn lemma_init_has_keypair(&self)
        requires
            self.wf(),
            self.is_init(),
        ensures
            self.public_key() is Some,
            self.secret_key() is Some,
    {
    }

    /// Whether a master key is loaded.
    pub closed spec fn is_init(&self) -> bool {
        self.master_key is Some
    }

    /// The master key record, if loaded.
    pub closed spec fn master(&self) -> Option<MasterKey> {
        self.master_key
    }

    /// The master key bytes (empty when none is loaded).
    pub open spec fn master_bytes(&self) -> Seq<u8> {
        match self.master() {
            Some(m) => m.key@,
            None => Seq::empty(),
        }
    }

    /// The Kyber public key, if loaded.
    pub closed spec fn public_key(&self) -> Option<Seq<u8>> {
        match self.pq_public_key {
            Some(k) => Some(k@),
            None => None,
        }
    }

    /// The Kyber secret key, if loaded.
    pub closed spec fn secret_key(&self) -> Option<Seq<u8>> {
        match self.pq_secret_key {
            Some(k) => Some(k@),
            None => None,
        }
    }

    /// Whether key protection by TPM is on.
    pub closed spec fn tpm(&self) -> bool {
        self.use_tpm
    }

    /// The vault's data directory.
    pub closed spec fn dir(&self) -> std::path::PathBuf {
        self.data_dir
    }

    /// The session entries by session id.
    pub closed spec fn entry_map(&self) -> Map<Seq<char>, VaultEntry> {
        self.entries@
    }

    /// The session entries in order.
    pub closed spec fn entry_list(&self) -> Seq<(String, VaultEntry)> {
        self.entries.entries()
    }

    /// The session ids in the order they were first stored.
    pub closed spec fn entry_order(&self) -> Seq<Seq<char>> {
        self.entries.key_order()
    }

    /// The secrets by key.
    pub closed spec fn secret_map(&self) -> Map<Seq<char>, Secret> {
        self.secrets@
    }

    /// The secret keys in the order they were first stored.
    pub closed spec fn secret_order(&self) -> Seq<Seq<char>> {
        self.secrets.key_order()
    }

    /// Every session entry is filed under its own session id.
    pub open spec fn ids_match(&self) -> bool {
        forall|k: Seq<char>| #[trigger] self.entry_map().dom().contains(k) ==> self.entry_map()[k].session_id@ == k
    }

    /// Neither order repeats a key, and each holds exactly the keys of its
    /// table.
    pub proof fn lemma_orders(&self)
        requires
            self.wf(),
        ensures
            self.entry_order().no_duplicates(),
            self.secret_order().no_duplicates(),
            forall|k: Seq<char>| #[trigger] self.entry_map().dom().contains(k) <==> self.entry_order().contains(k),
            forall|k: Seq<char>| #[trigger] self.secret_map().dom().contains(k) <==> self.secret_order().contains(k),
    {
        lemma_keys_of_match_map(self.entries.entries());
        lemma_keys_of_match_map(self.secrets.entries());
    }

    /// Everything but the two tables is as in `other`.
    pub open spec fn same_keys(&self, other: &PqcVault) -> bool {
        &&& self.is_init() == other.is_init()
        &&& self.master() == other.master()
        &&& self.public_key() == other.public_key()
        &&& self.secret_key() == other.secret_key()
        &&& self.tpm() == other.tpm()
        &&& self.dir() == other.dir()
    }

    /// Create a new PQC vault with default configuration.
    pub fn new(data_dir: std::path::PathBuf) -> (v: Self)
        ensures
            v.wf(),
            !v.is_init(),
            !v.tpm(),
            v.dir() == data_dir,
            v.public_key() is None,
            v.secret_key() is None,
            v.entry_map() == Map::<Seq<char>, VaultEntry>::empty(),
            v.secret_map() == Map::<Seq<char>, Secret>::empty(),
            v.entry_order() == Seq::<Seq<char>>::empty(),
            v.secret_order() == Seq::<Seq<char>>::empty(),
    {
        Self::with_config(data_dir, VaultConfig::default())
    }

    /// Create a new PQC vault with custom configuration.  TPM protection is
    /// on only when asked for and a TPM device is present.
    pub fn with_config(data_dir: std::path::PathBuf, config: VaultConfig) -> (v: Self)
        ensures
            v.wf(),
            !v.is_init(),
            v.tpm() ==> config.use_tpm,
            v.dir() == data_dir,
            v.public_key() is None,
            v.secret_key() is None,
            v.entry_map() == Map::<Seq<char>, VaultEntry>::empty(),
            v.secret_map() == Map::<Seq<char>, Secret>::empty(),
            v.entry_order() == Seq::<Seq<char>>::empty(),
            v.secret_order() == Seq::<Seq<char>>::empty(),
    {
        let present = config.use_tpm && Self::check_tpm_availability();
        Self::with_tpm_presence(data_dir, config, present)
    }

    /// Create a new PQC vault with custom configuration, given whether a TPM
    /// device is present: TPM protection is on exactly when asked for and
    /// present.
    pub fn with_tpm_presence(data_dir: std::path::PathBuf, config: VaultConfig, tpm_present: bool) -> (v: Self)
        ensures
            v.wf(),
            !v.is_init(),
            v.tpm() == (config.use_tpm && tpm_present),
            v.dir() == data_dir,
            v.public_key() is None,
            v.secret_key() is None,
            v.entry_map() == Map::<Seq<char>, VaultEntry>::empty(),
            v.secret_map() == Map::<Seq<char>, Secret>::empty(),
            v.entry_order() == Seq::<Seq<char>>::empty(),
            v.secret_order() == Seq::<Seq<char>>::empty(),
    {
        PqcVault {
            entries: KeyedTable::new(),
            master_key: None,
            pq_public_key: None,
            pq_secret_key: None,
            use_tpm: config.use_tpm && tpm_present,
            data_dir,
            secrets: KeyedTable::new(),
        }
    }

    /// Whether a TPM device node is present (the Linux device paths); where
    /// the platform has none, callers pass the answer to
    /// `with_tpm_presence` instead.
    fn check_tpm_availability() -> bool {
        path_exists("/dev/tpm0") || path_exists("/dev/tpmrm0")
    }

    /// Check if TPM is available.
    pub fn is_tpm_available(&self) -> (r: bool)
        ensures
            r == self.tpm(),
    {
        self.use_tpm
    }

    /// The vault's data directory.
    pub fn data_dir(&self) -> (d: &std::path::PathBuf)
        ensures
            *d == self.dir(),
    {
        &self.data_dir
    }

    /// The session entries table, for writing it out.
    pub fn entries_table(&self) -> (t: &KeyedTable<VaultEntry>)
        requires
            self.wf(),
        ensures
            t.wf(),
            t@ == self.entry_map(),
            t.entries() == self.entry_list(),
            t.key_order() == self.entry_order(),
    {
        &self.entries
    }

    /// The secrets table, for writing it out.
    pub fn secrets_table(&self) -> (t: &KeyedTable<Secret>)
        requires
            self.wf(),
        ensures
            t.wf(),
            t@ == self.secret_map(),
            t.key_order() == self.secret_order(),
    {
        &self.secrets
    }

    /// Replace the session entries with those read back from storage.
    pub fn restore_entries(&mut self, pairs: Vec<(String, VaultEntry)>)
        requires
            old(self).wf(),
        ensures
            final(self).wf(),
            final(self).entry_map() == pairs_map(pairs@),
            final(self).secret_map() == old(self).secret_map(),
            final(self).secret_order() == old(self).secret_order(),
            final(self).same_keys(old(self)),
    {
        self.entries = KeyedTable::from_pairs(pairs);
    }

    /// Replace the secrets with those read back from storage.
    pub fn restore_secrets(&mut self, pairs: Vec<(String, Secret)>)
        requires
            old(self).wf(),
        ensures
            final(self).wf(),
            final(self).secret_map() == pairs_map(pairs@),
            final(self).entry_map() == old(self).entry_map(),
            final(self).entry_order() == old(self).entry_order(),
            final(self).same_keys(old(self)),
    {
        self.secrets = KeyedTable::from_pairs(pairs);
    }

    /// The Kyber key pair to unlock the vault with.  The passphrase it is
    /// sealed under is the environment passphrase where one is set, else
    /// `passphrase`.  A stored pair is opened with the key of that passphrase
    /// and its salt, once it is known to equal `passphrase`; without a stored
    /// pair a new one is made and its secret key sealed under the key of that
    /// passphrase and a fresh 16-byte salt.
    pub fn prepare_keypair(passphrase: &str, env_passphrase: Option<&str>, stored: Option<PqcKeyPair>) -> (r: VaultResult<PqcKeyMaterial>)
        ensures
            keypair_outcome(passphrase@, env_passphrase, stored, r),
    {
        let passphrase_env: &str = match env_passphrase {
            Some(p) => p,
            None => passphrase,
        };
        match stored {
            Some(keypair) => {
                let pass_owned = passphrase.to_owned();
                let env_owned = passphrase_env.to_owned();
                if env_owned != pass_owned {
                    return Err(VaultError::InvalidCredentials);
                }
                let key = derive_key_from_passphrase(passphrase_env, keypair.salt.as_slice());
                let decrypted_sk = match decrypt(keypair.encrypted_secret_key.as_slice(), key.as_slice()) {
                    Ok(sk) => sk,
                    Err(m) => {
                        let msg = concat_str("Failed to decrypt PQC secret key: ", m.as_str());
                        assert("Failed to decrypt PQC secret key: "@ =~= msg@.subrange(
                            0,
                            "Failed to decrypt PQC secret key: "@.len() as int,
                        ));
                        return Err(VaultError::PqcError(msg));
                    },
                };
                Ok(PqcKeyMaterial { public_key: keypair.public_key, secret_key: decrypted_sk, new_keypair: None })
            },
            None => {
                let (public_key, secret_key) = generate_kyber_keypair();
                let salt = generate_nonce(16);
                let key = derive_key_from_passphrase(passphrase_env, salt.as_slice());
                let encrypted_secret_key = match encrypt(secret_key.as_slice(), key.as_slice()) {
                    Ok(c) => c,
                    Err(m) => {
                        let msg = concat_str("Failed to encrypt PQC secret key: ", m.as_str());
                        proof {
                            lemma_prefix_extend(
                                "Failed to encrypt PQC secret key: "@,
                                "Random generation failed: "@,
                                m@,
                            );
                        }
                        return Err(VaultError::PqcError(msg));
                    },
                };
                let keypair = PqcKeyPair {
                    public_key: copy_bytes(public_key.as_slice()),
                    encrypted_secret_key,
                    salt,
                };
                Ok(PqcKeyMaterial { public_key, secret_key, new_keypair: Some(keypair) })
            },
        }
    }

    /// Take the Kyber key pair into use.
    pub fn install_keypair(&mut self, public_key: Vec<u8>, secret_key: Vec<u8>)
        requires
            old(self).wf(),
        ensures
            keypair_installed(*old(self), *final(self), public_key@, secret_key@),
    {
        self.pq_public_key = Some(public_key);
        self.pq_secret_key = Some(secret_key);
    }

    /// Wrap a master key for the loaded Kyber public key: encapsulate a
    /// shared secret to it and seal the master key under that secret.
    pub fn encrypt_master_key_with_pqc(&self, master_key: &[u8]) -> (r: VaultResult<PqcEncryptedMasterKey>)
        ensures
            r matches Ok(e) ==> self.public_key() matches Some(pk) && wraps(e, pk, master_key@),
            r matches Err(x) ==> wrap_error(self.public_key(), master_key@.len(), x),
            wrap_fails(self.public_key(), master_key@.len()) ==> r is Err,
    {
        let public_key = match &self.pq_public_key {
            Some(pk) => pk,
            None => return Err(VaultError::PqcError("PQC public key not initialized".to_owned())),
        };
        let (ciphertext, shared_secret) = match kyber_encapsulate(public_key.as_slice()) {
            Ok(pair) => pair,
            Err(m) => return Err(VaultError::PqcError(concat_str("Kyber encapsulation failed: ", m.as_str()))),
        };
        let ghost ct = ciphertext@;
        let r = seal_master_key(public_key.as_slice(), ciphertext, shared_secret.as_slice(), master_key);
        proof {
            if r is Ok {
                let e = r->Ok_0;
                assert(kyber512_encapsulates(public_key@, e.encrypted_secret_key@, shared_secret@));
            }
        }
        r
    }

    /// Unwrap a stored master key with the loaded Kyber secret key.
    pub fn decrypt_master_key_with_pqc(&self, enc: &PqcEncryptedMasterKey) -> (r: VaultResult<Vec<u8>>)
        ensures
            self.secret_key() is None ==> (r matches Err(VaultError::PqcError(m)) && m@
                == "PQC secret key not initialized"@),
            self.secret_key() matches Some(sk) ==> {
                &&& r is Ok <==> master_unwrap(sk, *enc) is Some
                &&& r matches Ok(k) ==> master_unwrap(sk, *enc) == Some(k@)
            },
            r is Err ==> (r matches Err(VaultError::PqcError(_))),
    {
        let secret_key = match &self.pq_secret_key {
            Some(sk) => sk,
            None => return Err(VaultError::PqcError("PQC secret key not initialized".to_owned())),
        };
        let shared_secret = match kyber_decapsulate(enc.encrypted_secret_key.as_slice(), secret_key.as_slice()) {
            Ok(ss) => ss,
            Err(m) => return Err(VaultError::PqcError(concat_str("Kyber decapsulation failed: ", m.as_str()))),
        };
        match decrypt(enc.encrypted_master_key.as_slice(), shared_secret.as_slice()) {
            Ok(k) => Ok(k),
            Err(m) => Err(VaultError::PqcError(concat_str("AES decryption failed: ", m.as_str()))),
        }
    }

    /// A fresh random 32-byte master key with its identifier.
    pub fn generate_master_key() -> (r: VaultResult<MasterKey>)
        ensures
            r matches Ok(m) ==> m.key@.len() == 32 && master_record(m, m.key@),
            r matches Err(x) ==> (x matches VaultError::Encryption(m)
                && "random generation failed: "@.is_prefix_of(m@)),
    {
        let key = match random_bytes(32) {
            Ok(k) => k,
            Err(m) => return Err(VaultError::Encryption(concat_str("random generation failed: ", m.as_str()))),
        };
        let hash = compute_hash(key.as_slice());
        let key_id = base64_encode(&hash.as_slice()[0..8]);
        Ok(MasterKey { key, created_at: current_timestamp(), key_id })
    }

    /// The master key to unlock the vault with: unwrapped from its stored
    /// wrapped form; or else the stored plain one, wrapped for storage (and
    /// its plain file to be removed); or else a fresh one, wrapped for
    /// storage.
    pub fn prepare_master_key(&self, stored_encrypted: Option<PqcEncryptedMasterKey>, stored_plain: Option<MasterKey>) -> (r: VaultResult<MasterKeyPlan>)
        ensures
            master_plan_outcome(self.public_key(), self.secret_key(), stored_encrypted, stored_plain, r),
    {
        match stored_encrypted {
            Some(enc) => {
                let key_bytes = match self.decrypt_master_key_with_pqc(&enc) {
                    Ok(k) => k,
                    Err(e) => return Err(e),
                };
                let hash = compute_hash(key_bytes.as_slice());
                let key_id = base64_encode(&hash.as_slice()[0..8]);
                let master_key = MasterKey { key: key_bytes, created_at: current_timestamp(), key_id };
                Ok(MasterKeyPlan { master_key, encrypted: None, remove_plain: false })
            },
            None => match stored_plain {
                Some(master_key) => {
                    let enc = match self.encrypt_master_key_with_pqc(master_key.key.as_slice()) {
                        Ok(e) => e,
                        Err(e) => return Err(e),
                    };
                    Ok(MasterKeyPlan { master_key, encrypted: Some(enc), remove_plain: true })
                },
                None => {
                    let master_key = match Self::generate_master_key() {
                        Ok(m) => m,
                        Err(e) => return Err(e),
                    };
                    let enc = match self.encrypt_master_key_with_pqc(master_key.key.as_slice()) {
                        Ok(e) => e,
                        Err(e) => return Err(e),
                    };
                    Ok(MasterKeyPlan { master_key, encrypted: Some(enc), remove_plain: false })
                },
            },
        }
    }

    /// Take the master key into use; the vault is then initialized.
    pub fn install_master_key(&mut self, master_key: MasterKey)
        requires
            old(self).wf(),
            old(self).public_key() is Some,
            old(self).secret_key() is Some,
        ensures
            master_installed(*old(self), *final(self), master_key),
    {
        self.master_key = Some(master_key);
    }

    /// Check if the vault is initialized.
    pub fn is_initialized(&self) -> (r: bool)
        ensures
            r == self.is_init(),
    {
        self.master_key.is_some()
    }
    /// Seal data under the master key with a fresh random nonce: the nonce
    /// followed by the sealed bytes.
    pub fn encrypt_data(&self, plaintext: &[u8]) -> (r: VaultResult<Vec<u8>>)
        ensures
            r matches Ok(f) ==> self.is_init() && self.master_bytes().len() == 32 && aead_sealed(
                self.master_bytes(),
                f@,
                plaintext@,
            ),
            r matches Err(x) ==> seal_error(*self, plaintext@.len(), x),
            seal_fails(*self, plaintext@.len()) ==> r is Err,
    {
        let mk = match &self.master_key {
            Some(m) => m,
            None => return Err(VaultError::NotInitialized),
        };
        if mk.key.len() != 32 {
            return Err(VaultError::Encryption("Invalid master key length".to_owned()));
        }
        let nonce = match random_bytes(AEAD_NONCE_LEN) {
            Ok(n) => n,
            Err(m) => return Err(VaultError::Encryption(concat_str("random generation failed: ", m.as_str()))),
        };
        let ciphertext = match aes256gcm_encrypt(mk.key.as_slice(), nonce.as_slice(), plaintext) {
            Ok(c) => c,
            Err(m) => return Err(VaultError::Encryption(m)),
        };
        let mut result = copy_bytes(nonce.as_slice());
        append_bytes(&mut result, ciphertext.as_slice());
        assert(result@.subrange(0, AEAD_NONCE_LEN as int) =~= nonce@);
        assert(result@.subrange(AEAD_NONCE_LEN as int, result@.len() as int) =~= ciphertext@);
        Ok(result)
    }

    /// Open data sealed under the master key.
    pub fn decrypt_data(&self, ciphertext: &[u8]) -> (r: VaultResult<Vec<u8>>)
        ensures
            ciphertext@.len() < AEAD_NONCE_LEN ==> (r matches Err(VaultError::Decryption(m)) && m@
                == "Ciphertext too short"@),
            ciphertext@.len() >= AEAD_NONCE_LEN && !self.is_init() ==> (r matches Err(
                VaultError::NotInitialized,
            )),
            ciphertext@.len() >= AEAD_NONCE_LEN && self.is_init() && self.master_bytes().len() != 32
                ==> (r matches Err(VaultError::Decryption(m)) && m@ == "Invalid master key length"@),
            ciphertext@.len() >= AEAD_NONCE_LEN && self.is_init() && self.master_bytes().len() == 32
                ==> match aead_unframe(self.master_bytes(), ciphertext@) {
                Some(p) => r matches Ok(v) && v@ == p,
                None => r matches Err(VaultError::Decryption(m)) && m@ == "Decryption failed"@,
            },
    {
        let len = ciphertext.len();
        if len < AEAD_NONCE_LEN {
            return Err(VaultError::Decryption("Ciphertext too short".to_owned()));
        }
        let mk = match &self.master_key {
            Some(m) => m,
            None => return Err(VaultError::NotInitialized),
        };
        if mk.key.len() != 32 {
            return Err(VaultError::Decryption("Invalid master key length".to_owned()));
        }
        match aes256gcm_decrypt(mk.key.as_slice(), &ciphertext[0..AEAD_NONCE_LEN], &ciphertext[AEAD_NONCE_LEN..len]) {
            Ok(p) => Ok(p),
            Err(_) => Err(VaultError::Decryption("Decryption failed".to_owned())),
        }
    }

    /// Seal key material under the master key.
    pub fn encrypt_key(&self, key: &[u8]) -> (r: VaultResult<Vec<u8>>)
        ensures
            r matches Ok(f) ==> self.is_init() && self.master_bytes().len() == 32 && aead_sealed(
                self.master_bytes(),
                f@,
                key@,
            ),
            r matches Err(x) ==> seal_error(*self, key@.len(), x),
            seal_fails(*self, key@.len()) ==> r is Err,
    {
        self.encrypt_data(key)
    }

    /// Open key material sealed under the master key.
    pub fn decrypt_key(&self, encrypted: &[u8]) -> (r: VaultResult<Vec<u8>>)
        ensures
            encrypted@.len() < AEAD_NONCE_LEN ==> (r matches Err(VaultError::Decryption(m)) && m@
                == "Ciphertext too short"@),
            encrypted@.len() >= AEAD_NONCE_LEN && !self.is_init() ==> (r matches Err(
                VaultError::NotInitialized,
            )),
            encrypted@.len() >= AEAD_NONCE_LEN && self.is_init() && self.master_bytes().len() != 32
                ==> (r matches Err(VaultError::Decryption(m)) && m@ == "Invalid master key length"@),
            encrypted@.len() >= AEAD_NONCE_LEN && self.is_init() && self.master_bytes().len() == 32
                ==> match aead_unframe(self.master_bytes(), encrypted@) {
                Some(p) => r matches Ok(v) && v@ == p,
                None => r matches Err(VaultError::Decryption(m)) && m@ == "Decryption failed"@,
            },
    {
        self.decrypt_data(encrypted)
    }

    /// Store a session key, sealed under the master key, with the
    /// fingerprint of its plaintext.  The caller writes the entries out
    /// afterwards.
    pub fn store_session_key(&mut self, session_id: &str, key_data: &[u8]) -> (r: VaultResult<()>)
        requires
            old(self).wf(),
        ensures
            store_session_outcome(*old(self), *final(self), session_id@, key_data@, r),
    {
        let now = current_timestamp();
        self.store_session_key_at(session_id, key_data, now)
    }

    /// Store a session key as `store_session_key` does, created at time
    /// `now`.
    pub fn store_session_key_at(&mut self, session_id: &str, key_data: &[u8], now: i64) -> (r: VaultResult<()>)
        requires
            old(self).wf(),
        ensures
            store_session_outcome(*old(self), *final(self), session_id@, key_data@, r),
            r is Ok ==> final(self).entry_map()[session_id@].created_at == now,
    {
        if !self.is_initialized() {
            return Err(VaultError::NotInitialized);
        }
        let hash = compute_hash(key_data);
        let fingerprint = base64_encode(&hash.as_slice()[0..16]);
        let encrypted_key = match self.encrypt_key(key_data) {
            Ok(c) => c,
            Err(e) => return Err(e),
        };
        let entry = VaultEntry {
            session_id: session_id.to_owned(),
            encrypted_key,
            key_fingerprint: fingerprint,
            created_at: now,
            last_used: 0,
            rotation_count: 0,
            tpm_protected: self.use_tpm,
        };
        let ghost stored = entry;
        assert(hash@.subrange(0, 16) =~= fingerprint_hash(key_data@).subrange(0, 16));
        assert(session_entry(stored, session_id@, key_data@, self.master_bytes(), self.tpm()));
        self.entries.insert(session_id.to_owned(), entry);
        assert(self.entry_map() == old(self).entry_map().insert(session_id@, stored));
        Ok(())
    }

    /// Get a session key: its plaintext when present and it opens under the
    /// master key (recording the time of use), `None` when absent.
    pub fn get_session_key(&mut self, session_id: &str) -> (r: VaultResult<Option<Vec<u8>>>)
        requires
            old(self).wf(),
        ensures
            get_session_outcome(*old(self), *final(self), session_id@, r),
    {
        let now = current_timestamp();
        self.get_session_key_at(session_id, now)
    }

    /// Get a session key as `get_session_key` does, recording `now` as the
    /// time of use.
    pub fn get_session_key_at(&mut self, session_id: &str, now: i64) -> (r: VaultResult<Option<Vec<u8>>>)
        requires
            old(self).wf(),
        ensures
            get_session_outcome(*old(self), *final(self), session_id@, r),
            r matches Ok(Some(_)) ==> final(self).entry_map()[session_id@].last_used == now,
    {
        if !self.is_initialized() {
            return Err(VaultError::NotInitialized);
        }
        let idx = match self.entries.find(session_id) {
            Some(i) => i,
            None => return Ok(None),
        };
        proof {
            crate::table::lemma_position_unique(self.entries.entries(), idx as int);
        }
        let entry = &self.entries.entry_at(idx).1;
        let key_data = match self.decrypt_key(entry.encrypted_key.as_slice()) {
            Ok(k) => k,
            Err(e) => return Err(e),
        };
        let mut updated = entry.duplicate();
        updated.last_used = now;
        self.entries.insert(session_id.to_owned(), updated);
        proof {
            assert(self.entries@.dom() =~= old(self).entries@.dom());
        }
        Ok(Some(key_data))
    }

    /// Get a vault entry without decrypting its key.
    pub fn get_entry(&self, session_id: &str) -> (r: VaultResult<Option<VaultEntry>>)
        requires
            self.wf(),
        ensures
            !self.is_init() ==> (r matches Err(VaultError::NotInitialized)),
            self.is_init() ==> (r matches Ok(o) && match o {
                Some(e) => self.entry_map().dom().contains(session_id@) && e@ == self.entry_map()[session_id@]@,
                None => !self.entry_map().dom().contains(session_id@),
            }),
    {
        if !self.is_initialized() {
            return Err(VaultError::NotInitialized);
        }
        match self.entries.get(session_id) {
            Some(e) => Ok(Some(e.duplicate())),
            None => Ok(None),
        }
    }

    /// Rotate a session key: count the rotation, record the time, and seal a
    /// new (all-zero, 32-byte) key under the master key, fingerprinted by
    /// its sealed bytes.  Returns the session id when the session exists.
    /// The caller writes the entries out afterwards.
    pub fn rotate_session_key(&mut self, session_id: &str) -> (r: VaultResult<Option<String>>)
        requires
            old(self).wf(),
            old(self).is_init() && old(self).entry_map().dom().contains(session_id@) ==> old(
                self,
            ).entry_map()[session_id@].rotation_count < u32::MAX,
        ensures
            rotate_session_outcome(*old(self), *final(self), session_id@, r),
    {
        let now = current_timestamp();
        self.rotate_session_key_at(session_id, now)
    }

    /// Rotate a session key as `rotate_session_key` does, recording `now` as
    /// the time of use.
    pub fn rotate_session_key_at(&mut self, session_id: &str, now: i64) -> (r: VaultResult<Option<String>>)
        requires
            old(self).wf(),
            old(self).is_init() && old(self).entry_map().dom().contains(session_id@) ==> old(
                self,
            ).entry_map()[session_id@].rotation_count < u32::MAX,
        ensures
            rotate_session_outcome(*old(self), *final(self), session_id@, r),
            old(self).is_init() && old(self).entry_map().dom().contains(session_id@)
                ==> final(self).entry_map()[session_id@].last_used == now,
    {
        if !self.is_initialized() {
            return Err(VaultError::NotInitialized);
        }
        let idx = match self.entries.find(session_id) {
            Some(i) => i,
            None => return Ok(None),
        };
        proof {
            crate::table::lemma_position_unique(self.entries.entries(), idx as int);
        }
        let mut entry = self.entries.entry_at(idx).1.duplicate();
        entry.rotation_count = entry.rotation_count + 1;
        entry.last_used = now;
        let new_key: Vec<u8> = vec![0u8; 32];
        match self.encrypt_key(new_key.as_slice()) {
            Ok(c) => {
                let hash = compute_hash(c.as_slice());
                entry.key_fingerprint = base64_encode(&hash.as_slice()[0..16]);
                assert(hash@.subrange(0, 16) =~= fingerprint_hash(c@).subrange(0, 16));
                assert(new_key@ =~= Seq::new(32, |i: int| 0u8));
                entry.encrypted_key = c;
                self.entries.insert(session_id.to_owned(), entry);
                assert(self.entries@.dom() =~= old(self).entries@.dom());
                Ok(Some(session_id.to_owned()))
            },
            Err(e) => {
                self.entries.insert(session_id.to_owned(), entry);
                assert(self.entries@.dom() =~= old(self).entries@.dom());
                Err(e)
            },
        }
    }

    /// List all sessions as (session id, fingerprint, creation time), in the
    /// order they were first stored.
    pub fn list_sessions(&self) -> (r: Vec<(String, String, i64)>)
        requires
            self.wf(),
        ensures
            session_listing(*self, r@),
    {
        let mut out: Vec<(String, String, i64)> = Vec::new();
        let n = self.entries.len();
        let mut i: usize = 0;
        while i < n
            invariant
                n == self.entries.entries().len(),
                self.entry_list() == self.entries.entries(),
                i <= n,
                out@.len() == i,
                forall|j: int|
                    0 <= j < i ==> {
                        let e = #[trigger] self.entries.entries()[j].1;
                        &&& out@[j].0@ == e.session_id@
                        &&& out@[j].1@ == e.key_fingerprint@
                        &&& out@[j].2 == e.created_at
                    },
            decreases n - i,
        {
            let e = &self.entries.entry_at(i).1;
            out.push((e.session_id.clone(), e.key_fingerprint.clone(), e.created_at));
            i = i + 1;
        }
        proof {
            let es = self.entries.entries();
            assert forall|j: int| 0 <= j < out@.len() implies self.entry_order()[j] == es[j].0@
                && self.entry_map()[self.entry_order()[j]] == es[j].1 by {
                lemma_position_unique(es, j);
            }
            if self.ids_match() {
                assert forall|j: int| 0 <= j < out@.len() implies out@[j].0@ == self.entry_order()[j] by {
                    lemma_position_unique(es, j);
                    assert(self.entry_map().dom().contains(es[j].0@));
                }
            }
        }
        out
    }

    /// Store a secret, sealed under the master key.  The caller writes the
    /// secrets out afterwards.
    pub fn store_secret(&mut self, key: &str, value: &str) -> (r: VaultResult<()>)
        requires
            old(self).wf(),
        ensures
            store_secret_outcome(*old(self), *final(self), key@, value.spec_bytes(), r),
    {
        let now = current_timestamp();
        self.store_secret_at(key, value, now)
    }

    /// Store a secret as `store_secret` does, created at time `now`.
    pub fn store_secret_at(&mut self, key: &str, value: &str, now: i64) -> (r: VaultResult<()>)
        requires
            old(self).wf(),
        ensures
            store_secret_outcome(*old(self), *final(self), key@, value.spec_bytes(), r),
            r is Ok ==> final(self).secret_map()[key@].created_at == now,
    {
        if !self.is_initialized() {
            return Err(VaultError::NotInitialized);
        }
        let value_bytes = str_bytes(value);
        let encrypted = match self.encrypt_data(value_bytes.as_slice()) {
            Ok(c) => c,
            Err(e) => return Err(e),
        };
        let elen = encrypted.len();
        let nonce = copy_bytes(&encrypted[0..AEAD_NONCE_LEN]);
        let encrypted_value = copy_bytes(&encrypted[AEAD_NONCE_LEN..elen]);
        let secret = Secret {
            key: key.to_owned(),
            encrypted_value,
            nonce,
            created_at: now,
            metadata: Vec::new(),
        };
        let ghost stored = secret;
        assert(stored.nonce@ + stored.encrypted_value@ =~= encrypted@);
        assert(sealed_pqc_secret(stored, key@, value.spec_bytes(), self.master_bytes()));
        self.secrets.insert(key.to_owned(), secret);
        assert(self.secret_map() == old(self).secret_map().insert(key@, stored));
        Ok(())
    }

    /// Retrieve a secret.
    pub fn retrieve_secret(&self, key: &str) -> (r: VaultResult<String>)
        requires
            self.wf(),
        ensures
            retrieve_secret_outcome(*self, key@, r),
    {
        if !self.is_initialized() {
            return Err(VaultError::NotInitialized);
        }
        let secret = match self.secrets.get(key) {
            Some(s) => s,
            None => return Err(VaultError::SecretNotFound(key.to_owned())),
        };
        let mut full = copy_bytes(secret.nonce.as_slice());
        append_bytes(&mut full, secret.encrypted_value.as_slice());
        let decrypted = match self.decrypt_data(full.as_slice()) {
            Ok(d) => d,
            Err(e) => return Err(e),
        };
        match string_from_utf8(decrypted) {
            Ok(s) => Ok(s),
            Err(m) => Err(VaultError::Other(concat_str("UTF-8 error: ", m.as_str()))),
        }
    }

    /// List all secret keys, in the order they were first stored.
    pub fn list_secrets(&self) -> (r: Vec<String>)
        requires
            self.wf(),
        ensures
            r@.map_values(|s: String| s@) == self.secret_order(),
    {
        self.secrets.keys()
    }

    /// Delete a secret.  The caller writes the secrets out afterwards.
    pub fn delete_secret(&mut self, key: &str) -> (r: VaultResult<()>)
        requires
            old(self).wf(),
        ensures
            delete_secret_outcome(*old(self), *final(self), key@, r),
    {
        if !self.is_initialized() {
            return Err(VaultError::NotInitialized);
        }
        match self.secrets.remove(key) {
            Some(_) => {
                let ghost i = choose|i: int|
                    0 <= i < old(self).secrets.key_order().len() && #[trigger] old(self).secrets.key_order()[i]
                        == key@ && self.secrets.key_order() == old(self).secrets.key_order().remove(i);
                assert(old(self).secret_order()[i] == key@);
                Ok(())
            },
            None => Err(VaultError::SecretNotFound(key.to_owned())),
        }
    }

    /// Wipe all vault data held in memory: entries, secrets, master key and
    /// Kyber keys.  The caller removes the files.
    pub fn wipe(&mut self) -> (r: VaultResult<()>)
        requires
            old(self).wf(),
        ensures
            wipe_outcome(*old(self), *final(self), r),
    {
        self.entries.clear();
        self.secrets.clear();
        self.master_key = None;
        self.pq_public_key = None;
        self.pq_secret_key = None;
        Ok(())
    }
}



// ---------------------------------------------------------------------------
// Laws
// ---------------------------------------------------------------------------

/// A secret stored in an initialized vault reads back as the stored value.
pub proof fn law_store_secret_then_retrieve(
    before: PqcVault,
    after: PqcVault,
    key: Seq<char>,
    value: Seq<char>,
    stored: VaultResult<()>,
    read: VaultResult<String>,
)
    requires
        before.wf(),
        store_secret_outcome(before, after, key, encode_utf8(value), stored),
        stored is Ok,
        retrieve_secret_outcome(after, key, read),
    ensures
        read matches Ok(t) && t@ == value,
{
    let mk = before.master_bytes();
    let bytes = encode_utf8(value);
    let s = choose|s: Secret|
        #[trigger] sealed_pqc_secret(s, key, bytes, mk) && after.secret_map() == before.secret_map().insert(
            key,
            s,
        );
    assert(after.secret_map()[key] == s);
    crate::simple::lemma_text_bytes_roundtrip(value);
}

/// A session key stored in an initialized vault is what getting it gives
/// back.
pub proof fn law_store_then_get_session_key(
    before: PqcVault,
    middle: PqcVault,
    after: PqcVault,
    session_id: Seq<char>,
    key_data: Seq<u8>,
    stored: VaultResult<()>,
    got: VaultResult<Option<Vec<u8>>>,
)
    requires
        before.wf(),
        store_session_outcome(before, middle, session_id, key_data, stored),
        stored is Ok,
        get_session_outcome(middle, after, session_id, got),
    ensures
        got matches Ok(Some(k)) && k@ == key_data,
{
    let mk = before.master_bytes();
    let e = choose|e: VaultEntry|
        #[trigger] session_entry(e, session_id, key_data, mk, before.tpm()) && middle.entry_map()
            == before.entry_map().insert(session_id, e);
    assert(middle.entry_map()[session_id] == e);
}

/// Unwrapping, with the secret key of a Kyber key pair, a master key wrapped
/// for its public key gives the master key back, wherever decapsulation
/// with that secret key recovers what encapsulation shared (Kyber's
/// correctness).
pub proof fn law_wrap_then_unwrap(e: PqcEncryptedMasterKey, pk: Seq<u8>, sk: Seq<u8>, master_key: Seq<u8>)
    requires
        wraps(e, pk, master_key),
        kyber_pair(pk, sk),
        decapsulation_recovers(sk),
    ensures
        master_unwrap(sk, e) == Some(master_key),
{
    let ss = choose|ss: Seq<u8>|
        #[trigger] kyber512_encapsulates(pk, e.encrypted_secret_key@, ss) && ss.len() == 32
            && sealed_master(e, pk, e.encrypted_secret_key@, ss, master_key);
    assert(kyber512_decaps(e.encrypted_secret_key@, sk) == ss);
}

/// A secret stored in one vault reads back in a second vault that holds the
/// same secrets and whose master key was unwrapped, with the secret key of
/// the Kyber key pair, from the record the first vault's master key was
/// wrapped into for its public key (given Kyber's correctness for that
/// secret key).
pub proof fn law_reopened_vault_reads_back(
    first_before: PqcVault,
    first: PqcVault,
    second: PqcVault,
    key: Seq<char>,
    value: Seq<char>,
    stored: VaultResult<()>,
    e: PqcEncryptedMasterKey,
    pk: Seq<u8>,
    sk: Seq<u8>,
    read: VaultResult<String>,
)
    requires
        first_before.wf(),
        store_secret_outcome(first_before, first, key, encode_utf8(value), stored),
        stored is Ok,
        wraps(e, pk, first_before.master_bytes()),
        kyber_pair(pk, sk),
        decapsulation_recovers(sk),
        second.wf(),
        second.is_init(),
        master_unwrap(sk, e) == Some(second.master_bytes()),
        second.secret_map() == first.secret_map(),
        retrieve_secret_outcome(second, key, read),
    ensures
        read matches Ok(t) && t@ == value,
{
    law_wrap_then_unwrap(e, pk, sk, first_before.master_bytes());
    let mk = first_before.master_bytes();
    let bytes = encode_utf8(value);
    let s = choose|s: Secret|
        #[trigger] sealed_pqc_secret(s, key, bytes, mk) && first.secret_map() == first_before.secret_map().insert(
            key,
            s,
        );
    assert(second.secret_map()[key] == s);
    crate::simple::lemma_text_bytes_roundtrip(value);
}

/// A key pair made for a passphrase is, once stored, unlocked again by the
/// same passphrase, giving the same keys, whether the environment sets no
/// passphrase or that same one.
pub proof fn law_keypair_reload(
    passphrase: Seq<char>,
    env: Option<&str>,
    made: VaultResult<PqcKeyMaterial>,
    kp: PqcKeyPair,
    reloaded: VaultResult<PqcKeyMaterial>,
)
    requires
        effective_passphrase(passphrase, env) == passphrase,
        keypair_outcome(passphrase, env, None, made),
        made matches Ok(m) && m.new_keypair == Some(kp),
        keypair_outcome(passphrase, env, Some(kp), reloaded),
    ensures
        made matches Ok(m1) && (reloaded matches Ok(m2) && m2.public_key@ == m1.public_key@
            && m2.secret_key@ == m1.secret_key@),
{
}

/// A newly made key pair's secret key is sealed (AES-256-GCM, nonce first)
/// under SHA-256 of the UTF-8 bytes of the passphrase in use (the
/// environment's where set, else the one given) followed by the pair's salt.
pub proof fn law_new_keypair_sealed_under_passphrase_hash(
    passphrase: Seq<char>,
    env_passphrase: Option<&str>,
    made: VaultResult<PqcKeyMaterial>,
)
    requires
        keypair_outcome(passphrase, env_passphrase, None, made),
    ensures
        made matches Ok(m) ==> (m.new_keypair matches Some(kp) && aead_unframe(
            sha256_digest(
                encode_utf8(
                    match env_passphrase {
                        Some(e) => e@,
                        None => passphrase,
                    },
                ) + kp.salt@,
            ),
            kp.encrypted_secret_key@,
        ) == Some(m.secret_key@) && kp.public_key@ == m.public_key@),
{
}

/// A stored key pair is unlocked by the passphrase it was sealed under: when
/// no other environment passphrase is set, its sealed secret key is opened
/// with SHA-256 of the UTF-8 bytes of the passphrase followed by the pair's
/// salt, giving that secret key and the stored public key; when it does
/// not open, unlocking fails.
pub proof fn law_stored_keypair_opened_with_passphrase_hash(
    passphrase: Seq<char>,
    env_passphrase: Option<&str>,
    kp: PqcKeyPair,
    r: VaultResult<PqcKeyMaterial>,
)
    requires
        env_passphrase is None || env_passphrase->0@ == passphrase,
        keypair_outcome(passphrase, env_passphrase, Some(kp), r),
    ensures
        match aead_unframe(sha256_digest(encode_utf8(passphrase) + kp.salt@), kp.encrypted_secret_key@) {
            Some(sk) => r matches Ok(m) && m.secret_key@ == sk && m.public_key@ == kp.public_key@
                && m.new_keypair is None,
            None => r is Err,
        },
{
}

/// A stored key pair is not unlocked when the environment passphrase differs
/// from the one asked with.
pub proof fn law_wrong_passphrase_refused(
    passphrase: Seq<char>,
    env: &str,
    kp: PqcKeyPair,
    r: VaultResult<PqcKeyMaterial>,
)
    requires
        env@ != passphrase,
        keypair_outcome(passphrase, Some(env), Some(kp), r),
    ensures
        r matches Err(VaultError::InvalidCredentials),
{
}

proof fn lemma_hash_lane_prefix(data: Seq<u8>, lane: int, n: nat)
    requires
        4 * n <= data.len(),
    ensures
        hash_lane(data, lane, n) == hash_lane(data.subrange(0, 4 * (data.len() as int / 4)), lane, n),
    decreases n,
{
    let t = data.subrange(0, 4 * (data.len() as int / 4));
    if n > 0 {
        lemma_hash_lane_prefix(data, lane, (n - 1) as nat);
        let k = n - 1;
        assert(t[4 * k] == data[4 * k]);
        assert(t[4 * k + 1] == data[4 * k + 1]);
        assert(t[4 * k + 2] == data[4 * k + 2]);
        assert(t[4 * k + 3] == data[4 * k + 3]);
        assert(be_word(t, k) == be_word(data, k));
    }
}

/// The fingerprint hash does not depend on bytes past the last whole
/// 4-byte word.
pub proof fn law_fingerprint_ignores_partial_word(data: Seq<u8>)
    ensures
        fingerprint_hash(data) == fingerprint_hash(data.subrange(0, 4 * (data.len() as int / 4))),
{
    let t = data.subrange(0, 4 * (data.len() as int / 4));
    assert(t.len() / 4 == data.len() / 4);
    assert forall|lane: int| 0 <= lane < 4 implies #[trigger] hash_lane(data, lane, data.len() / 4) == hash_lane(t, lane, t.len() / 4) by {
        lemma_hash_lane_prefix(data, lane, data.len() / 4);
    }
    assert(fingerprint_hash(data) =~= fingerprint_hash(t));
}

/// After a wipe no secret or session is left, a store is refused as not
/// initialized and leaves the vault locked, so a read after it is refused
/// too.
pub proof fn law_pqc_wipe_locks(
    before: PqcVault,
    after: PqcVault,
    later: PqcVault,
    wiped: VaultResult<()>,
    key: Seq<char>,
    value: Seq<u8>,
    stored: VaultResult<()>,
    read: VaultResult<String>,
)
    requires
        before.wf(),
        wipe_outcome(before, after, wiped),
        store_secret_outcome(after, later, key, value, stored),
        retrieve_secret_outcome(later, key, read),
    ensures
        stored matches Err(VaultError::NotInitialized),
        read matches Err(VaultError::NotInitialized),
        after.secret_order().len() == 0,
        after.entry_order().len() == 0,
        !later.is_init(),
{
}

/// In an initialized vault a stored secret can be deleted, after which it is
/// no longer found.
pub proof fn law_store_then_delete_secret(
    before: PqcVault,
    middle: PqcVault,
    after: PqcVault,
    key: Seq<char>,
    value: Seq<u8>,
    stored: VaultResult<()>,
    deleted: VaultResult<()>,
    read: VaultResult<String>,
)
    requires
        before.wf(),
        store_secret_outcome(before, middle, key, value, stored),
        stored is Ok,
        delete_secret_outcome(middle, after, key, deleted),
        retrieve_secret_outcome(after, key, read),
    ensures
        deleted is Ok,
        read matches Err(VaultError::SecretNotFound(m)) && m@ == key,
{
    let s = choose|s: Secret|
        #[trigger] sealed_pqc_secret(s, key, value, before.master_bytes()) && middle.secret_map()
            == before.secret_map().insert(key, s);
    assert(middle.secret_map().dom().contains(key));
}

/// A deleted secret is no longer found.
pub proof fn law_delete_secret_then_retrieve(
    before: PqcVault,
    after: PqcVault,
    key: Seq<char>,
    deleted: VaultResult<()>,
    read: VaultResult<String>,
)
    requires
        before.wf(),
        before.is_init(),
        delete_secret_outcome(before, after, key, deleted),
        retrieve_secret_outcome(after, key, read),
    ensures
        read matches Err(VaultError::SecretNotFound(m)) && m@ == key,
{
}

/// Whether the vault is initialized is changed by no store, read, delete or
/// rotation, whether it succeeds or not: only installing a master key or
/// wiping changes it.
pub proof fn law_operations_keep_initialization(
    before: PqcVault,
    a: PqcVault,
    b: PqcVault,
    c: PqcVault,
    d: PqcVault,
    e: PqcVault,
    key: Seq<char>,
    value: Seq<u8>,
    r_store: VaultResult<()>,
    r_delete: VaultResult<()>,
    r_session: VaultResult<()>,
    r_get: VaultResult<Option<Vec<u8>>>,
    r_rotate: VaultResult<Option<String>>,
)
    requires
        before.wf(),
        store_secret_outcome(before, a, key, value, r_store),
        delete_secret_outcome(before, b, key, r_delete),
        store_session_outcome(before, c, key, value, r_session),
        get_session_outcome(before, d, key, r_get),
        rotate_session_outcome(before, e, key, r_rotate),
    ensures
        a.is_init() == before.is_init(),
        b.is_init() == before.is_init(),
        c.is_init() == before.is_init(),
        d.is_init() == before.is_init(),
        e.is_init() == before.is_init(),
        a.master() == before.master(),
        e.master() == before.master(),
{
}

/// Unlocking an uninitialized vault in its four steps (prepare the Kyber
/// key pair, take it into use, prepare the master key, take it into use),
/// leaving out every step after a failed one: the vault ends up initialized
/// exactly when both preparations succeed, with the planned master key; a
/// newly made key pair taken into use is a Kyber key pair.
pub proof fn law_initialize_steps(
    v0: PqcVault,
    v1: PqcVault,
    v2: PqcVault,
    passphrase: Seq<char>,
    env_passphrase: Option<&str>,
    stored_keypair: Option<PqcKeyPair>,
    keys: VaultResult<PqcKeyMaterial>,
    stored_encrypted: Option<PqcEncryptedMasterKey>,
    stored_plain: Option<MasterKey>,
    plan: VaultResult<MasterKeyPlan>,
)
    requires
        v0.wf(),
        !v0.is_init(),
        keypair_outcome(passphrase, env_passphrase, stored_keypair, keys),
        keys matches Ok(m) ==> keypair_installed(v0, v1, m.public_key@, m.secret_key@)
            && master_plan_outcome(v1.public_key(), v1.secret_key(), stored_encrypted, stored_plain, plan),
        keys is Err ==> v1 == v0,
        keys is Ok && plan is Ok ==> master_installed(v1, v2, plan->Ok_0.master_key),
        !(keys is Ok && plan is Ok) ==> v2 == v1,
    ensures
        v2.is_init() <==> (keys is Ok && plan is Ok),
        keys is Ok && plan is Ok ==> v2.master() == Some(plan->Ok_0.master_key),
        stored_keypair is None ==> (keys matches Ok(m) ==> v2.public_key() == Some(m.public_key@)
            && v2.secret_key() == Some(m.secret_key@) && kyber_pair(m.public_key@, m.secret_key@)),
{
}

/// The vault holds `key_data` as the session key of `session_id`: it is
/// initialized with a 32-byte master key, and the entry of `session_id`
/// seals `key_data` under it.
pub open spec fn holds_session_key(v: PqcVault, session_id: Seq<char>, key_data: Seq<u8>) -> bool {
    &&& v.is_init()
    &&& v.master_bytes().len() == 32
    &&& v.entry_map().dom().contains(session_id)
    &&& aead_sealed(v.master_bytes(), v.entry_map()[session_id].encrypted_key@, key_data)
}

/// A session key that was stored is held.
pub proof fn law_stored_session_key_held(
    before: PqcVault,
    after: PqcVault,
    session_id: Seq<char>,
    key_data: Seq<u8>,
    stored: VaultResult<()>,
)
    requires
        before.wf(),
        store_session_outcome(before, after, session_id, key_data, stored),
        stored is Ok,
    ensures
        holds_session_key(after, session_id, key_data),
{
    let e = choose|e: VaultEntry|
        #[trigger] session_entry(e, session_id, key_data, before.master_bytes(), before.tpm())
            && after.entry_map() == before.entry_map().insert(session_id, e);
    assert(after.entry_map()[session_id] == e);
}

/// Getting a held session key gives it back, and it stays held.
pub proof fn law_held_session_key_reads_back(
    before: PqcVault,
    after: PqcVault,
    session_id: Seq<char>,
    key_data: Seq<u8>,
    got: VaultResult<Option<Vec<u8>>>,
)
    requires
        before.wf(),
        holds_session_key(before, session_id, key_data),
        get_session_outcome(before, after, session_id, got),
    ensures
        got matches Ok(Some(k)) && k@ == key_data,
        holds_session_key(after, session_id, key_data),
{
}

/// A held session key stays held through storing or deleting secrets.
pub proof fn law_session_key_kept_by_secrets(
    before: PqcVault,
    stored_v: PqcVault,
    deleted_v: PqcVault,
    session_id: Seq<char>,
    key_data: Seq<u8>,
    key: Seq<char>,
    value: Seq<u8>,
    stored: VaultResult<()>,
    deleted: VaultResult<()>,
)
    requires
        before.wf(),
        holds_session_key(before, session_id, key_data),
        store_secret_outcome(before, stored_v, key, value, stored),
        delete_secret_outcome(before, deleted_v, key, deleted),
    ensures
        holds_session_key(stored_v, session_id, key_data),
        holds_session_key(deleted_v, session_id, key_data),
{
}

/// A held session key stays held through reading any session key, and
/// through storing or rotating the key of another session.
pub proof fn law_session_key_kept_by_sessions(
    before: PqcVault,
    got_v: PqcVault,
    stored_v: PqcVault,
    rotated_v: PqcVault,
    session_id: Seq<char>,
    key_data: Seq<u8>,
    read_id: Seq<char>,
    other_id: Seq<char>,
    other_data: Seq<u8>,
    got: VaultResult<Option<Vec<u8>>>,
    stored: VaultResult<()>,
    rotated: VaultResult<Option<String>>,
)
    requires
        before.wf(),
        holds_session_key(before, session_id, key_data),
        other_id != session_id,
        get_session_outcome(before, got_v, read_id, got),
        store_session_outcome(before, stored_v, other_id, other_data, stored),
        rotate_session_outcome(before, rotated_v, other_id, rotated),
    ensures
        holds_session_key(got_v, session_id, key_data),
        holds_session_key(stored_v, session_id, key_data),
        holds_session_key(rotated_v, session_id, key_data),
{
    if stored is Ok {
        let e = choose|e: VaultEntry|
            #[trigger] session_entry(e, other_id, other_data, before.master_bytes(), before.tpm())
                && stored_v.entry_map() == before.entry_map().insert(other_id, e);
        assert(stored_v.entry_map()[session_id] == before.entry_map()[session_id]);
    }
}

/// Storing, reading or rotating a session key keeps every session entry
/// filed under its own session id.
pub proof fn law_session_ids_kept(
    before: PqcVault,
    stored_v: PqcVault,
    got_v: PqcVault,
    rotated_v: PqcVault,
    session_id: Seq<char>,
    key_data: Seq<u8>,
    stored: VaultResult<()>,
    got: VaultResult<Option<Vec<u8>>>,
    rotated: VaultResult<Option<String>>,
)
    requires
        before.wf(),
        before.ids_match(),
        store_session_outcome(before, stored_v, session_id, key_data, stored),
        get_session_outcome(before, got_v, session_id, got),
        rotate_session_outcome(before, rotated_v, session_id, rotated),
    ensures
        stored_v.ids_match(),
        got_v.ids_match(),
        rotated_v.ids_match(),
{
    if stored is Ok {
        let e = choose|e: VaultEntry|
            #[trigger] session_entry(e, session_id, key_data, before.master_bytes(), before.tpm())
                && stored_v.entry_map() == before.entry_map().insert(session_id, e);
        assert(stored_v.entry_map()[session_id] == e);
    }
    assert forall|k: Seq<char>| #[trigger] got_v.entry_map().dom().contains(k) implies got_v.entry_map()[k].session_id@ == k by {
        assert(before.entry_map().dom().contains(k));
    }
    assert forall|k: Seq<char>| #[trigger] rotated_v.entry_map().dom().contains(k) implies rotated_v.entry_map()[k].session_id@ == k by {
        assert(before.entry_map().dom().contains(k));
    }
}

/// Where every entry is filed under its own session id, the listing names
/// each stored session once, with the fingerprint and creation time of its
/// entry.
pub proof fn law_session_listing_distinct(v: PqcVault, r: Seq<(String, String, i64)>)
    requires
        v.wf(),
        v.ids_match(),
        session_listing(v, r),
    ensures
        forall|i: int, j: int|
            0 <= i < r.len() && 0 <= j < r.len() && i != j ==> #[trigger] r[i].0@ != #[trigger] r[j].0@,
        forall|i: int|
            #![trigger r[i]]
            0 <= i < r.len() ==> v.entry_map().dom().contains(r[i].0@) && v.entry_map()[r[i].0@].key_fingerprint@
                == r[i].1@ && v.entry_map()[r[i].0@].created_at == r[i].2,
        forall|k: Seq<char>|
            #[trigger] v.entry_map().dom().contains(k) ==> exists|i: int| 0 <= i < r.len() && #[trigger] r[i].0@ == k,
{
    v.lemma_orders();
    assert forall|i: int| #![trigger r[i]] 0 <= i < r.len() implies v.entry_map().dom().contains(r[i].0@) by {
        assert(v.entry_order().contains(v.entry_order()[i]));
    }
    assert forall|k: Seq<char>| #[trigger] v.entry_map().dom().contains(k) implies exists|i: int| 0 <= i < r.len() && #[trigger] r[i].0@ == k by {
        let i = choose|i: int| 0 <= i < v.entry_order().len() && v.entry_order()[i] == k;
        assert(r[i].0@ == k);
    }
}

/// Once a session key has expired it stays expired; one without an expiry
/// never expires.
pub proof fn law_expiry_monotone(expires_at: Option<i64>, t1: i64, t2: i64)
    requires
        t1 <= t2,
    ensures
        expired_at(expires_at, t1) ==> expired_at(expires_at, t2),
        expires_at is None ==> !expired_at(expires_at, t2),
{
}

} // verus!
