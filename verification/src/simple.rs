//! Simple password-based vault backend.
//!
//! Secrets are sealed with a keystream made of the master key and a
//! clock-derived nonce, and carry a SHA-256 checksum of the plaintext and
//! the key.  The vault holds its secrets in memory; the bytes that stand for
//! them on disk are made and checked here, and written and read by the
//! caller.

use crate::bytes::{append_bytes, bytes_equal, copy_bytes, str_bytes, zero_bytes};
use crate::error::{VaultError, VaultResult};
use crate::primitives::{
    clock_nanos, current_timestamp, local_data_dir, path_from, path_join, sha256,
    sha256_digest, string_from_utf8,
};
use crate::table::KeyedTable;
use crate::VaultConfig;
use vstd::prelude::*;
use vstd::string::StringSliceAdditionalSpecFns;
use vstd::utf8::{decode_utf8, encode_utf8, valid_utf8, encode_utf8_valid_utf8, encode_utf8_decode_utf8};

verus! {

/// Length of the nonce at the front of a sealed frame.
pub const NONCE_LEN: usize = 16;

/// Length of the checksum at the end of a sealed frame.
pub const CHECKSUM_LEN: usize = 32;

/// Multiplier that spreads the clock over the nonce bytes.
pub const NONCE_MIX: u64 = 0x517cc1b727220a95;

/// A stored secret.
#[derive(Debug, Clone)]
pub struct Secret {
    /// The secret's key.
    pub key: String,
    /// The plaintext value.
    pub value: Vec<u8>,
    /// The sealed value, without nonce and checksum.
    pub encrypted_value: Vec<u8>,
    /// The nonce it was sealed with.
    pub nonce: Vec<u8>,
    /// Unix time of creation.
    pub created_at: i64,
    /// Unix time of the last update.
    pub updated_at: i64,
    /// Additional metadata.
    pub metadata: Vec<(String, String)>,
}

impl Secret {
    /// A secret created now.
    pub fn new(key: String, value: Vec<u8>, encrypted: Vec<u8>, nonce: Vec<u8>) -> (s: Secret)
        ensures
            s.key == key,
            s.value == value,
            s.encrypted_value == encrypted,
            s.nonce == nonce,
            s.created_at == s.updated_at,
            s.metadata@.len() == 0,
    {
        let now = current_timestamp();
        Secret::new_at(key, value, encrypted, nonce, now)
    }

    /// A secret created at time `now`.
    pub fn new_at(key: String, value: Vec<u8>, encrypted: Vec<u8>, nonce: Vec<u8>, now: i64) -> (s: Secret)
        ensures
            s.key == key,
            s.value == value,
            s.encrypted_value == encrypted,
            s.nonce == nonce,
            s.created_at == now,
            s.updated_at == now,
            s.metadata@.len() == 0,
    {
        Secret {
            key,
            value,
            encrypted_value: encrypted,
            nonce,
            created_at: now,
            updated_at: now,
            metadata: Vec::new(),
        }
    }
}

// ---------------------------------------------------------------------------
// The sealed frame: nonce, keystream-encrypted data, checksum
// ---------------------------------------------------------------------------

/// `data` combined byte by byte with the repeating key and the repeating nonce.
pub open spec fn xor_stream(data: Seq<u8>, key: Seq<u8>, nonce: Seq<u8>) -> Seq<u8> {
    Seq::new(data.len(), |i: int| data[i] ^ key[i % (key.len() as int)] ^ nonce[i % (nonce.len() as int)])
}

/// The checksum of `data` under `key`: SHA-256 of the data followed by the key.
pub open spec fn checksum_of(data: Seq<u8>, key: Seq<u8>) -> Seq<u8> {
    sha256_digest(data + key)
}

/// The sealed frame of `data`: nonce, encrypted data, checksum.
pub open spec fn seal_frame(key: Seq<u8>, nonce: Seq<u8>, data: Seq<u8>) -> Seq<u8> {
    nonce + xor_stream(data, key, nonce) + checksum_of(data, key)
}

/// The plaintext a frame of at least 48 bytes decrypts to.
pub open spec fn frame_plain(key: Seq<u8>, frame: Seq<u8>) -> Seq<u8> {
    xor_stream(
        frame.subrange(NONCE_LEN as int, frame.len() - CHECKSUM_LEN),
        key,
        frame.subrange(0, NONCE_LEN as int),
    )
}

/// Whether the checksum at the end of a frame matches its plaintext.
pub open spec fn frame_checks(key: Seq<u8>, frame: Seq<u8>) -> bool {
    checksum_of(frame_plain(key, frame), key) == frame.subrange(
        frame.len() - CHECKSUM_LEN,
        frame.len() as int,
    )
}

/// A frame long enough to hold a nonce and a checksum.
pub open spec fn frame_long_enough(frame: Seq<u8>) -> bool {
    frame.len() >= NONCE_LEN + CHECKSUM_LEN
}

/// What decrypting `frame` under `key` gives: the plaintext when the frame
/// is long enough and its checksum matches.
pub open spec fn unseal(key: Seq<u8>, frame: Seq<u8>) -> Option<Seq<u8>> {
    if frame_long_enough(frame) && frame_checks(key, frame) {
        Some(frame_plain(key, frame))
    } else {
        None
    }
}

/// Sum of the bytes.
pub open spec fn byte_sum(s: Seq<u8>) -> nat
    decreases s.len(),
{
    if s.len() == 0 {
        0
    } else {
        byte_sum(s.drop_last()) + s.last() as nat
    }
}

/// The byte that the key folds into every nonce byte.
pub open spec fn key_fold(key: Seq<u8>) -> u8 {
    (byte_sum(key) % 256) as u8
}

/// The clock mix for position `i`.
pub open spec fn clock_mix(now: u64, i: int) -> u64 {
    vstd::wrapping::u64_specs::wrapping_mul(
        now,
        vstd::wrapping::u64_specs::wrapping_mul(
            vstd::wrapping::u64_specs::wrapping_add(i as u64, 1),
            NONCE_MIX,
        ),
    )
}

/// The nonce of `len` bytes that clock reading `now` gives under `key`.
pub open spec fn clock_nonce(now: u64, len: nat, key: Seq<u8>) -> Seq<u8> {
    Seq::new(
        len,
        |i: int|
            vstd::wrapping::u8_specs::wrapping_add(clock_mix(now, i) as u8, i as u8) ^ key_fold(key),
    )
}

/// The key derived from a password: SHA-256 of the password and two fixed
/// salts.
pub open spec fn password_key(password: Seq<char>) -> Seq<u8> {
    sha256_digest(
        encode_utf8(password) + encode_utf8("prusia-vault-v1-salt"@) + encode_utf8(
            "zero-trust-prusia"@,
        ),
    )
}

/// `s` is the secret that storing `value` under `key` with `master_key`
/// makes: it keeps the plaintext, a 16-byte clock nonce and the encrypted
/// value.
pub open spec fn sealed_secret(s: Secret, key: Seq<char>, value: Seq<u8>, master_key: Seq<u8>) -> bool {
    &&& s.key@ == key
    &&& s.value@ == value
    &&& s.nonce@.len() == NONCE_LEN
    &&& exists|t: u64| s.nonce@ == clock_nonce(t, NONCE_LEN as nat, master_key)
    &&& s.encrypted_value@ == xor_stream(value, master_key, s.nonce@)
    &&& s.created_at == s.updated_at
    &&& s.metadata@.len() == 0
    &&& checksum_of(value, master_key).len() == CHECKSUM_LEN
}

/// The frame that reading back secret `s` decrypts: its nonce, its
/// encrypted value and the checksum of its stored plaintext.
pub open spec fn secret_frame(s: Secret, master_key: Seq<u8>) -> Seq<u8> {
    s.nonce@ + s.encrypted_value@ + checksum_of(s.value@, master_key)
}

/// Combining twice with the same key and nonce gives the data back.
pub proof fn lemma_xor_stream_involution(data: Seq<u8>, key: Seq<u8>, nonce: Seq<u8>)
    requires
        key.len() > 0,
        nonce.len() > 0,
    ensures
        xor_stream(xor_stream(data, key, nonce), key, nonce) == data,
{
    let once = xor_stream(data, key, nonce);
    let twice = xor_stream(once, key, nonce);
    assert forall|i: int| 0 <= i < data.len() implies #[trigger] twice[i] == data[i] by {
        let b = data[i];
        let k = key[i % (key.len() as int)];
        let n = nonce[i % (nonce.len() as int)];
        assert(((b ^ k ^ n) ^ k ^ n) == b) by (bit_vector);
    }
    assert(twice =~= data);
}

/// A sealed frame opens to the data it sealed.
pub proof fn lemma_seal_unseal(key: Seq<u8>, nonce: Seq<u8>, data: Seq<u8>)
    requires
        key.len() > 0,
        nonce.len() == NONCE_LEN,
        sha256_digest(data + key).len() == CHECKSUM_LEN,
    ensures
        frame_long_enough(seal_frame(key, nonce, data)),
        frame_plain(key, seal_frame(key, nonce, data)) == data,
        frame_checks(key, seal_frame(key, nonce, data)),
        unseal(key, seal_frame(key, nonce, data)) == Some(data),
{
    let f = seal_frame(key, nonce, data);
    let n = f.len();
    assert(f.subrange(0, NONCE_LEN as int) =~= nonce);
    assert(f.subrange(NONCE_LEN as int, n - CHECKSUM_LEN) =~= xor_stream(data, key, nonce));
    assert(f.subrange(n - CHECKSUM_LEN, n as int) =~= checksum_of(data, key));
    lemma_xor_stream_involution(data, key, nonce);
}

/// What an initialized vault seals (the frame `encrypt_vault` gives, for
/// whichever clock reading made its nonce) opens again to the data under
/// the same vault.
pub proof fn law_simple_seal_then_open(v: SimpleVault, data: Seq<u8>, t: u64, frame: Seq<u8>)
    requires
        v.wf(),
        v.is_init(),
        frame == seal_frame(v.key_bytes(), clock_nonce(t, NONCE_LEN as nat, v.key_bytes()), data),
        checksum_of(data, v.key_bytes()).len() == CHECKSUM_LEN,
    ensures
        frame_long_enough(frame),
        frame_checks(v.key_bytes(), frame),
        frame_plain(v.key_bytes(), frame) == data,
{
    v.lemma_key_length();
    lemma_seal_unseal(v.key_bytes(), clock_nonce(t, NONCE_LEN as nat, v.key_bytes()), data);
}

/// What an initialized vault seals is laid out as the nonce, then each data
/// byte combined (exclusive or) with the master key byte at its position
/// modulo 32 and the nonce byte at its position modulo 16, then SHA-256 of
/// the data followed by the master key.
pub proof fn law_simple_sealed_layout(v: SimpleVault, data: Seq<u8>, nonce: Seq<u8>, frame: Seq<u8>)
    requires
        v.wf(),
        v.is_init(),
        nonce.len() == 16,
        sha256_digest(data + v.key_bytes()).len() == 32,
        frame == seal_frame(v.key_bytes(), nonce, data),
    ensures
        frame.len() == 16 + data.len() + 32,
        frame.subrange(0, 16) == nonce,
        forall|i: int|
            0 <= i < data.len() ==> #[trigger] frame[16 + i] == data[i] ^ v.key_bytes()[i % 32] ^ nonce[i
                % 16],
        frame.subrange(16 + data.len() as int, frame.len() as int) == sha256_digest(data + v.key_bytes()),
{
    v.lemma_key_length();
    let key = v.key_bytes();
    let x = xor_stream(data, key, nonce);
    assert(frame.subrange(0, 16) =~= nonce);
    assert forall|i: int| 0 <= i < data.len() implies #[trigger] frame[16 + i] == data[i] ^ key[i % 32] ^ nonce[i
        % 16] by {
        assert(frame[16 + i] == x[i]);
    }
    assert(frame.subrange(16 + data.len() as int, frame.len() as int) =~= sha256_digest(data + key));
}

/// Opening a frame under an initialized vault gives back each byte after the
/// nonce, up to the checksum, combined (exclusive or) with the master key
/// byte at its position modulo 32 and the nonce byte at its position modulo
/// 16; it is accepted exactly when SHA-256 of that plaintext followed by the
/// master key is the frame's last 32 bytes.
pub proof fn law_simple_opened_bytes(v: SimpleVault, frame: Seq<u8>)
    requires
        v.wf(),
        v.is_init(),
        frame.len() >= 16 + 32,
    ensures
        frame_plain(v.key_bytes(), frame).len() == frame.len() - 48,
        forall|i: int|
            0 <= i < frame.len() - 48 ==> #[trigger] frame_plain(v.key_bytes(), frame)[i] == frame[16 + i]
                ^ v.key_bytes()[i % 32] ^ frame[i % 16],
        frame_checks(v.key_bytes(), frame) <==> sha256_digest(frame_plain(v.key_bytes(), frame)
            + v.key_bytes()) == frame.subrange(frame.len() - 32, frame.len() as int),
{
    v.lemma_key_length();
}

/// The UTF-8 bytes of a text decode back to the text.
pub proof fn lemma_text_bytes_roundtrip(text: Seq<char>)
    ensures
        valid_utf8(encode_utf8(text)),
        decode_utf8(encode_utf8(text)) == text,
{
    encode_utf8_valid_utf8(text);
    encode_utf8_decode_utf8(text);
}

// ---------------------------------------------------------------------------
// Nonces and API keys from the clock
// ---------------------------------------------------------------------------

fn key_byte_sum(key: &[u8]) -> (r: u32)
    requires
        key@.len() <= 0x100_0000,
    ensures
        r == byte_sum(key@),
{
    let n = key.len();
    let mut sum: u32 = 0;
    let mut i: usize = 0;
    while i < n
        invariant
            n == key@.len(),
            n <= 0x100_0000,
            i <= n,
            sum == byte_sum(key@.subrange(0, i as int)),
            sum <= 255 * i,
        decreases n - i,
    {
        assert(key@.subrange(0, i + 1).drop_last() =~= key@.subrange(0, i as int));
        sum = sum + key[i] as u32;
        i = i + 1;
    }
    assert(key@.subrange(0, n as int) =~= key@);
    sum
}

/// The nonce of `len` bytes that clock reading `now` gives under `key`.
pub fn nonce_from_clock(key: &[u8], now: u64, len: usize) -> (r: Vec<u8>)
    requires
        key@.len() <= 0x100_0000,
    ensures
        r@ == clock_nonce(now, len as nat, key@),
{
    let key_byte: u8 = (key_byte_sum(key) % 256) as u8;
    let mut nonce: Vec<u8> = Vec::new();
    let mut i: usize = 0;
    while i < len
        invariant
            i <= len,
            key_byte == key_fold(key@),
            nonce@ =~= clock_nonce(now, i as nat, key@),
        decreases len - i,
    {
        let mix = now.wrapping_mul((i as u64).wrapping_add(1).wrapping_mul(NONCE_MIX));
        nonce.push((mix as u8).wrapping_add(i as u8) ^ key_byte);
        i = i + 1;
    }
    nonce
}

/// The character of the API key alphabet at `idx`
/// (`a`-`z`, `A`-`Z`, `0`-`9`, `-`, `_`).
pub open spec fn alphabet_byte(idx: int) -> u8 {
    if idx < 26 {
        (97 + idx) as u8
    } else if idx < 52 {
        (65 + idx - 26) as u8
    } else if idx < 62 {
        (48 + idx - 52) as u8
    } else if idx == 62 {
        45u8
    } else {
        95u8
    }
}

/// The alphabet index that clock reading `now` picks for position `i`.
pub open spec fn key_index(now: u64, i: int) -> int {
    (((clock_mix(now, i) ^ (clock_mix(now, i) >> 17u64)) as usize) % 64) as int
}

/// The bytes of the API key of `len` characters that clock reading `now`
/// gives.
pub open spec fn clock_key_bytes(now: u64, len: nat) -> Seq<u8> {
    Seq::new(len, |i: int| alphabet_byte(key_index(now, i)))
}

/// The API key of `len` characters that clock reading `now` gives.
pub open spec fn clock_key(now: u64, len: nat) -> Seq<char> {
    clock_key_bytes(now, len).map_values(|b: u8| b as char)
}

fn alphabet_at(idx: usize) -> (b: u8)
    requires
        idx < 64,
    ensures
        b == alphabet_byte(idx as int),
        b < 128,
{
    if idx < 26 {
        97 + idx as u8
    } else if idx < 52 {
        65 + (idx - 26) as u8
    } else if idx < 62 {
        48 + (idx - 52) as u8
    } else if idx == 62 {
        45
    } else {
        95
    }
}

/// ASCII bytes are valid UTF-8 and decode to the characters of the same codes.
proof fn lemma_ascii_bytes(bytes: Seq<u8>)
    requires
        forall|i: int| 0 <= i < bytes.len() ==> bytes[i] < 128,
    ensures
        valid_utf8(bytes),
        decode_utf8(bytes) == bytes.map_values(|b: u8| b as char),
{
    let chars = bytes.map_values(|b: u8| b as char);
    assert(vstd::utf8::is_ascii_chars(chars));
    vstd::utf8::is_ascii_chars_encode_utf8(chars);
    assert(encode_utf8(chars) =~= bytes);
    lemma_text_bytes_roundtrip(chars);
}

/// The API key of `len` characters that clock reading `now` gives.
pub fn key_from_clock(now: u64, len: usize) -> (r: String)
    ensures
        r@ == clock_key(now, len as nat),
        r@.len() == len,
{
    let mut bytes: Vec<u8> = Vec::new();
    let mut i: usize = 0;
    while i < len
        invariant
            i <= len,
            bytes@ =~= clock_key_bytes(now, i as nat),
            forall|j: int| 0 <= j < i ==> bytes@[j] < 128,
        decreases len - i,
    {
        let mix = now.wrapping_mul((i as u64).wrapping_add(1).wrapping_mul(NONCE_MIX));
        let idx = ((mix ^ (mix >> 17u64)) as usize) % 64;
        bytes.push(alphabet_at(idx));
        i = i + 1;
    }
    proof {
        lemma_ascii_bytes(bytes@);
    }
    match string_from_utf8(bytes) {
        Ok(s) => s,
        Err(_) => {
            proof {
                assert(false);
            }
            String::new()
        },
    }
}


/// The clock reading that keys and nonces are made from: nanoseconds since
/// the Unix epoch, truncated to 64 bits.  A clock set before the epoch reads
/// as zero.
fn clock_reading() -> u64 {
    match clock_nanos() {
        Some(t) => t,
        None => 0,
    }
}

/// A weak API key of `len` characters from the alphabet, made from the
/// clock.
pub fn generate_secure_key(len: usize) -> (r: String)
    ensures
        exists|t: u64| r@ == clock_key(t, len as nat),
        r@.len() == len,
{
    let now = clock_reading();
    key_from_clock(now, len)
}

// ---------------------------------------------------------------------------
// The vault
// ---------------------------------------------------------------------------

/// Simple password-based vault.
pub struct SimpleVault {
    secrets: KeyedTable<Secret>,
    master_key: Vec<u8>,
    data_dir: std::path::PathBuf,
    initialized: bool,
}

impl SimpleVault {
    /// The vault's invariant: the secrets table has no repeated key, and the
    /// master key is a 32-byte key exactly when the vault is initialized
    /// (and empty otherwise).
    pub closed spec fn wf(&self) -> bool {
        &&& self.secrets.wf()
        &&& self.initialized ==> self.master_key@.len() == 32
        &&& !self.initialized ==> self.master_key@.len() == 0
    }

    /// Whether the vault is initialized.
    pub closed spec fn is_init(&self) -> bool {
        self.initialized
    }

    /// An initialized vault's master key is 32 bytes; an uninitialized
    /// vault holds none.
    pub proof fn lemma_key_length(&self)
        requires
            self.wf(),
        ensures
            self.is_init() ==> self.key_bytes().len() == 32,
            !self.is_init() ==> self.key_bytes().len() == 0,
    {
    }

    /// The stored secrets by key.
    pub closed spec fn secret_map(&self) -> Map<Seq<char>, Secret> {
        self.secrets@
    }

    /// The keys of the stored secrets, in the order they were first stored.
    pub closed spec fn secret_order(&self) -> Seq<Seq<char>> {
        self.secrets.key_order()
    }

    /// The entries of the secrets table, in order.
    pub closed spec fn secret_entries(&self) -> Seq<(String, Secret)> {
        self.secrets.entries()
    }

    /// The master key (empty when not initialized).
    pub closed spec fn key_bytes(&self) -> Seq<u8> {
        self.master_key@
    }

    /// The directory the vault file lives in.
    pub closed spec fn dir(&self) -> std::path::PathBuf {
        self.data_dir
    }

    /// Create a new simple vault with default configuration.
    pub fn new() -> (v: Self)
        ensures
            v.wf(),
            !v.is_init(),
            v.secret_map() == Map::<Seq<char>, Secret>::empty(),
            v.secret_order() == Seq::<Seq<char>>::empty(),
    {
        Self::with_config(VaultConfig::default())
    }

    /// Create a new simple vault with custom configuration.  Without a
    /// configured directory it lives under the platform's local data
    /// directory (or the current one), in `prusia-vault/simple`.
    pub fn with_config(config: VaultConfig) -> (v: Self)
        ensures
            v.wf(),
            !v.is_init(),
            v.secret_map() == Map::<Seq<char>, Secret>::empty(),
            v.secret_order() == Seq::<Seq<char>>::empty(),
            config.data_dir matches Some(d) ==> v.dir() == d,
    {
        let data_dir = match config.data_dir {
            Some(d) => d,
            None => {
                let base = match local_data_dir() {
                    Some(b) => b,
                    None => path_from("."),
                };
                path_join(&path_join(&base, "prusia-vault"), "simple")
            },
        };
        let t = KeyedTable::new();
        SimpleVault { secrets: t, master_key: Vec::new(), data_dir, initialized: false }
    }

    /// The directory the vault file lives in.
    pub fn data_dir(&self) -> (d: &std::path::PathBuf)
        ensures
            *d == self.dir(),
    {
        &self.data_dir
    }

    /// The secrets table, for writing the vault out.
    pub fn secrets(&self) -> (t: &KeyedTable<Secret>)
        requires
            self.wf(),
        ensures
            t.wf(),
            t@ == self.secret_map(),
            t.entries() == self.secret_entries(),
            t.key_order() == self.secret_order(),
    {
        &self.secrets
    }

    fn derive_key(password: &str) -> (k: Vec<u8>)
        ensures
            k@ == password_key(password@),
            k@.len() == 32,
    {
        let mut input = str_bytes(password);
        append_bytes(&mut input, "prusia-vault-v1-salt".as_bytes());
        append_bytes(&mut input, "zero-trust-prusia".as_bytes());
        sha256(input.as_slice())
    }

    /// Initialize the vault with a password, given the stored vault file if
    /// there is one.  The master key becomes the key derived from the
    /// password and the vault is initialized; the stored bytes, when present,
    /// non-empty and decrypting under that key, are handed back decrypted
    /// (for the caller to parse and restore), otherwise `None`.
    pub fn initialize(&mut self, password: &str, stored: Option<&[u8]>) -> (r: Option<Vec<u8>>)
        requires
            old(self).wf(),
        ensures
            final(self).wf(),
            final(self).is_init(),
            final(self).key_bytes() == password_key(password@),
            final(self).secret_map() == old(self).secret_map(),
            final(self).secret_order() == old(self).secret_order(),
            final(self).secret_entries() == old(self).secret_entries(),
            final(self).dir() == old(self).dir(),
            match stored {
                Some(data) => if data@.len() > 0 {
                    match unseal(password_key(password@), data@) {
                        Some(p) => r matches Some(v) && v@ == p,
                        None => r is None,
                    }
                } else {
                    r is None
                },
                None => r is None,
            },
    {
        self.master_key = Self::derive_key(password);
        self.initialized = true;
        match stored {
            Some(data) => {
                if data.len() > 0 {
                    match self.decrypt_vault(data) {
                        Ok(plain) => Some(plain),
                        Err(_) => None,
                    }
                } else {
                    None
                }
            },
            None => None,
        }
    }

    /// Replace the stored secrets with the given (key, secret) pairs, as read
    /// back from the vault file; a later pair wins over an earlier one with
    /// the same key.
    pub fn restore_secrets(&mut self, entries: Vec<(String, Secret)>)
        requires
            old(self).wf(),
        ensures
            final(self).wf(),
            final(self).secret_map() == crate::table::pairs_map(entries@),
            final(self).is_init() == old(self).is_init(),
            final(self).key_bytes() == old(self).key_bytes(),
            final(self).dir() == old(self).dir(),
    {
        self.secrets = KeyedTable::from_pairs(entries);
    }

    /// Check if the vault is initialized.
    pub fn is_initialized(&self) -> (r: bool)
        ensures
            r == self.is_init(),
    {
        self.initialized
    }

    fn checksum(&self, data: &[u8]) -> (r: Vec<u8>)
        ensures
            r@ == checksum_of(data@, self.key_bytes()),
            r@.len() == CHECKSUM_LEN,
    {
        let mut input = copy_bytes(data);
        append_bytes(&mut input, self.master_key.as_slice());
        sha256(input.as_slice())
    }

    fn generate_nonce(&self, len: usize) -> (r: Vec<u8>)
        requires
            self.wf(),
        ensures
            exists|t: u64| r@ == clock_nonce(t, len as nat, self.key_bytes()),
    {
        let now = clock_reading();
        let r = nonce_from_clock(self.master_key.as_slice(), now, len);
        assert(r@ == clock_nonce(now, len as nat, self.key_bytes()));
        r
    }

    fn encrypt(&self, data: &[u8]) -> (r: VaultResult<Vec<u8>>)
        requires
            self.wf(),
            self.is_init() || data@.len() == 0,
        ensures
            r matches Ok(f) && f@.len() == NONCE_LEN + data@.len() + CHECKSUM_LEN && exists|t: u64|
                f@ == seal_frame(
                    self.key_bytes(),
                    #[trigger] clock_nonce(t, NONCE_LEN as nat, self.key_bytes()),
                    data@,
                ),
            checksum_of(data@, self.key_bytes()).len() == CHECKSUM_LEN,
    {
        let nonce = self.generate_nonce(NONCE_LEN);
        let ghost t = choose|t: u64| nonce@ == clock_nonce(t, NONCE_LEN as nat, self.key_bytes());
        let key = &self.master_key;
        let klen = key.len();
        let mut result = copy_bytes(nonce.as_slice());
        let n = data.len();
        let mut i: usize = 0;
        while i < n
            invariant
                n == data@.len(),
                klen == key@.len(),
                klen > 0 || n == 0,
                nonce@.len() == NONCE_LEN,
                i <= n,
                result@ == nonce@ + xor_stream(data@.subrange(0, i as int), key@, nonce@),
            decreases n - i,
        {
            let b = data[i] ^ key[i % klen] ^ nonce[i % NONCE_LEN];
            result.push(b);
            proof {
                assert(xor_stream(data@.subrange(0, i + 1), key@, nonce@) =~= xor_stream(
                    data@.subrange(0, i as int),
                    key@,
                    nonce@,
                ).push(b));
            }
            i = i + 1;
        }
        assert(data@.subrange(0, n as int) =~= data@);
        let checksum = self.checksum(data);
        append_bytes(&mut result, checksum.as_slice());
        assert(result@ == seal_frame(self.key_bytes(), clock_nonce(t, NONCE_LEN as nat, self.key_bytes()), data@));
        Ok(result)
    }

    fn decrypt(&self, data: &[u8]) -> (r: VaultResult<Vec<u8>>)
        requires
            self.wf(),
            self.is_init() || data@.len() <= NONCE_LEN + CHECKSUM_LEN,
        ensures
            !frame_long_enough(data@) ==> (r matches Err(VaultError::Decryption(m)) && m@
                == "Invalid encrypted data"@),
            frame_long_enough(data@) && frame_checks(self.key_bytes(), data@) ==> (r matches Ok(v)
                && v@ == frame_plain(self.key_bytes(), data@)),
            frame_long_enough(data@) && !frame_checks(self.key_bytes(), data@) ==> (r matches Err(VaultError::ChecksumMismatch)),
    {
        let len = data.len();
        if len < NONCE_LEN + CHECKSUM_LEN {
            return Err(VaultError::Decryption("Invalid encrypted data".to_owned()));
        }
        let nonce = &data[0..NONCE_LEN];
        let ciphertext = &data[NONCE_LEN..len - CHECKSUM_LEN];
        let key = &self.master_key;
        let klen = key.len();
        let n = ciphertext.len();
        let mut decrypted: Vec<u8> = Vec::new();
        let mut i: usize = 0;
        while i < n
            invariant
                n == ciphertext@.len(),
                klen == key@.len(),
                klen > 0 || n == 0,
                nonce@.len() == NONCE_LEN,
                i <= n,
                decrypted@ == xor_stream(ciphertext@.subrange(0, i as int), key@, nonce@),
            decreases n - i,
        {
            let b = ciphertext[i] ^ key[i % klen] ^ nonce[i % NONCE_LEN];
            decrypted.push(b);
            proof {
                assert(xor_stream(ciphertext@.subrange(0, i + 1), key@, nonce@) =~= xor_stream(
                    ciphertext@.subrange(0, i as int),
                    key@,
                    nonce@,
                ).push(b));
            }
            i = i + 1;
        }
        assert(ciphertext@.subrange(0, n as int) =~= ciphertext@);
        let checksum_received = &data[len - CHECKSUM_LEN..len];
        let checksum = self.checksum(decrypted.as_slice());
        if !bytes_equal(checksum.as_slice(), checksum_received) {
            return Err(VaultError::ChecksumMismatch);
        }
        Ok(decrypted)
    }

    /// Seal the serialized vault contents for writing to disk.
    pub fn encrypt_vault(&self, data: &[u8]) -> (r: VaultResult<Vec<u8>>)
        requires
            self.wf(),
            self.is_init() || data@.len() == 0,
        ensures
            r matches Ok(f) && f@.len() == NONCE_LEN + data@.len() + CHECKSUM_LEN && exists|t: u64|
                f@ == seal_frame(
                    self.key_bytes(),
                    #[trigger] clock_nonce(t, NONCE_LEN as nat, self.key_bytes()),
                    data@,
                ),
            checksum_of(data@, self.key_bytes()).len() == CHECKSUM_LEN,
    {
        self.encrypt(data)
    }

    /// Open the vault file's bytes: the serialized contents when the frame is
    /// long enough and its checksum matches.
    pub fn decrypt_vault(&self, data: &[u8]) -> (r: VaultResult<Vec<u8>>)
        requires
            self.wf(),
            self.is_init() || data@.len() <= NONCE_LEN + CHECKSUM_LEN,
        ensures
            !frame_long_enough(data@) ==> (r matches Err(VaultError::Decryption(m)) && m@
                == "Invalid encrypted data"@),
            frame_long_enough(data@) && frame_checks(self.key_bytes(), data@) ==> (r matches Ok(v)
                && v@ == frame_plain(self.key_bytes(), data@)),
            frame_long_enough(data@) && !frame_checks(self.key_bytes(), data@) ==> (r matches Err(VaultError::ChecksumMismatch)),
    {
        self.decrypt(data)
    }

    /// Store a secret.  The caller writes the vault out afterwards.
    pub fn store(&mut self, key: &str, value: &str) -> (r: VaultResult<()>)
        requires
            old(self).wf(),
        ensures
            store_outcome(*old(self), *final(self), key@, value.spec_bytes(), r),
    {
        let now = current_timestamp();
        self.store_at(key, value, now)
    }

    /// Store a secret as `store` does, created and updated at time `now`.
    pub fn store_at(&mut self, key: &str, value: &str, now: i64) -> (r: VaultResult<()>)
        requires
            old(self).wf(),
        ensures
            store_outcome(*old(self), *final(self), key@, value.spec_bytes(), r),
            r is Ok ==> final(self).secret_map()[key@].created_at == now
                && final(self).secret_map()[key@].updated_at == now,
    {
        if !self.initialized {
            return Err(VaultError::NotInitialized);
        }
        let value_bytes = str_bytes(value);
        let encrypted = match self.encrypt(value_bytes.as_slice()) {
            Ok(e) => e,
            Err(e) => return Err(e),
        };
        let ghost t = choose|t: u64|
            encrypted@ == seal_frame(
                self.key_bytes(),
                #[trigger] clock_nonce(t, NONCE_LEN as nat, self.key_bytes()),
                value_bytes@,
            );
        let ghost nonce_spec = clock_nonce(t, NONCE_LEN as nat, self.key_bytes());
        let elen = encrypted.len();
        let nonce = copy_bytes(&encrypted[0..NONCE_LEN]);
        let enc_value = copy_bytes(&encrypted[NONCE_LEN..elen - CHECKSUM_LEN]);
        proof {
            assert(nonce@ =~= nonce_spec);
            assert(enc_value@ =~= xor_stream(value_bytes@, self.key_bytes(), nonce_spec));
        }
        let secret = Secret::new_at(key.to_owned(), value_bytes, enc_value, nonce, now);
        let ghost stored = secret;
        assert(sealed_secret(stored, key@, value.spec_bytes(), self.key_bytes()));
        self.secrets.insert(key.to_owned(), secret);
        assert(self.secret_map() == old(self).secret_map().insert(key@, stored));
        Ok(())
    }

    /// Retrieve a secret.
    pub fn retrieve(&self, key: &str) -> (r: VaultResult<String>)
        requires
            self.wf(),
        ensures
            retrieve_outcome(*self, key@, r),
    {
        if !self.initialized {
            return Err(VaultError::NotInitialized);
        }
        let secret = match self.secrets.get(key) {
            Some(s) => s,
            None => return Err(VaultError::SecretNotFound(key.to_owned())),
        };
        let mut full_data = copy_bytes(secret.nonce.as_slice());
        append_bytes(&mut full_data, secret.encrypted_value.as_slice());
        let checksum = self.checksum(secret.value.as_slice());
        append_bytes(&mut full_data, checksum.as_slice());
        assert(full_data@ == secret_frame(*secret, self.key_bytes()));
        let decrypted = match self.decrypt(full_data.as_slice()) {
            Ok(d) => d,
            Err(e) => return Err(e),
        };
        match string_from_utf8(decrypted) {
            Ok(s) => Ok(s),
            Err(m) => Err(VaultError::Other(crate::bytes::concat_str("UTF-8 error: ", m.as_str()))),
        }
    }

    /// List all secret keys, in the order they were first stored.
    pub fn list(&self) -> (r: Vec<String>)
        requires
            self.wf(),
        ensures
            r@.map_values(|s: String| s@) == self.secret_order(),
    {
        self.secrets.keys()
    }

    /// Delete a secret.  The caller writes the vault out afterwards.
    pub fn delete(&mut self, key: &str) -> (r: VaultResult<()>)
        requires
            old(self).wf(),
        ensures
            delete_outcome(*old(self), *final(self), key@, r),
    {
        if !self.initialized {
            return Err(VaultError::NotInitialized);
        }
        match self.secrets.remove(key) {
            Some(_) => {
                let ghost i = choose|i: int|
                    0 <= i < old(self).secrets.key_order().len() && #[trigger] old(self).secrets.key_order()[i] == key@ && self.secrets.key_order() == old(self).secrets.key_order().remove(i);
                assert(old(self).secret_order()[i] == key@);
                Ok(())
            },
            None => {
                Err(VaultError::SecretNotFound(key.to_owned()))
            },
        }
    }

    /// Generate an API key for `service` and store it as the secret
    /// `<service>_api_key`.  The caller writes the vault out afterwards.
    pub fn generate_api_key(&mut self, service: &str) -> (r: VaultResult<String>)
        requires
            old(self).wf(),
        ensures
            final(self).wf(),
            final(self).is_init() == old(self).is_init(),
            final(self).key_bytes() == old(self).key_bytes(),
            !old(self).is_init() ==> (r matches Err(VaultError::NotInitialized) && *final(self)
                == *old(self)),
            old(self).is_init() ==> (r matches Ok(k) && k@.len() == 32 && (exists|t: u64|
                k@ == clock_key(t, 32)) && exists|s: Secret|
                #[trigger] sealed_secret(s, service@ + "_api_key"@, encode_utf8(k@), old(self).key_bytes())
                    && final(self).secret_map() == old(self).secret_map().insert(
                    service@ + "_api_key"@,
                    s,
                )),
    {
        let api_key = generate_secure_key(32);
        let name = crate::bytes::concat_str(service, "_api_key");
        let ghost mk = self.key_bytes();
        match self.store(name.as_str(), api_key.as_str()) {
            Ok(()) => {
                assert(exists|t: u64| api_key@ == clock_key(t, 32));
                assert(exists|s: Secret|
                    #[trigger] sealed_secret(s, service@ + "_api_key"@, encode_utf8(api_key@), mk)
                        && self.secret_map() == old(self).secret_map().insert(service@ + "_api_key"@, s));
                Ok(api_key)
            },
            Err(e) => Err(e),
        }
    }

    /// Drop every stored secret, overwriting its plaintext and sealed bytes
    /// with zeros first.
    pub fn discard_secrets(&mut self)
        requires
            old(self).wf(),
        ensures
            final(self).wf(),
            final(self).secret_map() == Map::<Seq<char>, Secret>::empty(),
            final(self).secret_order() == Seq::<Seq<char>>::empty(),
            final(self).is_init() == old(self).is_init(),
            final(self).key_bytes() == old(self).key_bytes(),
            final(self).dir() == old(self).dir(),
    {
        let mut taken = self.secrets.take_entries();
        while taken.len() > 0
            decreases taken.len(),
        {
            let (_key, mut secret) = taken.pop().unwrap();
            zero_bytes(&mut secret.value);
            zero_bytes(&mut secret.encrypted_value);
        }
    }

    /// Wipe all vault data held in memory: the secrets and the master key.
    /// The caller removes the vault file.
    pub fn wipe(&mut self) -> (r: VaultResult<()>)
        requires
            old(self).wf(),
        ensures
            wipe_outcome(*old(self), *final(self), r),
    {
        self.discard_secrets();
        let n = self.master_key.len();
        let mut i: usize = 0;
        while i < n
            invariant
                n == self.master_key@.len(),
                i <= n,
                self.secrets.wf(),
                self.secrets@ == Map::<Seq<char>, Secret>::empty(),
                self.secrets.key_order() == Seq::<Seq<char>>::empty(),
                self.data_dir == old(self).data_dir,
            decreases n - i,
        {
            self.master_key.set(i, 0);
            i = i + 1;
        }
        self.master_key.clear();
        self.initialized = false;
        Ok(())
    }
}

impl Default for SimpleVault {
    fn default() -> (v: Self)
        ensures
            v.wf(),
            !v.is_init(),
            v.secret_map() == Map::<Seq<char>, Secret>::empty(),
            v.secret_order() == Seq::<Seq<char>>::empty(),
    {
        Self::new()
    }
}

/// What storing `value` under `key` does: an uninitialized vault refuses
/// and stays as it was; an initialized one keeps a secret sealed for the
/// value under its master key, the key keeping its place in the order or
/// going last.
pub open spec fn store_outcome(before: SimpleVault, after: SimpleVault, key: Seq<char>, value: Seq<u8>, r: VaultResult<()>) -> bool {
    &&& after.wf()
    &&& after.is_init() == before.is_init()
    &&& after.key_bytes() == before.key_bytes()
    &&& after.dir() == before.dir()
    &&& !before.is_init() ==> (r matches Err(VaultError::NotInitialized) && after == before)
    &&& before.is_init() ==> r is Ok && exists|s: Secret|
        #[trigger] sealed_secret(s, key, value, before.key_bytes()) && after.secret_map()
            == before.secret_map().insert(key, s)
    &&& before.is_init() && before.secret_map().dom().contains(key) ==> after.secret_order()
        == before.secret_order()
    &&& before.is_init() && !before.secret_map().dom().contains(key) ==> after.secret_order()
        == before.secret_order().push(key)
}

/// What reading back `key` gives.
pub open spec fn retrieve_outcome(v: SimpleVault, key: Seq<char>, r: VaultResult<String>) -> bool {
    &&& !v.is_init() ==> (r matches Err(VaultError::NotInitialized))
    &&& v.is_init() && !v.secret_map().dom().contains(key) ==> (r matches Err(
        VaultError::SecretNotFound(m),
    ) && m@ == key)
    &&& v.is_init() && v.secret_map().dom().contains(key) ==> read_back(
        v.key_bytes(),
        v.secret_map()[key],
        r,
    )
}

/// What deleting `key` does: refused (and nothing changes) when not
/// initialized or absent; otherwise the key is gone.
pub open spec fn delete_outcome(before: SimpleVault, after: SimpleVault, key: Seq<char>, r: VaultResult<()>) -> bool {
    &&& after.wf()
    &&& after.is_init() == before.is_init()
    &&& after.key_bytes() == before.key_bytes()
    &&& after.dir() == before.dir()
    &&& !before.is_init() ==> (r matches Err(VaultError::NotInitialized) && after == before)
    &&& before.is_init() && !before.secret_map().dom().contains(key) ==> (r matches Err(
        VaultError::SecretNotFound(m),
    ) && m@ == key && after == before)
    &&& before.is_init() && before.secret_map().dom().contains(key) ==> r is Ok
        && after.secret_map() == before.secret_map().remove(key) && exists|i: int|
        0 <= i < before.secret_order().len() && #[trigger] before.secret_order()[i] == key
            && after.secret_order() == before.secret_order().remove(i)
}

/// What wiping does: no secrets, no master key, not initialized.
pub open spec fn wipe_outcome(before: SimpleVault, after: SimpleVault, r: VaultResult<()>) -> bool {
    &&& after.wf()
    &&& r is Ok
    &&& !after.is_init()
    &&& after.secret_map() == Map::<Seq<char>, Secret>::empty()
    &&& after.secret_order() == Seq::<Seq<char>>::empty()
    &&& after.key_bytes() == Seq::<u8>::empty()
    &&& after.dir() == before.dir()
}

/// What reading back the stored secret `s` under `master_key` gives: its
/// frame must be long enough and check, and its plaintext must be UTF-8.
pub open spec fn read_back(master_key: Seq<u8>, s: Secret, r: VaultResult<String>) -> bool {
    let f = secret_frame(s, master_key);
    let p = frame_plain(master_key, f);
    if !frame_long_enough(f) {
        r matches Err(VaultError::Decryption(m)) && m@ == "Invalid encrypted data"@
    } else if !frame_checks(master_key, f) {
        r matches Err(VaultError::ChecksumMismatch)
    } else if !valid_utf8(p) {
        r matches Err(VaultError::Other(_))
    } else {
        r matches Ok(t) && t@ == decode_utf8(p)
    }
}

// ---------------------------------------------------------------------------
// Laws
// ---------------------------------------------------------------------------

/// A value stored under a key in an initialized vault reads back as that
/// value.
pub proof fn law_store_then_retrieve(
    before: SimpleVault,
    after: SimpleVault,
    key: Seq<char>,
    value: Seq<char>,
    stored: VaultResult<()>,
    read: VaultResult<String>,
)
    requires
        before.wf(),
        before.is_init(),
        store_outcome(before, after, key, encode_utf8(value), stored),
        retrieve_outcome(after, key, read),
    ensures
        read matches Ok(t) && t@ == value,
{
    let mk = before.key_bytes();
    let bytes = encode_utf8(value);
    let s = choose|s: Secret|
        #[trigger] sealed_secret(s, key, bytes, mk) && after.secret_map() == before.secret_map().insert(
            key,
            s,
        );
    assert(after.secret_map()[key] == s);
    assert(secret_frame(s, mk) == seal_frame(mk, s.nonce@, bytes));
    lemma_seal_unseal(mk, s.nonce@, bytes);
    lemma_text_bytes_roundtrip(value);
}

/// Storing under one key does not change what another key reads back.
pub proof fn law_store_keeps_other_keys(
    before: SimpleVault,
    after: SimpleVault,
    key: Seq<char>,
    value: Seq<u8>,
    stored: VaultResult<()>,
    other: Seq<char>,
    read_before: VaultResult<String>,
    read_after: VaultResult<String>,
)
    requires
        before.wf(),
        other != key,
        store_outcome(before, after, key, value, stored),
        retrieve_outcome(before, other, read_before),
        retrieve_outcome(after, other, read_after),
    ensures
        read_after is Ok <==> read_before is Ok,
        read_after matches Ok(a) ==> (read_before matches Ok(b) && a@ == b@),
{
    if before.is_init() {
        let s = choose|s: Secret|
            #[trigger] sealed_secret(s, key, value, before.key_bytes()) && after.secret_map()
                == before.secret_map().insert(key, s);
        assert(after.secret_map().dom().contains(other) == before.secret_map().dom().contains(other));
        if before.secret_map().dom().contains(other) {
            assert(after.secret_map()[other] == before.secret_map()[other]);
        }
    }
}

/// A deleted key is no longer found.
pub proof fn law_delete_then_retrieve(
    before: SimpleVault,
    after: SimpleVault,
    key: Seq<char>,
    deleted: VaultResult<()>,
    read: VaultResult<String>,
)
    requires
        before.wf(),
        before.is_init(),
        delete_outcome(before, after, key, deleted),
        retrieve_outcome(after, key, read),
    ensures
        read matches Err(VaultError::SecretNotFound(m)) && m@ == key,
{
}

/// After a wipe nothing is listed and every read is refused as not
/// initialized.
pub proof fn law_wipe_locks(
    before: SimpleVault,
    after: SimpleVault,
    wiped: VaultResult<()>,
    key: Seq<char>,
    read: VaultResult<String>,
)
    requires
        before.wf(),
        wipe_outcome(before, after, wiped),
        retrieve_outcome(after, key, read),
    ensures
        read matches Err(VaultError::NotInitialized),
        after.secret_order().len() == 0,
{
}

/// The keys a vault lists are exactly its stored keys, each once.
pub proof fn law_list_is_keys(v: SimpleVault)
    requires
        v.wf(),
    ensures
        v.secret_order().no_duplicates(),
        forall|k: Seq<char>| #[trigger] v.secret_map().dom().contains(k) <==> v.secret_order().contains(k),
{
    crate::table::lemma_keys_of_match_map(v.secrets.entries());
}

/// Every character of an API key made from the clock is a letter, a digit,
/// `-` or `_`.
pub proof fn law_api_key_alphabet(now: u64, len: nat)
    ensures
        forall|i: int|
            0 <= i < len ==> {
                let b = #[trigger] clock_key_bytes(now, len)[i];
                (97 <= b <= 122) || (65 <= b <= 90) || (48 <= b <= 57) || b == 45 || b == 95
            },
{
    assert forall|i: int| 0 <= i < len implies {
        let b = #[trigger] clock_key_bytes(now, len)[i];
        (97 <= b <= 122) || (65 <= b <= 90) || (48 <= b <= 57) || b == 45 || b == 95
    } by {
        let idx = key_index(now, i);
        assert(0 <= idx < 64);
    }
}

} // verus!
