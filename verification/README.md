# prusia_vault

A secure vault with two backends, written in Verus.

- `src/simple.rs` — the password-based backend: a master key derived from
  the password with SHA-256, secrets sealed with a keystream of the master
  key and a clock nonce, each frame carrying a SHA-256 checksum.
- `src/pqc.rs` — the post-quantum backend: a Kyber-512 key pair whose secret
  key is sealed under a passphrase key, a master key wrapped with a Kyber
  shared secret and AES-256-GCM, secrets and session keys sealed under the
  master key, and key fingerprints.
- `src/table.rs` — the insertion-ordered, duplicate-free table that both
  backends keep their records in.
- `src/lib.rs` — configuration and the `Vault` type over both backends.
- `src/primitives.rs` — the calls into `sha2`, `aes-gcm`, `getrandom`,
  `pqcrypto-kyber`, `base64`, `dirs` and the standard library, with the
  contracts the rest of the library relies on.

The library holds the vault in memory and makes and checks the bytes that
stand for it on disk.  `app/` reads and writes the files, encodes the
records as JSON, reads the passphrase from the environment, and offers the
C interface.
