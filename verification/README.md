# sovereign_kernel

The core of a key vault, verified with Verus.

- `src/keys.rs`: secret containers, random keys, AES-256-GCM with the nonce
  prepended to the ciphertext, constant-time comparison.
- `src/mac.rs`: HMAC-SHA256 and SHA-256.
- `src/state_validator.rs`: checks data against a hashed baseline, and HMACs.
- `src/rate_limiter.rs`: the unlock-attempt limiter over its store of failed
  attempts and lockout, with its laws.
- `src/audit.rs`: the audit events and the HMAC chain of the audit log, with
  its laws.
- `src/tpm.rs`: the sealed vault state, its integrity tag, sealing and PCR
  validation.
- `src/key_hex.rs`: hex-encoded keys.
- `src/database.rs`, `src/error.rs`, `src/bytes.rs`: keys, errors and byte
  encodings.

`app/` is the `vault-db-tool` program and the storage around the library:
SQLite tables for the audit log, the rate limiter and the TPM state, JSON
serialization, the clock and the environment.
