use sovereign_kernel::audit::{AuditEvent, AuditLogger};
use sovereign_kernel::keys::{constant_time_eq, decrypt_aes_gcm, encrypt_aes_gcm, random_key_32};
use sovereign_kernel::rate_limiter::{RateLimitState, RateLimiter};
use sovereign_kernel::state_validator::StateValidator;

const NOW: i64 = 1_700_000_000;

#[test]
fn test_rate_limiter_integration() {
    let rl = RateLimiter::new(3, 60, 300);
    let mut store = RateLimitState::new();

    for _ in 0..3 {
        rl.check(&mut store, NOW).unwrap();
        rl.record_failure(&mut store, NOW);
    }

    assert!(rl.check(&mut store, NOW).is_err());
    rl.record_success(&mut store);
    assert!(rl.check(&mut store, NOW).is_ok());
}

#[test]
fn test_crypto_roundtrip() {
    let key = random_key_32();
    let plaintext = b"end-to-end integration test data";
    let aad = b"integration-test-context";

    let encrypted = encrypt_aes_gcm(key.expose_secret(), plaintext, aad).unwrap();
    let decrypted = decrypt_aes_gcm(key.expose_secret(), &encrypted, aad).unwrap();

    assert_eq!(decrypted.expose_secret(), plaintext);
}

#[test]
fn test_constant_time_eq_works() {
    assert!(constant_time_eq(b"hello", b"hello"));
    assert!(!constant_time_eq(b"hello", b"world"));
    assert!(!constant_time_eq(b"short", b"longer"));
}

#[test]
fn test_audit_log_integration() {
    let mut logger = AuditLogger::new([0xABu8; 32], Some(100), Some(1_073_741_824));
    let mut rows = Vec::new();

    let started = AuditEvent::ServiceStarted { version: "1.0.0".into(), build_hash: [0u8; 32] };
    assert!(logger.admit_event(Some(4096)));
    let entry = logger
        .prepare_entry(NOW, &started, r#"{"ServiceStarted":{"version":"1.0.0"}}"#.to_string(), None)
        .unwrap();
    rows.push(entry);

    let unlocked = AuditEvent::VaultUnlocked {
        provider: "tpm".into(),
        shamir_shares_used: None,
        tpm_pcr_valid: Some(true),
    };
    assert!(logger.admit_event(Some(8192)));
    let last = rows.last().map(|e| e.entry_hmac.clone());
    let entry = logger
        .prepare_entry(NOW + 1, &unlocked, r#"{"VaultUnlocked":{"provider":"tpm"}}"#.to_string(), last)
        .unwrap();
    rows.push(entry);

    let result = logger.verify_chain(&rows).unwrap();
    assert!(result.is_intact);
    assert_eq!(result.total_entries, 2);
}

#[test]
fn test_rate_limiter_remaining_attempts() {
    let rl = RateLimiter::new(5, 60, 300);
    let mut store = RateLimitState::new();
    assert_eq!(rl.remaining_attempts(&store, NOW), 5);

    rl.check(&mut store, NOW).unwrap();
    rl.record_failure(&mut store, NOW);
    assert_eq!(rl.remaining_attempts(&store, NOW), 4);

    rl.record_success(&mut store);
    assert_eq!(rl.remaining_attempts(&store, NOW), 5);
}

#[test]
fn test_state_validator() {
    let mut sv = StateValidator::new();
    let data = b"test data for validation";

    sv.set_baseline(data);
    assert!(sv.validate(data).unwrap());
    assert!(!sv.validate(b"modified data").unwrap());
}

#[test]
fn test_state_validator_hmac() {
    let key = b"test-hmac-key-32-bytes-long!!!!!";
    let data = b"data to authenticate";

    let hmac = StateValidator::compute_hmac(data, key).unwrap();
    assert!(StateValidator::validate_hmac(data, &hmac, key).unwrap());
    assert!(!StateValidator::validate_hmac(b"tampered", &hmac, key).unwrap());
}
