use sha2::Digest;
use sovereign_kernel::audit::{AuditEvent, AuditLogger, LockReason};
use sovereign_kernel::database::DatabaseKey;
use sovereign_kernel::error::VaultError;
use sovereign_kernel::key_hex::{decode_key_hex, KeyDecodeError};
use sovereign_kernel::keys::{
    decrypt_aes_gcm, encrypt_aes_gcm, encrypt_aes_gcm_with_nonce, random_256bit, SecretBytes, SecretKey,
};
use sovereign_kernel::rate_limiter::{RateLimitState, RateLimiter};
use sovereign_kernel::state_validator::StateValidator;
use sovereign_kernel::tpm::{TpmCounter, TpmManager};

const NOW: i64 = 1_700_000_000;

fn crypto_message<T>(r: Result<T, VaultError>) -> String {
    match r {
        Err(VaultError::Crypto(m)) => m,
        Err(other) => panic!("unexpected error {:?}", other),
        Ok(_) => panic!("expected an error"),
    }
}

#[test]
fn secret_bytes_accessors() {
    let s = SecretBytes::new(vec![1, 2, 3]);
    assert_eq!(s.expose_secret(), &[1, 2, 3]);
    assert_eq!(s.len(), 3);
    assert!(!s.is_empty());
    assert!(SecretBytes::new(Vec::new()).is_empty());
    assert_eq!(s.debug_text(), "[REDACTED]");
    let k = SecretKey::new([7u8; 32]);
    assert_eq!(k.expose_secret(), &[7u8; 32]);
    assert_eq!(k.debug_text(), "[REDACTED 32B]");
    let d = DatabaseKey::from_raw([9u8; 32]);
    assert_eq!(d.as_bytes(), &[9u8; 32]);
}

#[test]
fn random_bytes_differ() {
    assert_ne!(random_256bit(), random_256bit());
}

#[test]
fn aes_gcm_known_vectors() {
    let key = [0u8; 32];
    let nonce = [0u8; 12];
    let out = encrypt_aes_gcm_with_nonce(&key, &nonce, b"", b"").unwrap();
    assert_eq!(hex::encode(&out), format!("{}{}", "00".repeat(12), "530f8afbc74536b9a963b4f1c4cb738b"));
    let out = encrypt_aes_gcm_with_nonce(&key, &nonce, &[0u8; 16], b"").unwrap();
    assert_eq!(
        hex::encode(&out[12..]),
        "cea7403d4d606b6e074ec5d3baf39d18d0d1c8a799996bf0265b98b5d48ab919"
    );
    let back = decrypt_aes_gcm(&key, &out, b"").unwrap();
    assert_eq!(back.expose_secret(), &[0u8; 16]);
}

#[test]
fn aes_gcm_layout_and_failures() {
    let key = [3u8; 32];
    let ct = encrypt_aes_gcm(&key, b"abc", b"ctx").unwrap();
    assert_eq!(ct.len(), 12 + 3 + 16);
    assert_eq!(crypto_message(decrypt_aes_gcm(&key, &ct[..11], b"ctx")), "Ciphertext too short");
    assert_eq!(crypto_message(decrypt_aes_gcm(&key, &ct, b"other")), "AES decrypt: aead::Error");
    let mut tampered = ct.clone();
    tampered[12] ^= 1;
    assert!(decrypt_aes_gcm(&key, &tampered, b"ctx").is_err());
    assert!(decrypt_aes_gcm(&[4u8; 32], &ct, b"ctx").is_err());
}

#[test]
fn hmac_known_vector() {
    let tag = StateValidator::compute_hmac(b"The quick brown fox jumps over the lazy dog", b"key").unwrap();
    assert_eq!(hex::encode(tag), "f7bc83f430538424b13298e6aa6fb143ef4d59a14946175997479dbc2d1a3cd8");
}

#[test]
fn state_validator_errors() {
    let sv = StateValidator::default();
    match sv.validate(b"x") {
        Err(VaultError::Validation(m)) => assert_eq!(m, "No baseline set"),
        other => panic!("unexpected {:?}", other),
    }
    match StateValidator::validate_key_length(&[1, 2, 3], 32, "master") {
        Err(VaultError::Validation(m)) => assert_eq!(m, "master: 3 != 32"),
        other => panic!("unexpected {:?}", other),
    }
    assert!(StateValidator::validate_key_length(&[0u8; 32], 32, "master").is_ok());
}

#[test]
fn rate_limiter_lockout_and_window() {
    let rl = RateLimiter::new(2, 60, 300);
    let mut store = RateLimitState::new();
    rl.record_failure(&mut store, NOW - 120);
    rl.record_failure(&mut store, NOW - 10);
    assert_eq!(rl.remaining_attempts(&store, NOW), 1);
    assert!(rl.check(&mut store, NOW).is_ok());
    assert_eq!(store.failures(), &vec![NOW - 10]);
    rl.record_failure(&mut store, NOW);
    match rl.check(&mut store, NOW) {
        Err(VaultError::RateLimited { retry_after_seconds, remaining_attempts }) => {
            assert_eq!(retry_after_seconds, 300);
            assert_eq!(remaining_attempts, 0);
        }
        other => panic!("unexpected {:?}", other),
    }
    assert_eq!(store.failures().len(), 2);
    assert_eq!(store.locked_until(), Some(NOW + 300));
    assert_eq!(rl.remaining_attempts(&store, NOW), 0);
    rl.record_failure(&mut store, NOW + 30);
    match rl.check(&mut store, NOW + 61) {
        Err(VaultError::RateLimited { retry_after_seconds, remaining_attempts }) => {
            assert_eq!(retry_after_seconds, 239);
            assert_eq!(remaining_attempts, 0);
        }
        other => panic!("unexpected {:?}", other),
    }
    assert_eq!(rl.remaining_attempts(&store, NOW + 299), 0);
    assert!(rl.check(&mut store, NOW + 300).is_ok());
    assert_eq!(store.locked_until(), None);
    assert_eq!(rl.remaining_attempts(&store, NOW + 300), 2);
}

#[test]
fn rate_limiter_stored_lockout() {
    let rl = RateLimiter::new(5, 60, 300);
    let mut store = RateLimitState::from_parts(Vec::new(), Some(NOW + 100));
    match rl.check_inner(&mut store, NOW) {
        Err(VaultError::RateLimited { retry_after_seconds, .. }) => assert_eq!(retry_after_seconds, 100),
        other => panic!("unexpected {:?}", other),
    }
    assert_eq!(rl.remaining_attempts(&store, NOW), 0);
    assert!(rl.check(&mut store, NOW + 100).is_ok());
    assert_eq!(store.locked_until(), None);
    let mut store = RateLimitState::from_parts(vec![NOW; 5], None);
    assert!(rl.check_inner(&mut store, NOW).is_err());
    assert_eq!(store.locked_until(), Some(NOW + 300));
}

#[test]
fn audit_limits_and_names() {
    let mut logger = AuditLogger::new([1u8; 32], Some(1), Some(1000));
    assert!(logger.admit_event(None));
    assert!(!logger.admit_event(None));
    assert_eq!(logger.rate_limit_stats(), (1, 1));
    let mut sized = AuditLogger::new([1u8; 32], None, Some(1000));
    assert!(!sized.admit_event(Some(1001)));
    assert!(sized.admit_event(Some(1000)));
    assert_eq!(sized.rate_limit_stats(), (0, 0));
    assert_eq!(sized.database_size_bytes(10, 4096), 40960);
    let ev = AuditEvent::VaultLocked { reason: LockReason::Manual };
    assert_eq!(logger.event_type_name(&ev), "VaultLocked");
    let ev = AuditEvent::TpmUnsealAttempt { pcr_valid: true, counter_valid: true, success: true };
    assert_eq!(logger.event_type_name(&ev), "TpmUnsealAttempt");
    assert_eq!(logger.get_last_hash(None), vec![0u8; 32]);
    assert_eq!(logger.get_last_hash(Some(vec![5u8; 32])), vec![5u8; 32]);
}

#[test]
fn audit_chain_detects_tampering() {
    let logger = AuditLogger::new([2u8; 32], None, None);
    let empty = logger.verify_chain(&Vec::new()).unwrap();
    assert!(empty.is_intact);
    assert_eq!(empty.total_entries, 0);
    let mut rows = Vec::new();
    for i in 0..3 {
        let ev = AuditEvent::ServiceStopped { reason: "test".into(), uptime_seconds: i };
        let last = rows.last().map(|e: &sovereign_kernel::audit::AuditEntry| e.entry_hmac.clone());
        rows.push(logger.prepare_entry(NOW + i as i64, &ev, format!("{{\"n\":{}}}", i), last).unwrap());
    }
    assert_eq!(rows[0].prev_hash, vec![0u8; 32]);
    assert_eq!(rows[1].prev_hash, rows[0].entry_hmac);
    let ok = logger.verify_chain(&rows).unwrap();
    assert!(ok.is_intact);
    assert_eq!(ok.valid_entries, 3);
    rows[1].event_data = "{\"n\":99}".to_string();
    let bad = logger.verify_chain(&rows).unwrap();
    assert!(!bad.is_intact);
    assert_eq!(bad.valid_entries, 2);
    assert_eq!(bad.total_entries, 3);
    let other_key = AuditLogger::new([3u8; 32], None, None);
    rows[1].event_data = "{\"n\":1}".to_string();
    assert!(logger.verify_chain(&rows).unwrap().is_intact);
    assert_eq!(other_key.verify_chain(&rows).unwrap().valid_entries, 0);
}

#[test]
fn tpm_seal_and_unseal() {
    let mgr = TpmManager::new(true);
    let sealed = mgr.seal_data(b"secret").unwrap();
    assert_eq!(&sealed[..4], b"SKSW");
    assert_eq!(mgr.unseal_data(&sealed).unwrap(), b"secret");
    assert_eq!(mgr.unseal_data(b"SKTPabc").unwrap(), b"abc");
    match mgr.unseal_data(b"SK") {
        Err(VaultError::Tpm(m)) => assert_eq!(m, "Invalid sealed data format"),
        other => panic!("unexpected {:?}", other),
    }
    match mgr.unseal_data(b"XXXXabc") {
        Err(VaultError::Tpm(m)) => assert_eq!(m, "Invalid magic in sealed data"),
        other => panic!("unexpected {:?}", other),
    }
    assert_eq!(mgr.read_counter().unwrap(), 0);
    let pcr = mgr.read_pcr_baseline().unwrap();
    let expected: [u8; 32] = sha2::Sha256::digest(b"SOFTWARE_PCR_BASELINE").into();
    assert_eq!(pcr, expected);
}

#[test]
fn tpm_state_lifecycle() {
    let key = [0x11u8; 32];
    let mgr = TpmManager::new(true);
    let master = [0x42u8; 32];
    let state = mgr.build_vault_state(&master, NOW, &key).unwrap();
    assert_eq!(state.version, 1);
    assert_eq!(state.tpm_counter_value, 0);
    assert_eq!(state.integrity_hmac.len(), 32);
    assert!(state.verify_integrity(&key).unwrap());
    assert!(!state.verify_integrity(&[0x12u8; 32]).unwrap());
    let (unsealed, events) = mgr.unseal_with_pcr_validation(&state, &key);
    assert_eq!(unsealed.unwrap().expose_secret(), &master);
    assert!(matches!(events.as_slice(), [AuditEvent::TpmUnsealAttempt { success: true, .. }]));

    let (loaded, events) = mgr.load_state(mgr.check_state_version(state).unwrap(), &key);
    let mut loaded = loaded.unwrap();
    assert!(events.is_empty());
    loaded.created_at += 1;
    let (res, events) = mgr.load_state(loaded, &key);
    match res {
        Err(VaultError::Integrity(m)) => assert_eq!(m, "TPM state HMAC verification failed"),
        other => panic!("unexpected {:?}", other.map(|_| ())),
    }
    match events.as_slice() {
        [AuditEvent::TpmError { error_code, operation }] => {
            assert_eq!(error_code, "STATE_INTEGRITY_FAILED");
            assert_eq!(operation, "load_state");
        }
        _ => panic!("unexpected events"),
    }
}

#[test]
fn tpm_pcr_mismatch_and_availability() {
    let key = [0x11u8; 32];
    let mgr = TpmManager::new(true);
    let mut state = mgr.build_vault_state(&[1u8; 32], NOW, &key).unwrap();
    state.pcr_baseline = [0u8; 32];
    state.integrity_hmac = state.compute_integrity_hmac(&key).unwrap();
    let (res, events) = mgr.unseal_with_pcr_validation(&state, &key);
    match res {
        Err(VaultError::Tpm(m)) => assert_eq!(m, "PCR baseline mismatch - possible tampering"),
        _ => panic!("expected a PCR mismatch"),
    }
    match events.as_slice() {
        [AuditEvent::TpmPcrMismatch { expected_pcr_hash, affected_pcrs, .. }, AuditEvent::TpmUnsealAttempt { pcr_valid: false, success: false, .. }] =>
        {
            assert_eq!(expected_pcr_hash, &[0u8; 32]);
            assert_eq!(affected_pcrs, &vec![0, 1, 2, 3, 4, 5, 6, 7]);
        }
        _ => panic!("unexpected events"),
    }
    let off = TpmManager::new(false);
    assert!(!off.is_available());
    match off.initialize_vault(NOW, &key) {
        Err(VaultError::Tpm(m)) => assert_eq!(m, "TPM not available"),
        _ => panic!("expected an error"),
    }
    let (state, ev) = mgr.initialize_vault(NOW, &key).unwrap();
    assert!(state.verify_integrity(&key).unwrap());
    assert!(matches!(ev, AuditEvent::VaultInitialized { tpm_available: true, shamir_threshold: 0, shamir_total: 0 }));
    let mut old = state;
    old.version = 2;
    match mgr.check_state_version(old) {
        Err(VaultError::Storage(m)) => assert_eq!(m, "Version mismatch"),
        _ => panic!("expected a version error"),
    }
}

#[test]
fn tpm_counter_decoding() {
    assert_eq!(TpmCounter::COUNTER_NV_INDEX, 0x0150_0000);
    assert_eq!(TpmCounter::COUNTER_SIZE, 8);
    assert_eq!(TpmCounter::decode_counter(&[1, 2, 0, 0, 0, 0, 0, 0, 9]), 0x0201);
    assert_eq!(TpmCounter::decode_counter(&u64::MAX.to_le_bytes()), u64::MAX);
    assert_eq!(TpmCounter::decode_counter(&[1, 2, 3]), 0);
}

#[test]
fn hex_keys() {
    let text = "00112233445566778899aabbccddeeffFFEEDDCCBBAA99887766554433221100";
    let key = decode_key_hex(text, true).unwrap();
    assert_eq!(key[1], 0x11);
    assert_eq!(key[16], 0xff);
    assert_eq!(key[31], 0x00);
    assert!(matches!(decode_key_hex("", true), Err(KeyDecodeError::Empty)));
    assert!(matches!(decode_key_hex("", false), Err(KeyDecodeError::WrongLength(0))));
    assert!(matches!(decode_key_hex("abcdef", true), Err(KeyDecodeError::WrongLength(3))));
    assert!(matches!(decode_key_hex("abc", true), Err(KeyDecodeError::InvalidHex(_))));
    assert!(matches!(decode_key_hex("zz", true), Err(KeyDecodeError::InvalidHex(_))));
}

#[test]
fn secret_clones_keep_bytes() {
    let s = SecretBytes::new(vec![4, 5, 6]);
    assert_eq!(s.clone().expose_secret(), &[4, 5, 6]);
    let k = SecretKey::new([8u8; 32]);
    assert_eq!(k.clone().expose_secret(), &[8u8; 32]);
}

#[test]
fn audit_event_limit_over_many_offers() {
    let mut logger = AuditLogger::new([1u8; 32], Some(2), None);
    let answers: Vec<bool> = (0..5).map(|_| logger.admit_event(None)).collect();
    assert_eq!(answers, vec![true, true, false, false, false]);
    assert_eq!(logger.rate_limit_stats(), (2, 3));
    let mut unlimited = AuditLogger::new([1u8; 32], None, None);
    assert!((0..5).all(|_| unlimited.admit_event(None)));
    assert_eq!(unlimited.rate_limit_stats(), (0, 0));
}

#[test]
fn tpm_unseal_malformed_blob() {
    let key = [0x11u8; 32];
    let mgr = TpmManager::new(true);
    let mut state = mgr.build_vault_state(&[1u8; 32], NOW, &key).unwrap();
    state.sealed_master_key = b"XX".to_vec();
    state.integrity_hmac = state.compute_integrity_hmac(&key).unwrap();
    let (res, events) = mgr.unseal_with_pcr_validation(&state, &key);
    match res {
        Err(VaultError::Tpm(m)) => assert_eq!(m, "Invalid sealed data format"),
        _ => panic!("expected a sealed data error"),
    }
    assert!(events.is_empty());
}

#[test]
fn rate_limiter_refusal_wait_is_kept() {
    let rl = RateLimiter::new(1, 60, 300);
    let mut store = RateLimitState::new();
    rl.record_failure(&mut store, NOW);
    assert!(rl.check(&mut store, NOW).is_err());
    for t in [NOW + 1, NOW + 61, NOW + 299] {
        match rl.check(&mut store, t) {
            Err(VaultError::RateLimited { retry_after_seconds, remaining_attempts: 0 }) => {
                assert_eq!(t + retry_after_seconds as i64, NOW + 300)
            }
            other => panic!("unexpected {:?}", other),
        }
        assert_eq!(rl.remaining_attempts(&store, t), 0);
    }
    assert!(rl.check(&mut store, NOW + 300).is_ok());
}

#[test]
fn counter_comparison_and_size_check() {
    assert!(TpmCounter::counter_matches(7, 7));
    assert!(!TpmCounter::counter_matches(7, 8));
    let mut logger = AuditLogger::new([1u8; 32], Some(1), Some(10));
    assert!(logger.size_check_due());
    assert!(logger.admit_event(Some(5)));
    assert!(!logger.size_check_due());
    assert!(!AuditLogger::new([1u8; 32], Some(1), None).size_check_due());
}

#[test]
fn key_length_message_has_decimal_numbers() {
    match StateValidator::validate_key_length(&[0u8; 100], 32, "k") {
        Err(VaultError::Validation(m)) => assert_eq!(m, "k: 100 != 32"),
        other => panic!("unexpected {:?}", other),
    }
    match StateValidator::validate_key_length(&[], 1234567890, "k") {
        Err(VaultError::Validation(m)) => assert_eq!(m, "k: 0 != 1234567890"),
        other => panic!("unexpected {:?}", other),
    }
}
