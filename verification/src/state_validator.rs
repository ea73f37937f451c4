use vstd::prelude::*;
use crate::error::{VaultError, VaultResult, error_message};
use crate::keys::constant_time_eq;
use crate::mac::{hmac_sha256, hmac_sha256_tag, sha256, sha256_of, usize_text, decimal_text};

verus! {

/// What validating `data` against a baseline answers: nothing without a
/// baseline, otherwise whether `data` hashes to it.
pub open spec fn validation_of(baseline: Option<Seq<u8>>, data: Seq<u8>) -> Option<bool> {
    match baseline {
        None => None,
        Some(h) => Some(h == sha256_of(data)),
    }
}

/// Whether `tag` is the HMAC-SHA256 of `data` under `key`.
pub open spec fn hmac_matches(data: Seq<u8>, tag: Seq<u8>, key: Seq<u8>) -> bool {
    tag == hmac_sha256_tag(key, data)
}

/// Data validates against the baseline that was set from it.
pub proof fn law_baseline_accepts_its_data(data: Seq<u8>)
    ensures
        validation_of(Some(sha256_of(data)), data) == Some(true),
{
}

/// The HMAC that `compute_hmac` returns passes `validate_hmac` for the same
/// data and key.
pub proof fn law_computed_hmac_validates(data: Seq<u8>, key: Seq<u8>)
    ensures
        hmac_matches(data, hmac_sha256_tag(key, data), key),
{
}

/// Checks data against a stored SHA-256 baseline, and HMACs.
pub struct StateValidator {
    expected_hash: Option<[u8; 32]>,
}

impl StateValidator {
    /// The digest that the baseline holds, if one was set.
    pub closed spec fn baseline(&self) -> Option<Seq<u8>> {
        match self.expected_hash {
            Some(h) => Some(h@),
            None => None,
        }
    }

    /// A validator with no baseline.
    pub fn new() -> (res: StateValidator)
        ensures
            res.baseline() is None,
    {
        StateValidator { expected_hash: None }
    }

    /// Records the SHA-256 digest of `data` as the baseline.
    pub fn set_baseline(&mut self, data: &[u8])
        ensures
            final(self).baseline() == Some(sha256_of(data@)),
    {
        self.expected_hash = Some(sha256(data));
    }

    /// Whether `data` hashes to the baseline; an error when none is set.
    pub fn validate(&self, data: &[u8]) -> (res: VaultResult<bool>)
        ensures
            match validation_of(self.baseline(), data@) {
                None => res matches Err(e) && e is Validation && error_message(e) == Some("No baseline set"@),
                Some(b) => res == Ok::<bool, VaultError>(b),
            },
    {
        match &self.expected_hash {
            None => Err(VaultError::Validation("No baseline set".to_string())),
            Some(expected) => {
                let actual = sha256(data);
                Ok(constant_time_eq(expected.as_slice(), actual.as_slice()))
            },
        }
    }

    /// Whether `hmac_val` is the HMAC-SHA256 of `data` under `key`, compared in constant time.
    pub fn validate_hmac(data: &[u8], hmac_val: &[u8], key: &[u8]) -> (res: VaultResult<bool>)
        ensures
            res == Ok::<bool, VaultError>(hmac_matches(data@, hmac_val@, key@)),
    {
        match hmac_sha256(key, data) {
            Ok(computed) => Ok(constant_time_eq(computed.as_slice(), hmac_val)),
            Err(_) => Err(VaultError::Crypto("HMAC init: Invalid Length".to_string())),
        }
    }

    /// The HMAC-SHA256 of `data` under `key`.
    pub fn compute_hmac(data: &[u8], key: &[u8]) -> (res: VaultResult<Vec<u8>>)
        ensures
            res matches Ok(t) && t@ == hmac_sha256_tag(key@, data@) && t@.len() == 32,
    {
        match hmac_sha256(key, data) {
            Ok(computed) => Ok(computed),
            Err(_) => Err(VaultError::Crypto("HMAC init: Invalid Length".to_string())),
        }
    }

    /// Fails, naming the key and both lengths, unless `key` has `expected` bytes.
    pub fn validate_key_length(key: &[u8], expected: usize, name: &str) -> (res: VaultResult<()>)
        ensures
            key@.len() == expected ==> res is Ok,
            key@.len() != expected ==> (res matches Err(e) && e is Validation && error_message(e) == Some(
                name@ + ": "@ + decimal_text(key@.len()) + " != "@ + decimal_text(expected as nat),
            )),
    {
        if key.len() != expected {
            let msg = name.to_string().concat(": ").concat(usize_text(key.len()).as_str()).concat(" != ").concat(
                usize_text(expected).as_str(),
            );
            Err(VaultError::Validation(msg))
        } else {
            Ok(())
        }
    }
}

impl Default for StateValidator {
    /// Same as `new`: no baseline.
    fn default() -> (res: StateValidator)
        ensures
            res.baseline() is None,
    {
        StateValidator::new()
    }
}

} // verus!
