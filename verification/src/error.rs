use vstd::prelude::*;

verus! {

/// The errors of every vault operation.
#[derive(Debug, Clone)]
pub enum VaultError {
    Tpm(String),
    Crypto(String),
    Storage(String),
    Integrity(String),
    Config(String),
    NotInitialized,
    RateLimited { retry_after_seconds: u64, remaining_attempts: u32 },
    Internal(String),
    Validation(String),
}

/// The result of a vault operation.
pub type VaultResult<T> = Result<T, VaultError>;

/// The message that an error carries, where it carries one.
pub open spec fn error_message(e: VaultError) -> Option<Seq<char>> {
    match e {
        VaultError::Tpm(m) => Some(m@),
        VaultError::Crypto(m) => Some(m@),
        VaultError::Storage(m) => Some(m@),
        VaultError::Integrity(m) => Some(m@),
        VaultError::Config(m) => Some(m@),
        VaultError::Internal(m) => Some(m@),
        VaultError::Validation(m) => Some(m@),
        _ => None,
    }
}

} // verus!
