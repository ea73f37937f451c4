use vstd::prelude::*;

verus! {

/// A database encryption key. Its bytes are not wiped when it is dropped.
pub struct DatabaseKey {
    raw: [u8; 32],
}

impl View for DatabaseKey {
    type V = Seq<u8>;

    closed spec fn view(&self) -> Seq<u8> {
        self.raw@
    }
}

impl DatabaseKey {
    /// Wraps the raw key bytes.
    pub fn from_raw(raw: [u8; 32]) -> (res: DatabaseKey)
        ensures
            res@ == raw@,
    {
        DatabaseKey { raw }
    }

    /// The raw key bytes.
    pub fn as_bytes(&self) -> (res: &[u8; 32])
        ensures
            res@ == self@,
    {
        &self.raw
    }
}

#[verifier::external_type_specification]
#[verifier::external_body]
pub struct ExPathBuf(std::path::PathBuf);

/// Where a migration wrote the encrypted copy of a database.
pub struct MigrationResult {
    pub encrypted_path: std::path::PathBuf,
}

} // verus!
