use vstd::prelude::*;
use crate::bytes::{append_bytes};
use crate::error::{VaultError, VaultResult, error_message};
use aes_gcm::aead::{Aead, KeyInit, Payload};
use rand::RngCore;
use subtle::ConstantTimeEq;

verus! {

/// Length in bytes of an AES-GCM nonce, which leads every ciphertext.
pub const NONCE_LEN: usize = 12;

/// Largest plaintext, and largest associated data, that AES-GCM accepts (2^36 bytes).
pub open spec fn aes_gcm_input_max() -> nat {
    0x10_0000_0000
}

/// A byte buffer holding secret material. Its bytes are not wiped when it is
/// dropped: the buffer is released as any vector is.
pub struct SecretBytes {
    inner: Vec<u8>,
}

impl View for SecretBytes {
    type V = Seq<u8>;

    closed spec fn view(&self) -> Seq<u8> {
        self.inner@
    }
}

impl Clone for SecretBytes {
    /// A copy holding the same bytes.
    fn clone(&self) -> (res: SecretBytes)
        ensures
            res@ == self@,
    {
        SecretBytes { inner: self.inner.clone() }
    }
}

impl SecretBytes {
    /// Wraps `data`.
    pub fn new(data: Vec<u8>) -> (res: SecretBytes)
        ensures
            res@ == data@,
    {
        SecretBytes { inner: data }
    }

    /// The secret bytes.
    pub fn expose_secret(&self) -> (res: &[u8])
        ensures
            res@ == self@,
    {
        self.inner.as_slice()
    }

    /// Number of secret bytes.
    pub fn len(&self) -> (res: usize)
        ensures
            res == self@.len(),
    {
        self.inner.len()
    }

    /// Whether no byte is held.
    pub fn is_empty(&self) -> (res: bool)
        ensures
            res == (self@.len() == 0),
    {
        self.inner.len() == 0
    }

    /// The text shown for the buffer in diagnostics, which never reveals it.
    pub fn debug_text(&self) -> (res: String)
        ensures
            res@ == "[REDACTED]"@,
    {
        "[REDACTED]".to_string()
    }
}

/// A 256-bit secret key. Its bytes are not wiped when it is dropped.
pub struct SecretKey {
    inner: [u8; 32],
}

impl View for SecretKey {
    type V = Seq<u8>;

    closed spec fn view(&self) -> Seq<u8> {
        self.inner@
    }
}

impl Clone for SecretKey {
    /// A copy holding the same key.
    fn clone(&self) -> (res: SecretKey)
        ensures
            res@ == self@,
    {
        SecretKey { inner: self.inner }
    }
}

impl SecretKey {
    /// Wraps `key`.
    pub fn new(key: [u8; 32]) -> (res: SecretKey)
        ensures
            res@ == key@,
    {
        SecretKey { inner: key }
    }

    /// The key bytes.
    pub fn expose_secret(&self) -> (res: &[u8; 32])
        ensures
            res@ == self@,
    {
        &self.inner
    }

    /// The text shown for the key in diagnostics, which never reveals it.
    pub fn debug_text(&self) -> (res: String)
        ensures
            res@ == "[REDACTED 32B]"@,
    {
        "[REDACTED 32B]".to_string()
    }
}

/// Calls `rand::thread_rng().fill_bytes`: fills `buf` from the thread-local
/// cryptographic generator. Nothing is claimed of the bytes, only that the
/// buffer keeps its length.
#[verifier::external_body]
fn fill_random(buf: &mut [u8])
    ensures
        final(buf)@.len() == old(buf)@.len(),
{
    rand::thread_rng().fill_bytes(buf)
}

/// 32 bytes from the cryptographic random generator.
pub fn random_256bit() -> (res: [u8; 32]) {
    let mut buf = [0u8; 32];
    fill_random(&mut buf);
    buf
}

/// A fresh random key: 32 bytes, whichever the generator gives.
pub fn random_key_32() -> (res: SecretKey)
    ensures
        res@.len() == 32,
{
    SecretKey::new(random_256bit())
}

/// Name for the AES-256-GCM ciphertext (with its 16-byte tag appended) of
/// `msg` under `key` and `nonce`, with associated data `aad`.
pub uninterp spec fn aes256_gcm_seal(key: Seq<u8>, nonce: Seq<u8>, msg: Seq<u8>, aad: Seq<u8>) -> Seq<u8>;

/// Name for the AES-256-GCM opening of `ct` under `key`, `nonce` and `aad`:
/// `None` where the tag does not authenticate.
pub uninterp spec fn aes256_gcm_open(key: Seq<u8>, nonce: Seq<u8>, ct: Seq<u8>, aad: Seq<u8>) -> Option<Seq<u8>>;

#[verifier::external_type_specification]
#[verifier::external_body]
pub struct ExAeadError(aes_gcm::Error);

/// Calls `Aes256Gcm::new` on the key and then `Aead::encrypt`. In aes-gcm 0.10
/// encryption refuses a message or associated data longer than 2^36 bytes and
/// otherwise returns the named ciphertext, 16 bytes longer than the message.
#[verifier::external_body]
fn aes256_gcm_encrypt(key: &[u8; 32], nonce: &[u8; 12], msg: &[u8], aad: &[u8]) -> (res: Result<Vec<u8>, aes_gcm::Error>)
    ensures
        res is Ok <==> (msg@.len() <= aes_gcm_input_max() && aad@.len() <= aes_gcm_input_max()),
        res matches Ok(c) ==> c@ == aes256_gcm_seal(key@, nonce@, msg@, aad@) && c@.len() == msg@.len() + 16,
{
    aes_gcm::Aes256Gcm::new(key.into()).encrypt(nonce.into(), Payload { msg, aad })
}

/// Calls `Aes256Gcm::new` on the key and then `Aead::decrypt`. The result is the
/// named opening; and, as authenticated encryption promises, a ciphertext that
/// `encrypt` produced for a message under the same key, nonce and associated
/// data opens to that message.
#[verifier::external_body]
fn aes256_gcm_decrypt(key: &[u8; 32], nonce: &[u8], ct: &[u8], aad: &[u8]) -> (res: Result<Vec<u8>, aes_gcm::Error>)
    requires
        nonce@.len() == 12,
    ensures
        match res {
            Ok(p) => aes256_gcm_open(key@, nonce@, ct@, aad@) == Some(p@),
            Err(_) => aes256_gcm_open(key@, nonce@, ct@, aad@) is None,
        },
        (exists|m: Seq<u8>|
            ct@ == aes256_gcm_seal(key@, nonce@, m, aad@) && m.len() <= aes_gcm_input_max()
                && aad@.len() <= aes_gcm_input_max()) ==> res is Ok,
        res matches Ok(p) ==> forall|m: Seq<u8>|
            (ct@ == aes256_gcm_seal(key@, nonce@, m, aad@) && m.len() <= aes_gcm_input_max()
                && aad@.len() <= aes_gcm_input_max()) ==> p@ == m,
{
    aes_gcm::Aes256Gcm::new(key.into()).decrypt(aes_gcm::Nonce::from_slice(nonce), Payload { msg: ct, aad })
}

/// Calls the `Display` impl of `aead::Error`, which writes the fixed text `aead::Error`.
#[verifier::external_body]
fn aead_error_text(e: &aes_gcm::Error) -> (res: String)
    ensures
        res@ == "aead::Error"@,
{
    e.to_string()
}

/// What `encrypt_aes_gcm` returns for a given nonce: the nonce followed by the
/// sealed message.
pub open spec fn sealed_with_nonce(key: Seq<u8>, nonce: Seq<u8>, plaintext: Seq<u8>, aad: Seq<u8>) -> Seq<u8> {
    nonce + aes256_gcm_seal(key, nonce, plaintext, aad)
}

/// Whether AES-GCM accepts a message and associated data of these lengths.
pub open spec fn aes_gcm_accepts(plaintext: Seq<u8>, aad: Seq<u8>) -> bool {
    plaintext.len() <= aes_gcm_input_max() && aad.len() <= aes_gcm_input_max()
}

/// AES-256-GCM encryption under a given nonce: `nonce || ciphertext`.
pub fn encrypt_aes_gcm_with_nonce(key: &[u8; 32], nonce: &[u8; 12], plaintext: &[u8], aad: &[u8]) -> (res: VaultResult<Vec<u8>>)
    ensures
        match res {
            Ok(c) => aes_gcm_accepts(plaintext@, aad@) && c@ == sealed_with_nonce(key@, nonce@, plaintext@, aad@)
                && c@.len() == NONCE_LEN + plaintext@.len() + 16,
            Err(e) => !aes_gcm_accepts(plaintext@, aad@) && e is Crypto
                && error_message(e) == Some("AES encrypt: "@ + "aead::Error"@),
        },
{
    match aes256_gcm_encrypt(key, nonce, plaintext, aad) {
        Ok(ciphertext) => {
            let mut result: Vec<u8> = Vec::new();
            append_bytes(&mut result, nonce.as_slice());
            append_bytes(&mut result, ciphertext.as_slice());
            Ok(result)
        },
        Err(e) => {
            let text = aead_error_text(&e);
            Err(VaultError::Crypto("AES encrypt: ".to_string().concat(text.as_str())))
        },
    }
}

/// Encrypts with AES-256-GCM under a fresh random nonce. Returns `nonce || ciphertext`.
pub fn encrypt_aes_gcm(key: &[u8; 32], plaintext: &[u8], aad: &[u8]) -> (res: VaultResult<Vec<u8>>)
    ensures
        match res {
            Ok(c) => aes_gcm_accepts(plaintext@, aad@) && c@.len() == NONCE_LEN + plaintext@.len() + 16
                && c@ == sealed_with_nonce(key@, c@.subrange(0, NONCE_LEN as int), plaintext@, aad@),
            Err(e) => !aes_gcm_accepts(plaintext@, aad@) && e is Crypto
                && error_message(e) == Some("AES encrypt: "@ + "aead::Error"@),
        },
{
    let mut nonce = [0u8; 12];
    fill_random(&mut nonce);
    let res = encrypt_aes_gcm_with_nonce(key, &nonce, plaintext, aad);
    proof {
        if res is Ok {
            assert(res->Ok_0@.subrange(0, NONCE_LEN as int) =~= nonce@);
        }
    }
    res
}

/// What `decrypt_aes_gcm` gives for `data`: too short data, a failed opening, or the plaintext.
pub open spec fn decrypt_outcome(key: Seq<u8>, data: Seq<u8>, aad: Seq<u8>) -> Option<Seq<u8>> {
    if data.len() < NONCE_LEN {
        None
    } else {
        aes256_gcm_open(key, data.subrange(0, NONCE_LEN as int), data.subrange(NONCE_LEN as int, data.len() as int), aad)
    }
}

/// Decrypts AES-256-GCM data laid out as `nonce (12 bytes) || ciphertext`.
pub fn decrypt_aes_gcm(key: &[u8; 32], data: &[u8], aad: &[u8]) -> (res: VaultResult<SecretBytes>)
    ensures
        data@.len() < NONCE_LEN ==> (res matches Err(e) && e is Crypto
            && error_message(e) == Some("Ciphertext too short"@)),
        data@.len() >= NONCE_LEN ==> match res {
            Ok(p) => decrypt_outcome(key@, data@, aad@) == Some(p@),
            Err(e) => decrypt_outcome(key@, data@, aad@) is None && e is Crypto
                && error_message(e) == Some("AES decrypt: "@ + "aead::Error"@),
        },
        forall|nonce: Seq<u8>, m: Seq<u8>|
            nonce.len() == NONCE_LEN && aes_gcm_accepts(m, aad@)
                && data@ == #[trigger] sealed_with_nonce(key@, nonce, m, aad@)
                ==> (res matches Ok(p) && p@ == m),
{
    if data.len() < NONCE_LEN {
        return Err(VaultError::Crypto("Ciphertext too short".to_string()));
    }
    let (nonce_bytes, ciphertext) = data.split_at(NONCE_LEN);
    proof {
        assert forall|nonce: Seq<u8>, m: Seq<u8>|
            nonce.len() == NONCE_LEN && data@ == #[trigger] sealed_with_nonce(key@, nonce, m, aad@)
            implies nonce_bytes@ == nonce && ciphertext@ == aes256_gcm_seal(key@, nonce, m, aad@) by {
            assert(nonce_bytes@ =~= nonce);
            assert(ciphertext@ =~= aes256_gcm_seal(key@, nonce, m, aad@));
        }
    }
    match aes256_gcm_decrypt(key, nonce_bytes, ciphertext, aad) {
        Ok(plaintext) => Ok(SecretBytes::new(plaintext)),
        Err(e) => {
            let text = aead_error_text(&e);
            Err(VaultError::Crypto("AES decrypt: ".to_string().concat(text.as_str())))
        },
    }
}

/// Calls `subtle::ConstantTimeEq::ct_eq` on the two slices and converts the
/// `Choice` to `bool`: true exactly when the slices have the same length and
/// the same bytes (subtle 2.6 compares lengths first, then every byte).
#[verifier::external_body]
fn ct_eq_slices(a: &[u8], b: &[u8]) -> (res: bool)
    ensures
        res == (a@ == b@),
{
    a.ct_eq(b).into()
}

/// Byte comparison in time independent of the contents.
pub fn constant_time_eq(a: &[u8], b: &[u8]) -> (res: bool)
    ensures
        res == (a@ == b@),
{
    ct_eq_slices(a, b)
}

} // verus!
