use vstd::prelude::*;
use crate::audit::AuditEvent;
use crate::bytes::{append_bytes, copy_range, i64_le_bytes, le_bytes_i64, le_bytes_u32, le_bytes_u64, u32_le_bytes, u64_le_bytes};
use crate::error::{VaultError, VaultResult, error_message};
use crate::keys::{constant_time_eq, random_256bit, SecretBytes};
use crate::mac::{hmac_sha256, hmac_sha256_tag, sha256, sha256_of};
use vstd::utf8::encode_utf8;

verus! {

/// Value of a little-endian byte string.
pub open spec fn le_value(b: Seq<u8>) -> nat
    decreases b.len(),
{
    if b.len() == 0 {
        0
    } else {
        b[0] as nat + 256 * le_value(b.drop_first())
    }
}

/// The value of eight bytes, little endian, written out.
proof fn lemma_le_value_8(b: Seq<u8>)
    requires
        b.len() == 8,
    ensures
        le_value(b) == b[0] as nat + 256 * b[1] + 65536 * b[2] + 0x100_0000 * b[3] + 0x1_0000_0000 * b[4]
            + 0x100_0000_0000 * b[5] + 0x1_0000_0000_0000 * b[6] + 0x100_0000_0000_0000 * b[7],
{
    reveal_with_fuel(le_value, 9);
    let b1 = b.drop_first();
    let b2 = b1.drop_first();
    let b3 = b2.drop_first();
    let b4 = b3.drop_first();
    let b5 = b4.drop_first();
    let b6 = b5.drop_first();
    let b7 = b6.drop_first();
    let b8 = b7.drop_first();
    assert(b8.len() == 0);
    assert(le_value(b7) == b[7] as nat);
    assert(le_value(b6) == b[6] as nat + 256 * b[7]);
    assert(le_value(b5) == b[5] as nat + 256 * le_value(b6));
    assert(le_value(b4) == b[4] as nat + 256 * le_value(b5));
    assert(le_value(b3) == b[3] as nat + 256 * le_value(b4));
    assert(le_value(b2) == b[2] as nat + 256 * le_value(b3));
    assert(le_value(b1) == b[1] as nat + 256 * le_value(b2));
}

/// The value of four bytes, little endian, written out.
proof fn lemma_le_value_4(b: Seq<u8>)
    requires
        b.len() == 4,
    ensures
        le_value(b) == b[0] as nat + 256 * b[1] + 65536 * b[2] + 0x100_0000 * b[3],
{
    reveal_with_fuel(le_value, 5);
    let b1 = b.drop_first();
    let b2 = b1.drop_first();
    let b3 = b2.drop_first();
    let b4 = b3.drop_first();
    assert(b4.len() == 0);
    assert(le_value(b3) == b[3] as nat);
    assert(le_value(b2) == b[2] as nat + 256 * b[3]);
    assert(le_value(b1) == b[1] as nat + 256 * le_value(b2));
}

/// Reading back the little-endian bytes of a 64-bit word gives the word.
pub proof fn lemma_le_value_u64(v: u64)
    ensures
        le_value(le_bytes_u64(v)) == v,
{
    let b = le_bytes_u64(v);
    lemma_le_value_8(b);
    assert(b[0] == ((v >> 0u64) & 0xff) as u8);
    assert(b[1] == ((v >> 8u64) & 0xff) as u8);
    assert(b[2] == ((v >> 16u64) & 0xff) as u8);
    assert(b[3] == ((v >> 24u64) & 0xff) as u8);
    assert(b[4] == ((v >> 32u64) & 0xff) as u8);
    assert(b[5] == ((v >> 40u64) & 0xff) as u8);
    assert(b[6] == ((v >> 48u64) & 0xff) as u8);
    assert(b[7] == ((v >> 56u64) & 0xff) as u8);
    assert(v == ((v >> 0u64) & 0xff) as u8 as u64 + 256 * ((v >> 8u64) & 0xff) as u8 as u64
        + 65536 * ((v >> 16u64) & 0xff) as u8 as u64 + 0x100_0000 * ((v >> 24u64) & 0xff) as u8 as u64
        + 0x1_0000_0000 * ((v >> 32u64) & 0xff) as u8 as u64 + 0x100_0000_0000 * ((v >> 40u64) & 0xff) as u8 as u64
        + 0x1_0000_0000_0000 * ((v >> 48u64) & 0xff) as u8 as u64 + 0x100_0000_0000_0000 * ((v >> 56u64) & 0xff) as u8 as u64)
        by (bit_vector);
}

/// Reading back the little-endian bytes of a 32-bit word gives the word.
pub proof fn lemma_le_value_u32(v: u32)
    ensures
        le_value(le_bytes_u32(v)) == v,
{
    let b = le_bytes_u32(v);
    lemma_le_value_4(b);
    assert(b[0] == ((v >> 0u32) & 0xff) as u8);
    assert(b[1] == ((v >> 8u32) & 0xff) as u8);
    assert(b[2] == ((v >> 16u32) & 0xff) as u8);
    assert(b[3] == ((v >> 24u32) & 0xff) as u8);
    assert(v == ((v >> 0u32) & 0xff) as u8 as u32 + 256 * ((v >> 8u32) & 0xff) as u8 as u32
        + 65536 * ((v >> 16u32) & 0xff) as u8 as u32 + 0x100_0000 * ((v >> 24u32) & 0xff) as u8 as u32)
        by (bit_vector);
}

/// The monotonic counter kept in TPM non-volatile memory. This library holds
/// its index, its size and the decoding of what is read from it; defining,
/// reading and incrementing the NV index need a TPM driver and are not here.
pub struct TpmCounter;

impl TpmCounter {
    /// The NV index of the counter.
    pub const COUNTER_NV_INDEX: u32 = 0x0150_0000;

    /// The size of the counter, in bytes.
    pub const COUNTER_SIZE: u16 = 8;

    /// Whether a stored counter value agrees with the value read from the
    /// hardware counter.
    pub fn counter_matches(stored: u64, hw: u64) -> (res: bool)
        ensures
            res == (stored == hw),
    {
        stored == hw
    }

    /// The counter value in the bytes read from NV memory: the first eight
    /// bytes, little endian, or 0 when fewer than eight were read.
    pub fn decode_counter(bytes: &[u8]) -> (res: u64)
        ensures
            bytes@.len() >= 8 ==> res == le_value(bytes@.subrange(0, 8)),
            bytes@.len() < 8 ==> res == 0,
    {
        if bytes.len() < 8 {
            return 0;
        }
        let ghost b = bytes@.subrange(0, 8);
        let mut v: u64 = 0;
        let mut i: usize = 8;
        while i > 0
            invariant
                i <= 8,
                bytes@.len() >= 8,
                b == bytes@.subrange(0, 8),
                v == le_value(b.subrange(i as int, 8)),
                v < pow256((8 - i) as nat),
            decreases i,
        {
            i = i - 1;
            assert(b.subrange(i as int, 8).drop_first() =~= b.subrange(i + 1, 8));
            assert(pow256((8 - i) as nat) == 256 * pow256((8 - (i + 1)) as nat));
            proof { lemma_pow256_bound((8 - i) as nat); }
            assert(v * 256 + (bytes[i as int] as int) < pow256((8 - i) as nat)) by (nonlinear_arith)
                requires
                    v < pow256((8 - (i + 1)) as nat),
                    pow256((8 - i) as nat) == 256 * pow256((8 - (i + 1)) as nat),
                    bytes[i as int] < 256,
            ;
            v = bytes[i] as u64 + 256 * v;
        }
        assert(b.subrange(0, 8) =~= b);
        v
    }
}

/// `256^n`.
pub open spec fn pow256(n: nat) -> nat
    decreases n,
{
    if n == 0 {
        1
    } else {
        256 * pow256((n - 1) as nat)
    }
}

/// `256^n` for `n <= 8` is at most `2^64`.
proof fn lemma_pow256_bound(n: nat)
    requires
        n <= 8,
    ensures
        pow256(n) <= 0x1_0000_0000_0000_0000,
{
    reveal_with_fuel(pow256, 9);
}

/// The sealed vault state kept beside the TPM.
pub struct TpmState {
    pub version: u32,
    pub sealed_master_key: Vec<u8>,
    pub pcr_baseline: [u8; 32],
    pub created_at: i64,
    pub tpm_counter_value: u64,
    pub integrity_hmac: Vec<u8>,
}

/// The contents of a vault state.
pub struct TpmStateModel {
    pub version: u32,
    pub sealed_master_key: Seq<u8>,
    pub pcr_baseline: Seq<u8>,
    pub created_at: i64,
    pub tpm_counter_value: u64,
    pub integrity_hmac: Seq<u8>,
}

impl View for TpmState {
    type V = TpmStateModel;

    open spec fn view(&self) -> TpmStateModel {
        TpmStateModel {
            version: self.version,
            sealed_master_key: self.sealed_master_key@,
            pcr_baseline: self.pcr_baseline@,
            created_at: self.created_at,
            tpm_counter_value: self.tpm_counter_value,
            integrity_hmac: self.integrity_hmac@,
        }
    }
}

/// The bytes that the integrity HMAC covers: version (4 bytes), sealed key,
/// PCR baseline, creation time (8 bytes) and counter (8 bytes), integers little
/// endian.
pub open spec fn integrity_message(m: TpmStateModel) -> Seq<u8> {
    le_bytes_u32(m.version) + m.sealed_master_key + m.pcr_baseline + le_bytes_i64(m.created_at) + le_bytes_u64(
        m.tpm_counter_value,
    )
}

/// The integrity HMAC of a state under `key`.
pub open spec fn integrity_tag(key: Seq<u8>, m: TpmStateModel) -> Seq<u8> {
    hmac_sha256_tag(key, integrity_message(m))
}

/// Whether the state carries its own integrity HMAC under `key`.
pub open spec fn integrity_ok(key: Seq<u8>, m: TpmStateModel) -> bool {
    m.integrity_hmac == integrity_tag(key, m)
}

impl TpmState {
    /// The HMAC-SHA256, under `hmac_key`, of the state's fields.
    pub fn compute_integrity_hmac(&self, hmac_key: &[u8]) -> (res: VaultResult<Vec<u8>>)
        ensures
            res matches Ok(t) && t@ == integrity_tag(hmac_key@, self@),
    {
        let mut msg = u32_le_bytes(self.version);
        append_bytes(&mut msg, self.sealed_master_key.as_slice());
        append_bytes(&mut msg, self.pcr_baseline.as_slice());
        let created = i64_le_bytes(self.created_at);
        append_bytes(&mut msg, created.as_slice());
        let counter = u64_le_bytes(self.tpm_counter_value);
        append_bytes(&mut msg, counter.as_slice());
        match hmac_sha256(hmac_key, msg.as_slice()) {
            Ok(tag) => Ok(tag),
            Err(_) => Err(VaultError::Crypto("HMAC: Invalid Length".to_string())),
        }
    }

    /// Whether the stored integrity HMAC matches the state, compared in constant time.
    pub fn verify_integrity(&self, k: &[u8]) -> (res: VaultResult<bool>)
        ensures
            res == Ok::<bool, VaultError>(integrity_ok(k@, self@)),
    {
        let computed = self.compute_integrity_hmac(k)?;
        Ok(constant_time_eq(computed.as_slice(), self.integrity_hmac.as_slice()))
    }
}

/// The header that marks data sealed by the software TPM: "SKSW".
pub open spec fn software_magic() -> Seq<u8> {
    seq![0x53u8, 0x4Bu8, 0x53u8, 0x57u8]
}

/// The header that marks data sealed by the hardware TPM: "SKTP".
pub open spec fn hardware_magic() -> Seq<u8> {
    seq![0x53u8, 0x4Bu8, 0x54u8, 0x50u8]
}

/// Sealed form of `data`: the software header followed by the data.
pub open spec fn sealed_form(data: Seq<u8>) -> Seq<u8> {
    software_magic() + data
}

/// The data inside a sealed blob: what follows a known 4-byte header.
pub open spec fn unsealed_form(sealed: Seq<u8>) -> Option<Seq<u8>> {
    if sealed.len() < 4 {
        None
    } else if sealed.subrange(0, 4) != hardware_magic() && sealed.subrange(0, 4) != software_magic() {
        None
    } else {
        Some(sealed.subrange(4, sealed.len() as int))
    }
}

/// The PCR baseline that the software TPM reports: SHA-256 of "SOFTWARE_PCR_BASELINE".
pub open spec fn software_pcr() -> Seq<u8> {
    sha256_of(encode_utf8("SOFTWARE_PCR_BASELINE"@))
}

/// The state that initializing the vault creates for `master_key` at `created_at`.
pub open spec fn initial_state(master_key: Seq<u8>, created_at: i64, hmac_key: Seq<u8>) -> TpmStateModel {
    let unsigned = TpmStateModel {
        version: 1,
        sealed_master_key: sealed_form(master_key),
        pcr_baseline: software_pcr(),
        created_at,
        tpm_counter_value: 0,
        integrity_hmac: Seq::empty(),
    };
    TpmStateModel { integrity_hmac: integrity_tag(hmac_key, unsigned), ..unsigned }
}

/// What unsealing with PCR validation yields for a state: nothing when its
/// integrity fails, its PCR baseline differs from the current one, or its
/// sealed blob is malformed; the master key otherwise.
pub open spec fn unseal_outcome(hmac_key: Seq<u8>, m: TpmStateModel) -> Option<Seq<u8>> {
    if !integrity_ok(hmac_key, m) {
        None
    } else if m.pcr_baseline != software_pcr() {
        None
    } else {
        unsealed_form(m.sealed_master_key)
    }
}

/// The PCR registers that a baseline mismatch reports.
pub open spec fn all_pcrs() -> Seq<u32> {
    seq![0u32, 1, 2, 3, 4, 5, 6, 7]
}

/// Seals the master key in the TPM and guards the sealed state; the
/// audit events to record come back with each outcome.
pub struct TpmManager {
    available: bool,
}

impl TpmManager {
    /// Whether a TPM was found.
    pub closed spec fn tpm_available(&self) -> bool {
        self.available
    }

    /// A manager for a TPM that is or is not available.
    pub fn new(available: bool) -> (res: TpmManager)
        ensures
            res.tpm_available() == available,
    {
        TpmManager { available }
    }

    /// Whether a TPM was found.
    pub fn is_available(&self) -> (res: bool)
        ensures
            res == self.tpm_available(),
    {
        self.available
    }

    /// The current PCR baseline.
    pub fn read_pcr_baseline(&self) -> (res: VaultResult<[u8; 32]>)
        ensures
            res matches Ok(p) && p@ == software_pcr(),
    {
        Ok(sha256("SOFTWARE_PCR_BASELINE".as_bytes()))
    }

    /// Seals `data`: the software header, then the data.
    pub fn seal_data(&self, data: &[u8]) -> (res: VaultResult<Vec<u8>>)
        ensures
            res matches Ok(s) && s@ == sealed_form(data@),
    {
        let mut sealed: Vec<u8> = Vec::new();
        sealed.push(0x53u8);
        sealed.push(0x4Bu8);
        sealed.push(0x53u8);
        sealed.push(0x57u8);
        assert(sealed@ =~= software_magic());
        append_bytes(&mut sealed, data);
        Ok(sealed)
    }

    /// Unseals a blob: fails when it is shorter than its header or the header
    /// is neither "SKTP" nor "SKSW"; otherwise the bytes after the header.
    pub fn unseal_data(&self, sealed: &[u8]) -> (res: VaultResult<Vec<u8>>)
        ensures
            match res {
                Ok(d) => unsealed_form(sealed@) == Some(d@),
                Err(e) => unsealed_form(sealed@) is None && e is Tpm && error_message(e) == Some(
                    if sealed@.len() < 4 {
                        "Invalid sealed data format"@
                    } else {
                        "Invalid magic in sealed data"@
                    },
                ),
            },
    {
        if sealed.len() < 4 {
            return Err(VaultError::Tpm("Invalid sealed data format".to_string()));
        }
        let is_hardware = sealed[0] == 0x53u8 && sealed[1] == 0x4Bu8 && sealed[2] == 0x54u8 && sealed[3] == 0x50u8;
        let is_software = sealed[0] == 0x53u8 && sealed[1] == 0x4Bu8 && sealed[2] == 0x53u8 && sealed[3] == 0x57u8;
        assert(is_hardware <==> sealed@.subrange(0, 4) =~= hardware_magic());
        assert(is_software <==> sealed@.subrange(0, 4) =~= software_magic());
        if !is_hardware && !is_software {
            return Err(VaultError::Tpm("Invalid magic in sealed data".to_string()));
        }
        Ok(copy_range(sealed, 4, sealed.len()))
    }

    /// The TPM counter value: always 0 for the software TPM.
    pub fn read_counter(&self) -> (res: VaultResult<u64>)
        ensures
            res == Ok::<u64, VaultError>(0),
    {
        Ok(0)
    }

    /// The state that initializing the vault with `master_key` at
    /// `created_at` creates, signed with `hmac_key`; fails when no TPM is
    /// available.
    pub fn build_vault_state(&self, master_key: &[u8; 32], created_at: i64, hmac_key: &[u8; 32]) -> (res: VaultResult<TpmState>)
        ensures
            !self.tpm_available() ==> (res matches Err(e) && e is Tpm && error_message(e) == Some("TPM not available"@)),
            self.tpm_available() ==> (res matches Ok(s) && s@ == initial_state(master_key@, created_at, hmac_key@)),
            res matches Ok(s) ==> s.created_at == created_at && s.version == 1 && s.tpm_counter_value == 0,
    {
        if !self.available {
            return Err(VaultError::Tpm("TPM not available".to_string()));
        }
        let pcr_baseline = self.read_pcr_baseline()?;
        let sealed = self.seal_data(master_key.as_slice())?;
        let counter = self.read_counter()?;
        let mut state = TpmState {
            version: 1,
            sealed_master_key: sealed,
            pcr_baseline,
            created_at,
            tpm_counter_value: counter,
            integrity_hmac: Vec::new(),
        };
        let tag = state.compute_integrity_hmac(hmac_key.as_slice())?;
        state.integrity_hmac = tag;
        assert(state@ =~= initial_state(master_key@, created_at, hmac_key@));
        Ok(state)
    }

    /// Initializes the vault: a fresh random master key, sealed, in a state
    /// created at `created_at` and signed with `hmac_key`. The event to record
    /// once the state is saved comes back with it.
    pub fn initialize_vault(&self, created_at: i64, hmac_key: &[u8; 32]) -> (res: VaultResult<(TpmState, AuditEvent)>)
        ensures
            !self.tpm_available() ==> (res matches Err(e) && e is Tpm && error_message(e) == Some("TPM not available"@)),
            self.tpm_available() ==> (res matches Ok((s, ev)) && (exists|k: Seq<u8>| k.len() == 32 && s@ == initial_state(k, created_at, hmac_key@))
                && ev == AuditEvent::VaultInitialized { tpm_available: true, shamir_threshold: 0, shamir_total: 0 }),
            res matches Ok((s, _)) ==> s.created_at == created_at && s.version == 1 && s.tpm_counter_value == 0,
    {
        if !self.available {
            return Err(VaultError::Tpm("TPM not available".to_string()));
        }
        let master_key = random_256bit();
        let state = self.build_vault_state(&master_key, created_at, hmac_key)?;
        Ok((state, AuditEvent::VaultInitialized { tpm_available: true, shamir_threshold: 0, shamir_total: 0 }))
    }

    /// Checks a state read back from storage: it must have version 1.
    pub fn check_state_version(&self, state: TpmState) -> (res: VaultResult<TpmState>)
        ensures
            state.version == 1 ==> (res matches Ok(s) && s@ == state@),
            state.version != 1 ==> (res matches Err(e) && e is Storage && error_message(e) == Some("Version mismatch"@)),
    {
        if state.version != 1 {
            return Err(VaultError::Storage("Version mismatch".to_string()));
        }
        Ok(state)
    }

    /// Accepts a loaded state only when its integrity HMAC verifies under
    /// `hmac_key`; a failure comes back with the event to record.
    pub fn load_state(&self, state: TpmState, hmac_key: &[u8; 32]) -> (res: (VaultResult<TpmState>, Vec<AuditEvent>))
        ensures
            integrity_ok(hmac_key@, state@) ==> (res.0 matches Ok(s) && s@ == state@ && res.1@.len() == 0),
            !integrity_ok(hmac_key@, state@) ==> {
                &&& res.0 matches Err(e) && e is Integrity && error_message(e) == Some("TPM state HMAC verification failed"@)
                &&& res.1@.len() == 1
                &&& res.1@[0] matches AuditEvent::TpmError { error_code, operation }
                    && error_code@ == "STATE_INTEGRITY_FAILED"@ && operation@ == "load_state"@
            },
    {
        let ok = match state.verify_integrity(hmac_key.as_slice()) {
            Ok(b) => b,
            Err(e) => return (Err(e), Vec::new()),
        };
        if !ok {
            let mut events: Vec<AuditEvent> = Vec::new();
            events.push(AuditEvent::TpmError {
                error_code: "STATE_INTEGRITY_FAILED".to_string(),
                operation: "load_state".to_string(),
            });
            return (Err(VaultError::Integrity("TPM state HMAC verification failed".to_string())), events);
        }
        (Ok(state), Vec::new())
    }

    /// Unseals the master key of `state` after re-verifying its integrity and
    /// checking that the PCR baseline is unchanged. The events to record come
    /// back with the outcome: a PCR mismatch and a failed unseal attempt, or a
    /// successful unseal attempt.
    pub fn unseal_with_pcr_validation(&self, state: &TpmState, hmac_key: &[u8; 32]) -> (res: (VaultResult<SecretBytes>, Vec<AuditEvent>))
        ensures
            match unseal_outcome(hmac_key@, state@) {
                Some(k) => res.0 matches Ok(key) && key@ == k,
                None => res.0 is Err,
            },
            !integrity_ok(hmac_key@, state@) ==> (res.0 matches Err(e) && e is Integrity && error_message(e) == Some(
                "State integrity check failed before unseal"@) && res.1@.len() == 0),
            integrity_ok(hmac_key@, state@) && state@.pcr_baseline != software_pcr() ==> {
                &&& res.0 matches Err(e) && e is Tpm && error_message(e) == Some("PCR baseline mismatch - possible tampering"@)
                &&& res.1@.len() == 2
                &&& res.1@[0] matches AuditEvent::TpmPcrMismatch { expected_pcr_hash, actual_pcr_hash, affected_pcrs }
                    && expected_pcr_hash@ == state@.pcr_baseline && actual_pcr_hash@ == software_pcr()
                    && affected_pcrs@ == all_pcrs()
                &&& res.1@[1] == AuditEvent::TpmUnsealAttempt { pcr_valid: false, counter_valid: true, success: false }
            },
            integrity_ok(hmac_key@, state@) && state@.pcr_baseline == software_pcr() ==> {
                &&& unsealed_form(state@.sealed_master_key) is None ==> res.1@.len() == 0
                &&& unsealed_form(state@.sealed_master_key) is None ==> (res.0 matches Err(e) && e is Tpm
                    && error_message(e) == Some(
                    if state@.sealed_master_key.len() < 4 {
                        "Invalid sealed data format"@
                    } else {
                        "Invalid magic in sealed data"@
                    },
                ))
                &&& unsealed_form(state@.sealed_master_key) is Some ==> res.1@ == seq![
                    AuditEvent::TpmUnsealAttempt { pcr_valid: true, counter_valid: true, success: true },
                ]
            },
    {
        let ok = match state.verify_integrity(hmac_key.as_slice()) {
            Ok(b) => b,
            Err(e) => return (Err(e), Vec::new()),
        };
        if !ok {
            return (Err(VaultError::Integrity("State integrity check failed before unseal".to_string())), Vec::new());
        }
        let current_pcr = match self.read_pcr_baseline() {
            Ok(p) => p,
            Err(e) => return (Err(e), Vec::new()),
        };
        if !constant_time_eq(current_pcr.as_slice(), state.pcr_baseline.as_slice()) {
            let mut affected: Vec<u32> = Vec::new();
            let mut r: u32 = 0;
            while r < 8
                invariant
                    r <= 8,
                    affected@ == Seq::new(r as nat, |j: int| j as u32),
                decreases 8 - r,
            {
                affected.push(r);
                r = r + 1;
                assert(affected@ =~= Seq::new(r as nat, |j: int| j as u32));
            }
            assert(affected@ =~= all_pcrs());
            let mut events: Vec<AuditEvent> = Vec::new();
            events.push(AuditEvent::TpmPcrMismatch {
                expected_pcr_hash: state.pcr_baseline,
                actual_pcr_hash: current_pcr,
                affected_pcrs: affected,
            });
            events.push(AuditEvent::TpmUnsealAttempt { pcr_valid: false, counter_valid: true, success: false });
            return (Err(VaultError::Tpm("PCR baseline mismatch - possible tampering".to_string())), events);
        }
        let key_bytes = match self.unseal_data(state.sealed_master_key.as_slice()) {
            Ok(k) => k,
            Err(e) => return (Err(e), Vec::new()),
        };
        let mut events: Vec<AuditEvent> = Vec::new();
        events.push(AuditEvent::TpmUnsealAttempt { pcr_valid: true, counter_valid: true, success: true });
        (Ok(SecretBytes::new(key_bytes)), events)
    }
}

/// The integrity message lays the fields out in order: the version (4 bytes,
/// little endian), the sealed key, the PCR baseline, the creation time and the
/// counter (8 bytes each, little endian); reading each back from its place
/// gives the field.
pub proof fn law_integrity_message_layout(m: TpmStateModel)
    ensures
        integrity_message(m).len() == 20int + m.sealed_master_key.len() + m.pcr_baseline.len(),
        le_value(integrity_message(m).subrange(0, 4)) == m.version,
        integrity_message(m).subrange(4, 4int + m.sealed_master_key.len()) == m.sealed_master_key,
        integrity_message(m).subrange(4int + m.sealed_master_key.len(), 4int + m.sealed_master_key.len() + m.pcr_baseline.len())
            == m.pcr_baseline,
        le_value(integrity_message(m).subrange(
            4int + m.sealed_master_key.len() + m.pcr_baseline.len(),
            12int + m.sealed_master_key.len() + m.pcr_baseline.len(),
        )) == m.created_at as u64,
        le_value(integrity_message(m).subrange(
            12int + m.sealed_master_key.len() + m.pcr_baseline.len(),
            20int + m.sealed_master_key.len() + m.pcr_baseline.len(),
        )) == m.tpm_counter_value,
{
    let msg = integrity_message(m);
    let sl = m.sealed_master_key.len() as int;
    let pl = m.pcr_baseline.len() as int;
    lemma_le_value_u32(m.version);
    lemma_le_value_u64(m.created_at as u64);
    lemma_le_value_u64(m.tpm_counter_value);
    assert(msg.subrange(0, 4) =~= le_bytes_u32(m.version));
    assert(msg.subrange(4, 4 + sl) =~= m.sealed_master_key);
    assert(msg.subrange(4 + sl, 4 + sl + pl) =~= m.pcr_baseline);
    assert(msg.subrange(4 + sl + pl, 12 + sl + pl) =~= le_bytes_u64(m.created_at as u64));
    assert(msg.subrange(12 + sl + pl, 20 + sl + pl) =~= le_bytes_u64(m.tpm_counter_value));
}

/// The integrity message covers every field: two states whose sealed keys and
/// PCR baselines have the same lengths get the same message only when their
/// version, sealed key, baseline, creation time and counter all agree. In
/// particular, changing the counter (or any other covered field) after
/// signing changes the message.
pub proof fn law_integrity_message_covers_fields(m1: TpmStateModel, m2: TpmStateModel)
    requires
        m1.sealed_master_key.len() == m2.sealed_master_key.len(),
        m1.pcr_baseline.len() == m2.pcr_baseline.len(),
        integrity_message(m1) == integrity_message(m2),
    ensures
        m1.version == m2.version,
        m1.sealed_master_key == m2.sealed_master_key,
        m1.pcr_baseline == m2.pcr_baseline,
        m1.created_at == m2.created_at,
        m1.tpm_counter_value == m2.tpm_counter_value,
{
    law_integrity_message_layout(m1);
    law_integrity_message_layout(m2);
    let a = m1.created_at;
    let b = m2.created_at;
    assert(a as u64 == b as u64 ==> a == b) by (bit_vector);
}

/// A state whose counter was changed after signing passes its integrity
/// check only if the HMAC of two different messages coincides (a forgery).
pub proof fn law_changed_counter_needs_forgery(hmac_key: Seq<u8>, m: TpmStateModel, counter: u64)
    requires
        counter != m.tpm_counter_value,
        integrity_ok(hmac_key, m),
        integrity_ok(hmac_key, TpmStateModel { tpm_counter_value: counter, ..m }),
    ensures
        integrity_message(m) != integrity_message(TpmStateModel { tpm_counter_value: counter, ..m }),
        hmac_sha256_tag(hmac_key, integrity_message(m)) == hmac_sha256_tag(
            hmac_key,
            integrity_message(TpmStateModel { tpm_counter_value: counter, ..m }),
        ),
{
    let m2 = TpmStateModel { tpm_counter_value: counter, ..m };
    if integrity_message(m) == integrity_message(m2) {
        law_integrity_message_covers_fields(m, m2);
    }
}

/// Initializing the vault at `created_at` records exactly that creation
/// time, version 1, counter 0, the current PCR baseline, and the master key
/// behind the software header.
pub proof fn law_initial_state_fields(master_key: Seq<u8>, created_at: i64, hmac_key: Seq<u8>)
    ensures
        initial_state(master_key, created_at, hmac_key).created_at == created_at,
        initial_state(master_key, created_at, hmac_key).version == 1,
        initial_state(master_key, created_at, hmac_key).tpm_counter_value == 0,
        initial_state(master_key, created_at, hmac_key).pcr_baseline == sha256_of(
            encode_utf8("SOFTWARE_PCR_BASELINE"@),
        ),
        initial_state(master_key, created_at, hmac_key).sealed_master_key.subrange(4, 4int + master_key.len())
            == master_key,
        initial_state(master_key, created_at, hmac_key).sealed_master_key.len() == 4 + master_key.len(),
{
    let sealed = initial_state(master_key, created_at, hmac_key).sealed_master_key;
    assert(sealed.subrange(4, 4int + master_key.len()) =~= master_key);
}

/// Unsealing gives back what sealing wrapped.
pub proof fn law_unseal_inverts_seal(data: Seq<u8>)
    ensures
        unsealed_form(sealed_form(data)) == Some(data),
{
    let s = sealed_form(data);
    assert(s.subrange(0, 4) =~= software_magic());
    assert(s.subrange(4, s.len() as int) =~= data);
}

/// A state that initializing the vault created passes its integrity check
/// and unseals, under the same HMAC key, to the master key it sealed.
pub proof fn law_initial_state_unseals(master_key: Seq<u8>, created_at: i64, hmac_key: Seq<u8>)
    ensures
        integrity_ok(hmac_key, initial_state(master_key, created_at, hmac_key)),
        unseal_outcome(hmac_key, initial_state(master_key, created_at, hmac_key)) == Some(master_key),
{
    let m = initial_state(master_key, created_at, hmac_key);
    let unsigned = TpmStateModel { integrity_hmac: Seq::empty(), ..m };
    assert(integrity_message(m) == integrity_message(unsigned));
    law_unseal_inverts_seal(master_key);
}

/// The integrity tag does not cover the stored tag itself: replacing the
/// stored tag leaves the computed tag as it was, and storing the computed tag
/// makes the state pass its integrity check.
pub proof fn law_integrity_ignores_stored_tag(hmac_key: Seq<u8>, m: TpmStateModel, tag: Seq<u8>)
    ensures
        integrity_tag(hmac_key, TpmStateModel { integrity_hmac: tag, ..m }) == integrity_tag(hmac_key, m),
        integrity_ok(hmac_key, TpmStateModel { integrity_hmac: integrity_tag(hmac_key, m), ..m }),
{
}

} // verus!
