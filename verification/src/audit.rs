use vstd::prelude::*;
use crate::bytes::{append_bytes, bytes_equal, bytes_to_vec, i64_le_bytes, le_bytes_i64, zero_bytes, zeros};
use crate::error::{VaultError, VaultResult};
use crate::mac::{hmac_sha256, hmac_sha256_tag};
use vstd::utf8::encode_utf8;
use crate::tpm::{le_value, lemma_le_value_u64};

verus! {

/// Why the vault was locked.
#[derive(Debug, Clone, Copy)]
pub enum LockReason {
    Manual,
    AutoTimeout,
    EmergencyShutdown,
}

/// The events that the audit log records.
#[derive(Debug, Clone)]
pub enum AuditEvent {
    VaultInitialized { tpm_available: bool, shamir_threshold: usize, shamir_total: usize },
    VaultUnlocked { provider: String, shamir_shares_used: Option<usize>, tpm_pcr_valid: Option<bool> },
    VaultLocked { reason: LockReason },
    FailedUnlockAttempt { reason: String, attempt_number: u32, provider: String },
    TpmError { error_code: String, operation: String },
    TpmPcrMismatch { expected_pcr_hash: [u8; 32], actual_pcr_hash: [u8; 32], affected_pcrs: Vec<u32> },
    TpmUnsealAttempt { pcr_valid: bool, counter_valid: bool, success: bool },
    ServiceStarted { version: String, build_hash: [u8; 32] },
    ServiceStopped { reason: String, uptime_seconds: u64 },
}

/// The name under which an event is stored: the name of its variant.
pub open spec fn event_type_text(e: AuditEvent) -> Seq<char> {
    match e {
        AuditEvent::VaultInitialized { .. } => "VaultInitialized"@,
        AuditEvent::VaultUnlocked { .. } => "VaultUnlocked"@,
        AuditEvent::VaultLocked { .. } => "VaultLocked"@,
        AuditEvent::FailedUnlockAttempt { .. } => "FailedUnlockAttempt"@,
        AuditEvent::TpmError { .. } => "TpmError"@,
        AuditEvent::TpmPcrMismatch { .. } => "TpmPcrMismatch"@,
        AuditEvent::TpmUnsealAttempt { .. } => "TpmUnsealAttempt"@,
        AuditEvent::ServiceStarted { .. } => "ServiceStarted"@,
        AuditEvent::ServiceStopped { .. } => "ServiceStopped"@,
    }
}

/// The outcome of checking the audit chain.
pub struct ChainResult {
    pub total_entries: u64,
    pub is_intact: bool,
    pub valid_entries: u64,
}

/// One row of the audit log.
pub struct AuditEntry {
    pub timestamp: i64,
    pub event_type: String,
    pub event_data: String,
    pub prev_hash: Vec<u8>,
    pub entry_hmac: Vec<u8>,
}

/// The contents of an audit row.
pub struct AuditEntryModel {
    pub timestamp: i64,
    pub event_type: Seq<char>,
    pub event_data: Seq<char>,
    pub prev_hash: Seq<u8>,
    pub entry_hmac: Seq<u8>,
}

impl View for AuditEntry {
    type V = AuditEntryModel;

    open spec fn view(&self) -> AuditEntryModel {
        AuditEntryModel {
            timestamp: self.timestamp,
            event_type: self.event_type@,
            event_data: self.event_data@,
            prev_hash: self.prev_hash@,
            entry_hmac: self.entry_hmac@,
        }
    }
}

/// The bytes that an entry's HMAC covers: the timestamp (8 bytes, little
/// endian), the event type and the event data (UTF-8), and the previous hash.
pub open spec fn entry_message(timestamp: i64, event_type: Seq<char>, event_data: Seq<char>, prev_hash: Seq<u8>) -> Seq<u8> {
    le_bytes_i64(timestamp) + encode_utf8(event_type) + encode_utf8(event_data) + prev_hash
}

/// The HMAC that a row should carry under `key`.
pub open spec fn entry_tag(key: Seq<u8>, e: AuditEntryModel) -> Seq<u8> {
    hmac_sha256_tag(key, entry_message(e.timestamp, e.event_type, e.event_data, e.prev_hash))
}

/// The previous hash that row `i` must name: 32 zero bytes for the first row,
/// the HMAC of the row before it otherwise.
pub open spec fn expected_prev(rows: Seq<AuditEntryModel>, i: int) -> Seq<u8> {
    if i == 0 {
        zeros(32)
    } else {
        rows[i - 1].entry_hmac
    }
}

/// Whether row `i` links to its predecessor and carries its own HMAC.
pub open spec fn entry_valid(key: Seq<u8>, rows: Seq<AuditEntryModel>, i: int) -> bool {
    rows[i].prev_hash == expected_prev(rows, i) && entry_tag(key, rows[i]) == rows[i].entry_hmac
}

/// Number of valid rows among the first `n`.
pub open spec fn valid_count(key: Seq<u8>, rows: Seq<AuditEntryModel>, n: int) -> nat
    decreases n,
{
    if n <= 0 {
        0
    } else {
        valid_count(key, rows, n - 1) + if entry_valid(key, rows, n - 1) { 1nat } else { 0nat }
    }
}

/// Whether every row of the chain is valid.
pub open spec fn chain_intact(key: Seq<u8>, rows: Seq<AuditEntryModel>) -> bool {
    forall|i: int| 0 <= i < rows.len() ==> #[trigger] entry_valid(key, rows, i)
}

/// The rows of a log, by their contents.
pub open spec fn rows_view(rows: Seq<AuditEntry>) -> Seq<AuditEntryModel> {
    rows.map_values(|e: AuditEntry| e@)
}

/// The hash that the next row links to: the HMAC of the last row, or 32 zero
/// bytes when the log is empty.
pub open spec fn chain_head(last_hmac: Option<Seq<u8>>) -> Seq<u8> {
    match last_hmac {
        Some(h) => h,
        None => zeros(32),
    }
}

/// Counts the rows among the first `n` that are valid: at most `n`, and `n`
/// exactly when all of them are.
pub proof fn lemma_valid_count(key: Seq<u8>, rows: Seq<AuditEntryModel>, n: int)
    requires
        0 <= n <= rows.len(),
    ensures
        valid_count(key, rows, n) <= n,
        valid_count(key, rows, n) == n <==> forall|i: int| 0 <= i < n ==> #[trigger] entry_valid(key, rows, i),
    decreases n,
{
    if n > 0 {
        lemma_valid_count(key, rows, n - 1);
    }
}

/// The HMAC of the last row of a chain, if it has one.
pub open spec fn last_hmac_of(rows: Seq<AuditEntryModel>) -> Option<Seq<u8>> {
    if rows.len() == 0 {
        None
    } else {
        Some(rows.last().entry_hmac)
    }
}

/// An empty log is an intact chain with no valid row.
pub proof fn law_empty_chain_intact(key: Seq<u8>)
    ensures
        chain_intact(key, Seq::<AuditEntryModel>::empty()),
        valid_count(key, Seq::<AuditEntryModel>::empty(), 0) == 0,
{
}

/// Appending to an intact chain a row that links to the chain's head and
/// carries its own HMAC (the row that logging an event writes) keeps the
/// chain intact.
pub proof fn law_append_keeps_chain_intact(key: Seq<u8>, rows: Seq<AuditEntryModel>, e: AuditEntryModel)
    requires
        chain_intact(key, rows),
        e.prev_hash == chain_head(last_hmac_of(rows)),
        e.entry_hmac == entry_tag(key, e),
    ensures
        chain_intact(key, rows.push(e)),
{
    let r2 = rows.push(e);
    assert forall|i: int| 0 <= i < r2.len() implies #[trigger] entry_valid(key, r2, i) by {
        if i < rows.len() {
            assert(entry_valid(key, rows, i));
            assert(r2[i] == rows[i]);
            if i > 0 {
                assert(r2[i - 1] == rows[i - 1]);
            }
        } else {
            assert(r2[i] == e);
            if i > 0 {
                assert(r2[i - 1] == rows.last());
            }
        }
    }
}

/// The chain counts as intact exactly when every row is counted as valid.
pub proof fn law_intact_iff_all_valid(key: Seq<u8>, rows: Seq<AuditEntryModel>)
    ensures
        chain_intact(key, rows) <==> valid_count(key, rows, rows.len() as int) == rows.len(),
        valid_count(key, rows, rows.len() as int) <= rows.len(),
{
    lemma_valid_count(key, rows, rows.len() as int);
}

/// A row whose HMAC does not match its contents, or that does not name the
/// HMAC of the row before it, makes the whole chain count as broken.
pub proof fn law_bad_row_breaks_chain(key: Seq<u8>, rows: Seq<AuditEntryModel>, i: int)
    requires
        0 <= i < rows.len(),
        entry_tag(key, rows[i]) != rows[i].entry_hmac || rows[i].prev_hash != expected_prev(rows, i),
    ensures
        !chain_intact(key, rows),
{
    assert(!entry_valid(key, rows, i));
}

/// Whether `admitted` events have reached the event limit.
pub open spec fn limit_reached(max: Option<u32>, admitted: nat) -> bool {
    max matches Some(m) && admitted >= m
}

/// Events counted against the limit after one more event is offered.
pub open spec fn admitted_after(max: Option<u32>, admitted: nat) -> nat {
    if max is Some && !limit_reached(max, admitted) {
        admitted + 1
    } else {
        admitted
    }
}

/// Events dropped by the limit after one more event is offered.
pub open spec fn dropped_after(max: Option<u32>, admitted: nat, dropped: nat) -> nat {
    if limit_reached(max, admitted) {
        dropped + 1
    } else {
        dropped
    }
}

/// Whether an offered event is written: not at the event limit, and the
/// measured database size (when there is a size limit and a measurement) not
/// beyond the size limit.
pub open spec fn admit_answer(max: Option<u32>, size_limit: Option<u64>, admitted: nat, db_size: Option<u64>) -> bool {
    !limit_reached(max, admitted) && !(size_limit matches Some(limit) && db_size matches Some(size) && size > limit)
}

/// The counts (admitted, dropped) after `n` events are offered to a fresh logger.
pub open spec fn counts_after_offers(max: Option<u32>, n: nat) -> (nat, nat)
    decreases n,
{
    if n == 0 {
        (0, 0)
    } else {
        let (a, d) = counts_after_offers(max, (n - 1) as nat);
        (admitted_after(max, a), dropped_after(max, a, d))
    }
}

/// With an event limit of `m`, of `n` events offered to a fresh logger (and
/// no size limit in the way) exactly the first `min(n, m)` are written and the
/// rest dropped: the counts are `(min(n, m), n - min(n, m))`, since the count
/// never resets.
pub proof fn law_event_limit(m: u32, n: nat)
    ensures
        counts_after_offers(Some(m), n) == (if n <= m { (n, 0nat) } else { (m as nat, (n - m) as nat) }),
        forall|k: nat| k < n ==> (#[trigger] admit_answer(Some(m), None, counts_after_offers(Some(m), k).0, None)
            <==> k < m),
    decreases n,
{
    if n > 0 {
        law_event_limit(m, (n - 1) as nat);
        assert forall|k: nat| k < n implies (#[trigger] admit_answer(Some(m), None, counts_after_offers(Some(m), k).0, None)
            <==> k < m) by {
            if k < n - 1 {
            } else {
                assert(k == n - 1);
            }
        }
    }
}

/// Without an event limit, every offered event (with no size limit in the
/// way) is written and nothing is counted.
pub proof fn law_no_event_limit(n: nat)
    ensures
        counts_after_offers(None, n) == (0nat, 0nat),
        forall|k: nat| k < n ==> #[trigger] admit_answer(None, None, counts_after_offers(None, k).0, None),
    decreases n,
{
    if n > 0 {
        law_no_event_limit((n - 1) as nat);
    }
}

/// Valid rows among the first `n` after row `i` of an intact chain has its
/// contents changed while keeping its links: every row but `i` stays valid.
proof fn lemma_tampered_count(key: Seq<u8>, rows: Seq<AuditEntryModel>, i: int, e: AuditEntryModel, n: int)
    requires
        chain_intact(key, rows),
        0 <= i < rows.len(),
        0 <= n <= rows.len(),
        e.prev_hash == rows[i].prev_hash,
        e.entry_hmac == rows[i].entry_hmac,
        entry_tag(key, e) != e.entry_hmac,
    ensures
        valid_count(key, rows.update(i, e), n) == if i < n { n - 1 } else { n },
    decreases n,
{
    if n > 0 {
        lemma_tampered_count(key, rows, i, e, n - 1);
        let r2 = rows.update(i, e);
        let j = n - 1;
        assert(entry_valid(key, rows, j));
        if j > 0 {
            assert(r2[j - 1].entry_hmac == rows[j - 1].entry_hmac);
        }
        if j == i {
            assert(!entry_valid(key, r2, j));
        } else {
            assert(r2[j] == rows[j]);
            assert(entry_valid(key, r2, j));
        }
    }
}

/// Changing the timestamp, type or data of one row of an intact chain (its
/// links kept) leaves every other row valid and that row invalid, unless the
/// changed contents happen to carry the same HMAC (a forgery): the chain then
/// counts one invalid row and is broken.
pub proof fn law_tampered_row_counts(key: Seq<u8>, rows: Seq<AuditEntryModel>, i: int, e: AuditEntryModel)
    requires
        chain_intact(key, rows),
        0 <= i < rows.len(),
        e.prev_hash == rows[i].prev_hash,
        e.entry_hmac == rows[i].entry_hmac,
        entry_tag(key, e) != e.entry_hmac,
    ensures
        valid_count(key, rows.update(i, e), rows.len() as int) == rows.len() - 1,
        !chain_intact(key, rows.update(i, e)),
{
    lemma_tampered_count(key, rows, i, e, rows.len() as int);
    assert(!entry_valid(key, rows.update(i, e), i));
}

/// Under a key whose tags match none of the stored HMACs (a key other than
/// the one that wrote them, barring forgery), no row counts as valid.
pub proof fn law_other_key_validates_nothing(key: Seq<u8>, rows: Seq<AuditEntryModel>, n: int)
    requires
        0 <= n <= rows.len(),
        forall|j: int| 0 <= j < rows.len() ==> #[trigger] entry_tag(key, rows[j]) != rows[j].entry_hmac,
    ensures
        valid_count(key, rows, n) == 0,
    decreases n,
{
    if n > 0 {
        law_other_key_validates_nothing(key, rows, n - 1);
        assert(entry_tag(key, rows[n - 1]) != rows[n - 1].entry_hmac);
    }
}

/// The name stored for each event is the name of its own variant, whatever
/// its fields hold.
pub proof fn law_event_type_is_variant_name(e: AuditEvent)
    ensures
        e is VaultInitialized ==> event_type_text(e) == "VaultInitialized"@,
        e is VaultUnlocked ==> event_type_text(e) == "VaultUnlocked"@,
        e is VaultLocked ==> event_type_text(e) == "VaultLocked"@,
        e is FailedUnlockAttempt ==> event_type_text(e) == "FailedUnlockAttempt"@,
        e is TpmError ==> event_type_text(e) == "TpmError"@,
        e is TpmPcrMismatch ==> event_type_text(e) == "TpmPcrMismatch"@,
        e is TpmUnsealAttempt ==> event_type_text(e) == "TpmUnsealAttempt"@,
        e is ServiceStarted ==> event_type_text(e) == "ServiceStarted"@,
        e is ServiceStopped ==> event_type_text(e) == "ServiceStopped"@,
{
}

/// The bytes an entry's HMAC covers start with the timestamp (8 bytes,
/// little endian), followed by the UTF-8 event type, the UTF-8 event data and
/// the previous hash; reading each back from its place gives the field.
pub proof fn law_entry_message_layout(timestamp: i64, event_type: Seq<char>, event_data: Seq<char>, prev_hash: Seq<u8>)
    ensures
        entry_message(timestamp, event_type, event_data, prev_hash).len() == 8 + encode_utf8(event_type).len()
            + encode_utf8(event_data).len() + prev_hash.len(),
        le_value(entry_message(timestamp, event_type, event_data, prev_hash).subrange(0, 8)) == timestamp as u64,
        entry_message(timestamp, event_type, event_data, prev_hash).subrange(8, 8int + encode_utf8(event_type).len())
            == encode_utf8(event_type),
        entry_message(timestamp, event_type, event_data, prev_hash).subrange(
            8int + encode_utf8(event_type).len(),
            8int + encode_utf8(event_type).len() + encode_utf8(event_data).len(),
        ) == encode_utf8(event_data),
        entry_message(timestamp, event_type, event_data, prev_hash).subrange(
            8int + encode_utf8(event_type).len() + encode_utf8(event_data).len(),
            entry_message(timestamp, event_type, event_data, prev_hash).len() as int,
        ) == prev_hash,
{
    let msg = entry_message(timestamp, event_type, event_data, prev_hash);
    let t = encode_utf8(event_type).len() as int;
    let d = encode_utf8(event_data).len() as int;
    lemma_le_value_u64(timestamp as u64);
    assert(msg.subrange(0, 8) =~= le_bytes_i64(timestamp));
    assert(msg.subrange(8, 8 + t) =~= encode_utf8(event_type));
    assert(msg.subrange(8 + t, 8 + t + d) =~= encode_utf8(event_data));
    assert(msg.subrange(8 + t + d, msg.len() as int) =~= prev_hash);
}

/// Two rows that differ only in their timestamp have different messages.
pub proof fn law_entry_message_covers_timestamp(t1: i64, t2: i64, event_type: Seq<char>, event_data: Seq<char>, prev_hash: Seq<u8>)
    requires
        t1 != t2,
    ensures
        entry_message(t1, event_type, event_data, prev_hash) != entry_message(t2, event_type, event_data, prev_hash),
{
    law_entry_message_layout(t1, event_type, event_data, prev_hash);
    law_entry_message_layout(t2, event_type, event_data, prev_hash);
    assert(t1 as u64 != t2 as u64) by (bit_vector)
        requires
            t1 != t2,
    ;
}

/// A row that stays valid when its timestamp is moved (links and HMAC kept)
/// means the HMAC of two different messages coincides, a forgery: barring
/// that, moving a row's timestamp makes the row invalid.
pub proof fn law_moved_timestamp_needs_forgery(key: Seq<u8>, rows: Seq<AuditEntryModel>, i: int, t: i64)
    requires
        0 <= i < rows.len(),
        t != rows[i].timestamp,
        entry_valid(key, rows, i),
        entry_valid(key, rows.update(i, AuditEntryModel { timestamp: t, ..rows[i] }), i),
    ensures
        entry_message(rows[i].timestamp, rows[i].event_type, rows[i].event_data, rows[i].prev_hash) != entry_message(
            t,
            rows[i].event_type,
            rows[i].event_data,
            rows[i].prev_hash,
        ),
        hmac_sha256_tag(key, entry_message(rows[i].timestamp, rows[i].event_type, rows[i].event_data, rows[i].prev_hash))
            == hmac_sha256_tag(key, entry_message(t, rows[i].event_type, rows[i].event_data, rows[i].prev_hash)),
{
    law_entry_message_covers_timestamp(rows[i].timestamp, t, rows[i].event_type, rows[i].event_data, rows[i].prev_hash);
    let r2 = rows.update(i, AuditEntryModel { timestamp: t, ..rows[i] });
    assert(r2[i].entry_hmac == rows[i].entry_hmac);
}

/// The audit logger's own state: the key of the chain and the limits on
/// logging, with the count of events admitted and dropped.
pub struct AuditLogger {
    machine_id: [u8; 32],
    max_events_per_window: Option<u32>,
    max_db_size: Option<u64>,
    events_in_window: u64,
    events_dropped: u64,
}

impl AuditLogger {
    /// The key that authenticates the chain.
    pub closed spec fn key(&self) -> Seq<u8> {
        self.machine_id@
    }

    /// The most events admitted, if limited.
    pub closed spec fn max_events(&self) -> Option<u32> {
        self.max_events_per_window
    }

    /// The database size beyond which events are dropped, if limited.
    pub closed spec fn size_limit(&self) -> Option<u64> {
        self.max_db_size
    }

    /// Events counted against the limit so far.
    pub closed spec fn admitted(&self) -> u64 {
        self.events_in_window
    }

    /// Events dropped by the limit so far.
    pub closed spec fn dropped(&self) -> u64 {
        self.events_dropped
    }

    /// Whether the event limit is reached.
    pub open spec fn at_event_limit(&self) -> bool {
        self.max_events() matches Some(max) && self.admitted() >= max
    }

    /// A logger keyed with `machine_id`, with nothing admitted or dropped yet.
    pub fn new(machine_id: [u8; 32], max_events_per_window: Option<u32>, max_db_size: Option<u64>) -> (res: AuditLogger)
        ensures
            res.key() == machine_id@,
            res.max_events() == max_events_per_window,
            res.size_limit() == max_db_size,
            res.admitted() == 0,
            res.dropped() == 0,
    {
        AuditLogger { machine_id, max_events_per_window, max_db_size, events_in_window: 0, events_dropped: 0 }
    }

    /// Whether an event may be written, given the measured database size (if
    /// it could be measured). At the event limit the event is dropped and
    /// counted as dropped; otherwise it counts against the limit (if there is
    /// one) and is dropped only when the database is larger than its limit.
    pub fn admit_event(&mut self, db_size: Option<u64>) -> (res: bool)
        requires
            old(self).at_event_limit() ==> old(self).dropped() < u64::MAX,
        ensures
            final(self).key() == old(self).key(),
            final(self).max_events() == old(self).max_events(),
            final(self).size_limit() == old(self).size_limit(),
            old(self).at_event_limit() ==> !res && final(self).dropped() == old(self).dropped() + 1
                && final(self).admitted() == old(self).admitted(),
            !old(self).at_event_limit() ==> {
                &&& final(self).dropped() == old(self).dropped()
                &&& final(self).admitted() == if old(self).max_events() is Some {
                    old(self).admitted() + 1
                } else {
                    old(self).admitted() as int
                }
                &&& res == !(old(self).size_limit() matches Some(limit) && db_size matches Some(size) && size > limit)
            },
            old(self).max_events() is Some && old(self).admitted() <= old(self).max_events().unwrap()
                ==> final(self).admitted() <= old(self).max_events().unwrap(),
            final(self).admitted() == admitted_after(old(self).max_events(), old(self).admitted() as nat),
            final(self).dropped() == dropped_after(old(self).max_events(), old(self).admitted() as nat, old(self).dropped() as nat),
            res == admit_answer(old(self).max_events(), old(self).size_limit(), old(self).admitted() as nat, db_size),
    {
        if let Some(max) = self.max_events_per_window {
            if self.events_in_window >= max as u64 {
                self.events_dropped = self.events_dropped + 1;
                return false;
            }
            self.events_in_window = self.events_in_window + 1;
        }
        if let Some(max_size) = self.max_db_size {
            if let Some(size) = db_size {
                if size > max_size {
                    return false;
                }
            }
        }
        true
    }

    /// The most events admitted, if limited.
    pub fn max_events_per_window(&self) -> (res: Option<u32>)
        ensures
            res == self.max_events(),
    {
        self.max_events_per_window
    }

    /// The database size beyond which events are dropped, if limited.
    pub fn max_db_size(&self) -> (res: Option<u64>)
        ensures
            res == self.size_limit(),
    {
        self.max_db_size
    }

    /// Whether the next offered event gets as far as the size check: it is
    /// not at the event limit and there is a size limit. Only then does the
    /// database size need measuring.
    pub fn size_check_due(&self) -> (res: bool)
        ensures
            res == (!self.at_event_limit() && self.size_limit() is Some),
    {
        let at_limit = match self.max_events_per_window {
            Some(max) => self.events_in_window >= max as u64,
            None => false,
        };
        !at_limit && self.max_db_size.is_some()
    }

    /// The size of the database from its page count and page size.
    pub fn database_size_bytes(&self, page_count: u64, page_size: u64) -> (res: u64)
        requires
            page_count * page_size <= u64::MAX,
        ensures
            res == page_count * page_size,
    {
        page_count * page_size
    }

    /// The counts of events admitted and dropped.
    pub fn rate_limit_stats(&self) -> (res: (u64, u64))
        ensures
            res == (self.admitted(), self.dropped()),
    {
        (self.events_in_window, self.events_dropped)
    }

    /// The name under which `event` is stored.
    pub fn event_type_name(&self, event: &AuditEvent) -> (res: String)
        ensures
            res@ == event_type_text(*event),
    {
        match event {
            AuditEvent::VaultInitialized { .. } => "VaultInitialized".to_string(),
            AuditEvent::VaultUnlocked { .. } => "VaultUnlocked".to_string(),
            AuditEvent::VaultLocked { .. } => "VaultLocked".to_string(),
            AuditEvent::FailedUnlockAttempt { .. } => "FailedUnlockAttempt".to_string(),
            AuditEvent::TpmError { .. } => "TpmError".to_string(),
            AuditEvent::TpmPcrMismatch { .. } => "TpmPcrMismatch".to_string(),
            AuditEvent::TpmUnsealAttempt { .. } => "TpmUnsealAttempt".to_string(),
            AuditEvent::ServiceStarted { .. } => "ServiceStarted".to_string(),
            AuditEvent::ServiceStopped { .. } => "ServiceStopped".to_string(),
        }
    }

    /// The hash that the next row links to, given the HMAC of the last row.
    pub fn get_last_hash(&self, last_hmac: Option<Vec<u8>>) -> (res: Vec<u8>)
        ensures
            res@ == chain_head(match last_hmac {
                Some(h) => Some(h@),
                None => None,
            }),
    {
        match last_hmac {
            Some(h) => h,
            None => zero_bytes(32),
        }
    }

    /// The HMAC of a row under the logger's key.
    pub fn compute_entry_hmac(&self, timestamp: i64, event_type: &str, event_data: &str, prev_hash: &[u8]) -> (res: VaultResult<Vec<u8>>)
        ensures
            res matches Ok(t) && t@ == hmac_sha256_tag(self.key(), entry_message(timestamp, event_type@, event_data@, prev_hash@)),
    {
        let mut msg = i64_le_bytes(timestamp);
        append_bytes(&mut msg, event_type.as_bytes());
        append_bytes(&mut msg, event_data.as_bytes());
        append_bytes(&mut msg, prev_hash);
        match hmac_sha256(self.machine_id.as_slice(), msg.as_slice()) {
            Ok(tag) => Ok(tag),
            Err(_) => Err(VaultError::Crypto("HMAC init: Invalid Length".to_string())),
        }
    }

    /// The row that logging `event` at `timestamp` appends, with its serialized
    /// data, after a last row whose HMAC is `last_hmac` (none for an empty log).
    pub fn prepare_entry(&self, timestamp: i64, event: &AuditEvent, event_data: String, last_hmac: Option<Vec<u8>>) -> (res: VaultResult<AuditEntry>)
        ensures
            res matches Ok(e) && e.timestamp == timestamp && e.event_type@ == event_type_text(*event)
                && e.event_data@ == event_data@ && e.prev_hash@ == chain_head(match last_hmac {
                Some(h) => Some(h@),
                None => None,
            }) && e.entry_hmac@ == entry_tag(self.key(), e@),
    {
        let event_type = self.event_type_name(event);
        let prev_hash = self.get_last_hash(last_hmac);
        let entry_hmac = self.compute_entry_hmac(timestamp, event_type.as_str(), event_data.as_str(), prev_hash.as_slice())?;
        Ok(AuditEntry { timestamp, event_type, event_data, prev_hash, entry_hmac })
    }

    /// Checks the chain of rows, in log order: a row is valid when it names the
    /// HMAC of the row before it (32 zero bytes for the first) and carries the
    /// HMAC of its own contents. The chain is intact when every row is valid.
    pub fn verify_chain(&self, rows: &Vec<AuditEntry>) -> (res: VaultResult<ChainResult>)
        ensures
            res matches Ok(r) && r.total_entries == rows@.len()
                && r.valid_entries == valid_count(self.key(), rows_view(rows@), rows@.len() as int)
                && r.is_intact == chain_intact(self.key(), rows_view(rows@)),
    {
        let ghost view = rows_view(rows@);
        let total = rows.len();
        let mut valid: u64 = 0;
        let mut prev_hmac = zero_bytes(32);
        let mut i: usize = 0;
        while i < total
            invariant
                total == rows@.len(),
                view == rows_view(rows@),
                i <= total,
                valid == valid_count(self.key(), view, i as int),
                valid <= i,
                prev_hmac@ == expected_prev(view, i as int),
            decreases total - i,
        {
            let row = &rows[i];
            assert(view[i as int] == row@);
            if bytes_equal(row.prev_hash.as_slice(), prev_hmac.as_slice()) {
                let computed = self.compute_entry_hmac(row.timestamp, row.event_type.as_str(), row.event_data.as_str(), row.prev_hash.as_slice())?;
                if bytes_equal(computed.as_slice(), row.entry_hmac.as_slice()) {
                    valid = valid + 1;
                }
            }
            prev_hmac = bytes_to_vec(row.entry_hmac.as_slice());
            i = i + 1;
        }
        proof {
            lemma_valid_count(self.key(), view, total as int);
        }
        Ok(ChainResult { total_entries: total as u64, is_intact: valid == total as u64, valid_entries: valid })
    }
}

} // verus!
