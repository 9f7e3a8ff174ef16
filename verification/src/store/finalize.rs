//! What a run commits when it ends, and the checks that come before.
use crate::contract::{
    clone_all, opt_view, views, ContextRunRecord, ContextRunRecordView, Diagnostic,
    DiagnosticSeverity, DiagnosticView, EngineStatus, ErrorCode, ExtensionMetric,
    ExtensionMetricView, RunDiagnosticRecord, RunDiagnosticRecordView, RunStatus, StageMetric,
};
use crate::ordered::{lemma_position, position, TextIndex, TextSet};
use crate::source_guard::opt_text_eq;
use crate::store::artifact::{
    ArtifactDraft, ArtifactDraftView, SnapshotKeyParts, SnapshotKeyPartsView,
};
use crate::store::cache::{CacheWriteRecord, CacheWriteRecordView};
use crate::store::inventory::{
    FileResultRecord, FileResultRecordView, InventoryRecord, InventoryRecordView,
    PdfClassificationAuditV1, PdfClassificationAuditV1View,
};
use crate::store::relations::{
    context_fault, decision_ids, first_fault, inventory_ids, objection, refused_with,
    relations_fault, result_ids, validate_context, validate_context_relations, MAX_FINAL_ROWS,
};
use crate::store::run::{
    checked_i64, engine_status_matches, envelope_status_matches,
    law_ended_runs_are_stored_as_they_ended, law_ends_are_stored_under_their_name, outcome_view,
    owned_run, replay_agrees, replay_fault, request_digest, stored_terminal_status,
    terminal_status, too_large, ActiveRun, ActiveRunView, ContextEnvelope, ContextEnvelopeView,
    EngineFingerprintView, RunLedgerView, RunRowView, StoreError, StoreErrorView,
};
use crate::text::{
    char_count, framed, law_frames_are_told_apart, text_bytes, text_eq, u64_text, utf8_len,
};
use vstd::prelude::*;
use vstd::string::StringExecFns;

verus! {

/// The most diagnostics that one run commits.
pub const MAX_FINAL_DIAGNOSTICS: usize = 100_001;

/// An artifact that answers for a snapshot key, and the run that it is taken from.
#[derive(Clone, Copy, Debug, PartialEq, Eq)]
pub struct SnapshotHit {
    pub artifact_id: i64,
    pub source_context_run_id: i64,
}

/// The artifact that a run takes over, and the run that it takes it from.
#[derive(Clone, Copy, Debug, PartialEq, Eq)]
pub struct SnapshotHitRef {
    pub artifact_id: i64,
    pub reused_from_context_run_id: i64,
}

/// What the end of a run took, and how many rows it wrote.
#[derive(Clone, Copy, Debug, PartialEq, Eq)]
pub struct TerminalAuditTimings {
    pub current_run_audit_write_ms: u64,
    pub terminal_precommit_ms: u64,
    pub envelope_rebuild_ms: u64,
    pub terminal_rows_written: u64,
}

/// What a run did, in numbers.
#[derive(Clone, Copy, Debug, PartialEq, Eq)]
pub struct ExecutionMetricsV2 {
    pub discovery_observed_file_count: u64,
    pub source_guard_content_hash_file_count: u64,
    pub source_guard_unavailable_count: u64,
    pub source_guard_bytes_read: u64,
    pub candidate_file_count: u64,
    pub admitted_file_count: u64,
    pub classification_slot_count: u64,
    pub confirmed_run_inspected_pages_total: u64,
    pub unobserved_classification_attempt_count: u64,
    pub nominal_charged_pages_total: u64,
    pub extraction_slot_count: u64,
    pub pdfplumber_invocations: u64,
    pub snapshot_hit: bool,
    pub parse_cache_lookup_count: u64,
    pub classification_cache_lookup_count: u64,
    pub parse_cache_all_hit: Option<bool>,
    pub classification_cache_all_hit: Option<bool>,
    pub stage_deadline_exhausted_count: u64,
    pub session_restart_count: u64,
    pub session_fallback_count: u64,
    pub classify_attempt_count: u64,
    pub parse_attempt_count: u64,
    pub reserved_chars: u64,
    pub rendered_chars: u64,
    pub worker_handshake_ms: u64,
    pub discovery_ms: u64,
    pub snapshot_lookup_ms: u64,
    pub current_run_audit_write_ms: u64,
    pub terminal_precommit_ms: u64,
    pub deadline_precommit_elapsed_ms: u64,
    pub envelope_rebuild_ms: u64,
    pub terminal_rows_written: u64,
    pub peak_worker_rss_bytes: Option<u64>,
}

/// Everything that a run commits when it ends.
#[derive(Debug, PartialEq, Eq)]
pub struct FinalizationBatch {
    pub status: RunStatus,
    pub envelope_json: String,
    pub inventory: Vec<InventoryRecord>,
    pub cache_writes: Vec<CacheWriteRecord>,
    pub file_results: Vec<FileResultRecord>,
    pub diagnostics: Vec<RunDiagnosticRecord>,
    pub stage_metrics: Vec<StageMetric>,
    pub extension_metrics: Vec<ExtensionMetric>,
    pub context: Option<ContextRunRecord>,
    pub artifact: Option<ArtifactDraft>,
    pub snapshot_key: Option<SnapshotKeyParts>,
    pub snapshot_hit: Option<SnapshotHitRef>,
    pub execution_metrics: Option<ExecutionMetricsV2>,
}

/// What a [`FinalizationBatch`] says.
#[verifier::ext_equal]
pub struct FinalizationBatchView {
    pub status: RunStatus,
    pub envelope_json: Seq<char>,
    pub inventory: Seq<InventoryRecordView>,
    pub cache_writes: Seq<CacheWriteRecordView>,
    pub file_results: Seq<FileResultRecordView>,
    pub diagnostics: Seq<RunDiagnosticRecordView>,
    pub stage_metrics: Seq<StageMetric>,
    pub extension_metrics: Seq<ExtensionMetricView>,
    pub context: Option<ContextRunRecordView>,
    pub artifact: Option<ArtifactDraftView>,
    pub snapshot_key: Option<SnapshotKeyPartsView>,
    pub snapshot_hit: Option<SnapshotHitRef>,
    pub execution_metrics: Option<ExecutionMetricsV2>,
}

impl View for FinalizationBatch {
    type V = FinalizationBatchView;

    open spec fn view(&self) -> FinalizationBatchView {
        FinalizationBatchView {
            status: self.status,
            envelope_json: self.envelope_json@,
            inventory: views(self.inventory@),
            cache_writes: views(self.cache_writes@),
            file_results: views(self.file_results@),
            diagnostics: views(self.diagnostics@),
            stage_metrics: self.stage_metrics@,
            extension_metrics: views(self.extension_metrics@),
            context: opt_view(self.context),
            artifact: opt_view(self.artifact),
            snapshot_key: opt_view(self.snapshot_key),
            snapshot_hit: self.snapshot_hit,
            execution_metrics: self.execution_metrics,
        }
    }
}

impl Clone for FinalizationBatch {
    fn clone(&self) -> (copy: Self)
        ensures
            copy@ == self@,
    {
        FinalizationBatch {
            status: self.status,
            envelope_json: self.envelope_json.clone(),
            inventory: clone_all(&self.inventory),
            cache_writes: clone_all(&self.cache_writes),
            file_results: clone_all(&self.file_results),
            diagnostics: clone_all(&self.diagnostics),
            stage_metrics: self.stage_metrics.clone(),
            extension_metrics: clone_all(&self.extension_metrics),
            context: match &self.context {
                Some(value) => Some(value.clone()),
                None => None,
            },
            artifact: match &self.artifact {
                Some(value) => Some(value.clone()),
                None => None,
            },
            snapshot_key: self.snapshot_key.clone(),
            snapshot_hit: self.snapshot_hit,
            execution_metrics: self.execution_metrics,
        }
    }
}

/// The first number, in the order of the stored columns, that is too large to be
/// stored.
pub open spec fn metrics_fault(metrics: ExecutionMetricsV2) -> Option<StoreErrorView> {
    if metrics.discovery_observed_file_count > i64::MAX {
        Some(too_large("discovery_observed_file_count"@))
    } else if metrics.source_guard_content_hash_file_count > i64::MAX {
        Some(too_large("source_guard_content_hash_file_count"@))
    } else if metrics.source_guard_unavailable_count > i64::MAX {
        Some(too_large("source_guard_unavailable_count"@))
    } else if metrics.source_guard_bytes_read > i64::MAX {
        Some(too_large("source_guard_bytes_read"@))
    } else if metrics.candidate_file_count > i64::MAX {
        Some(too_large("candidate_file_count"@))
    } else if metrics.admitted_file_count > i64::MAX {
        Some(too_large("admitted_file_count"@))
    } else if metrics.classification_slot_count > i64::MAX {
        Some(too_large("classification_slot_count"@))
    } else if metrics.confirmed_run_inspected_pages_total > i64::MAX {
        Some(too_large("confirmed_run_inspected_pages_total"@))
    } else if metrics.unobserved_classification_attempt_count > i64::MAX {
        Some(too_large("unobserved_classification_attempt_count"@))
    } else if metrics.nominal_charged_pages_total > i64::MAX {
        Some(too_large("nominal_charged_pages_total"@))
    } else if metrics.extraction_slot_count > i64::MAX {
        Some(too_large("extraction_slot_count"@))
    } else if metrics.pdfplumber_invocations > i64::MAX {
        Some(too_large("pdfplumber_invocations"@))
    } else if metrics.parse_cache_lookup_count > i64::MAX {
        Some(too_large("parse_cache_lookup_count"@))
    } else if metrics.classification_cache_lookup_count > i64::MAX {
        Some(too_large("classification_cache_lookup_count"@))
    } else if metrics.stage_deadline_exhausted_count > i64::MAX {
        Some(too_large("stage_deadline_exhausted_count"@))
    } else if metrics.session_restart_count > i64::MAX {
        Some(too_large("session_restart_count"@))
    } else if metrics.session_fallback_count > i64::MAX {
        Some(too_large("session_fallback_count"@))
    } else if metrics.classify_attempt_count > i64::MAX {
        Some(too_large("classify_attempt_count"@))
    } else if metrics.parse_attempt_count > i64::MAX {
        Some(too_large("parse_attempt_count"@))
    } else if metrics.reserved_chars > i64::MAX {
        Some(too_large("reserved_chars"@))
    } else if metrics.rendered_chars > i64::MAX {
        Some(too_large("rendered_chars"@))
    } else if metrics.worker_handshake_ms > i64::MAX {
        Some(too_large("worker_handshake_ms"@))
    } else if metrics.discovery_ms > i64::MAX {
        Some(too_large("discovery_ms"@))
    } else if metrics.snapshot_lookup_ms > i64::MAX {
        Some(too_large("snapshot_lookup_ms"@))
    } else if metrics.current_run_audit_write_ms > i64::MAX {
        Some(too_large("current_run_audit_write_ms"@))
    } else if metrics.terminal_precommit_ms > i64::MAX {
        Some(too_large("terminal_precommit_ms"@))
    } else if metrics.deadline_precommit_elapsed_ms > i64::MAX {
        Some(too_large("deadline_precommit_elapsed_ms"@))
    } else if metrics.envelope_rebuild_ms > i64::MAX {
        Some(too_large("envelope_rebuild_ms"@))
    } else if metrics.terminal_rows_written > i64::MAX {
        Some(too_large("terminal_rows_written"@))
    } else {
        None
    }
}

/// Checks that every number can be stored.
pub fn check_execution_metrics(metrics: &ExecutionMetricsV2) -> (verdict: Result<(), StoreError>)
    ensures
        outcome_view(verdict) == match metrics_fault(*metrics) {
            Some(fault) => Err(fault),
            None => Ok(()),
        },
{
    if let Err(error) = checked_i64(metrics.discovery_observed_file_count, "discovery_observed_file_count") {
        return Err(error);
    }
    if let Err(error) = checked_i64(metrics.source_guard_content_hash_file_count, "source_guard_content_hash_file_count") {
        return Err(error);
    }
    if let Err(error) = checked_i64(metrics.source_guard_unavailable_count, "source_guard_unavailable_count") {
        return Err(error);
    }
    if let Err(error) = checked_i64(metrics.source_guard_bytes_read, "source_guard_bytes_read") {
        return Err(error);
    }
    if let Err(error) = checked_i64(metrics.candidate_file_count, "candidate_file_count") {
        return Err(error);
    }
    if let Err(error) = checked_i64(metrics.admitted_file_count, "admitted_file_count") {
        return Err(error);
    }
    if let Err(error) = checked_i64(metrics.classification_slot_count, "classification_slot_count") {
        return Err(error);
    }
    if let Err(error) = checked_i64(metrics.confirmed_run_inspected_pages_total, "confirmed_run_inspected_pages_total") {
        return Err(error);
    }
    if let Err(error) = checked_i64(metrics.unobserved_classification_attempt_count, "unobserved_classification_attempt_count") {
        return Err(error);
    }
    if let Err(error) = checked_i64(metrics.nominal_charged_pages_total, "nominal_charged_pages_total") {
        return Err(error);
    }
    if let Err(error) = checked_i64(metrics.extraction_slot_count, "extraction_slot_count") {
        return Err(error);
    }
    if let Err(error) = checked_i64(metrics.pdfplumber_invocations, "pdfplumber_invocations") {
        return Err(error);
    }
    if let Err(error) = checked_i64(metrics.parse_cache_lookup_count, "parse_cache_lookup_count") {
        return Err(error);
    }
    if let Err(error) = checked_i64(metrics.classification_cache_lookup_count, "classification_cache_lookup_count") {
        return Err(error);
    }
    if let Err(error) = checked_i64(metrics.stage_deadline_exhausted_count, "stage_deadline_exhausted_count") {
        return Err(error);
    }
    if let Err(error) = checked_i64(metrics.session_restart_count, "session_restart_count") {
        return Err(error);
    }
    if let Err(error) = checked_i64(metrics.session_fallback_count, "session_fallback_count") {
        return Err(error);
    }
    if let Err(error) = checked_i64(metrics.classify_attempt_count, "classify_attempt_count") {
        return Err(error);
    }
    if let Err(error) = checked_i64(metrics.parse_attempt_count, "parse_attempt_count") {
        return Err(error);
    }
    if let Err(error) = checked_i64(metrics.reserved_chars, "reserved_chars") {
        return Err(error);
    }
    if let Err(error) = checked_i64(metrics.rendered_chars, "rendered_chars") {
        return Err(error);
    }
    if let Err(error) = checked_i64(metrics.worker_handshake_ms, "worker_handshake_ms") {
        return Err(error);
    }
    if let Err(error) = checked_i64(metrics.discovery_ms, "discovery_ms") {
        return Err(error);
    }
    if let Err(error) = checked_i64(metrics.snapshot_lookup_ms, "snapshot_lookup_ms") {
        return Err(error);
    }
    if let Err(error) = checked_i64(metrics.current_run_audit_write_ms, "current_run_audit_write_ms") {
        return Err(error);
    }
    if let Err(error) = checked_i64(metrics.terminal_precommit_ms, "terminal_precommit_ms") {
        return Err(error);
    }
    if let Err(error) = checked_i64(metrics.deadline_precommit_elapsed_ms, "deadline_precommit_elapsed_ms") {
        return Err(error);
    }
    if let Err(error) = checked_i64(metrics.envelope_rebuild_ms, "envelope_rebuild_ms") {
        return Err(error);
    }
    if let Err(error) = checked_i64(metrics.terminal_rows_written, "terminal_rows_written") {
        return Err(error);
    }
    Ok(())
}

impl TerminalAuditTimings {
    /// The metrics, with what the end of the run took.
    pub fn bind(&self, metrics: &ExecutionMetricsV2) -> (bound: ExecutionMetricsV2)
        ensures
            bound == (ExecutionMetricsV2 {
                current_run_audit_write_ms: self.current_run_audit_write_ms,
                terminal_precommit_ms: self.terminal_precommit_ms,
                envelope_rebuild_ms: self.envelope_rebuild_ms,
                terminal_rows_written: self.terminal_rows_written,
                ..*metrics
            }),
    {
        let mut bound: ExecutionMetricsV2 = *metrics;
        bound.current_run_audit_write_ms = self.current_run_audit_write_ms;
        bound.terminal_precommit_ms = self.terminal_precommit_ms;
        bound.envelope_rebuild_ms = self.envelope_rebuild_ms;
        bound.terminal_rows_written = self.terminal_rows_written;
        bound
    }
}

impl Default for TerminalAuditTimings {
    fn default() -> (timings: Self)
        ensures
            timings == (TerminalAuditTimings {
                current_run_audit_write_ms: 0,
                terminal_precommit_ms: 0,
                envelope_rebuild_ms: 0,
                terminal_rows_written: 0,
            }),
    {
        TerminalAuditTimings {
            current_run_audit_write_ms: 0,
            terminal_precommit_ms: 0,
            envelope_rebuild_ms: 0,
            terminal_rows_written: 0,
        }
    }
}

/// What the wire contract says of the parts of a batch, and the envelope that its
/// JSON holds, where it holds one.
pub struct FinalizationVerdicts {
    /// Whether the audit projection of each file result is accepted.
    pub file_audits: Vec<bool>,
    /// Whether the error of each file result is accepted.
    pub file_errors: Vec<bool>,
    pub diagnostics: Vec<Result<(), String>>,
    pub metrics: Result<(), String>,
    pub envelope: Option<ContextEnvelope>,
    pub envelope_verdict: Result<(), String>,
    /// Whether the envelope's canonical JSON is that of the batch.
    pub canonical: bool,
    pub summary: Result<(), String>,
    pub decisions: Vec<Result<(), String>>,
}

impl FinalizationVerdicts {
    /// There is a verdict for every row.
    pub open spec fn cover(self, batch: FinalizationBatchView) -> bool {
        &&& self.file_audits@.len() == batch.file_results.len()
        &&& self.file_errors@.len() == batch.file_results.len()
        &&& self.diagnostics@.len() == batch.diagnostics.len()
        &&& (batch.context matches Some(context) ==> self.decisions@.len()
            == context.decisions.len())
    }
}

// ---------------------------------------------------------------------------
// Rows
// ---------------------------------------------------------------------------

/// What is wrong with the inventory rows from `from` on.
pub open spec fn inventory_fault(rows: Seq<InventoryRecordView>, from: int) -> Option<Seq<char>>
    decreases rows.len() - from,
{
    if from < 0 || from >= rows.len() {
        None
    } else if rows[from].fault() is Some {
        rows[from].fault()
    } else if position(inventory_ids(rows.take(from)), rows[from].file_identity, 0) is Some {
        Some("inventory identities must be unique"@)
    } else {
        inventory_fault(rows, from + 1)
    }
}

fn check_inventory(rows: &Vec<InventoryRecord>) -> (checked: Result<TextIndex, StoreError>)
    requires
        rows@.len() <= MAX_FINAL_ROWS,
    ensures
        match checked {
            Ok(index) => inventory_fault(views(rows@), 0) is None && index@ == inventory_ids(
                views(rows@),
            ),
            Err(error) => inventory_fault(views(rows@), 0) is Some && error@
                == StoreErrorView::InvalidRequest(inventory_fault(views(rows@), 0)->0),
        },
{
    let ghost all = views(rows@);
    let mut index = TextIndex::new();
    let mut i: usize = 0;
    assert(inventory_ids(all.take(0)) =~= Seq::<Seq<char>>::empty());
    while i < rows.len()
        invariant
            i <= rows.len(),
            rows@.len() <= MAX_FINAL_ROWS,
            all == views(rows@),
            index@ == inventory_ids(all.take(i as int)),
            inventory_fault(all, 0) == inventory_fault(all, i as int),
        decreases rows.len() - i,
    {
        let row: &InventoryRecord = &rows[i];
        assert(all[i as int] == row@);
        if let Err(message) = row.validate() {
            return Err(StoreError::invalid(message.as_str()));
        }
        assert(index@.len() == i);
        if !index.add_at(row.file_identity.as_str(), i) {
            return Err(StoreError::invalid("inventory identities must be unique"));
        }
        assert(inventory_ids(all.take(i + 1)) =~= inventory_ids(all.take(i as int)).push(
            row@.file_identity,
        ));
        i = i + 1;
    }
    assert(all.take(i as int) =~= all);
    Ok(index)
}

/// The two writes go to the same cache entry.
pub open spec fn same_entry(left: CacheWriteRecordView, right: CacheWriteRecordView) -> bool {
    &&& left.file_identity == right.file_identity
    &&& left.source_version == right.source_version
    &&& left.parse_profile_hash == right.parse_profile_hash
}

/// An earlier write goes to the same cache entry as that at `at`.
pub open spec fn written_before(writes: Seq<CacheWriteRecordView>, at: int) -> bool {
    exists|i: int| 0 <= i < at && same_entry(#[trigger] writes[i], writes[at])
}

/// What is wrong with the cache writes from `from` on.
pub open spec fn cache_writes_fault(
    writes: Seq<CacheWriteRecordView>,
    inventory: Seq<InventoryRecordView>,
    from: int,
) -> Option<Seq<char>>
    decreases writes.len() - from,
{
    if from < 0 || from >= writes.len() {
        None
    } else if !writes[from].valid() {
        Some("invalid successful cache record"@)
    } else if position(inventory_ids(inventory), writes[from].file_identity, 0) is None
        || written_before(writes, from) {
        Some("cache writes must reference unique inventory versions"@)
    } else {
        cache_writes_fault(writes, inventory, from + 1)
    }
}

spec fn entry_key(write: CacheWriteRecordView) -> Seq<char> {
    framed(write.file_identity) + (framed(write.source_version) + write.parse_profile_hash)
}

spec fn entry_keys(writes: Seq<CacheWriteRecordView>) -> Seq<Seq<char>> {
    writes.map_values(|write: CacheWriteRecordView| entry_key(write))
}

proof fn lemma_entry_keys(left: CacheWriteRecordView, right: CacheWriteRecordView)
    ensures
        (entry_key(left) == entry_key(right)) == same_entry(left, right),
{
    if entry_key(left) == entry_key(right) {
        law_frames_are_told_apart(
            left.file_identity,
            framed(left.source_version) + left.parse_profile_hash,
            right.file_identity,
            framed(right.source_version) + right.parse_profile_hash,
        );
        law_frames_are_told_apart(
            left.source_version,
            left.parse_profile_hash,
            right.source_version,
            right.parse_profile_hash,
        );
    }
}

proof fn lemma_written_before(writes: Seq<CacheWriteRecordView>, at: int)
    requires
        0 <= at < writes.len(),
    ensures
        written_before(writes, at) == (position(
            entry_keys(writes.take(at)),
            entry_key(writes[at]),
            0,
        ) is Some),
{
    let keys = entry_keys(writes.take(at));
    let key = entry_key(writes[at]);
    lemma_position(keys, key, 0);
    if let Some(i) = position(keys, key, 0) {
        assert(keys[i] == entry_key(writes[i]));
        lemma_entry_keys(writes[i], writes[at]);
    }
    if written_before(writes, at) {
        let i = choose|i: int| 0 <= i < at && same_entry(#[trigger] writes[i], writes[at]);
        lemma_entry_keys(writes[i], writes[at]);
        assert(keys[i] == key);
    }
}

fn push_framed(text: &mut String, part: &str)
    ensures
        final(text)@ == old(text)@ + framed(part@),
{
    let ghost before = text@;
    let count: usize = char_count(part);
    let length: String = u64_text(count as u64);
    text.append(length.as_str());
    text.push(':');
    text.append(part);
    assert(text@ =~= before + framed(part@));
}

fn entry_key_text(write: &CacheWriteRecord) -> (key: String)
    ensures
        key@ == entry_key(write@),
{
    let mut key: String = "".to_string();
    proof {
        reveal_strlit("");
    }
    push_framed(&mut key, write.file_identity.as_str());
    push_framed(&mut key, write.source_version.as_str());
    key.append(write.parse_profile_hash.as_str());
    assert(key@ =~= entry_key(write@));
    key
}

fn check_cache_writes(
    writes: &Vec<CacheWriteRecord>,
    inventory: &Vec<InventoryRecord>,
    index: &TextIndex,
) -> (verdict: Result<(), StoreError>)
    requires
        writes@.len() <= MAX_FINAL_ROWS,
        index@ == inventory_ids(views(inventory@)),
    ensures
        refused_with(
            verdict,
            cache_writes_fault(views(writes@), views(inventory@), 0),
        ),
{
    let ghost all = views(writes@);
    let ghost files = views(inventory@);
    let mut keys = TextIndex::new();
    let mut i: usize = 0;
    assert(entry_keys(all.take(0)) =~= Seq::<Seq<char>>::empty());
    while i < writes.len()
        invariant
            i <= writes.len(),
            writes@.len() <= MAX_FINAL_ROWS,
            all == views(writes@),
            files == views(inventory@),
            index@ == inventory_ids(files),
            keys@ == entry_keys(all.take(i as int)),
            cache_writes_fault(all, files, 0) == cache_writes_fault(all, files, i as int),
        decreases writes.len() - i,
    {
        let write: &CacheWriteRecord = &writes[i];
        assert(all[i as int] == write@);
        if let Err(message) = write.validate() {
            return Err(StoreError::invalid(message.as_str()));
        }
        if index.get(write.file_identity.as_str()).is_none() {
            return Err(
                StoreError::invalid("cache writes must reference unique inventory versions"),
            );
        }
        proof {
            lemma_written_before(all, i as int);
        }
        let key: String = entry_key_text(write);
        assert(keys@.len() == i);
        if !keys.add_at(key.as_str(), i) {
            return Err(
                StoreError::invalid("cache writes must reference unique inventory versions"),
            );
        }
        assert(entry_keys(all.take(i + 1)) =~= entry_keys(all.take(i as int)).push(
            entry_key(write@),
        ));
        i = i + 1;
    }
    Ok(())
}

/// What is wrong with the file results from `from` on. Rows that are taken over
/// from a snapshot have not been parsed by this run.
pub open spec fn results_fault(
    results: Seq<FileResultRecordView>,
    inventory: Seq<InventoryRecordView>,
    snapshot_rows: bool,
    audits: Seq<bool>,
    errors: Seq<bool>,
    from: int,
) -> Option<Seq<char>>
    decreases results.len() - from,
{
    if from < 0 || from >= results.len() {
        None
    } else if !results[from].persistable(snapshot_rows, audits[from], errors[from]) {
        Some("invalid scan file result"@)
    } else {
        match position(inventory_ids(inventory), results[from].file_identity, 0) {
            None => Some("file result does not reference final inventory"@),
            Some(at) => if inventory[at].source_version != results[from].source_version || position(
                result_ids(results.take(from)),
                results[from].file_identity,
                0,
            ) is Some {
                Some("file results must uniquely match inventory source versions"@)
            } else {
                results_fault(results, inventory, snapshot_rows, audits, errors, from + 1)
            },
        }
    }
}

fn check_results(
    results: &Vec<FileResultRecord>,
    inventory: &Vec<InventoryRecord>,
    index: &TextIndex,
    snapshot_rows: bool,
    audits: &Vec<bool>,
    errors: &Vec<bool>,
) -> (checked: Result<TextIndex, StoreError>)
    requires
        results@.len() <= MAX_FINAL_ROWS,
        audits@.len() == results@.len(),
        errors@.len() == results@.len(),
        index@ == inventory_ids(views(inventory@)),
    ensures
        ({
            let fault = results_fault(
                views(results@),
                views(inventory@),
                snapshot_rows,
                audits@,
                errors@,
                0,
            );
            match checked {
                Ok(found) => fault is None && found@ == result_ids(views(results@)),
                Err(error) => fault is Some && error@ == StoreErrorView::InvalidRequest(fault->0),
            }
        }),
{
    let ghost all = views(results@);
    let ghost files = views(inventory@);
    let mut found = TextIndex::new();
    let mut i: usize = 0;
    assert(result_ids(all.take(0)) =~= Seq::<Seq<char>>::empty());
    while i < results.len()
        invariant
            i <= results.len(),
            results@.len() <= MAX_FINAL_ROWS,
            audits@.len() == results@.len(),
            errors@.len() == results@.len(),
            all == views(results@),
            files == views(inventory@),
            index@ == inventory_ids(files),
            found@ == result_ids(all.take(i as int)),
            results_fault(all, files, snapshot_rows, audits@, errors@, 0) == results_fault(
                all,
                files,
                snapshot_rows,
                audits@,
                errors@,
                i as int,
            ),
        decreases results.len() - i,
    {
        let result: &FileResultRecord = &results[i];
        assert(all[i as int] == result@);
        if let Err(message) = result.validate_for_persistence(snapshot_rows, audits[i], errors[i]) {
            return Err(StoreError::invalid(message.as_str()));
        }
        let at: usize = match index.get(result.file_identity.as_str()) {
            Some(at) => at,
            None => {
                return Err(StoreError::invalid("file result does not reference final inventory"));
            },
        };
        assert(files[at as int] == inventory@[at as int]@);
        if !text_eq(inventory[at].source_version.as_str(), result.source_version.as_str()) {
            return Err(
                StoreError::invalid("file results must uniquely match inventory source versions"),
            );
        }
        assert(found@.len() == i);
        if !found.add_at(result.file_identity.as_str(), i) {
            return Err(
                StoreError::invalid("file results must uniquely match inventory source versions"),
            );
        }
        assert(result_ids(all.take(i + 1)) =~= result_ids(all.take(i as int)).push(
            result@.file_identity,
        ));
        i = i + 1;
    }
    assert(all.take(i as int) =~= all);
    Ok(found)
}

/// The cache write stores what the successful result found.
pub open spec fn write_agrees(write: CacheWriteRecordView, result: FileResultRecordView) -> bool {
    &&& result.parse_status == crate::contract::ParseStatus::Success
    &&& result.source_version == write.source_version
    &&& result.parse_profile_hash == write.parse_profile_hash
    &&& result.content_sha256 == write.content_sha256
}

/// What is wrong between the cache writes from `from` on and the file results.
pub open spec fn agreement_fault(
    writes: Seq<CacheWriteRecordView>,
    results: Seq<FileResultRecordView>,
    from: int,
) -> Option<Seq<char>>
    decreases writes.len() - from,
{
    if from < 0 || from >= writes.len() {
        None
    } else {
        match position(result_ids(results), writes[from].file_identity, 0) {
            None => Some("cache write has no matching successful file result"@),
            Some(at) => if !write_agrees(writes[from], results[at]) {
                Some("cache write disagrees with its successful file result"@)
            } else {
                agreement_fault(writes, results, from + 1)
            },
        }
    }
}

fn check_agreement(
    writes: &Vec<CacheWriteRecord>,
    results: &Vec<FileResultRecord>,
    index: &TextIndex,
) -> (verdict: Result<(), StoreError>)
    requires
        index@ == result_ids(views(results@)),
    ensures
        refused_with(verdict, agreement_fault(views(writes@), views(results@), 0)),
{
    let ghost all = views(writes@);
    let ghost known = views(results@);
    let mut i: usize = 0;
    while i < writes.len()
        invariant
            i <= writes.len(),
            all == views(writes@),
            known == views(results@),
            index@ == result_ids(known),
            agreement_fault(all, known, 0) == agreement_fault(all, known, i as int),
        decreases writes.len() - i,
    {
        let write: &CacheWriteRecord = &writes[i];
        assert(all[i as int] == write@);
        let at: usize = match index.get(write.file_identity.as_str()) {
            Some(at) => at,
            None => {
                return Err(
                    StoreError::invalid("cache write has no matching successful file result"),
                );
            },
        };
        assert(known[at as int] == results@[at as int]@);
        let result: &FileResultRecord = &results[at];
        if result.parse_status != crate::contract::ParseStatus::Success || !text_eq(
            result.source_version.as_str(),
            write.source_version.as_str(),
        ) || !text_eq(result.parse_profile_hash.as_str(), write.parse_profile_hash.as_str())
            || !text_eq(result.content_sha256.as_str(), write.content_sha256.as_str()) {
            return Err(
                StoreError::invalid("cache write disagrees with its successful file result"),
            );
        }
        i = i + 1;
    }
    Ok(())
}

/// The first objection, counted from `from`.
pub open spec fn first_objection(verdicts: Seq<Result<(), String>>, from: int) -> Option<Seq<char>>
    decreases verdicts.len() - from,
{
    if from < 0 || from >= verdicts.len() {
        None
    } else if objection(verdicts[from]) is Some {
        objection(verdicts[from])
    } else {
        first_objection(verdicts, from + 1)
    }
}

fn check_verdicts(verdicts: &Vec<Result<(), String>>) -> (verdict: Result<(), StoreError>)
    ensures
        refused_with(verdict, first_objection(verdicts@, 0)),
{
    let mut i: usize = 0;
    while i < verdicts.len()
        invariant
            i <= verdicts.len(),
            first_objection(verdicts@, 0) == first_objection(verdicts@, i as int),
        decreases verdicts.len() - i,
    {
        if let Err(message) = &verdicts[i] {
            return Err(StoreError::invalid(message.as_str()));
        }
        i = i + 1;
    }
    Ok(())
}

// ---------------------------------------------------------------------------
// The envelope
// ---------------------------------------------------------------------------

/// The diagnostics of the severity among the first `count` records, in order.
pub open spec fn of_severity(
    records: Seq<RunDiagnosticRecordView>,
    severity: DiagnosticSeverity,
    count: nat,
) -> Seq<DiagnosticView>
    decreases count,
{
    if count == 0 {
        Seq::empty()
    } else {
        let earlier = of_severity(records, severity, (count - 1) as nat);
        if records[count - 1].severity == severity {
            earlier.push(records[count - 1].diagnostic)
        } else {
            earlier
        }
    }
}

fn with_severity(records: &Vec<RunDiagnosticRecord>, severity: DiagnosticSeverity) -> (chosen: Vec<
    Diagnostic,
>)
    ensures
        views(chosen@) == of_severity(views(records@), severity, records@.len()),
{
    let ghost all = views(records@);
    let mut chosen: Vec<Diagnostic> = Vec::new();
    let mut i: usize = 0;
    assert(views(chosen@) =~= Seq::<DiagnosticView>::empty());
    while i < records.len()
        invariant
            i <= records.len(),
            all == views(records@),
            views(chosen@) == of_severity(all, severity, i as nat),
        decreases records.len() - i,
    {
        assert(all[i as int] == records@[i as int]@);
        if records[i].severity == severity {
            let ghost before = chosen@;
            let diagnostic: Diagnostic = records[i].diagnostic.clone();
            chosen.push(diagnostic);
            assert(views(chosen@) =~= views(before).push(diagnostic@));
        }
        i = i + 1;
    }
    chosen
}

fn diagnostic_eq(left: &Diagnostic, right: &Diagnostic) -> (same: bool)
    ensures
        same == (left@ == right@),
{
    let same: bool = left.error_code == right.error_code && left.retryable == right.retryable
        && left.stage == right.stage && text_eq(left.message.as_str(), right.message.as_str())
        && opt_text_eq(&left.file_path, &right.file_path) && opt_text_eq(
        &left.backend,
        &right.backend,
    );
    assert(same ==> left@ =~= right@);
    same
}

fn diagnostics_eq(left: &Vec<Diagnostic>, right: &Vec<Diagnostic>) -> (same: bool)
    ensures
        same == (views(left@) == views(right@)),
{
    assert(views(left@).len() == left.len());
    assert(views(right@).len() == right.len());
    if left.len() != right.len() {
        return false;
    }
    let mut i: usize = 0;
    while i < left.len()
        invariant
            i <= left.len(),
            left.len() == right.len(),
            forall|j: int| 0 <= j < i ==> views(left@)[j] == #[trigger] views(right@)[j],
        decreases left.len() - i,
    {
        assert(views(left@)[i as int] == left@[i as int]@);
        assert(views(right@)[i as int] == right@[i as int]@);
        if !diagnostic_eq(&left[i], &right[i]) {
            return false;
        }
        i = i + 1;
    }
    assert(views(left@) =~= views(right@));
    true
}

/// The one diagnostic, as a list, or none.
pub open spec fn as_list(error: Option<DiagnosticView>) -> Seq<DiagnosticView> {
    match error {
        Some(diagnostic) => seq![diagnostic],
        None => Seq::empty(),
    }
}

/// The envelope reports the diagnostics of the run: its warnings, and its error.
pub open spec fn envelope_reports(
    envelope: ContextEnvelopeView,
    records: Seq<RunDiagnosticRecordView>,
) -> bool {
    &&& of_severity(records, DiagnosticSeverity::Warning, records.len()) == envelope.warnings
    &&& of_severity(records, DiagnosticSeverity::Error, records.len()) == as_list(envelope.error)
}

fn check_reported(envelope: &ContextEnvelope, records: &Vec<RunDiagnosticRecord>) -> (holds: bool)
    ensures
        holds == envelope_reports(envelope@, views(records@)),
{
    assert(views(records@).len() == records@.len());
    let warnings: Vec<Diagnostic> = with_severity(records, DiagnosticSeverity::Warning);
    let errors: Vec<Diagnostic> = with_severity(records, DiagnosticSeverity::Error);
    let same_error: bool = match &envelope.error {
        None => errors.len() == 0,
        Some(error) => errors.len() == 1 && diagnostic_eq(&errors[0], error),
    };
    proof {
        let told = views(errors@);
        assert(told.len() == errors.len());
        if errors.len() == 0 {
            assert(told =~= Seq::<DiagnosticView>::empty());
        }
        if errors.len() == 1 {
            assert(told =~= seq![errors@[0]@]);
        }
        if envelope.error is Some && told == as_list(envelope@.error) {
            assert(told.len() == 1);
            assert(told[0] == (envelope.error->0)@);
        }
        assert(same_error == (told == as_list(envelope@.error)));
    }
    diagnostics_eq(&warnings, &envelope.warnings) && same_error
}

/// The answer is that of the run, with the status that the run ends with.
pub open spec fn envelope_answers(
    envelope: ContextEnvelopeView,
    active: ActiveRunView,
    status: RunStatus,
) -> bool {
    &&& envelope.request_id == active.request_id
    &&& envelope.scan_run_id == Some(active.scan_run_id as u64)
    &&& terminal_status(status) matches Ok(stored) && engine_status_matches(stored, envelope.status)
}

/// What is wrong with the envelope of a batch.
pub open spec fn envelope_fault(
    active: ActiveRunView,
    batch: FinalizationBatchView,
    verdicts: FinalizationVerdicts,
) -> Option<Seq<char>> {
    match verdicts.envelope {
        None => Some("final envelope JSON is invalid"@),
        Some(envelope) => if objection(verdicts.envelope_verdict) is Some {
            objection(verdicts.envelope_verdict)
        } else if !verdicts.canonical {
            Some("final envelope JSON must use canonical serialization"@)
        } else if !envelope_answers(envelope@, active, batch.status) {
            Some("final envelope does not match the active run"@)
        } else if !envelope_reports(envelope@, batch.diagnostics) {
            Some("final envelope diagnostics disagree with run diagnostics"@)
        } else {
            None
        },
    }
}

/// Whether the answer of an engine has the status that its run ends with.
pub fn final_status_matches(status: RunStatus, engine_status: EngineStatus) -> (yes: bool)
    ensures
        yes == (terminal_status(status) matches Ok(stored) && engine_status_matches(
            stored,
            engine_status,
        )),
{
    match stored_terminal_status(status) {
        Ok(stored) => envelope_status_matches(stored, engine_status),
        Err(_) => false,
    }
}

fn check_envelope(active: &ActiveRun, batch: &FinalizationBatch, verdicts: &FinalizationVerdicts)
    -> (verdict: Result<(), StoreError>)
    ensures
        refused_with(verdict, envelope_fault(active@, batch@, *verdicts)),
{
    let envelope: &ContextEnvelope = match &verdicts.envelope {
        Some(envelope) => envelope,
        None => {
            return Err(StoreError::invalid("final envelope JSON is invalid"));
        },
    };
    if let Err(message) = &verdicts.envelope_verdict {
        return Err(StoreError::invalid(message.as_str()));
    }
    if !verdicts.canonical {
        return Err(StoreError::invalid("final envelope JSON must use canonical serialization"));
    }
    let same_run: bool = match envelope.scan_run_id {
        Some(id) => id == active.scan_run_id(),
        None => false,
    };
    if !text_eq(envelope.request_id.as_str(), active.request_id()) || !same_run
        || !final_status_matches(batch.status, envelope.status) {
        return Err(StoreError::invalid("final envelope does not match the active run"));
    }
    if !check_reported(envelope, &batch.diagnostics) {
        return Err(
            StoreError::invalid("final envelope diagnostics disagree with run diagnostics"),
        );
    }
    Ok(())
}

// ---------------------------------------------------------------------------
// The context
// ---------------------------------------------------------------------------

/// The context is what the envelope says, and its decisions are about the files of
/// the inventory, each of which has a result.
pub open spec fn context_rows_agree(
    context: ContextRunRecordView,
    envelope: ContextEnvelopeView,
    batch: FinalizationBatchView,
) -> bool {
    &&& context.status == batch.status
    &&& context.final_context == envelope.file_context
    &&& context.summary == envelope.summary
    &&& context.summary.source_file_count == batch.inventory.len()
    &&& decision_ids(context.decisions).to_set() == inventory_ids(batch.inventory).to_set()
    &&& batch.file_results.len() == batch.inventory.len()
}

/// What is wrong with the context of a batch: by itself, with the envelope, or with
/// the other rows.
pub open spec fn batch_context_fault(
    active: ActiveRunView,
    batch: FinalizationBatchView,
    verdicts: FinalizationVerdicts,
) -> Option<Seq<char>> {
    let envelope = (verdicts.envelope->0)@;
    match (batch.context, envelope.context_run_id) {
        (None, None) => None,
        (Some(context), Some(id)) => if id != active.scan_run_id as u64 {
            Some("context run identity is inconsistent"@)
        } else if context_fault(context, verdicts.summary, verdicts.decisions@) is Some {
            context_fault(context, verdicts.summary, verdicts.decisions@)
        } else if !context_rows_agree(context, envelope, batch) {
            Some("context rows disagree with the final envelope"@)
        } else {
            relations_fault(
                context,
                batch.inventory,
                batch.file_results,
                batch.stage_metrics,
                batch.extension_metrics,
            )
        },
        _ => Some("context run identity is inconsistent"@),
    }
}

fn decided_files_are_the_inventory(
    context: &ContextRunRecord,
    inventory: &Vec<InventoryRecord>,
    index: &TextIndex,
) -> (same: bool)
    requires
        index@ == inventory_ids(views(inventory@)),
    ensures
        same == (decision_ids(context@.decisions).to_set() == inventory_ids(
            views(inventory@),
        ).to_set()),
{
    let ghost decided = decision_ids(context@.decisions);
    let ghost known = inventory_ids(views(inventory@));
    let mut seen = TextSet::new();
    let mut i: usize = 0;
    assert(decided.len() == context.decisions@.len());
    while i < context.decisions.len()
        invariant
            i <= context.decisions.len(),
            decided == decision_ids(context@.decisions),
            decided.len() == context.decisions@.len(),
            known == inventory_ids(views(inventory@)),
            index@ == known,
            forall|text: Seq<char>| #[trigger]
                seen@.contains(text) <==> exists|j: int| 0 <= j < i && decided[j] == text,
            forall|j: int| 0 <= j < i ==> known.contains(#[trigger] decided[j]),
        decreases context.decisions.len() - i,
    {
        let identity: &String = &context.decisions[i].file_identity;
        assert(context@.decisions[i as int] == context.decisions@[i as int]@);
        assert(decided[i as int] == identity@);
        proof {
            lemma_position(known, identity@, 0);
        }
        if index.get(identity.as_str()).is_none() {
            proof {
                assert(decided.to_set().contains(identity@));
                assert(!known.to_set().contains(identity@));
            }
            return false;
        }
        let ghost before = seen@;
        seen.insert(identity.clone());
        proof {
            assert forall|text: Seq<char>| #[trigger] seen@.contains(text) <==> exists|j: int|
                0 <= j < i + 1 && decided[j] == text by {
                if seen@.contains(text) {
                    if before.contains(text) {
                        let j = choose|j: int| 0 <= j < i && decided[j] == text;
                        assert(0 <= j < i + 1 && decided[j] == text);
                    } else {
                        assert(decided[i as int] == text);
                    }
                }
                if exists|j: int| 0 <= j < i + 1 && decided[j] == text {
                    let j = choose|j: int| 0 <= j < i + 1 && decided[j] == text;
                    if j < i {
                        assert(before.contains(text));
                    }
                }
            }
        }
        i = i + 1;
    }
    let mut k: usize = 0;
    while k < inventory.len()
        invariant
            k <= inventory.len(),
            i == decided.len(),
            decided == decision_ids(context@.decisions),
            known == inventory_ids(views(inventory@)),
            forall|text: Seq<char>| #[trigger]
                seen@.contains(text) <==> exists|j: int| 0 <= j < i && decided[j] == text,
            forall|j: int| 0 <= j < k ==> decided.contains(#[trigger] known[j]),
        decreases inventory.len() - k,
    {
        let identity: &String = &inventory[k].file_identity;
        assert(views(inventory@)[k as int] == inventory@[k as int]@);
        assert(known[k as int] == identity@);
        if !seen.contains(identity.as_str()) {
            proof {
                assert(known.to_set().contains(identity@));
                assert(!decided.to_set().contains(identity@));
            }
            return false;
        }
        proof {
            let j = choose|j: int| 0 <= j < i && decided[j] == identity@;
            assert(decided.contains(known[k as int]));
        }
        k = k + 1;
    }
    proof {
        assert forall|text: Seq<char>| decided.to_set().contains(text) <==> known.to_set().contains(
            text,
        ) by {
            if decided.contains(text) {
                let j = choose|j: int| 0 <= j < decided.len() && decided[j] == text;
                assert(known.contains(decided[j]));
            }
            if known.contains(text) {
                let j = choose|j: int| 0 <= j < known.len() && known[j] == text;
                assert(decided.contains(known[j]));
            }
        }
        assert(decided.to_set() =~= known.to_set());
    }
    true
}

fn check_batch_context(
    active: &ActiveRun,
    batch: &FinalizationBatch,
    envelope: &ContextEnvelope,
    verdicts: &FinalizationVerdicts,
    inventory_index: &TextIndex,
    result_index: &TextIndex,
) -> (verdict: Result<(), StoreError>)
    requires
        verdicts.cover(batch@),
        verdicts.envelope == Some(*envelope),
        inventory_index@ == inventory_ids(views(batch.inventory@)),
        result_index@ == result_ids(views(batch.file_results@)),
    ensures
        refused_with(verdict, batch_context_fault(active@, batch@, *verdicts)),
{
    match (&batch.context, envelope.context_run_id) {
        (None, None) => Ok(()),
        (Some(context), Some(id)) => {
            if id != active.context_run_id() {
                return Err(StoreError::invalid("context run identity is inconsistent"));
            }
            if let Err(error) = validate_context(context, &verdicts.summary, &verdicts.decisions) {
                return Err(error);
            }
            assert(batch@.inventory.len() == batch.inventory.len());
            assert(batch@.file_results.len() == batch.file_results.len());
            if context.status != batch.status || !text_eq(
                context.final_context.as_str(),
                envelope.file_context.as_str(),
            ) || context.summary != envelope.summary || context.summary.source_file_count
                != batch.inventory.len() as u64 || !decided_files_are_the_inventory(
                context,
                &batch.inventory,
                inventory_index,
            ) || batch.file_results.len() != batch.inventory.len() {
                return Err(StoreError::invalid("context rows disagree with the final envelope"));
            }
            validate_context_relations(
                context,
                &batch.inventory,
                inventory_index,
                &batch.file_results,
                result_index,
                &batch.stage_metrics,
                &batch.extension_metrics,
            )
        },
        _ => Err(StoreError::invalid("context run identity is inconsistent")),
    }
}

// ---------------------------------------------------------------------------
// The batch
// ---------------------------------------------------------------------------

/// The batch has more rows than one run commits.
pub open spec fn too_many_rows(batch: FinalizationBatchView) -> bool {
    ||| batch.inventory.len() > MAX_FINAL_ROWS
    ||| batch.cache_writes.len() > MAX_FINAL_ROWS
    ||| batch.file_results.len() > MAX_FINAL_ROWS
    ||| batch.diagnostics.len() > MAX_FINAL_DIAGNOSTICS
}

/// What is wrong with the rows of a batch.
pub open spec fn rows_fault(batch: FinalizationBatchView, verdicts: FinalizationVerdicts) -> Option<
    Seq<char>,
> {
    if inventory_fault(batch.inventory, 0) is Some {
        inventory_fault(batch.inventory, 0)
    } else if cache_writes_fault(batch.cache_writes, batch.inventory, 0) is Some {
        cache_writes_fault(batch.cache_writes, batch.inventory, 0)
    } else {
        let results = results_fault(
            batch.file_results,
            batch.inventory,
            batch.snapshot_hit is Some,
            verdicts.file_audits@,
            verdicts.file_errors@,
            0,
        );
        if results is Some {
            results
        } else if agreement_fault(batch.cache_writes, batch.file_results, 0) is Some {
            agreement_fault(batch.cache_writes, batch.file_results, 0)
        } else {
            first_fault(first_objection(verdicts.diagnostics@, 0), objection(verdicts.metrics))
        }
    }
}

/// What keeps a run from being ended with the batch.
pub open spec fn finalization_fault(
    active: ActiveRunView,
    batch: FinalizationBatchView,
    verdicts: FinalizationVerdicts,
) -> Option<Seq<char>> {
    if terminal_status(batch.status) is Err {
        Some("final status must be success, partial, or error"@)
    } else if too_many_rows(batch) {
        Some("finalization batch exceeds the v1 row limits"@)
    } else if rows_fault(batch, verdicts) is Some {
        rows_fault(batch, verdicts)
    } else {
        first_fault(
            envelope_fault(active, batch, verdicts),
            batch_context_fault(active, batch, verdicts),
        )
    }
}

/// Checks everything that a run is about to commit. `verdicts` is what the wire
/// contract says of it.
pub fn validate_finalization(
    active: &ActiveRun,
    batch: &FinalizationBatch,
    verdicts: &FinalizationVerdicts,
) -> (verdict: Result<(), StoreError>)
    requires
        verdicts.cover(batch@),
    ensures
        refused_with(verdict, finalization_fault(active@, batch@, *verdicts)),
{
    assert(batch@.inventory.len() == batch.inventory.len());
    assert(batch@.cache_writes.len() == batch.cache_writes.len());
    assert(batch@.file_results.len() == batch.file_results.len());
    assert(batch@.diagnostics.len() == batch.diagnostics.len());
    if let Err(error) = stored_terminal_status(batch.status) {
        return Err(error);
    }
    if batch.inventory.len() > MAX_FINAL_ROWS || batch.cache_writes.len() > MAX_FINAL_ROWS
        || batch.file_results.len() > MAX_FINAL_ROWS || batch.diagnostics.len()
        > MAX_FINAL_DIAGNOSTICS {
        return Err(StoreError::invalid("finalization batch exceeds the v1 row limits"));
    }
    let files: TextIndex = match check_inventory(&batch.inventory) {
        Ok(files) => files,
        Err(error) => {
            return Err(error);
        },
    };
    if let Err(error) = check_cache_writes(&batch.cache_writes, &batch.inventory, &files) {
        return Err(error);
    }
    let results: TextIndex = match check_results(
        &batch.file_results,
        &batch.inventory,
        &files,
        batch.snapshot_hit.is_some(),
        &verdicts.file_audits,
        &verdicts.file_errors,
    ) {
        Ok(results) => results,
        Err(error) => {
            return Err(error);
        },
    };
    if let Err(error) = check_agreement(&batch.cache_writes, &batch.file_results, &results) {
        return Err(error);
    }
    if let Err(error) = check_verdicts(&verdicts.diagnostics) {
        return Err(error);
    }
    if let Err(message) = &verdicts.metrics {
        return Err(StoreError::invalid(message.as_str()));
    }
    if let Err(error) = check_envelope(active, batch, verdicts) {
        return Err(error);
    }
    match &verdicts.envelope {
        Some(envelope) => check_batch_context(active, batch, envelope, verdicts, &files, &results),
        None => Err(StoreError::invalid("final envelope JSON is invalid")),
    }
}

// ---------------------------------------------------------------------------
// What follows from a batch
// ---------------------------------------------------------------------------

/// Some error of the run is that a worker could not be reached or was another one.
pub open spec fn handshake_failed(records: Seq<RunDiagnosticRecordView>) -> bool {
    exists|i: int|
        0 <= i < records.len() && (#[trigger] records[i]).severity == DiagnosticSeverity::Error && (
        records[i].diagnostic.error_code == ErrorCode::WorkerHandshakeFailed
            || records[i].diagnostic.error_code == ErrorCode::WorkerVersionMismatch)
}

/// The run must have introduced both its workers: always, unless it ends in an error,
/// touched no file and could not reach a worker.
pub open spec fn workers_owed(batch: FinalizationBatchView) -> bool {
    ||| batch.status == RunStatus::Success
    ||| batch.status == RunStatus::Partial
    ||| batch.inventory.len() > 0
    ||| batch.file_results.len() > 0
    ||| batch.cache_writes.len() > 0
    ||| !handshake_failed(batch.diagnostics)
}

/// Whether the run must have introduced both its workers before it ends.
pub fn fingerprints_required(batch: &FinalizationBatch) -> (required: bool)
    ensures
        required == workers_owed(batch@),
{
    let ghost records = batch@.diagnostics;
    let mut failed: bool = false;
    let mut i: usize = 0;
    while i < batch.diagnostics.len()
        invariant
            i <= batch.diagnostics.len(),
            records == batch@.diagnostics,
            failed == exists|j: int|
                0 <= j < i && (#[trigger] records[j]).severity == DiagnosticSeverity::Error && (
                records[j].diagnostic.error_code == ErrorCode::WorkerHandshakeFailed
                    || records[j].diagnostic.error_code == ErrorCode::WorkerVersionMismatch),
        decreases batch.diagnostics.len() - i,
    {
        let record: &RunDiagnosticRecord = &batch.diagnostics[i];
        assert(records[i as int] == record@);
        if record.severity == DiagnosticSeverity::Error && (record.diagnostic.error_code
            == ErrorCode::WorkerHandshakeFailed || record.diagnostic.error_code
            == ErrorCode::WorkerVersionMismatch) {
            failed = true;
        }
        i = i + 1;
    }
    assert(batch@.inventory.len() == batch.inventory.len());
    assert(batch@.file_results.len() == batch.file_results.len());
    assert(batch@.cache_writes.len() == batch.cache_writes.len());
    batch.status == RunStatus::Success || batch.status == RunStatus::Partial
        || batch.inventory.len() > 0 || batch.file_results.len() > 0 || batch.cache_writes.len() > 0
        || !failed
}

/// Which artifact the context of a run refers to.
#[derive(Clone, Copy, Debug, PartialEq, Eq, Structural)]
pub enum ArtifactStep {
    /// The run commits no context.
    NoContext,
    /// The context of an error refers to no artifact.
    WithoutArtifact,
    /// The context takes over the artifact of an earlier run.
    Reuse { artifact_id: i64, reused_from_context_run_id: i64 },
    /// The context gets an artifact of its own, found by its snapshot key or not.
    Write { keyed: bool },
}

/// Which artifact the context of a batch refers to, or what is wrong with it.
pub open spec fn artifact_step_of(batch: FinalizationBatchView) -> Result<
    ArtifactStep,
    StoreErrorView,
> {
    if batch.context is None {
        Ok(ArtifactStep::NoContext)
    } else if batch.status == RunStatus::Error {
        Ok(ArtifactStep::WithoutArtifact)
    } else if let Some(hit) = batch.snapshot_hit {
        Ok(
            ArtifactStep::Reuse {
                artifact_id: hit.artifact_id,
                reused_from_context_run_id: hit.reused_from_context_run_id,
            },
        )
    } else {
        match batch.artifact {
            None => Err(
                StoreErrorView::RunCorrupt("success/partial run must carry an artifact draft"@),
            ),
            Some(draft) => if draft.snapshot_eligible != (batch.snapshot_key is Some) {
                Err(
                    StoreErrorView::RunCorrupt(
                        "artifact eligibility disagrees with the snapshot key"@,
                    ),
                )
            } else {
                Ok(ArtifactStep::Write { keyed: batch.snapshot_key is Some })
            },
        }
    }
}

/// Decides which artifact the context of a batch refers to.
pub fn artifact_step(batch: &FinalizationBatch) -> (step: Result<ArtifactStep, StoreError>)
    ensures
        outcome_view(step) == artifact_step_of(batch@),
{
    if batch.context.is_none() {
        return Ok(ArtifactStep::NoContext);
    }
    if batch.status == RunStatus::Error {
        return Ok(ArtifactStep::WithoutArtifact);
    }
    if let Some(hit) = &batch.snapshot_hit {
        return Ok(
            ArtifactStep::Reuse {
                artifact_id: hit.artifact_id,
                reused_from_context_run_id: hit.reused_from_context_run_id,
            },
        );
    }
    match &batch.artifact {
        None => Err(StoreError::corrupt("success/partial run must carry an artifact draft")),
        Some(draft) => {
            if draft.snapshot_eligible != batch.snapshot_key.is_some() {
                Err(StoreError::corrupt("artifact eligibility disagrees with the snapshot key"))
            } else {
                Ok(ArtifactStep::Write { keyed: batch.snapshot_key.is_some() })
            }
        },
    }
}

/// Checks that the envelope that was rebuilt from what is stored is the one that is
/// committed. `rebuilt` is its canonical JSON, or what is wrong with it.
pub fn check_rebuilt(rebuilt: &Result<String, String>, envelope_json: &str) -> (verdict: Result<
    (),
    StoreError,
>)
    ensures
        outcome_view(verdict) == match *rebuilt {
            Err(message) => Err(
                StoreErrorView::RunCorrupt("rebuilt envelope is invalid: "@ + message@),
            ),
            Ok(json) => if json@ == envelope_json@ {
                Ok(())
            } else {
                Err(
                    StoreErrorView::RunCorrupt(
                        "rebuilt envelope disagrees with the committed envelope"@,
                    ),
                )
            },
        },
{
    match rebuilt {
        Err(message) => {
            let mut text: String = "rebuilt envelope is invalid: ".to_string();
            text.append(message.as_str());
            Err(StoreError::RunCorrupt(text))
        },
        Ok(json) => {
            if text_eq(json.as_str(), envelope_json) {
                Ok(())
            } else {
                Err(StoreError::corrupt("rebuilt envelope disagrees with the committed envelope"))
            }
        },
    }
}

// ---------------------------------------------------------------------------
// The order of things
// ---------------------------------------------------------------------------

/// A step of the one transaction in which a run ends. The first step that fails undoes
/// them all.
#[derive(Clone, Copy, Debug, PartialEq, Eq, Structural)]
pub enum FinalizeStep {
    RequireDurability,
    Begin,
    Heartbeat,
    CheckEngine,
    CheckWorkers,
    WriteInventory,
    WriteCache,
    WriteResults,
    WriteDiagnostics,
    WriteMetrics,
    PlaceArtifact,
    InsertContext,
    CheckSummary,
    EndRun,
    EndAttempt,
    Retain,
    Rebuild,
    WriteExecutionMetrics,
    ReleaseLease,
    Commit,
}

/// The steps of a context: one of an error has no artifact.
pub open spec fn context_steps(batch: FinalizationBatchView) -> Seq<FinalizeStep> {
    if batch.context is None {
        Seq::empty()
    } else if batch.status == RunStatus::Error {
        seq![FinalizeStep::InsertContext]
    } else {
        seq![
            FinalizeStep::PlaceArtifact,
            FinalizeStep::InsertContext,
            FinalizeStep::CheckSummary,
        ]
    }
}

/// The steps that come before anything is written.
pub open spec fn opening_steps(batch: FinalizationBatchView) -> Seq<FinalizeStep> {
    seq![
        FinalizeStep::RequireDurability,
        FinalizeStep::Begin,
        FinalizeStep::Heartbeat,
        FinalizeStep::CheckEngine,
    ] + if workers_owed(batch) {
        seq![FinalizeStep::CheckWorkers]
    } else {
        Seq::empty()
    }
}

/// The steps that write the rows of the run.
pub open spec fn row_steps() -> Seq<FinalizeStep> {
    seq![
        FinalizeStep::WriteInventory,
        FinalizeStep::WriteCache,
        FinalizeStep::WriteResults,
        FinalizeStep::WriteDiagnostics,
        FinalizeStep::WriteMetrics,
    ]
}

/// The steps that end the run.
pub open spec fn closing_steps(batch: FinalizationBatchView) -> Seq<FinalizeStep> {
    seq![
        FinalizeStep::EndRun,
        FinalizeStep::EndAttempt,
        FinalizeStep::Retain,
        FinalizeStep::Rebuild,
    ] + (if batch.execution_metrics is Some {
        seq![FinalizeStep::WriteExecutionMetrics]
    } else {
        Seq::empty()
    }) + seq![FinalizeStep::ReleaseLease, FinalizeStep::Commit]
}

/// The steps in which a run ends, in order.
pub open spec fn steps_of(batch: FinalizationBatchView) -> Seq<FinalizeStep> {
    opening_steps(batch) + row_steps() + context_steps(batch) + closing_steps(batch)
}

fn list_opening(batch: &FinalizationBatch) -> (steps: Vec<FinalizeStep>)
    ensures
        steps@ == opening_steps(batch@),
{
    let mut steps: Vec<FinalizeStep> = vec![
        FinalizeStep::RequireDurability,
        FinalizeStep::Begin,
        FinalizeStep::Heartbeat,
        FinalizeStep::CheckEngine,
    ];
    if fingerprints_required(batch) {
        steps.push(FinalizeStep::CheckWorkers);
    }
    assert(steps@ =~= opening_steps(batch@));
    steps
}

fn list_rows() -> (steps: Vec<FinalizeStep>)
    ensures
        steps@ == row_steps(),
{
    let steps: Vec<FinalizeStep> = vec![
        FinalizeStep::WriteInventory,
        FinalizeStep::WriteCache,
        FinalizeStep::WriteResults,
        FinalizeStep::WriteDiagnostics,
        FinalizeStep::WriteMetrics,
    ];
    assert(steps@ =~= row_steps());
    steps
}

fn list_context(batch: &FinalizationBatch) -> (steps: Vec<FinalizeStep>)
    ensures
        steps@ == context_steps(batch@),
{
    let steps: Vec<FinalizeStep> = if batch.context.is_none() {
        Vec::new()
    } else if batch.status == RunStatus::Error {
        vec![FinalizeStep::InsertContext]
    } else {
        vec![
            FinalizeStep::PlaceArtifact,
            FinalizeStep::InsertContext,
            FinalizeStep::CheckSummary,
        ]
    };
    assert(steps@ =~= context_steps(batch@));
    steps
}

fn list_closing(batch: &FinalizationBatch) -> (steps: Vec<FinalizeStep>)
    ensures
        steps@ == closing_steps(batch@),
{
    let mut steps: Vec<FinalizeStep> = vec![
        FinalizeStep::EndRun,
        FinalizeStep::EndAttempt,
        FinalizeStep::Retain,
        FinalizeStep::Rebuild,
    ];
    if batch.execution_metrics.is_some() {
        steps.push(FinalizeStep::WriteExecutionMetrics);
    }
    steps.push(FinalizeStep::ReleaseLease);
    steps.push(FinalizeStep::Commit);
    assert(steps@ =~= closing_steps(batch@));
    steps
}

/// Lists the steps in which a run ends, in order.
pub fn finalization_steps(batch: &FinalizationBatch) -> (steps: Vec<FinalizeStep>)
    ensures
        steps@ == steps_of(batch@),
{
    let mut steps: Vec<FinalizeStep> = list_opening(batch);
    let mut rows: Vec<FinalizeStep> = list_rows();
    let mut context: Vec<FinalizeStep> = list_context(batch);
    let mut closing: Vec<FinalizeStep> = list_closing(batch);
    steps.append(&mut rows);
    steps.append(&mut context);
    steps.append(&mut closing);
    steps
}

/// The step stands at the position, and nowhere else.
pub open spec fn only_at(steps: Seq<FinalizeStep>, step: FinalizeStep, at: int) -> bool {
    0 <= at < steps.len() && steps[at] == step && forall|i: int|
        0 <= i < steps.len() && i != at ==> #[trigger] steps[i] != step
}

/// What ends a run is committed last and once, so either all of it is stored or none.
pub proof fn law_runs_end_at_once(batch: FinalizationBatchView)
    ensures
        only_at(steps_of(batch), FinalizeStep::Commit, steps_of(batch).len() - 1),
{
    let steps = steps_of(batch);
    assert(steps.last() == FinalizeStep::Commit);
}

/// A row is written only after the lease was confirmed and the engine was known to be the
/// one that began the run.
pub proof fn law_ownership_is_confirmed_before_writing(batch: FinalizationBatchView, i: int)
    requires
        0 <= i < steps_of(batch).len(),
        row_steps().contains(steps_of(batch)[i]) || steps_of(batch)[i] == FinalizeStep::EndRun,
    ensures
        i > 3,
        steps_of(batch)[2] == FinalizeStep::Heartbeat,
        steps_of(batch)[3] == FinalizeStep::CheckEngine,
{
    let steps = steps_of(batch);
    assert(opening_steps(batch).len() >= 4);
    assert(steps[0] == FinalizeStep::RequireDurability);
    assert(steps[1] == FinalizeStep::Begin);
    assert(steps[2] == FinalizeStep::Heartbeat);
    assert(steps[3] == FinalizeStep::CheckEngine);
    let rows = row_steps();
    assert forall|step: FinalizeStep| rows.contains(step) implies step
        != FinalizeStep::RequireDurability && step != FinalizeStep::Begin && step
        != FinalizeStep::Heartbeat && step != FinalizeStep::CheckEngine by {
        let k = choose|k: int| 0 <= k < rows.len() && rows[k] == step;
    }
}

/// Nothing is dropped before the context of the run refers to its artifact: where a run
/// has a context, its row is written before anything is dropped.
pub proof fn law_references_come_before_retention(
    batch: FinalizationBatchView,
    insert: int,
    retain: int,
)
    requires
        0 <= insert < steps_of(batch).len(),
        0 <= retain < steps_of(batch).len(),
        steps_of(batch)[insert] == FinalizeStep::InsertContext,
        steps_of(batch)[retain] == FinalizeStep::Retain,
    ensures
        insert < retain,
{
    let steps = steps_of(batch);
    let head = opening_steps(batch) + row_steps() + context_steps(batch);
    let tail = closing_steps(batch);
    assert(steps =~= head + tail);
    if insert >= head.len() {
        assert(steps[insert] == tail[insert - head.len()]);
    }
    if retain < head.len() {
        assert(steps[retain] == head[retain]);
    }
}

// ---------------------------------------------------------------------------
// Sizes
// ---------------------------------------------------------------------------

/// `value`, or the largest number where it is larger.
pub open spec fn at_most_max(value: nat) -> u64 {
    if value > u64::MAX {
        u64::MAX
    } else {
        value as u64
    }
}

/// How many rows the end of a run writes: the files, cache entries, results with
/// their executions, diagnostics, metrics and context rows, the artifact that it
/// adds, the run, its attempt and its execution metrics.
pub open spec fn rows_written(batch: FinalizationBatchView) -> nat {
    batch.inventory.len() + batch.cache_writes.len() + 2 * batch.file_results.len()
        + batch.diagnostics.len() + batch.stage_metrics.len() + batch.extension_metrics.len()
        + match batch.context {
        None => 0,
        Some(context) => 1 + context.decisions.len() + match batch.artifact {
            Some(artifact) => if batch.snapshot_hit is None {
                1 + artifact.file_rows.len() + artifact.decision_rows.len()
            } else {
                0
            },
            None => 0,
        },
    } + 3
}

/// How many rows the end of a run writes.
pub fn compute_terminal_rows_written(batch: &FinalizationBatch) -> (rows: u64)
    ensures
        rows == at_most_max(rows_written(batch@)),
{
    assert(batch@.inventory.len() == batch.inventory.len());
    assert(batch@.cache_writes.len() == batch.cache_writes.len());
    assert(batch@.file_results.len() == batch.file_results.len());
    assert(batch@.diagnostics.len() == batch.diagnostics.len());
    assert(batch@.extension_metrics.len() == batch.extension_metrics.len());
    let mut rows: u128 = batch.inventory.len() as u128 + batch.cache_writes.len() as u128
        + batch.file_results.len() as u128 + batch.file_results.len() as u128
        + batch.diagnostics.len() as u128 + batch.stage_metrics.len() as u128
        + batch.extension_metrics.len() as u128;
    if let Some(context) = &batch.context {
        assert(context@.decisions.len() == context.decisions.len());
        rows = rows + 1 + context.decisions.len() as u128;
        if batch.snapshot_hit.is_none() {
            if let Some(artifact) = &batch.artifact {
                assert(artifact@.file_rows.len() == artifact.file_rows.len());
                assert(artifact@.decision_rows.len() == artifact.decision_rows.len());
                rows = rows + 1 + artifact.file_rows.len() as u128
                    + artifact.decision_rows.len() as u128;
            }
        }
    }
    rows = rows + 3;
    if rows > u64::MAX as u128 {
        u64::MAX
    } else {
        rows as u64
    }
}

/// Bytes of a stored number that may be missing.
pub open spec fn nullable_len(number: Option<u64>) -> nat {
    match number {
        Some(_) => 8,
        None => 1,
    }
}

/// What is stored of a classification where its file was taken over from a snapshot:
/// it is marked so, unless the file was never to be classified.
pub open spec fn snapshot_text(
    text: Seq<char>,
    status: Seq<char>,
    snapshot_rows: bool,
) -> Seq<char> {
    if snapshot_rows && status != "not_classified_by_budget"@ {
        "snapshot"@
    } else {
        text
    }
}

impl PdfClassificationAuditV1View {
    /// Payload bytes of the stored classification.
    pub open spec fn audit_bytes(self, snapshot_rows: bool) -> nat {
        utf8_len(self.status) + nullable_len(self.page_count) + utf8_len(
            snapshot_text(self.classification_cache_status, self.status, snapshot_rows),
        ) + utf8_len(
            if snapshot_rows {
                ""@
            } else {
                self.classification_cache_miss_reason
            },
        ) + nullable_len(self.result_examined_pages) + nullable_len(self.run_inspected_pages) + 16
            + utf8_len(snapshot_text(self.transport, self.status, snapshot_rows)) + 8 + utf8_len(
            self.classifier_build,
        ) + utf8_len(self.classifier_profile_hash)
    }
}

impl FileResultRecordView {
    /// Payload bytes of how the file was executed.
    pub open spec fn execution_bytes(self, snapshot_rows: bool) -> nat {
        80 + utf8_len(self.file_identity) + utf8_len(
            if snapshot_rows {
                "snapshot"@
            } else {
                self.parse_transport.text_spec()
            },
        ) + match self.pdf_classification {
            None => 12,
            Some(classification) => classification.audit_bytes(snapshot_rows),
        }
    }

    /// Payload bytes of the file in the audit of its run.
    pub open spec fn audit_bytes(self, snapshot_rows: bool) -> nat {
        utf8_len(self.relative_path) + 256 + self.execution_bytes(snapshot_rows)
    }
}

/// Payload bytes of the first `count` file results.
pub open spec fn results_bytes(
    results: Seq<FileResultRecordView>,
    snapshot_rows: bool,
    count: nat,
) -> nat
    decreases count,
{
    if count == 0 {
        0
    } else {
        results_bytes(results, snapshot_rows, (count - 1) as nat) + results[count - 1].audit_bytes(
            snapshot_rows,
        )
    }
}

/// Payload bytes of the first `count` diagnostics.
pub open spec fn diagnostics_bytes(records: Seq<RunDiagnosticRecordView>, count: nat) -> nat
    decreases count,
{
    if count == 0 {
        0
    } else {
        diagnostics_bytes(records, (count - 1) as nat) + utf8_len(
            records[count - 1].diagnostic.message,
        ) + 160
    }
}

/// Payload bytes of the first `count` extension metrics.
pub open spec fn extensions_bytes(metrics: Seq<ExtensionMetricView>, count: nat) -> nat
    decreases count,
{
    if count == 0 {
        0
    } else {
        extensions_bytes(metrics, (count - 1) as nat) + utf8_len(metrics[count - 1].extension) + 64
    }
}

/// Payload bytes of the first `count` decisions.
pub open spec fn decisions_bytes(
    decisions: Seq<crate::contract::ContextDecisionRecordView>,
    count: nat,
) -> nat
    decreases count,
{
    if count == 0 {
        0
    } else {
        decisions_bytes(decisions, (count - 1) as nat) + utf8_len(
            decisions[count - 1].decision.relative_path,
        ) + 160
    }
}

/// Payload bytes of a context.
pub open spec fn context_bytes(context: Option<ContextRunRecordView>) -> nat {
    match context {
        None => 0,
        Some(context) => utf8_len(context.final_context) + 320 + decisions_bytes(
            context.decisions,
            context.decisions.len(),
        ),
    }
}

/// Payload bytes of the audit of a run. The artifact that it refers to, the inventory
/// and the caches are not counted.
pub open spec fn audit_size(batch: FinalizationBatchView) -> nat {
    utf8_len(batch.envelope_json) + results_bytes(
        batch.file_results,
        batch.snapshot_hit is Some,
        batch.file_results.len(),
    ) + diagnostics_bytes(batch.diagnostics, batch.diagnostics.len()) + 48
        * batch.stage_metrics.len() + extensions_bytes(
        batch.extension_metrics,
        batch.extension_metrics.len(),
    ) + context_bytes(batch.context)
}

fn nullable_bytes(number: Option<u64>) -> (size: u128)
    ensures
        size == nullable_len(number),
        size <= 8,
{
    match number {
        Some(_) => 8,
        None => 1,
    }
}

fn classification_bytes(classification: &PdfClassificationAuditV1, snapshot_rows: bool) -> (size:
    u128)
    ensures
        size == classification@.audit_bytes(snapshot_rows),
        size <= 7 * u64::MAX + 64,
{
    let marked: bool = snapshot_rows && !text_eq(
        classification.status.as_str(),
        "not_classified_by_budget",
    );
    let cache_status: &str = if marked {
        "snapshot"
    } else {
        classification.classification_cache_status.as_str()
    };
    let miss_reason: &str = if snapshot_rows {
        ""
    } else {
        classification.classification_cache_miss_reason.as_str()
    };
    let transport: &str = if marked {
        "snapshot"
    } else {
        classification.transport.as_str()
    };
    text_bytes(classification.status.as_str()) + nullable_bytes(classification.page_count)
        + text_bytes(cache_status) + text_bytes(miss_reason) + nullable_bytes(
        classification.result_examined_pages,
    ) + nullable_bytes(classification.run_inspected_pages) + 16 + text_bytes(transport) + 8
        + text_bytes(classification.classifier_build.as_str()) + text_bytes(
        classification.classifier_profile_hash.as_str(),
    )
}

fn execution_size(record: &FileResultRecord, snapshot_rows: bool) -> (size: u128)
    ensures
        size == record@.execution_bytes(snapshot_rows),
        size <= 10 * u64::MAX,
{
    let transport: &str = if snapshot_rows {
        "snapshot"
    } else {
        record.parse_transport.text()
    };
    let classification: u128 = match &record.pdf_classification {
        None => 12,
        Some(classification) => classification_bytes(classification, snapshot_rows),
    };
    80 + text_bytes(record.file_identity.as_str()) + text_bytes(transport) + classification
}

/// Payload bytes of how a file was executed, or the largest stored number where
/// there are more.
pub fn file_execution_audit_size(record: &FileResultRecord, snapshot_rows: bool) -> (size: i64)
    ensures
        size == if record@.execution_bytes(snapshot_rows) > i64::MAX {
            i64::MAX as int
        } else {
            record@.execution_bytes(snapshot_rows) as int
        },
{
    let size: u128 = execution_size(record, snapshot_rows);
    if size > i64::MAX as u128 {
        i64::MAX
    } else {
        size as i64
    }
}

proof fn lemma_results_grow(
    results: Seq<FileResultRecordView>,
    snapshot_rows: bool,
    low: nat,
    high: nat,
)
    requires
        low <= high,
    ensures
        results_bytes(results, snapshot_rows, low) <= results_bytes(results, snapshot_rows, high),
    decreases high,
{
    if low < high {
        lemma_results_grow(results, snapshot_rows, low, (high - 1) as nat);
    }
}

proof fn lemma_diagnostics_grow(records: Seq<RunDiagnosticRecordView>, low: nat, high: nat)
    requires
        low <= high,
    ensures
        diagnostics_bytes(records, low) <= diagnostics_bytes(records, high),
    decreases high,
{
    if low < high {
        lemma_diagnostics_grow(records, low, (high - 1) as nat);
    }
}

proof fn lemma_extensions_grow(metrics: Seq<ExtensionMetricView>, low: nat, high: nat)
    requires
        low <= high,
    ensures
        extensions_bytes(metrics, low) <= extensions_bytes(metrics, high),
    decreases high,
{
    if low < high {
        lemma_extensions_grow(metrics, low, (high - 1) as nat);
    }
}

proof fn lemma_decisions_grow(
    decisions: Seq<crate::contract::ContextDecisionRecordView>,
    low: nat,
    high: nat,
)
    requires
        low <= high,
    ensures
        decisions_bytes(decisions, low) <= decisions_bytes(decisions, high),
    decreases high,
{
    if low < high {
        lemma_decisions_grow(decisions, low, (high - 1) as nat);
    }
}

fn results_size(results: &Vec<FileResultRecord>, snapshot_rows: bool) -> (size: u128)
    requires
        results_bytes(views(results@), snapshot_rows, results@.len()) <= i64::MAX,
    ensures
        size == results_bytes(views(results@), snapshot_rows, results@.len()),
{
    let ghost all = views(results@);
    let mut size: u128 = 0;
    let mut i: usize = 0;
    while i < results.len()
        invariant
            i <= results.len(),
            all == views(results@),
            size == results_bytes(all, snapshot_rows, i as nat),
            results_bytes(all, snapshot_rows, results@.len()) <= i64::MAX,
        decreases results.len() - i,
    {
        assert(all[i as int] == results@[i as int]@);
        proof {
            lemma_results_grow(all, snapshot_rows, (i + 1) as nat, results@.len());
        }
        size = size + text_bytes(results[i].relative_path.as_str()) + 256 + execution_size(
            &results[i],
            snapshot_rows,
        );
        i = i + 1;
    }
    size
}

fn diagnostics_size(records: &Vec<RunDiagnosticRecord>) -> (size: u128)
    requires
        diagnostics_bytes(views(records@), records@.len()) <= i64::MAX,
    ensures
        size == diagnostics_bytes(views(records@), records@.len()),
{
    let ghost all = views(records@);
    let mut size: u128 = 0;
    let mut i: usize = 0;
    while i < records.len()
        invariant
            i <= records.len(),
            all == views(records@),
            size == diagnostics_bytes(all, i as nat),
            diagnostics_bytes(all, records@.len()) <= i64::MAX,
        decreases records.len() - i,
    {
        assert(all[i as int] == records@[i as int]@);
        proof {
            lemma_diagnostics_grow(all, (i + 1) as nat, records@.len());
        }
        size = size + text_bytes(records[i].diagnostic.message.as_str()) + 160;
        i = i + 1;
    }
    size
}

fn extensions_size(metrics: &Vec<ExtensionMetric>) -> (size: u128)
    requires
        extensions_bytes(views(metrics@), metrics@.len()) <= i64::MAX,
    ensures
        size == extensions_bytes(views(metrics@), metrics@.len()),
{
    let ghost all = views(metrics@);
    let mut size: u128 = 0;
    let mut i: usize = 0;
    while i < metrics.len()
        invariant
            i <= metrics.len(),
            all == views(metrics@),
            size == extensions_bytes(all, i as nat),
            extensions_bytes(all, metrics@.len()) <= i64::MAX,
        decreases metrics.len() - i,
    {
        assert(all[i as int] == metrics@[i as int]@);
        proof {
            lemma_extensions_grow(all, (i + 1) as nat, metrics@.len());
        }
        size = size + text_bytes(metrics[i].extension.as_str()) + 64;
        i = i + 1;
    }
    size
}

fn context_size(context: &Option<ContextRunRecord>) -> (size: u128)
    requires
        context_bytes(opt_view(*context)) <= i64::MAX,
    ensures
        size == context_bytes(opt_view(*context)),
{
    match context {
        None => 0,
        Some(context) => {
            let ghost all = context@.decisions;
            let own: u128 = text_bytes(context.final_context.as_str()) + 320;
            let mut size: u128 = own;
            let mut i: usize = 0;
            assert(all.len() == context.decisions@.len());
            while i < context.decisions.len()
                invariant
                    i <= context.decisions.len(),
                    all == context@.decisions,
                    all.len() == context.decisions@.len(),
                    own <= u64::MAX + 320,
                    size == own + decisions_bytes(all, i as nat),
                    own + decisions_bytes(all, all.len()) <= i64::MAX,
                decreases context.decisions.len() - i,
            {
                assert(all[i as int] == context.decisions@[i as int]@);
                proof {
                    lemma_decisions_grow(all, (i + 1) as nat, all.len());
                }
                size = size + text_bytes(context.decisions[i].decision.relative_path.as_str())
                    + 160;
                i = i + 1;
            }
            size
        },
    }
}

/// Payload bytes of the audit of a run.
pub fn compute_audit_size(batch: &FinalizationBatch) -> (size: i64)
    requires
        audit_size(batch@) <= i64::MAX,
    ensures
        size == audit_size(batch@),
{
    assert(batch@.file_results.len() == batch.file_results.len());
    assert(batch@.diagnostics.len() == batch.diagnostics.len());
    assert(batch@.extension_metrics.len() == batch.extension_metrics.len());
    let total: u128 = text_bytes(batch.envelope_json.as_str()) + results_size(
        &batch.file_results,
        batch.snapshot_hit.is_some(),
    ) + diagnostics_size(&batch.diagnostics) + 48 * (batch.stage_metrics.len() as u128)
        + extensions_size(&batch.extension_metrics) + context_size(&batch.context);
    total as i64
}

// ---------------------------------------------------------------------------
// Laws
// ---------------------------------------------------------------------------

/// The audit of a run leaves out what the run only refers to: the inventory, the cache
/// entries and the artifact do not change its size.
pub proof fn law_audits_leave_out_what_is_shared(
    left: FinalizationBatchView,
    right: FinalizationBatchView,
)
    requires
        left == (FinalizationBatchView {
            inventory: left.inventory,
            cache_writes: left.cache_writes,
            artifact: left.artifact,
            ..right
        }),
    ensures
        audit_size(left) == audit_size(right),
{
}

/// An accepted batch caches only what it found: every cache write has a successful
/// result of the same file, version, profile and content.
pub proof fn law_accepted_writes_are_successes(
    active: ActiveRunView,
    batch: FinalizationBatchView,
    verdicts: FinalizationVerdicts,
    write: int,
)
    requires
        finalization_fault(active, batch, verdicts) is None,
        0 <= write < batch.cache_writes.len(),
    ensures
        exists|i: int|
            0 <= i < batch.file_results.len() && (#[trigger] batch.file_results[i]).file_identity
                == batch.cache_writes[write].file_identity && write_agrees(
                batch.cache_writes[write],
                batch.file_results[i],
            ),
{
    lemma_agreement(batch.cache_writes, batch.file_results, 0, write);
}

proof fn lemma_agreement(
    writes: Seq<CacheWriteRecordView>,
    results: Seq<FileResultRecordView>,
    from: int,
    write: int,
)
    requires
        0 <= from <= write < writes.len(),
        agreement_fault(writes, results, from) is None,
    ensures
        exists|i: int|
            0 <= i < results.len() && (#[trigger] results[i]).file_identity
                == writes[write].file_identity && write_agrees(writes[write], results[i]),
    decreases write - from,
{
    if from < write {
        lemma_agreement(writes, results, from + 1, write);
    } else {
        lemma_position(result_ids(results), writes[write].file_identity, 0);
        let at = position(result_ids(results), writes[write].file_identity, 0)->0;
        assert(result_ids(results)[at] == results[at].file_identity);
    }
}

/// An accepted batch holds each file once.
pub proof fn law_accepted_files_are_unique(
    active: ActiveRunView,
    batch: FinalizationBatchView,
    verdicts: FinalizationVerdicts,
    left: int,
    right: int,
)
    requires
        finalization_fault(active, batch, verdicts) is None,
        0 <= left < right < batch.inventory.len(),
    ensures
        batch.inventory[left].file_identity != batch.inventory[right].file_identity,
{
    lemma_unique_inventory(batch.inventory, 0, right);
    let earlier = inventory_ids(batch.inventory.take(right));
    lemma_position(earlier, batch.inventory[right].file_identity, 0);
    assert(earlier[left] == batch.inventory[left].file_identity);
}

proof fn lemma_unique_inventory(rows: Seq<InventoryRecordView>, from: int, at: int)
    requires
        0 <= from <= at < rows.len(),
        inventory_fault(rows, from) is None,
    ensures
        position(inventory_ids(rows.take(at)), rows[at].file_identity, 0) is None,
    decreases at - from,
{
    if from < at {
        lemma_unique_inventory(rows, from + 1, at);
    }
}

/// In an accepted batch every result is of a file of the inventory, in the version
/// that the inventory holds.
pub proof fn law_accepted_results_are_of_the_inventory(
    active: ActiveRunView,
    batch: FinalizationBatchView,
    verdicts: FinalizationVerdicts,
    result: int,
)
    requires
        finalization_fault(active, batch, verdicts) is None,
        0 <= result < batch.file_results.len(),
    ensures
        exists|i: int|
            0 <= i < batch.inventory.len() && (#[trigger] batch.inventory[i]).file_identity
                == batch.file_results[result].file_identity && batch.inventory[i].source_version
                == batch.file_results[result].source_version,
{
    lemma_results(
        batch.file_results,
        batch.inventory,
        batch.snapshot_hit is Some,
        verdicts.file_audits@,
        verdicts.file_errors@,
        0,
        result,
    );
}

proof fn lemma_results(
    results: Seq<FileResultRecordView>,
    inventory: Seq<InventoryRecordView>,
    snapshot_rows: bool,
    audits: Seq<bool>,
    errors: Seq<bool>,
    from: int,
    result: int,
)
    requires
        0 <= from <= result < results.len(),
        results_fault(results, inventory, snapshot_rows, audits, errors, from) is None,
    ensures
        exists|i: int|
            0 <= i < inventory.len() && (#[trigger] inventory[i]).file_identity
                == results[result].file_identity && inventory[i].source_version
                == results[result].source_version,
    decreases result - from,
{
    if from < result {
        lemma_results(results, inventory, snapshot_rows, audits, errors, from + 1, result);
    } else {
        let ids = inventory_ids(inventory);
        lemma_position(ids, results[result].file_identity, 0);
        let at = position(ids, results[result].file_identity, 0)->0;
        assert(ids[at] == inventory[at].file_identity);
    }
}

/// An accepted batch is answered as it ends: the envelope has the status of the run,
/// and where it has a context, that context is the text of the envelope.
pub proof fn law_accepted_envelopes_tell_the_run(
    active: ActiveRunView,
    batch: FinalizationBatchView,
    verdicts: FinalizationVerdicts,
)
    requires
        finalization_fault(active, batch, verdicts) is None,
    ensures
        verdicts.envelope is Some,
        envelope_answers((verdicts.envelope->0)@, active, batch.status),
        envelope_reports((verdicts.envelope->0)@, batch.diagnostics),
        match batch.context {
            Some(context) => context.final_context == (verdicts.envelope->0)@.file_context
                && context.status == batch.status && crate::hash::content_sha256(
                context.final_context,
            ) == context.context_sha256,
            None => (verdicts.envelope->0)@.context_run_id is None,
        },
{
}

/// The answer of an accepted batch is of the run that it ends, with the status of that end:
/// complete for a success, partial for a partial run and error for an error, and never
/// another.
pub proof fn law_accepted_answers_have_the_status_of_the_end(
    active: ActiveRunView,
    batch: FinalizationBatchView,
    verdicts: FinalizationVerdicts,
)
    requires
        finalization_fault(active, batch, verdicts) is None,
    ensures
        ({
            let envelope = (verdicts.envelope->0)@;
            &&& verdicts.envelope is Some
            &&& envelope.request_id == active.request_id
            &&& envelope.scan_run_id == Some(active.scan_run_id as u64)
            &&& batch.status == RunStatus::Success || batch.status == RunStatus::Partial
                || batch.status == RunStatus::Error
            &&& envelope.status == EngineStatus::Complete <==> batch.status == RunStatus::Success
            &&& envelope.status == EngineStatus::Partial <==> batch.status == RunStatus::Partial
            &&& envelope.status == EngineStatus::Error <==> batch.status == RunStatus::Error
            &&& verdicts.canonical
            &&& verdicts.envelope_verdict is Ok
        }),
{
    law_ends_are_stored_under_their_name(batch.status);
}

/// A run that was committed with an answer is accepted with the same answer when its
/// request is repeated.
pub proof fn law_committed_answers_are_accepted_again(
    ledger: RunLedgerView,
    active: ActiveRunView,
    batch: FinalizationBatchView,
    verdicts: FinalizationVerdicts,
    engine: Option<EngineFingerprintView>,
    workers_required: bool,
    metadata_json: Seq<char>,
    audit_size: i64,
    now_ms: i64,
)
    requires
        finalization_fault(active, batch, verdicts) is None,
    ensures
        ledger.ended(
            active,
            terminal_status(batch.status)->Ok_0,
            engine,
            (verdicts.envelope->0)@,
            workers_required,
            metadata_json,
            audit_size,
            now_ms,
        ) matches Ok(next) ==> {
            let at = owned_run(ledger.runs, active, 0)->0;
            &&& replay_agrees(next.runs[at], active.request_id, (verdicts.envelope->0)@)
            &&& next.runs[at].status.text_spec() == batch.status.text_spec()
            &&& request_digest(next.runs[at].canonical_request_json) == next.runs[at].request_hash
                ==> replay_fault(next.runs[at]) is None
        },
{
    let stored = terminal_status(batch.status)->Ok_0;
    law_ends_are_stored_under_their_name(batch.status);
    law_ended_runs_are_stored_as_they_ended(
        ledger,
        active,
        stored,
        engine,
        (verdicts.envelope->0)@,
        workers_required,
        metadata_json,
        audit_size,
        now_ms,
        0,
    );
    lemma_own_run(ledger.runs, active, 0);
}

proof fn lemma_own_run(runs: Seq<RunRowView>, active: ActiveRunView, from: int)
    requires
        0 <= from,
    ensures
        owned_run(runs, active, from) matches Some(at) ==> from <= at < runs.len()
            && runs[at].scan_run_id == active.scan_run_id,
    decreases runs.len() - from,
{
    if from < runs.len() {
        lemma_own_run(runs, active, from + 1);
    }
}

/// Each cache entry of an accepted batch is of a file that was parsed with success, in the
/// version, under the profile and with the content hash that its result reports.
pub proof fn law_accepted_writes_have_the_reported_hash(
    active: ActiveRunView,
    batch: FinalizationBatchView,
    verdicts: FinalizationVerdicts,
    write: int,
)
    requires
        finalization_fault(active, batch, verdicts) is None,
        0 <= write < batch.cache_writes.len(),
    ensures
        exists|i: int|
            0 <= i < batch.file_results.len() && (#[trigger] batch.file_results[i]).file_identity
                == batch.cache_writes[write].file_identity && batch.file_results[i].content_sha256
                == batch.cache_writes[write].content_sha256 && batch.file_results[i].source_version
                == batch.cache_writes[write].source_version
                && batch.file_results[i].parse_profile_hash
                == batch.cache_writes[write].parse_profile_hash
                && batch.file_results[i].parse_status == crate::contract::ParseStatus::Success,
{
    law_accepted_writes_are_successes(active, batch, verdicts, write);
}

proof fn lemma_of_severity(
    records: Seq<RunDiagnosticRecordView>,
    severity: DiagnosticSeverity,
    count: nat,
    at: int,
)
    requires
        0 <= at < count <= records.len(),
        records[at].severity == severity,
    ensures
        of_severity(records, severity, count).contains(records[at].diagnostic),
    decreases count,
{
    let chosen = of_severity(records, severity, count);
    if at < count - 1 {
        lemma_of_severity(records, severity, (count - 1) as nat, at);
        let earlier = of_severity(records, severity, (count - 1) as nat);
        let i = choose|i: int|
            0 <= i < earlier.len() && earlier[i] == records[at].diagnostic;
        assert(chosen[i] == records[at].diagnostic);
    } else {
        assert(chosen.last() == records[at].diagnostic);
    }
}

proof fn lemma_counts_of_severities(records: Seq<RunDiagnosticRecordView>, count: nat)
    requires
        count <= records.len(),
    ensures
        of_severity(records, DiagnosticSeverity::Warning, count).len() + of_severity(
            records,
            DiagnosticSeverity::Error,
            count,
        ).len() == count,
    decreases count,
{
    if count > 0 {
        lemma_counts_of_severities(records, (count - 1) as nat);
    }
}

/// The answer of an accepted batch tells every diagnostic of the run and no other: its
/// warnings as warnings, and at most one error, as the error.
pub proof fn law_accepted_answers_tell_every_diagnostic(
    active: ActiveRunView,
    batch: FinalizationBatchView,
    verdicts: FinalizationVerdicts,
    at: int,
)
    requires
        finalization_fault(active, batch, verdicts) is None,
        0 <= at < batch.diagnostics.len(),
    ensures
        ({
            let envelope = (verdicts.envelope->0)@;
            let record = batch.diagnostics[at];
            &&& record.severity == DiagnosticSeverity::Warning ==> envelope.warnings.contains(
                record.diagnostic,
            )
            &&& record.severity == DiagnosticSeverity::Error ==> envelope.error == Some(
                record.diagnostic,
            )
            &&& envelope.warnings.len() + if envelope.error is Some {
                1int
            } else {
                0
            } == batch.diagnostics.len()
        }),
{
    let records = batch.diagnostics;
    lemma_of_severity(records, records[at].severity, records.len(), at);
    lemma_counts_of_severities(records, records.len());
}

/// The context of an accepted batch is the text of the answer with the answer's summary, of
/// all files of the inventory, each of which has a result; it has the status of the run.
pub proof fn law_accepted_contexts_are_the_answer(
    active: ActiveRunView,
    batch: FinalizationBatchView,
    verdicts: FinalizationVerdicts,
)
    requires
        finalization_fault(active, batch, verdicts) is None,
    ensures
        ({
            let envelope = (verdicts.envelope->0)@;
            &&& batch.context is Some <==> envelope.context_run_id is Some
            &&& batch.context matches Some(context) ==> {
                &&& envelope.context_run_id == Some(active.scan_run_id as u64)
                &&& context.status == batch.status
                &&& context.final_context == envelope.file_context
                &&& context.summary == envelope.summary
                &&& context.summary.source_file_count == batch.inventory.len()
                &&& batch.file_results.len() == batch.inventory.len()
            }
        }),
{
}

/// Counts can be stored exactly where each of them fits into a stored integer.
pub proof fn law_counts_are_stored_where_they_fit(metrics: ExecutionMetricsV2)
    ensures
        metrics_fault(metrics) is None <==> {
            &&& metrics.discovery_observed_file_count <= i64::MAX
            &&& metrics.source_guard_content_hash_file_count <= i64::MAX
            &&& metrics.source_guard_unavailable_count <= i64::MAX
            &&& metrics.source_guard_bytes_read <= i64::MAX
            &&& metrics.candidate_file_count <= i64::MAX
            &&& metrics.admitted_file_count <= i64::MAX
            &&& metrics.classification_slot_count <= i64::MAX
            &&& metrics.confirmed_run_inspected_pages_total <= i64::MAX
            &&& metrics.unobserved_classification_attempt_count <= i64::MAX
            &&& metrics.nominal_charged_pages_total <= i64::MAX
            &&& metrics.extraction_slot_count <= i64::MAX
            &&& metrics.pdfplumber_invocations <= i64::MAX
            &&& metrics.parse_cache_lookup_count <= i64::MAX
            &&& metrics.classification_cache_lookup_count <= i64::MAX
            &&& metrics.stage_deadline_exhausted_count <= i64::MAX
            &&& metrics.session_restart_count <= i64::MAX
            &&& metrics.session_fallback_count <= i64::MAX
            &&& metrics.classify_attempt_count <= i64::MAX
            &&& metrics.parse_attempt_count <= i64::MAX
            &&& metrics.reserved_chars <= i64::MAX
            &&& metrics.rendered_chars <= i64::MAX
            &&& metrics.worker_handshake_ms <= i64::MAX
            &&& metrics.discovery_ms <= i64::MAX
            &&& metrics.snapshot_lookup_ms <= i64::MAX
            &&& metrics.current_run_audit_write_ms <= i64::MAX
            &&& metrics.terminal_precommit_ms <= i64::MAX
            &&& metrics.deadline_precommit_elapsed_ms <= i64::MAX
            &&& metrics.envelope_rebuild_ms <= i64::MAX
            &&& metrics.terminal_rows_written <= i64::MAX
        },
{
}

/// A run owes the identities of its workers unless it failed before it found anything, for
/// the very reason that a worker could not be made known.
pub proof fn law_workers_are_owed_unless_they_failed(batch: FinalizationBatchView)
    ensures
        !workers_owed(batch) <==> {
            &&& batch.status != RunStatus::Success && batch.status != RunStatus::Partial
            &&& batch.inventory.len() == 0 && batch.file_results.len() == 0
                && batch.cache_writes.len() == 0
            &&& exists|i: int|
                0 <= i < batch.diagnostics.len() && (#[trigger] batch.diagnostics[i]).severity
                    == DiagnosticSeverity::Error && (batch.diagnostics[i].diagnostic.error_code
                    == ErrorCode::WorkerHandshakeFailed
                    || batch.diagnostics[i].diagnostic.error_code
                    == ErrorCode::WorkerVersionMismatch)
        },
{
}

/// A run with a context that did not fail takes the artifact of its snapshot hit or writes
/// its own, keyed exactly where it has a snapshot key; it never ends without one. A failed
/// run has none.
pub proof fn law_contexts_have_an_artifact(batch: FinalizationBatchView)
    ensures
        ({
            let step = artifact_step_of(batch);
            &&& batch.context is None <==> step == Ok::<ArtifactStep, StoreErrorView>(
                ArtifactStep::NoContext,
            )
            &&& batch.context is Some && batch.status == RunStatus::Error <==> step == Ok::<
                ArtifactStep,
                StoreErrorView,
            >(ArtifactStep::WithoutArtifact)
            &&& batch.context is Some && batch.status != RunStatus::Error ==> {
                &&& batch.snapshot_hit matches Some(hit) ==> step matches Ok(
                    ArtifactStep::Reuse { artifact_id, reused_from_context_run_id },
                ) && artifact_id == hit.artifact_id && reused_from_context_run_id
                    == hit.reused_from_context_run_id
                &&& batch.snapshot_hit is None && batch.artifact is None ==> step is Err
                &&& batch.snapshot_hit is None && batch.artifact is Some ==> (step is Ok
                    <==> batch.artifact->0.snapshot_eligible == (batch.snapshot_key is Some))
                &&& batch.snapshot_hit is None ==> (step matches Ok(
                    ArtifactStep::Write { keyed },
                ) ==> keyed == (batch.snapshot_key is Some))
                &&& batch.snapshot_hit is None && step is Ok ==> step->Ok_0 is Write
            }
        }),
{
}

/// All rows of a run are written before it ends; it ends before anything is dropped, and it
/// is put together again after that; the lease is released last before all is committed.
pub proof fn law_steps_come_in_order(batch: FinalizationBatchView)
    ensures
        ({
            let steps = steps_of(batch);
            let n = steps.len() as int;
            let end: int = opening_steps(batch).len() + 5int + context_steps(batch).len();
            &&& n > 6
            &&& steps[0] == FinalizeStep::RequireDurability
            &&& steps[1] == FinalizeStep::Begin
            &&& steps[2] == FinalizeStep::Heartbeat
            &&& steps[3] == FinalizeStep::CheckEngine
            &&& workers_owed(batch) ==> steps[4] == FinalizeStep::CheckWorkers
            &&& !workers_owed(batch) ==> steps[4] == FinalizeStep::WriteInventory
            &&& steps[end] == FinalizeStep::EndRun
            &&& steps[end + 1] == FinalizeStep::EndAttempt
            &&& steps[end + 2] == FinalizeStep::Retain
            &&& steps[end + 3] == FinalizeStep::Rebuild
            &&& batch.execution_metrics is Some ==> steps[end + 4]
                == FinalizeStep::WriteExecutionMetrics && n == end + 7
            &&& batch.execution_metrics is None ==> n == end + 6
            &&& steps[n - 2] == FinalizeStep::ReleaseLease
            &&& steps[n - 1] == FinalizeStep::Commit
            &&& ({
                let rows = opening_steps(batch).len() as int;
                &&& steps[rows] == FinalizeStep::WriteInventory
                &&& steps[rows + 1] == FinalizeStep::WriteCache
                &&& steps[rows + 2] == FinalizeStep::WriteResults
                &&& steps[rows + 3] == FinalizeStep::WriteDiagnostics
                &&& steps[rows + 4] == FinalizeStep::WriteMetrics
                &&& batch.context is None ==> end == rows + 5
                &&& batch.context is Some && batch.status == RunStatus::Error ==> end == rows + 6
                    && steps[rows + 5] == FinalizeStep::InsertContext
                &&& batch.context is Some && batch.status != RunStatus::Error ==> end == rows + 8
                    && steps[rows + 5] == FinalizeStep::PlaceArtifact && steps[rows + 6]
                    == FinalizeStep::InsertContext && steps[rows + 7] == FinalizeStep::CheckSummary
            })
        }),
{
}

/// Every row that a run adds is counted: one for a file of the inventory, for a cache entry
/// and for a diagnostic, and two for a result, which is told with its execution.
pub proof fn law_rows_are_counted(
    batch: FinalizationBatchView,
    file: InventoryRecordView,
    write: CacheWriteRecordView,
    result: FileResultRecordView,
    record: RunDiagnosticRecordView,
)
    ensures
        rows_written(
            FinalizationBatchView { inventory: batch.inventory.push(file), ..batch },
        ) == rows_written(batch) + 1,
        rows_written(
            FinalizationBatchView { cache_writes: batch.cache_writes.push(write), ..batch },
        ) == rows_written(batch) + 1,
        rows_written(
            FinalizationBatchView { file_results: batch.file_results.push(result), ..batch },
        ) == rows_written(batch) + 2,
        rows_written(
            FinalizationBatchView { diagnostics: batch.diagnostics.push(record), ..batch },
        ) == rows_written(batch) + 1,
        batch.context is None ==> rows_written(batch) == batch.inventory.len()
            + batch.cache_writes.len() + 2 * batch.file_results.len() + batch.diagnostics.len()
            + batch.stage_metrics.len() + batch.extension_metrics.len() + 3,
        batch.context matches Some(context) ==> (batch.snapshot_hit is Some || batch.artifact is None
            ==> rows_written(batch) == rows_written(
            FinalizationBatchView { context: None, ..batch },
        ) + 1 + context.decisions.len()),
{
}

/// What a run adds to the audit adds to its size: a diagnostic by its message and a result
/// by its path at least, the answer and the context by their text.
pub proof fn law_audits_grow_with_what_they_hold(
    batch: FinalizationBatchView,
    result: FileResultRecordView,
    record: RunDiagnosticRecordView,
)
    ensures
        audit_size(
            FinalizationBatchView { diagnostics: batch.diagnostics.push(record), ..batch },
        ) == audit_size(batch) + utf8_len(record.diagnostic.message) + 160,
        audit_size(
            FinalizationBatchView { file_results: batch.file_results.push(result), ..batch },
        ) == audit_size(batch) + utf8_len(result.relative_path) + 256 + result.execution_bytes(
            batch.snapshot_hit is Some,
        ),
        audit_size(batch) >= utf8_len(batch.envelope_json),
        batch.context matches Some(context) ==> audit_size(batch) >= utf8_len(batch.envelope_json)
            + utf8_len(context.final_context) + 320,
        result.execution_bytes(batch.snapshot_hit is Some) >= 80 + utf8_len(result.file_identity),
{
    lemma_diagnostics_bytes_prefix(
        batch.diagnostics,
        batch.diagnostics.push(record),
        batch.diagnostics.len(),
    );
    lemma_results_bytes_prefix(
        batch.file_results,
        batch.file_results.push(result),
        batch.snapshot_hit is Some,
        batch.file_results.len(),
    );
}

proof fn lemma_diagnostics_bytes_prefix(
    left: Seq<RunDiagnosticRecordView>,
    right: Seq<RunDiagnosticRecordView>,
    count: nat,
)
    requires
        count <= left.len(),
        count <= right.len(),
        forall|i: int| 0 <= i < count ==> left[i] == right[i],
    ensures
        diagnostics_bytes(left, count) == diagnostics_bytes(right, count),
    decreases count,
{
    if count > 0 {
        lemma_diagnostics_bytes_prefix(left, right, (count - 1) as nat);
    }
}

proof fn lemma_results_bytes_prefix(
    left: Seq<FileResultRecordView>,
    right: Seq<FileResultRecordView>,
    snapshot_rows: bool,
    count: nat,
)
    requires
        count <= left.len(),
        count <= right.len(),
        forall|i: int| 0 <= i < count ==> left[i] == right[i],
    ensures
        results_bytes(left, snapshot_rows, count) == results_bytes(right, snapshot_rows, count),
    decreases count,
{
    if count > 0 {
        lemma_results_bytes_prefix(left, right, snapshot_rows, (count - 1) as nat);
    }
}

/// What the end of a run took is told in its metrics, and nothing else of them is changed.
pub proof fn law_the_end_of_a_run_is_measured(
    timings: &TerminalAuditTimings,
    metrics: &ExecutionMetricsV2,
    bound: ExecutionMetricsV2,
)
    requires
        call_ensures(TerminalAuditTimings::bind, (timings, metrics), bound),
    ensures
        bound.current_run_audit_write_ms == timings.current_run_audit_write_ms,
        bound.terminal_precommit_ms == timings.terminal_precommit_ms,
        bound.envelope_rebuild_ms == timings.envelope_rebuild_ms,
        bound.terminal_rows_written == timings.terminal_rows_written,
        bound == (ExecutionMetricsV2 {
            current_run_audit_write_ms: bound.current_run_audit_write_ms,
            terminal_precommit_ms: bound.terminal_precommit_ms,
            envelope_rebuild_ms: bound.envelope_rebuild_ms,
            terminal_rows_written: bound.terminal_rows_written,
            ..*metrics
        }),
{
}

} // verus!
