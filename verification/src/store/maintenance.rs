//! The upkeep of a database: dropping what is too old or too much, giving pages back,
//! and checking what is left.
use crate::contract::{
    clone_all, opt_view, views, Diagnostic, DiagnosticStage, DiagnosticView, ErrorCode,
};
use crate::store::artifact::{artifact_invariants_hold, StoredArtifact};
use crate::store::cache::{
    cache_retention_policy, cached_row, classified_row, classified_rows_after_write,
    lemma_classified_row_with_key, lemma_row_with_key, rows_after_write, CacheRetentionPolicy,
    CacheRetentionPolicyView, CacheWriteRecordView, ClassificationCacheRow,
    ClassificationCacheRowView, ClassificationCacheWriteRecordView, ParseCacheRow,
    ParseCacheRowView, CLASSIFICATION_CACHE_MAX_BYTES, PARSE_CACHE_MAX_BYTES,
};
use crate::store::run::{joined_text, StoreError, StoreErrorView};
use crate::store::upgrade::{
    form_too_new_message, too_new_message, upgrade_diagnostic, upkeep_report,
};
use crate::text::{text_bytes, text_eq, utf8_len};
use vstd::prelude::*;
use vstd::string::StringExecFns;

verus! {

/// What the upkeep is to do.
#[derive(Clone, Copy, Debug, PartialEq, Eq, Structural)]
pub enum MaintenanceMode {
    Gc,
    IncrementalVacuum,
}

impl MaintenanceMode {
    /// The text of the mode.
    pub open spec fn text_spec(self) -> Seq<char> {
        match self {
            MaintenanceMode::Gc => "gc"@,
            MaintenanceMode::IncrementalVacuum => "incremental_vacuum"@,
        }
    }

    /// The text of the mode.
    pub fn text(self) -> (text: &'static str)
        ensures
            text@ == self.text_spec(),
    {
        match self {
            MaintenanceMode::Gc => "gc",
            MaintenanceMode::IncrementalVacuum => "incremental_vacuum",
        }
    }
}

/// How the upkeep went.
#[derive(Clone, Copy, Debug, PartialEq, Eq, Structural)]
pub enum MaintenanceStatus {
    Complete,
    Error,
}

impl MaintenanceStatus {
    /// The text of the status.
    pub open spec fn text_spec(self) -> Seq<char> {
        match self {
            MaintenanceStatus::Complete => "ok"@,
            MaintenanceStatus::Error => "error"@,
        }
    }

    /// The text of the status.
    pub fn text(self) -> (text: &'static str)
        ensures
            text@ == self.text_spec(),
    {
        match self {
            MaintenanceStatus::Complete => "ok",
            MaintenanceStatus::Error => "error",
        }
    }
}

/// What became of giving pages back.
#[derive(Clone, Copy, Debug, PartialEq, Eq, Structural)]
pub enum MaintenanceVacuumStatus {
    NotRequested,
    SkippedDryRun,
    Complete,
    Error,
}

impl MaintenanceVacuumStatus {
    /// The text of the status.
    pub open spec fn text_spec(self) -> Seq<char> {
        match self {
            MaintenanceVacuumStatus::NotRequested => "not_requested"@,
            MaintenanceVacuumStatus::SkippedDryRun => "skipped_dry_run"@,
            MaintenanceVacuumStatus::Complete => "ok"@,
            MaintenanceVacuumStatus::Error => "error"@,
        }
    }

    /// The text of the status.
    pub fn text(self) -> (text: &'static str)
        ensures
            text@ == self.text_spec(),
    {
        match self {
            MaintenanceVacuumStatus::NotRequested => "not_requested",
            MaintenanceVacuumStatus::SkippedDryRun => "skipped_dry_run",
            MaintenanceVacuumStatus::Complete => "ok",
            MaintenanceVacuumStatus::Error => "error",
        }
    }
}

/// What the check before the upkeep found.
#[derive(Clone, Copy, Debug, PartialEq, Eq, Structural)]
pub enum MaintenancePreIntegrityCheck {
    Passed,
    Failed,
}

impl MaintenancePreIntegrityCheck {
    /// The text of the finding.
    pub open spec fn text_spec(self) -> Seq<char> {
        match self {
            MaintenancePreIntegrityCheck::Passed => "ok"@,
            MaintenancePreIntegrityCheck::Failed => "failed"@,
        }
    }

    /// The text of the finding.
    pub fn text(self) -> (text: &'static str)
        ensures
            text@ == self.text_spec(),
    {
        match self {
            MaintenancePreIntegrityCheck::Passed => "ok",
            MaintenancePreIntegrityCheck::Failed => "failed",
        }
    }
}

/// What the check after the upkeep found.
#[derive(Clone, Copy, Debug, PartialEq, Eq, Structural)]
pub enum MaintenancePostIntegrityCheck {
    Passed,
    Failed,
    NotRun,
}

impl MaintenancePostIntegrityCheck {
    /// The text of the finding.
    pub open spec fn text_spec(self) -> Seq<char> {
        match self {
            MaintenancePostIntegrityCheck::Passed => "ok"@,
            MaintenancePostIntegrityCheck::Failed => "failed"@,
            MaintenancePostIntegrityCheck::NotRun => "not_run"@,
        }
    }

    /// The text of the finding.
    pub fn text(self) -> (text: &'static str)
        ensures
            text@ == self.text_spec(),
    {
        match self {
            MaintenancePostIntegrityCheck::Passed => "ok",
            MaintenancePostIntegrityCheck::Failed => "failed",
            MaintenancePostIntegrityCheck::NotRun => "not_run",
        }
    }
}

/// How a database gives pages back.
#[derive(Clone, Copy, Debug, PartialEq, Eq, Structural)]
pub enum AutoVacuumMode {
    Off,
    Full,
    Incremental,
}

impl AutoVacuumMode {
    /// The text of the mode.
    pub open spec fn text_spec(self) -> Seq<char> {
        match self {
            AutoVacuumMode::Off => "none"@,
            AutoVacuumMode::Full => "full"@,
            AutoVacuumMode::Incremental => "incremental"@,
        }
    }

    /// The text of the mode.
    pub fn text(self) -> (text: &'static str)
        ensures
            text@ == self.text_spec(),
    {
        match self {
            AutoVacuumMode::Off => "none",
            AutoVacuumMode::Full => "full",
            AutoVacuumMode::Incremental => "incremental",
        }
    }
}

/// A request for upkeep.
#[derive(Debug, PartialEq, Eq)]
pub struct MaintenanceRequestV1 {
    pub contract: String,
    pub protocol_version: u64,
    pub request_id: String,
    pub scan_db_path: String,
    pub mode: MaintenanceMode,
    pub dry_run: bool,
}

/// What a [`MaintenanceRequestV1`] says.
#[verifier::ext_equal]
pub struct MaintenanceRequestV1View {
    pub contract: Seq<char>,
    pub protocol_version: u64,
    pub request_id: Seq<char>,
    pub scan_db_path: Seq<char>,
    pub mode: MaintenanceMode,
    pub dry_run: bool,
}

impl View for MaintenanceRequestV1 {
    type V = MaintenanceRequestV1View;

    open spec fn view(&self) -> MaintenanceRequestV1View {
        MaintenanceRequestV1View {
            contract: self.contract@,
            protocol_version: self.protocol_version,
            request_id: self.request_id@,
            scan_db_path: self.scan_db_path@,
            mode: self.mode,
            dry_run: self.dry_run,
        }
    }
}

impl Clone for MaintenanceRequestV1 {
    fn clone(&self) -> (copy: Self)
        ensures
            copy@ == self@,
            copy == *self,
    {
        MaintenanceRequestV1 {
            contract: self.contract.clone(),
            protocol_version: self.protocol_version,
            request_id: self.request_id.clone(),
            scan_db_path: self.scan_db_path.clone(),
            mode: self.mode,
            dry_run: self.dry_run,
        }
    }
}

/// Rows of each table.
#[derive(Clone, Copy, Debug, PartialEq, Eq, Structural)]
pub struct MaintenanceDeletedV1 {
    pub parse_cache_rows: u64,
    pub classification_cache_rows: u64,
    pub context_artifacts_rows: u64,
    pub context_artifact_files_rows: u64,
    pub context_artifact_decisions_rows: u64,
    pub scan_runs_rows: u64,
    pub scan_run_attempts_rows: u64,
    pub run_diagnostics_rows: u64,
    pub scan_file_results_rows: u64,
    pub scan_stage_metrics_rows: u64,
    pub scan_extension_metrics_rows: u64,
    pub context_runs_rows: u64,
    pub context_decisions_rows: u64,
    pub file_inventory_rows: u64,
}

/// How large the database is.
#[derive(Clone, Copy, Debug, PartialEq, Eq, Structural)]
pub struct MaintenanceSizeV1 {
    pub parse_cache_logical_bytes: u64,
    pub classification_cache_logical_bytes: u64,
    pub context_artifacts_logical_bytes: u64,
    pub terminal_audit_logical_bytes: u64,
    pub database_file_bytes: u64,
    pub wal_file_bytes: u64,
    pub shm_file_bytes: u64,
    pub total_physical_bytes: u64,
    pub freelist_bytes: u64,
    pub auto_vacuum_mode: AutoVacuumMode,
}

/// What became of giving pages back.
#[derive(Clone, Copy, Debug, PartialEq, Eq, Structural)]
pub struct MaintenanceVacuumV1 {
    pub mode: MaintenanceMode,
    pub status: MaintenanceVacuumStatus,
    pub pages_changed: u64,
}

/// The answer to a request for upkeep.
#[derive(Debug, PartialEq, Eq)]
pub struct MaintenanceResponseV1 {
    pub contract: String,
    pub protocol_version: u64,
    pub request_id: String,
    pub status: MaintenanceStatus,
    pub cache_retention_policy: CacheRetentionPolicy,
    pub before: MaintenanceSizeV1,
    pub after: MaintenanceSizeV1,
    pub after_complete: bool,
    pub deleted: MaintenanceDeletedV1,
    pub pre_integrity_check: MaintenancePreIntegrityCheck,
    pub post_integrity_check: MaintenancePostIntegrityCheck,
    pub vacuum: MaintenanceVacuumV1,
    pub warnings: Vec<Diagnostic>,
    pub error: Option<Diagnostic>,
}

/// What a [`MaintenanceResponseV1`] says.
#[verifier::ext_equal]
pub struct MaintenanceResponseV1View {
    pub contract: Seq<char>,
    pub protocol_version: u64,
    pub request_id: Seq<char>,
    pub status: MaintenanceStatus,
    pub cache_retention_policy: CacheRetentionPolicyView,
    pub before: MaintenanceSizeV1,
    pub after: MaintenanceSizeV1,
    pub after_complete: bool,
    pub deleted: MaintenanceDeletedV1,
    pub pre_integrity_check: MaintenancePreIntegrityCheck,
    pub post_integrity_check: MaintenancePostIntegrityCheck,
    pub vacuum: MaintenanceVacuumV1,
    pub warnings: Seq<DiagnosticView>,
    pub error: Option<DiagnosticView>,
}

impl View for MaintenanceResponseV1 {
    type V = MaintenanceResponseV1View;

    open spec fn view(&self) -> MaintenanceResponseV1View {
        MaintenanceResponseV1View {
            contract: self.contract@,
            protocol_version: self.protocol_version,
            request_id: self.request_id@,
            status: self.status,
            cache_retention_policy: self.cache_retention_policy@,
            before: self.before,
            after: self.after,
            after_complete: self.after_complete,
            deleted: self.deleted,
            pre_integrity_check: self.pre_integrity_check,
            post_integrity_check: self.post_integrity_check,
            vacuum: self.vacuum,
            warnings: views(self.warnings@),
            error: opt_view(self.error),
        }
    }
}

impl Clone for MaintenanceResponseV1 {
    fn clone(&self) -> (copy: Self)
        ensures
            copy@ == self@,
    {
        MaintenanceResponseV1 {
            contract: self.contract.clone(),
            protocol_version: self.protocol_version,
            request_id: self.request_id.clone(),
            status: self.status,
            cache_retention_policy: self.cache_retention_policy.clone(),
            before: self.before,
            after: self.after,
            after_complete: self.after_complete,
            deleted: self.deleted,
            pre_integrity_check: self.pre_integrity_check,
            post_integrity_check: self.post_integrity_check,
            vacuum: self.vacuum,
            warnings: clone_all(&self.warnings),
            error: self.error.clone(),
        }
    }
}

/// No rows.
pub open spec fn no_rows() -> MaintenanceDeletedV1 {
    MaintenanceDeletedV1 {
        parse_cache_rows: 0,
        classification_cache_rows: 0,
        context_artifacts_rows: 0,
        context_artifact_files_rows: 0,
        context_artifact_decisions_rows: 0,
        scan_runs_rows: 0,
        scan_run_attempts_rows: 0,
        run_diagnostics_rows: 0,
        scan_file_results_rows: 0,
        scan_stage_metrics_rows: 0,
        scan_extension_metrics_rows: 0,
        context_runs_rows: 0,
        context_decisions_rows: 0,
        file_inventory_rows: 0,
    }
}

/// No rows.
pub fn zero_maintenance_deleted() -> (rows: MaintenanceDeletedV1)
    ensures
        rows == no_rows(),
{
    MaintenanceDeletedV1 {
        parse_cache_rows: 0,
        classification_cache_rows: 0,
        context_artifacts_rows: 0,
        context_artifact_files_rows: 0,
        context_artifact_decisions_rows: 0,
        scan_runs_rows: 0,
        scan_run_attempts_rows: 0,
        run_diagnostics_rows: 0,
        scan_file_results_rows: 0,
        scan_stage_metrics_rows: 0,
        scan_extension_metrics_rows: 0,
        context_runs_rows: 0,
        context_decisions_rows: 0,
        file_inventory_rows: 0,
    }
}

/// The size of nothing.
pub open spec fn no_size() -> MaintenanceSizeV1 {
    MaintenanceSizeV1 {
        parse_cache_logical_bytes: 0,
        classification_cache_logical_bytes: 0,
        context_artifacts_logical_bytes: 0,
        terminal_audit_logical_bytes: 0,
        database_file_bytes: 0,
        wal_file_bytes: 0,
        shm_file_bytes: 0,
        total_physical_bytes: 0,
        freelist_bytes: 0,
        auto_vacuum_mode: AutoVacuumMode::Off,
    }
}

/// The size of nothing.
pub fn zero_maintenance_size() -> (size: MaintenanceSizeV1)
    ensures
        size == no_size(),
{
    MaintenanceSizeV1 {
        parse_cache_logical_bytes: 0,
        classification_cache_logical_bytes: 0,
        context_artifacts_logical_bytes: 0,
        terminal_audit_logical_bytes: 0,
        database_file_bytes: 0,
        wal_file_bytes: 0,
        shm_file_bytes: 0,
        total_physical_bytes: 0,
        freelist_bytes: 0,
        auto_vacuum_mode: AutoVacuumMode::Off,
    }
}

/// Rows that were there before and are not there after.
pub open spec fn lost(before: u64, after: u64) -> u64 {
    if before < after {
        0
    } else {
        (before - after) as u64
    }
}

fn rows_lost(before: u64, after: u64) -> (rows: u64)
    ensures
        rows == lost(before, after),
{
    if before < after {
        0
    } else {
        before - after
    }
}

/// Rows of each table that were there before and are not there after.
pub open spec fn all_lost(
    before: MaintenanceDeletedV1,
    after: MaintenanceDeletedV1,
) -> MaintenanceDeletedV1 {
    MaintenanceDeletedV1 {
        parse_cache_rows: lost(before.parse_cache_rows, after.parse_cache_rows),
        classification_cache_rows: lost(before.classification_cache_rows, after.classification_cache_rows),
        context_artifacts_rows: lost(before.context_artifacts_rows, after.context_artifacts_rows),
        context_artifact_files_rows: lost(before.context_artifact_files_rows, after.context_artifact_files_rows),
        context_artifact_decisions_rows: lost(before.context_artifact_decisions_rows, after.context_artifact_decisions_rows),
        scan_runs_rows: lost(before.scan_runs_rows, after.scan_runs_rows),
        scan_run_attempts_rows: lost(before.scan_run_attempts_rows, after.scan_run_attempts_rows),
        run_diagnostics_rows: lost(before.run_diagnostics_rows, after.run_diagnostics_rows),
        scan_file_results_rows: lost(before.scan_file_results_rows, after.scan_file_results_rows),
        scan_stage_metrics_rows: lost(before.scan_stage_metrics_rows, after.scan_stage_metrics_rows),
        scan_extension_metrics_rows: lost(before.scan_extension_metrics_rows, after.scan_extension_metrics_rows),
        context_runs_rows: lost(before.context_runs_rows, after.context_runs_rows),
        context_decisions_rows: lost(before.context_decisions_rows, after.context_decisions_rows),
        file_inventory_rows: lost(before.file_inventory_rows, after.file_inventory_rows),
    }
}

/// Rows of each table that were there before and are not there after.
pub fn deleted_diff(before: &MaintenanceDeletedV1, after: &MaintenanceDeletedV1) -> (rows:
    MaintenanceDeletedV1)
    ensures
        rows == all_lost(*before, *after),
{
    MaintenanceDeletedV1 {
        parse_cache_rows: rows_lost(before.parse_cache_rows, after.parse_cache_rows),
        classification_cache_rows: rows_lost(before.classification_cache_rows, after.classification_cache_rows),
        context_artifacts_rows: rows_lost(before.context_artifacts_rows, after.context_artifacts_rows),
        context_artifact_files_rows: rows_lost(before.context_artifact_files_rows, after.context_artifact_files_rows),
        context_artifact_decisions_rows: rows_lost(before.context_artifact_decisions_rows, after.context_artifact_decisions_rows),
        scan_runs_rows: rows_lost(before.scan_runs_rows, after.scan_runs_rows),
        scan_run_attempts_rows: rows_lost(before.scan_run_attempts_rows, after.scan_run_attempts_rows),
        run_diagnostics_rows: rows_lost(before.run_diagnostics_rows, after.run_diagnostics_rows),
        scan_file_results_rows: rows_lost(before.scan_file_results_rows, after.scan_file_results_rows),
        scan_stage_metrics_rows: rows_lost(before.scan_stage_metrics_rows, after.scan_stage_metrics_rows),
        scan_extension_metrics_rows: rows_lost(before.scan_extension_metrics_rows, after.scan_extension_metrics_rows),
        context_runs_rows: rows_lost(before.context_runs_rows, after.context_runs_rows),
        context_decisions_rows: rows_lost(before.context_decisions_rows, after.context_decisions_rows),
        file_inventory_rows: rows_lost(before.file_inventory_rows, after.file_inventory_rows),
    }
}

// ---------------------------------------------------------------------------
// Sizes
// ---------------------------------------------------------------------------

/// What was read of the sizes of a database.
#[derive(Clone, Copy, Debug, PartialEq, Eq)]
pub struct RawSizes {
    pub parse_cache_bytes: i64,
    pub classification_cache_bytes: i64,
    pub context_artifacts_bytes: i64,
    pub terminal_audit_bytes: i64,
    pub page_size: i64,
    pub freelist_count: i64,
    pub database_file_bytes: u64,
    pub wal_file_bytes: u64,
    pub shm_file_bytes: u64,
    pub auto_vacuum: i64,
}

/// A number that was read, or nothing where it is negative.
pub open spec fn at_least_zero(value: i64) -> u64 {
    if value < 0 {
        0
    } else {
        value as u64
    }
}

fn not_negative(value: i64) -> (count: u64)
    ensures
        count == at_least_zero(value),
{
    if value < 0 {
        0
    } else {
        value as u64
    }
}

/// The mode that a database reports by number.
pub open spec fn vacuum_mode_of(value: i64) -> AutoVacuumMode {
    if value == 1 {
        AutoVacuumMode::Full
    } else if value == 2 {
        AutoVacuumMode::Incremental
    } else {
        AutoVacuumMode::Off
    }
}

/// The mode that a database reports by number.
pub fn auto_vacuum_mode(value: i64) -> (mode: AutoVacuumMode)
    ensures
        mode == vacuum_mode_of(value),
{
    if value == 1 {
        AutoVacuumMode::Full
    } else if value == 2 {
        AutoVacuumMode::Incremental
    } else {
        AutoVacuumMode::Off
    }
}

impl RawSizes {
    /// The sizes fit: the free pages and the files together.
    pub open spec fn fit(self) -> bool {
        &&& at_least_zero(self.page_size) * at_least_zero(self.freelist_count) <= u64::MAX
        &&& self.database_file_bytes + self.wal_file_bytes + self.shm_file_bytes <= u64::MAX
    }

    /// Whether the sizes fit.
    pub fn do_fit(&self) -> (yes: bool)
        ensures
            yes == self.fit(),
    {
        let pages: u128 = not_negative(self.freelist_count) as u128;
        let page: u128 = not_negative(self.page_size) as u128;
        proof {
            let a = at_least_zero(self.page_size);
            let b = at_least_zero(self.freelist_count);
            assert(a * b <= u64::MAX * u64::MAX) by (nonlinear_arith)
                requires
                    a <= u64::MAX,
                    b <= u64::MAX,
            ;
        }
        let files: u128 = self.database_file_bytes as u128 + self.wal_file_bytes as u128
            + self.shm_file_bytes as u128;
        page * pages <= u64::MAX as u128 && files <= u64::MAX as u128
    }

    /// How large the database is.
    pub fn form(&self) -> (size: MaintenanceSizeV1)
        requires
            self.fit(),
        ensures
            size == (MaintenanceSizeV1 {
                parse_cache_logical_bytes: at_least_zero(self.parse_cache_bytes),
                classification_cache_logical_bytes: at_least_zero(self.classification_cache_bytes),
                context_artifacts_logical_bytes: at_least_zero(self.context_artifacts_bytes),
                terminal_audit_logical_bytes: at_least_zero(self.terminal_audit_bytes),
                database_file_bytes: self.database_file_bytes,
                wal_file_bytes: self.wal_file_bytes,
                shm_file_bytes: self.shm_file_bytes,
                total_physical_bytes: (self.database_file_bytes + self.wal_file_bytes
                    + self.shm_file_bytes) as u64,
                freelist_bytes: (at_least_zero(self.page_size) * at_least_zero(
                    self.freelist_count,
                )) as u64,
                auto_vacuum_mode: vacuum_mode_of(self.auto_vacuum),
            }),
    {
        MaintenanceSizeV1 {
            parse_cache_logical_bytes: not_negative(self.parse_cache_bytes),
            classification_cache_logical_bytes: not_negative(self.classification_cache_bytes),
            context_artifacts_logical_bytes: not_negative(self.context_artifacts_bytes),
            terminal_audit_logical_bytes: not_negative(self.terminal_audit_bytes),
            database_file_bytes: self.database_file_bytes,
            wal_file_bytes: self.wal_file_bytes,
            shm_file_bytes: self.shm_file_bytes,
            total_physical_bytes: self.database_file_bytes + self.wal_file_bytes
                + self.shm_file_bytes,
            freelist_bytes: not_negative(self.page_size) * not_negative(self.freelist_count),
            auto_vacuum_mode: auto_vacuum_mode(self.auto_vacuum),
        }
    }
}

/// Pages that were given back, from the number of free ones before and after.
pub fn pages_given_back(before: i64, after: i64) -> (pages: u64)
    ensures
        pages == lost(at_least_zero(before), at_least_zero(after)),
{
    rows_lost(not_negative(before), not_negative(after))
}

/// The name of a file that stands beside a database.
pub fn sidecar_name(name: &str, kind: &str) -> (sidecar: String)
    ensures
        sidecar@ == name@ + "-"@ + kind@,
{
    let mut sidecar: String = name.to_string();
    sidecar.append("-");
    sidecar.append(kind);
    sidecar
}

// ---------------------------------------------------------------------------
// Integrity
// ---------------------------------------------------------------------------

impl ParseCacheRowView {
    /// Payload bytes of the row: its texts, and eight bytes for the flag.
    pub open spec fn payload_bytes(self) -> nat {
        utf8_len(self.file_identity) + utf8_len(self.source_version) + utf8_len(
            self.source_guard_kind,
        ) + utf8_len(self.source_guard_sha256) + utf8_len(self.parse_profile_hash) + utf8_len(
            self.entry.content,
        ) + utf8_len(self.entry.content_sha256) + utf8_len(self.entry.parser_backend) + utf8_len(
            self.entry.worker_lane,
        ) + utf8_len(self.entry.worker_contract_version) + utf8_len(self.entry.worker_version)
            + utf8_len(self.entry.worker_build) + 8
    }
}

impl ClassificationCacheRowView {
    /// Payload bytes of the row: its texts, and eight bytes for each number.
    pub open spec fn payload_bytes(self) -> nat {
        utf8_len(self.file_identity) + utf8_len(self.source_version) + utf8_len(
            self.source_guard_kind,
        ) + utf8_len(self.source_guard_sha256) + utf8_len(self.classifier_profile_hash) + utf8_len(
            self.classifier_build,
        ) + utf8_len(self.entry.status) + 16
    }
}

/// Every row is stored with its size.
pub open spec fn parse_sizes_hold(rows: Seq<ParseCacheRowView>) -> bool {
    forall|i: int|
        0 <= i < rows.len() ==> (#[trigger] rows[i]).entry_size_bytes == rows[i].payload_bytes()
}

/// Every row is stored with its size.
pub open spec fn classification_sizes_hold(rows: Seq<ClassificationCacheRowView>) -> bool {
    forall|i: int|
        0 <= i < rows.len() ==> (#[trigger] rows[i]).entry_size_bytes == rows[i].payload_bytes()
}

/// Whether every row of the parse cache is stored with its size.
pub fn parse_cache_entry_sizes_match(rows: &Vec<ParseCacheRow>) -> (hold: bool)
    ensures
        hold == parse_sizes_hold(views(rows@)),
{
    let ghost all = views(rows@);
    let mut i: usize = 0;
    while i < rows.len()
        invariant
            i <= rows.len(),
            all == views(rows@),
            forall|k: int|
                0 <= k < i ==> (#[trigger] all[k]).entry_size_bytes == all[k].payload_bytes(),
        decreases rows.len() - i,
    {
        let row: &ParseCacheRow = &rows[i];
        assert(all[i as int] == row@);
        let size: u128 = text_bytes(row.file_identity.as_str()) + text_bytes(
            row.source_version.as_str(),
        ) + text_bytes(row.source_guard_kind.as_str()) + text_bytes(
            row.source_guard_sha256.as_str(),
        ) + text_bytes(row.parse_profile_hash.as_str()) + text_bytes(row.entry.content.as_str())
            + text_bytes(row.entry.content_sha256.as_str()) + text_bytes(
            row.entry.parser_backend.as_str(),
        ) + text_bytes(row.entry.worker_lane.as_str()) + text_bytes(
            row.entry.worker_contract_version.as_str(),
        ) + text_bytes(row.entry.worker_version.as_str()) + text_bytes(
            row.entry.worker_build.as_str(),
        ) + 8;
        if row.entry_size_bytes as i128 != size as i128 {
            return false;
        }
        i = i + 1;
    }
    true
}

/// Whether every row of the classification cache is stored with its size.
pub fn classification_cache_entry_sizes_match(rows: &Vec<ClassificationCacheRow>) -> (hold: bool)
    ensures
        hold == classification_sizes_hold(views(rows@)),
{
    let ghost all = views(rows@);
    let mut i: usize = 0;
    while i < rows.len()
        invariant
            i <= rows.len(),
            all == views(rows@),
            forall|k: int|
                0 <= k < i ==> (#[trigger] all[k]).entry_size_bytes == all[k].payload_bytes(),
        decreases rows.len() - i,
    {
        let row: &ClassificationCacheRow = &rows[i];
        assert(all[i as int] == row@);
        let size: u128 = text_bytes(row.file_identity.as_str()) + text_bytes(
            row.source_version.as_str(),
        ) + text_bytes(row.source_guard_kind.as_str()) + text_bytes(
            row.source_guard_sha256.as_str(),
        ) + text_bytes(row.classifier_profile_hash.as_str()) + text_bytes(
            row.classifier_build.as_str(),
        ) + text_bytes(row.entry.status.as_str()) + 16;
        if row.entry_size_bytes as i128 != size as i128 {
            return false;
        }
        i = i + 1;
    }
    true
}

/// What was read of a database to check it. A part that could not be read is missing.
pub struct IntegrityFacts {
    /// What the database says of its own file.
    pub file_check: Option<String>,
    /// How many rows refer to rows that are not there.
    pub dangling_rows: Option<u64>,
    pub parse_rows: Option<Vec<ParseCacheRow>>,
    pub classification_rows: Option<Vec<ClassificationCacheRow>>,
    pub artifacts: Option<Vec<StoredArtifact>>,
}

impl IntegrityFacts {
    /// Everything could be read and is in order.
    pub open spec fn sound(self) -> bool {
        &&& self.file_check matches Some(found) && found@ == "ok"@
        &&& self.dangling_rows == Some(0u64)
        &&& self.parse_rows matches Some(rows) && parse_sizes_hold(views(rows@))
        &&& self.classification_rows matches Some(rows) && classification_sizes_hold(views(rows@))
        &&& self.artifacts matches Some(artifacts) && forall|i: int|
            0 <= i < artifacts@.len() ==> (#[trigger] artifacts@[i])@.sound()
    }

    /// Whether everything could be read and is in order.
    pub fn integrity_checks_pass(&self) -> (pass: bool)
        ensures
            pass == self.sound(),
    {
        let file: bool = match &self.file_check {
            Some(found) => text_eq(found.as_str(), "ok"),
            None => false,
        };
        let linked: bool = match self.dangling_rows {
            Some(count) => count == 0,
            None => false,
        };
        let parses: bool = match &self.parse_rows {
            Some(rows) => parse_cache_entry_sizes_match(rows),
            None => false,
        };
        let classifications: bool = match &self.classification_rows {
            Some(rows) => classification_cache_entry_sizes_match(rows),
            None => false,
        };
        let artifacts: bool = match &self.artifacts {
            Some(artifacts) => artifact_invariants_hold(artifacts),
            None => false,
        };
        file && linked && parses && classifications && artifacts
    }
}

/// Caching a parse keeps the stored sizes true.
pub proof fn law_parse_writes_keep_the_sizes(
    rows: Seq<ParseCacheRowView>,
    record: CacheWriteRecordView,
    cached_at_ms: i64,
    bucket: Seq<char>,
)
    requires
        parse_sizes_hold(rows),
        record.size_bytes() <= PARSE_CACHE_MAX_BYTES,
    ensures
        parse_sizes_hold(rows_after_write(rows, record, cached_at_ms, bucket)),
{
    lemma_row_with_key(
        rows,
        0,
        record.file_identity,
        record.source_version,
        record.source_guard_kind,
        record.source_guard_sha256,
        record.parse_profile_hash,
    );
    let after = rows_after_write(rows, record, cached_at_ms, bucket);
    assert forall|i: int| 0 <= i < after.len() implies (#[trigger] after[i]).entry_size_bytes
        == after[i].payload_bytes() by {
        if i < rows.len() && after[i] == rows[i] {
            assert(rows[i].entry_size_bytes == rows[i].payload_bytes());
        } else {
            lemma_cached_size(record, cached_at_ms, bucket, after[i].generation_rank);
        }
    }
}

proof fn lemma_cached_size(
    record: CacheWriteRecordView,
    cached_at_ms: i64,
    bucket: Seq<char>,
    generation_rank: i64,
)
    requires
        record.size_bytes() <= PARSE_CACHE_MAX_BYTES,
    ensures
        cached_row(record, cached_at_ms, bucket, generation_rank).entry_size_bytes == cached_row(
            record,
            cached_at_ms,
            bucket,
            generation_rank,
        ).payload_bytes(),
{
}

proof fn lemma_classified_size(
    record: ClassificationCacheWriteRecordView,
    cached_at_ms: i64,
    bucket: Seq<char>,
    generation_rank: i64,
)
    requires
        record.size_bytes() <= CLASSIFICATION_CACHE_MAX_BYTES,
    ensures
        classified_row(record, cached_at_ms, bucket, generation_rank).entry_size_bytes
            == classified_row(record, cached_at_ms, bucket, generation_rank).payload_bytes(),
{
}

/// Caching a classification keeps the stored sizes true.
pub proof fn law_classification_writes_keep_the_sizes(
    rows: Seq<ClassificationCacheRowView>,
    record: ClassificationCacheWriteRecordView,
    cached_at_ms: i64,
    bucket: Seq<char>,
)
    requires
        classification_sizes_hold(rows),
        record.size_bytes() <= CLASSIFICATION_CACHE_MAX_BYTES,
    ensures
        classification_sizes_hold(classified_rows_after_write(rows, record, cached_at_ms, bucket)),
{
    lemma_classified_row_with_key(
        rows,
        0,
        record.file_identity,
        record.source_version,
        record.source_guard_kind,
        record.source_guard_sha256,
        record.classifier_profile_hash,
        record.classifier_build,
    );
    let after = classified_rows_after_write(rows, record, cached_at_ms, bucket);
    assert forall|i: int| 0 <= i < after.len() implies (#[trigger] after[i]).entry_size_bytes
        == after[i].payload_bytes() by {
        if i < rows.len() && after[i] == rows[i] {
            assert(rows[i].entry_size_bytes == rows[i].payload_bytes());
        } else {
            lemma_classified_size(record, cached_at_ms, bucket, after[i].generation_rank);
        }
    }
}

// ---------------------------------------------------------------------------
// Answers
// ---------------------------------------------------------------------------

/// The retention policy of the caches.
pub open spec fn policy_view() -> CacheRetentionPolicyView {
    CacheRetentionPolicyView {
        policy_version: "cache_retention_v1"@,
        parse_cache_max_bytes: 1_073_741_824,
        classification_cache_max_bytes: 134_217_728,
        context_artifacts_max_bytes: 536_870_912,
        terminal_audit_max_bytes: 2_147_483_648,
        terminal_run_max_count: 500,
        terminal_run_max_age_days: 90,
        opportunistic_gc_budget_ms: 10,
    }
}

impl MaintenanceRequestV1View {
    /// The answer that everything went well.
    pub open spec fn completed(
        self,
        before: MaintenanceSizeV1,
        after: MaintenanceSizeV1,
        deleted: MaintenanceDeletedV1,
        pre: MaintenancePreIntegrityCheck,
        post: MaintenancePostIntegrityCheck,
        vacuum: MaintenanceVacuumV1,
    ) -> MaintenanceResponseV1View {
        MaintenanceResponseV1View {
            contract: "ai_daily_scanner_maintenance"@,
            protocol_version: 1,
            request_id: self.request_id,
            status: MaintenanceStatus::Complete,
            cache_retention_policy: policy_view(),
            before,
            after,
            after_complete: true,
            deleted,
            pre_integrity_check: pre,
            post_integrity_check: post,
            vacuum,
            warnings: Seq::empty(),
            error: None,
        }
    }

    /// The answer that something went wrong.
    pub open spec fn failed(
        self,
        before: MaintenanceSizeV1,
        after: MaintenanceSizeV1,
        after_complete: bool,
        deleted: MaintenanceDeletedV1,
        pre: MaintenancePreIntegrityCheck,
        post: MaintenancePostIntegrityCheck,
        vacuum: MaintenanceVacuumV1,
        error: DiagnosticView,
    ) -> MaintenanceResponseV1View {
        MaintenanceResponseV1View {
            status: MaintenanceStatus::Error,
            after_complete,
            error: Some(error),
            ..self.completed(before, after, deleted, pre, post, vacuum)
        }
    }

    /// Giving pages back, with the given outcome.
    pub open spec fn vacuum(self, status: MaintenanceVacuumStatus, pages: u64) -> MaintenanceVacuumV1 {
        MaintenanceVacuumV1 { mode: self.mode, status, pages_changed: pages }
    }
}

impl MaintenanceRequestV1 {
    /// The answer that everything went well.
    pub fn maintenance_ok_response(
        &self,
        before: MaintenanceSizeV1,
        after: MaintenanceSizeV1,
        deleted: MaintenanceDeletedV1,
        pre: MaintenancePreIntegrityCheck,
        post: MaintenancePostIntegrityCheck,
        vacuum: MaintenanceVacuumV1,
    ) -> (response: MaintenanceResponseV1)
        ensures
            response@ == self@.completed(before, after, deleted, pre, post, vacuum),
    {
        let response = MaintenanceResponseV1 {
            contract: "ai_daily_scanner_maintenance".to_string(),
            protocol_version: 1,
            request_id: self.request_id.clone(),
            status: MaintenanceStatus::Complete,
            cache_retention_policy: cache_retention_policy(),
            before,
            after,
            after_complete: true,
            deleted,
            pre_integrity_check: pre,
            post_integrity_check: post,
            vacuum,
            warnings: Vec::new(),
            error: None,
        };
        assert(views(response.warnings@) =~= Seq::<DiagnosticView>::empty());
        response
    }

    /// The answer that something went wrong.
    pub fn maintenance_error_response(
        &self,
        before: MaintenanceSizeV1,
        after: MaintenanceSizeV1,
        after_complete: bool,
        deleted: MaintenanceDeletedV1,
        pre: MaintenancePreIntegrityCheck,
        post: MaintenancePostIntegrityCheck,
        vacuum: MaintenanceVacuumV1,
        error: Diagnostic,
    ) -> (response: MaintenanceResponseV1)
        ensures
            response@ == self@.failed(
                before,
                after,
                after_complete,
                deleted,
                pre,
                post,
                vacuum,
                error@,
            ),
    {
        let mut response: MaintenanceResponseV1 = self.maintenance_ok_response(
            before,
            after,
            deleted,
            pre,
            post,
            vacuum,
        );
        response.status = MaintenanceStatus::Error;
        response.after_complete = after_complete;
        response.error = Some(error);
        response
    }

    fn vacuum_with(&self, status: MaintenanceVacuumStatus, pages: u64) -> (vacuum:
        MaintenanceVacuumV1)
        ensures
            vacuum == self@.vacuum(status, pages),
    {
        MaintenanceVacuumV1 { mode: self.mode, status, pages_changed: pages }
    }
}

// ---------------------------------------------------------------------------
// Steps
// ---------------------------------------------------------------------------

/// What is known so far of the upkeep. Each part is there once the step that finds it
/// out has been made.
pub struct MaintenanceFacts {
    /// The verdict of the wire contract on the request.
    pub request: Result<(), String>,
    pub opened: Option<Result<(), String>>,
    pub configured: Option<Result<(), String>>,
    pub version: Option<Result<i32, StoreError>>,
    pub amended: Option<Result<(), String>>,
    pub clock: Option<Result<u64, StoreError>>,
    pub lease: Option<Result<(), StoreError>>,
    pub before: Option<Result<MaintenanceSizeV1, StoreError>>,
    /// Whether the check before the upkeep passed.
    pub pre_passed: Option<bool>,
    pub auto_vacuum: Option<Result<AutoVacuumMode, StoreError>>,
    /// What was dropped.
    pub collected: Option<Result<MaintenanceDeletedV1, StoreError>>,
    /// How many pages were given back.
    pub vacuumed: Option<Result<u64, StoreError>>,
    /// Whether the check after the upkeep passed.
    pub post_passed: Option<bool>,
    pub after: Option<Result<MaintenanceSizeV1, StoreError>>,
    pub released: bool,
}

impl MaintenanceFacts {
    /// Nothing is known yet but the verdict on the request.
    pub fn new(request: Result<(), String>) -> (facts: Self)
        ensures
            facts.request == request,
            facts.opened is None && facts.configured is None && facts.version is None
                && facts.amended is None && facts.clock is None && facts.lease is None
                && facts.before is None && facts.pre_passed is None && facts.auto_vacuum is None
                && facts.collected is None && facts.vacuumed is None && facts.post_passed is None
                && facts.after is None && !facts.released,
    {
        MaintenanceFacts {
            request,
            opened: None,
            configured: None,
            version: None,
            amended: None,
            clock: None,
            lease: None,
            before: None,
            pre_passed: None,
            auto_vacuum: None,
            collected: None,
            vacuumed: None,
            post_passed: None,
            after: None,
            released: false,
        }
    }
}

/// What is to be done next.
pub enum MaintenanceStep {
    Open,
    Configure,
    ReadVersion,
    Amend,
    ReadClock,
    AcquireLease,
    MeasureBefore,
    CheckBefore,
    ReadVacuumMode,
    Collect,
    Vacuum,
    CheckAfter,
    MeasureAfter,
    ReleaseLease,
    Respond(MaintenanceResponseV1),
}

/// What is to be done next.
#[verifier::ext_equal]
pub enum MaintenanceStepView {
    Open,
    Configure,
    ReadVersion,
    Amend,
    ReadClock,
    AcquireLease,
    MeasureBefore,
    CheckBefore,
    ReadVacuumMode,
    Collect,
    Vacuum,
    CheckAfter,
    MeasureAfter,
    ReleaseLease,
    Respond(MaintenanceResponseV1View),
}

impl View for MaintenanceStep {
    type V = MaintenanceStepView;

    open spec fn view(&self) -> MaintenanceStepView {
        match self {
            MaintenanceStep::Open => MaintenanceStepView::Open,
            MaintenanceStep::Configure => MaintenanceStepView::Configure,
            MaintenanceStep::ReadVersion => MaintenanceStepView::ReadVersion,
            MaintenanceStep::Amend => MaintenanceStepView::Amend,
            MaintenanceStep::ReadClock => MaintenanceStepView::ReadClock,
            MaintenanceStep::AcquireLease => MaintenanceStepView::AcquireLease,
            MaintenanceStep::MeasureBefore => MaintenanceStepView::MeasureBefore,
            MaintenanceStep::CheckBefore => MaintenanceStepView::CheckBefore,
            MaintenanceStep::ReadVacuumMode => MaintenanceStepView::ReadVacuumMode,
            MaintenanceStep::Collect => MaintenanceStepView::Collect,
            MaintenanceStep::Vacuum => MaintenanceStepView::Vacuum,
            MaintenanceStep::CheckAfter => MaintenanceStepView::CheckAfter,
            MaintenanceStep::MeasureAfter => MaintenanceStepView::MeasureAfter,
            MaintenanceStep::ReleaseLease => MaintenanceStepView::ReleaseLease,
            MaintenanceStep::Respond(response) => MaintenanceStepView::Respond(response@),
        }
    }
}

/// What a check that passed, or did not, is reported as.
pub open spec fn post_check(passed: bool) -> MaintenancePostIntegrityCheck {
    if passed {
        MaintenancePostIntegrityCheck::Passed
    } else {
        MaintenancePostIntegrityCheck::Failed
    }
}

fn post_of(passed: bool) -> (post: MaintenancePostIntegrityCheck)
    ensures
        post == post_check(passed),
{
    if passed {
        MaintenancePostIntegrityCheck::Passed
    } else {
        MaintenancePostIntegrityCheck::Failed
    }
}

impl MaintenanceRequestV1View {
    /// The answer that nothing was begun.
    pub open spec fn not_begun(self, error: DiagnosticView) -> MaintenanceStepView {
        MaintenanceStepView::Respond(
            self.failed(
                no_size(),
                no_size(),
                false,
                no_rows(),
                MaintenancePreIntegrityCheck::Failed,
                MaintenancePostIntegrityCheck::NotRun,
                self.vacuum(MaintenanceVacuumStatus::Error, 0),
                error,
            ),
        )
    }

    /// The answer that the database was measured and left as it is.
    pub open spec fn left_alone(
        self,
        before: MaintenanceSizeV1,
        pre: MaintenancePreIntegrityCheck,
        status: MaintenanceVacuumStatus,
        error: DiagnosticView,
    ) -> MaintenanceStepView {
        MaintenanceStepView::Respond(
            self.failed(
                before,
                before,
                true,
                no_rows(),
                pre,
                MaintenancePostIntegrityCheck::NotRun,
                self.vacuum(status, 0),
                error,
            ),
        )
    }

    /// The step that follows from what is known. `latest` is the schema version of the
    /// engine.
    pub open spec fn next(self, latest: i32, facts: MaintenanceFacts) -> MaintenanceStepView {
        match facts.request {
            Err(message) => self.not_begun(
                upkeep_report(ErrorCode::InvalidRequest, message@, false),
            ),
            Ok(_) => match facts.opened {
                None => MaintenanceStepView::Open,
                Some(Err(text)) => self.not_begun(
                    upkeep_report(
                        ErrorCode::CacheOpenFailed,
                        "scan database could not be opened read-write: "@ + text@,
                        true,
                    ),
                ),
                Some(Ok(_)) => match facts.configured {
                    None => MaintenanceStepView::Configure,
                    Some(Err(text)) => self.not_begun(
                        upkeep_report(
                            ErrorCode::CacheOpenFailed,
                            "database connection could not be configured: "@ + text@,
                            true,
                        ),
                    ),
                    Some(Ok(_)) => match facts.version {
                        None => MaintenanceStepView::ReadVersion,
                        Some(Err(fault)) => self.not_begun(
                            fault@.diagnostic(DiagnosticStage::Maintenance),
                        ),
                        Some(Ok(version)) => self.next_of_version(latest, version, facts),
                    },
                },
            },
        }
    }

    /// The step that follows once the version is known.
    pub open spec fn next_of_version(
        self,
        latest: i32,
        version: i32,
        facts: MaintenanceFacts,
    ) -> MaintenanceStepView {
        if version > latest {
            self.not_begun(
                upkeep_report(
                    ErrorCode::SchemaUpgradeRequired,
                    too_new_message(version, latest, "fail closed"@),
                    false,
                ),
            )
        } else if version != latest {
            self.not_begun(
                upkeep_report(
                    ErrorCode::SchemaUpgradeRequired,
                    "maintenance requires a v2 scanner database; run upgrade-db apply=true first"@,
                    false,
                ),
            )
        } else {
            match facts.amended {
                None => MaintenanceStepView::Amend,
                Some(Err(text)) => self.not_begun(
                    upkeep_report(
                        ErrorCode::CacheOpenFailed,
                        "v2 schema amendment failed: "@ + text@,
                        false,
                    ),
                ),
                Some(Ok(_)) => match facts.clock {
                    None => MaintenanceStepView::ReadClock,
                    Some(Err(fault)) => self.not_begun(
                        fault@.diagnostic(DiagnosticStage::Maintenance),
                    ),
                    Some(Ok(_)) => match facts.lease {
                        None => MaintenanceStepView::AcquireLease,
                        Some(Err(fault)) => self.not_begun(
                            fault@.diagnostic(DiagnosticStage::Maintenance),
                        ),
                        Some(Ok(_)) => {
                            let step = self.next_with_lease(facts);
                            if step is Respond && !facts.released {
                                MaintenanceStepView::ReleaseLease
                            } else {
                                step
                            }
                        },
                    },
                },
            }
        }
    }

    /// The step that follows while the lease is held, before it is given back.
    pub open spec fn next_with_lease(self, facts: MaintenanceFacts) -> MaintenanceStepView {
        match facts.before {
            None => MaintenanceStepView::MeasureBefore,
            Some(Err(fault)) => self.not_begun(fault@.diagnostic(DiagnosticStage::Maintenance)),
            Some(Ok(before)) => match facts.pre_passed {
                None => MaintenanceStepView::CheckBefore,
                Some(false) => self.left_alone(
                    before,
                    MaintenancePreIntegrityCheck::Failed,
                    MaintenanceVacuumStatus::NotRequested,
                    upkeep_report(
                        ErrorCode::RunCorrupt,
                        "pre-integrity check failed before any maintenance mutation"@,
                        false,
                    ),
                ),
                Some(true) => match facts.auto_vacuum {
                    None => MaintenanceStepView::ReadVacuumMode,
                    Some(Err(fault)) => self.left_alone(
                        before,
                        MaintenancePreIntegrityCheck::Passed,
                        MaintenanceVacuumStatus::NotRequested,
                        fault@.diagnostic(DiagnosticStage::Maintenance),
                    ),
                    Some(Ok(mode)) => if self.mode == MaintenanceMode::IncrementalVacuum && mode
                        == AutoVacuumMode::Off {
                        self.left_alone(
                            before,
                            MaintenancePreIntegrityCheck::Passed,
                            MaintenanceVacuumStatus::Error,
                            upkeep_report(
                                ErrorCode::MaintenanceModeUnavailable,
                                "incremental_vacuum requires auto_vacuum=INCREMENTAL; this database is auto_vacuum=none (upgrade-path conversion is a known limitation)"@,
                                false,
                            ),
                        )
                    } else if self.dry_run {
                        MaintenanceStepView::Respond(
                            self.completed(
                                before,
                                before,
                                no_rows(),
                                MaintenancePreIntegrityCheck::Passed,
                                MaintenancePostIntegrityCheck::NotRun,
                                self.vacuum(MaintenanceVacuumStatus::SkippedDryRun, 0),
                            ),
                        )
                    } else {
                        self.next_of_work(before, facts)
                    },
                },
            },
        }
    }

    /// The step that follows where the database is changed.
    pub open spec fn next_of_work(
        self,
        before: MaintenanceSizeV1,
        facts: MaintenanceFacts,
    ) -> MaintenanceStepView {
        match facts.collected {
            None => MaintenanceStepView::Collect,
            Some(Err(fault)) => self.next_after_fault(before, no_rows(), fault@, facts),
            Some(Ok(deleted)) => if self.mode == MaintenanceMode::IncrementalVacuum {
                match facts.vacuumed {
                    None => MaintenanceStepView::Vacuum,
                    Some(Err(fault)) => self.next_after_fault(before, deleted, fault@, facts),
                    Some(Ok(pages)) => self.next_after_work(
                        before,
                        deleted,
                        self.vacuum(MaintenanceVacuumStatus::Complete, pages),
                        facts,
                    ),
                }
            } else {
                self.next_after_work(
                    before,
                    deleted,
                    self.vacuum(MaintenanceVacuumStatus::NotRequested, 0),
                    facts,
                )
            },
        }
    }

    /// The step that follows where a change failed: what is left is still checked and
    /// measured.
    pub open spec fn next_after_fault(
        self,
        before: MaintenanceSizeV1,
        deleted: MaintenanceDeletedV1,
        fault: StoreErrorView,
        facts: MaintenanceFacts,
    ) -> MaintenanceStepView {
        match facts.post_passed {
            None => MaintenanceStepView::CheckAfter,
            Some(passed) => match facts.after {
                None => MaintenanceStepView::MeasureAfter,
                Some(measured) => MaintenanceStepView::Respond(
                    self.failed(
                        before,
                        match measured {
                            Ok(after) => after,
                            Err(_) => before,
                        },
                        true,
                        deleted,
                        MaintenancePreIntegrityCheck::Passed,
                        post_check(passed),
                        self.vacuum(MaintenanceVacuumStatus::Error, 0),
                        fault.diagnostic(DiagnosticStage::Maintenance),
                    ),
                ),
            },
        }
    }

    /// The step that follows where the changes were made.
    pub open spec fn next_after_work(
        self,
        before: MaintenanceSizeV1,
        deleted: MaintenanceDeletedV1,
        vacuum: MaintenanceVacuumV1,
        facts: MaintenanceFacts,
    ) -> MaintenanceStepView {
        match facts.post_passed {
            None => MaintenanceStepView::CheckAfter,
            Some(passed) => match facts.after {
                None => MaintenanceStepView::MeasureAfter,
                Some(Err(fault)) => MaintenanceStepView::Respond(
                    self.failed(
                        before,
                        before,
                        false,
                        deleted,
                        MaintenancePreIntegrityCheck::Passed,
                        post_check(passed),
                        vacuum,
                        fault@.diagnostic(DiagnosticStage::Maintenance),
                    ),
                ),
                Some(Ok(after)) => if !passed {
                    MaintenanceStepView::Respond(
                        self.failed(
                            before,
                            after,
                            true,
                            deleted,
                            MaintenancePreIntegrityCheck::Passed,
                            MaintenancePostIntegrityCheck::Failed,
                            self.vacuum(MaintenanceVacuumStatus::Error, vacuum.pages_changed),
                            upkeep_report(
                                ErrorCode::RunCorrupt,
                                "post-integrity check failed after maintenance mutations"@,
                                false,
                            ),
                        ),
                    )
                } else {
                    MaintenanceStepView::Respond(
                        self.completed(
                            before,
                            after,
                            deleted,
                            MaintenancePreIntegrityCheck::Passed,
                            MaintenancePostIntegrityCheck::Passed,
                            vacuum,
                        ),
                    )
                },
            },
        }
    }
}

impl MaintenanceRequestV1 {
    fn not_begun(&self, error: Diagnostic) -> (step: MaintenanceStep)
        ensures
            step@ == self@.not_begun(error@),
    {
        MaintenanceStep::Respond(
            self.maintenance_error_response(
                zero_maintenance_size(),
                zero_maintenance_size(),
                false,
                zero_maintenance_deleted(),
                MaintenancePreIntegrityCheck::Failed,
                MaintenancePostIntegrityCheck::NotRun,
                self.vacuum_with(MaintenanceVacuumStatus::Error, 0),
                error,
            ),
        )
    }

    fn left_alone(
        &self,
        before: MaintenanceSizeV1,
        pre: MaintenancePreIntegrityCheck,
        status: MaintenanceVacuumStatus,
        error: Diagnostic,
    ) -> (step: MaintenanceStep)
        ensures
            step@ == self@.left_alone(before, pre, status, error@),
    {
        MaintenanceStep::Respond(
            self.maintenance_error_response(
                before,
                before,
                true,
                zero_maintenance_deleted(),
                pre,
                MaintenancePostIntegrityCheck::NotRun,
                self.vacuum_with(status, 0),
                error,
            ),
        )
    }

    /// Decides what is to be done next, from what is known. `latest` is the schema
    /// version of this engine.
    pub fn next_maintenance_step(&self, latest: i32, facts: &MaintenanceFacts) -> (step:
        MaintenanceStep)
        ensures
            step@ == self@.next(latest, *facts),
    {
        if let Err(message) = &facts.request {
            return self.not_begun(
                upgrade_diagnostic(ErrorCode::InvalidRequest, message.as_str(), false),
            );
        }
        match &facts.opened {
            None => {
                return MaintenanceStep::Open;
            },
            Some(Err(text)) => {
                let message: String = joined_text(
                    "scan database could not be opened read-write: ",
                    text.as_str(),
                );
                return self.not_begun(
                    upgrade_diagnostic(ErrorCode::CacheOpenFailed, message.as_str(), true),
                );
            },
            Some(Ok(_)) => {},
        }
        match &facts.configured {
            None => {
                return MaintenanceStep::Configure;
            },
            Some(Err(text)) => {
                let message: String = joined_text(
                    "database connection could not be configured: ",
                    text.as_str(),
                );
                return self.not_begun(
                    upgrade_diagnostic(ErrorCode::CacheOpenFailed, message.as_str(), true),
                );
            },
            Some(Ok(_)) => {},
        }
        match &facts.version {
            None => MaintenanceStep::ReadVersion,
            Some(Err(fault)) => self.not_begun(fault.diagnostic(DiagnosticStage::Maintenance)),
            Some(Ok(version)) => self.step_of_version(latest, *version, facts),
        }
    }

    fn step_of_version(&self, latest: i32, version: i32, facts: &MaintenanceFacts) -> (step:
        MaintenanceStep)
        ensures
            step@ == self@.next_of_version(latest, version, *facts),
    {
        if version > latest {
            let message: String = form_too_new_message(version, latest, "fail closed");
            return self.not_begun(
                upgrade_diagnostic(ErrorCode::SchemaUpgradeRequired, message.as_str(), false),
            );
        }
        if version != latest {
            return self.not_begun(
                upgrade_diagnostic(
                    ErrorCode::SchemaUpgradeRequired,
                    "maintenance requires a v2 scanner database; run upgrade-db apply=true first",
                    false,
                ),
            );
        }
        match &facts.amended {
            None => {
                return MaintenanceStep::Amend;
            },
            Some(Err(text)) => {
                let message: String = joined_text("v2 schema amendment failed: ", text.as_str());
                return self.not_begun(
                    upgrade_diagnostic(ErrorCode::CacheOpenFailed, message.as_str(), false),
                );
            },
            Some(Ok(_)) => {},
        }
        match &facts.clock {
            None => {
                return MaintenanceStep::ReadClock;
            },
            Some(Err(fault)) => {
                return self.not_begun(fault.diagnostic(DiagnosticStage::Maintenance));
            },
            Some(Ok(_)) => {},
        }
        match &facts.lease {
            None => {
                return MaintenanceStep::AcquireLease;
            },
            Some(Err(fault)) => {
                return self.not_begun(fault.diagnostic(DiagnosticStage::Maintenance));
            },
            Some(Ok(_)) => {},
        }
        let step: MaintenanceStep = self.step_with_lease(facts);
        match step {
            MaintenanceStep::Respond(response) => {
                if facts.released {
                    MaintenanceStep::Respond(response)
                } else {
                    MaintenanceStep::ReleaseLease
                }
            },
            other => other,
        }
    }

    fn step_with_lease(&self, facts: &MaintenanceFacts) -> (step: MaintenanceStep)
        ensures
            step@ == self@.next_with_lease(*facts),
    {
        let before: MaintenanceSizeV1 = match &facts.before {
            None => {
                return MaintenanceStep::MeasureBefore;
            },
            Some(Err(fault)) => {
                return self.not_begun(fault.diagnostic(DiagnosticStage::Maintenance));
            },
            Some(Ok(before)) => *before,
        };
        match facts.pre_passed {
            None => {
                return MaintenanceStep::CheckBefore;
            },
            Some(passed) => {
                if !passed {
                    return self.left_alone(
                        before,
                        MaintenancePreIntegrityCheck::Failed,
                        MaintenanceVacuumStatus::NotRequested,
                        upgrade_diagnostic(
                            ErrorCode::RunCorrupt,
                            "pre-integrity check failed before any maintenance mutation",
                            false,
                        ),
                    );
                }
            },
        }
        let mode: AutoVacuumMode = match &facts.auto_vacuum {
            None => {
                return MaintenanceStep::ReadVacuumMode;
            },
            Some(Err(fault)) => {
                return self.left_alone(
                    before,
                    MaintenancePreIntegrityCheck::Passed,
                    MaintenanceVacuumStatus::NotRequested,
                    fault.diagnostic(DiagnosticStage::Maintenance),
                );
            },
            Some(Ok(mode)) => *mode,
        };
        if self.mode == MaintenanceMode::IncrementalVacuum && mode == AutoVacuumMode::Off {
            return self.left_alone(
                before,
                MaintenancePreIntegrityCheck::Passed,
                MaintenanceVacuumStatus::Error,
                upgrade_diagnostic(
                    ErrorCode::MaintenanceModeUnavailable,
                    "incremental_vacuum requires auto_vacuum=INCREMENTAL; this database is auto_vacuum=none (upgrade-path conversion is a known limitation)",
                    false,
                ),
            );
        }
        if self.dry_run {
            return MaintenanceStep::Respond(
                self.maintenance_ok_response(
                    before,
                    before,
                    zero_maintenance_deleted(),
                    MaintenancePreIntegrityCheck::Passed,
                    MaintenancePostIntegrityCheck::NotRun,
                    self.vacuum_with(MaintenanceVacuumStatus::SkippedDryRun, 0),
                ),
            );
        }
        self.step_of_work(before, facts)
    }

    fn step_of_work(&self, before: MaintenanceSizeV1, facts: &MaintenanceFacts) -> (step:
        MaintenanceStep)
        ensures
            step@ == self@.next_of_work(before, *facts),
    {
        let deleted: MaintenanceDeletedV1 = match &facts.collected {
            None => {
                return MaintenanceStep::Collect;
            },
            Some(Err(fault)) => {
                return self.step_after_fault(before, zero_maintenance_deleted(), fault, facts);
            },
            Some(Ok(deleted)) => *deleted,
        };
        if self.mode == MaintenanceMode::IncrementalVacuum {
            match &facts.vacuumed {
                None => MaintenanceStep::Vacuum,
                Some(Err(fault)) => self.step_after_fault(before, deleted, fault, facts),
                Some(Ok(pages)) => self.step_after_work(
                    before,
                    deleted,
                    self.vacuum_with(MaintenanceVacuumStatus::Complete, *pages),
                    facts,
                ),
            }
        } else {
            self.step_after_work(
                before,
                deleted,
                self.vacuum_with(MaintenanceVacuumStatus::NotRequested, 0),
                facts,
            )
        }
    }

    fn step_after_fault(
        &self,
        before: MaintenanceSizeV1,
        deleted: MaintenanceDeletedV1,
        fault: &StoreError,
        facts: &MaintenanceFacts,
    ) -> (step: MaintenanceStep)
        ensures
            step@ == self@.next_after_fault(before, deleted, fault@, *facts),
    {
        let passed: bool = match facts.post_passed {
            None => {
                return MaintenanceStep::CheckAfter;
            },
            Some(passed) => passed,
        };
        let after: MaintenanceSizeV1 = match &facts.after {
            None => {
                return MaintenanceStep::MeasureAfter;
            },
            Some(Ok(after)) => *after,
            Some(Err(_)) => before,
        };
        MaintenanceStep::Respond(
            self.maintenance_error_response(
                before,
                after,
                true,
                deleted,
                MaintenancePreIntegrityCheck::Passed,
                post_of(passed),
                self.vacuum_with(MaintenanceVacuumStatus::Error, 0),
                fault.diagnostic(DiagnosticStage::Maintenance),
            ),
        )
    }

    fn step_after_work(
        &self,
        before: MaintenanceSizeV1,
        deleted: MaintenanceDeletedV1,
        vacuum: MaintenanceVacuumV1,
        facts: &MaintenanceFacts,
    ) -> (step: MaintenanceStep)
        ensures
            step@ == self@.next_after_work(before, deleted, vacuum, *facts),
    {
        let passed: bool = match facts.post_passed {
            None => {
                return MaintenanceStep::CheckAfter;
            },
            Some(passed) => passed,
        };
        let after: MaintenanceSizeV1 = match &facts.after {
            None => {
                return MaintenanceStep::MeasureAfter;
            },
            Some(Ok(after)) => *after,
            Some(Err(fault)) => {
                return MaintenanceStep::Respond(
                    self.maintenance_error_response(
                        before,
                        before,
                        false,
                        deleted,
                        MaintenancePreIntegrityCheck::Passed,
                        post_of(passed),
                        vacuum,
                        fault.diagnostic(DiagnosticStage::Maintenance),
                    ),
                );
            },
        };
        if !passed {
            return MaintenanceStep::Respond(
                self.maintenance_error_response(
                    before,
                    after,
                    true,
                    deleted,
                    MaintenancePreIntegrityCheck::Passed,
                    MaintenancePostIntegrityCheck::Failed,
                    self.vacuum_with(MaintenanceVacuumStatus::Error, vacuum.pages_changed),
                    upgrade_diagnostic(
                        ErrorCode::RunCorrupt,
                        "post-integrity check failed after maintenance mutations",
                        false,
                    ),
                ),
            );
        }
        MaintenanceStep::Respond(
            self.maintenance_ok_response(
                before,
                after,
                deleted,
                MaintenancePreIntegrityCheck::Passed,
                MaintenancePostIntegrityCheck::Passed,
                vacuum,
            ),
        )
    }
}

// ---------------------------------------------------------------------------
// Laws
// ---------------------------------------------------------------------------

/// A dry run drops nothing and gives nothing back, and its answer says so.
pub proof fn law_dry_runs_drop_nothing(
    request: MaintenanceRequestV1View,
    latest: i32,
    facts: MaintenanceFacts,
)
    requires
        request.dry_run,
    ensures
        !(request.next(latest, facts) is Collect),
        !(request.next(latest, facts) is Vacuum),
        request.next(latest, facts) matches MaintenanceStepView::Respond(response) ==> {
            &&& response.deleted == no_rows()
            &&& response.before == response.after
            &&& response.vacuum.pages_changed == 0
        },
{
}

/// Nothing is dropped before the database was found sound by who holds the lease.
pub proof fn law_nothing_is_dropped_unchecked(
    request: MaintenanceRequestV1View,
    latest: i32,
    facts: MaintenanceFacts,
)
    requires
        request.next(latest, facts) is Collect || request.next(latest, facts) is Vacuum,
    ensures
        facts.request is Ok,
        facts.lease matches Some(Ok(_)),
        facts.pre_passed == Some(true),
        facts.before matches Some(Ok(_)),
        !request.dry_run,
{
}

/// Success is reported only where every check passed and nothing failed: a failure on the
/// way is never reported as a success.
pub proof fn law_upkeep_answers_are_honest(
    request: MaintenanceRequestV1View,
    latest: i32,
    facts: MaintenanceFacts,
)
    requires
        request.next(latest, facts) is Respond,
    ensures
        ({
            let response = request.next(latest, facts)->Respond_0;
            &&& response.request_id == request.request_id
            &&& (response.status == MaintenanceStatus::Error) == (response.error is Some)
            &&& response.status == MaintenanceStatus::Complete ==> {
                &&& response.pre_integrity_check == MaintenancePreIntegrityCheck::Passed
                &&& response.post_integrity_check != MaintenancePostIntegrityCheck::Failed
                &&& response.after_complete
                &&& !(facts.vacuumed matches Some(Err(_))) || request.mode == MaintenanceMode::Gc
                    || request.dry_run
                &&& request.dry_run || (facts.collected matches Some(Ok(deleted))
                    && response.deleted == deleted)
            }
        }),
{
}

/// Where the lease was asked for and taken, the answer comes only after it was given
/// back.
pub proof fn law_upkeep_gives_the_lease_back(
    request: MaintenanceRequestV1View,
    latest: i32,
    facts: MaintenanceFacts,
)
    requires
        request.next(latest, (MaintenanceFacts { lease: None, ..facts })) is AcquireLease,
        facts.lease matches Some(Ok(_)),
        request.next(latest, facts) is Respond,
    ensures
        facts.released,
{
}

/// Each step of the upkeep is taken once, after those that it rests on went well.
pub proof fn law_upkeep_steps_come_in_order(
    request: MaintenanceRequestV1View,
    latest: i32,
    facts: MaintenanceFacts,
)
    ensures
        ({
            let step = request.next(latest, facts);
            let ready = facts.version is Some && facts.version->0 is Ok && facts.version->0->Ok_0
                == latest;
            let leased = ready && (facts.amended is Some && facts.amended->0 is Ok) && (
            facts.clock is Some && facts.clock->0 is Ok) && (facts.lease is Some
                && facts.lease->0 is Ok);
            let checked = leased && (facts.before is Some && facts.before->0 is Ok)
                && facts.pre_passed == Some(true);
            &&& step is Open ==> facts.request is Ok && facts.opened is None
            &&& step is Configure ==> (facts.opened is Some && facts.opened->0 is Ok)
                && facts.configured is None
            &&& step is ReadVersion ==> (facts.configured is Some && facts.configured->0 is Ok)
                && facts.version is None
            &&& step is Amend ==> ready && facts.amended is None
            &&& step is ReadClock ==> ready && (facts.amended is Some && facts.amended->0 is Ok)
                && facts.clock is None
            &&& step is AcquireLease ==> ready && (facts.clock is Some && facts.clock->0 is Ok)
                && facts.lease is None
            &&& step is MeasureBefore ==> leased && facts.before is None
            &&& step is CheckBefore ==> leased && (facts.before is Some && facts.before->0 is Ok)
                && facts.pre_passed is None
            &&& step is ReadVacuumMode ==> checked && facts.auto_vacuum is None
            &&& step is Collect ==> checked && (facts.auto_vacuum is Some
                && facts.auto_vacuum->0 is Ok) && facts.collected is None && !request.dry_run
            &&& step is Vacuum ==> checked && (facts.collected is Some && facts.collected->0 is Ok)
                && facts.vacuumed is None && request.mode == MaintenanceMode::IncrementalVacuum
            &&& step is CheckAfter ==> checked && facts.collected is Some
                && facts.post_passed is None
            &&& step is MeasureAfter ==> checked && facts.collected is Some
                && facts.post_passed is Some && facts.after is None
            &&& step is ReleaseLease ==> leased && !facts.released
        }),
{
}

/// What stops the upkeep before it began is what the answer tells: nothing was measured, and
/// nothing was dropped.
pub proof fn law_upkeep_that_did_not_begin_says_why(
    request: MaintenanceRequestV1View,
    latest: i32,
    facts: MaintenanceFacts,
)
    ensures
        facts.request matches Err(message) ==> (request.next(latest, facts) matches
            MaintenanceStepView::Respond(response) && response.error is Some
            && response.error->0.error_code == ErrorCode::InvalidRequest
            && !response.error->0.retryable && response.error->0.message
            == crate::text::capped(message@, 4_096)),
        facts.request is Ok && (facts.opened is Some && facts.opened->0 is Err) ==> (request.next(
            latest,
            facts,
        ) matches MaintenanceStepView::Respond(response) && response.error is Some
            && response.error->0.error_code == ErrorCode::CacheOpenFailed
            && response.error->0.retryable),
        facts.request is Ok && (facts.opened is Some && facts.opened->0 is Ok) && (
        facts.configured is Some && facts.configured->0 is Ok) && (facts.version is Some
            && facts.version->0 is Ok && facts.version->0->Ok_0 != latest) ==> (request.next(
            latest,
            facts,
        ) matches MaintenanceStepView::Respond(response) && response.error is Some
            && response.error->0.error_code == ErrorCode::SchemaUpgradeRequired
            && !response.error->0.retryable),
        !(facts.lease is Some && facts.lease->0 is Ok) ==> (request.next(latest, facts) matches
            MaintenanceStepView::Respond(response) ==> {
            &&& response.status == MaintenanceStatus::Error
            &&& !response.after_complete
            &&& response.pre_integrity_check == MaintenancePreIntegrityCheck::Failed
            &&& response.post_integrity_check == MaintenancePostIntegrityCheck::NotRun
            &&& response.deleted.parse_cache_rows == 0 && response.deleted.scan_runs_rows == 0
            &&& response.deleted.context_artifacts_rows == 0
                && response.deleted.classification_cache_rows == 0
            &&& response.vacuum.pages_changed == 0
        }),
{
}

/// A failed check before the work leaves everything as it was: the answer tells a corrupt
/// database of the same size before and after.
pub proof fn law_corrupt_databases_are_left_alone(
    request: MaintenanceRequestV1View,
    facts: MaintenanceFacts,
    before: MaintenanceSizeV1,
)
    requires
        facts.before == Some(Ok::<MaintenanceSizeV1, StoreError>(before)),
        facts.pre_passed == Some(false),
    ensures
        request.next_with_lease(facts) matches MaintenanceStepView::Respond(response) && {
            &&& response.status == MaintenanceStatus::Error
            &&& response.error is Some
            &&& response.error->0.error_code == ErrorCode::RunCorrupt
            &&& !response.error->0.retryable
            &&& response.before == before
            &&& response.after == before
            &&& response.pre_integrity_check == MaintenancePreIntegrityCheck::Failed
            &&& response.post_integrity_check == MaintenancePostIntegrityCheck::NotRun
            &&& response.deleted.parse_cache_rows == 0 && response.deleted.scan_runs_rows == 0
        },
{
}

/// Pages are given back only by a database that keeps account of them.
pub proof fn law_vacuum_needs_its_mode(
    request: MaintenanceRequestV1View,
    facts: MaintenanceFacts,
    before: MaintenanceSizeV1,
    mode: AutoVacuumMode,
)
    requires
        facts.before == Some(Ok::<MaintenanceSizeV1, StoreError>(before)),
        facts.pre_passed == Some(true),
        facts.auto_vacuum == Some(Ok::<AutoVacuumMode, StoreError>(mode)),
        facts.collected is None,
    ensures
        request.mode == MaintenanceMode::IncrementalVacuum && mode == AutoVacuumMode::Off ==> (
        request.next_with_lease(facts) matches MaintenanceStepView::Respond(response)
            && response.error is Some && response.error->0.error_code
            == ErrorCode::MaintenanceModeUnavailable && response.vacuum.status
            == MaintenanceVacuumStatus::Error),
        request.mode == MaintenanceMode::Gc || mode != AutoVacuumMode::Off ==> if request.dry_run {
            request.next_with_lease(facts) matches MaintenanceStepView::Respond(response)
                && response.status == MaintenanceStatus::Complete && response.before == before
                && response.after == before && response.vacuum.status
                == MaintenanceVacuumStatus::SkippedDryRun
        } else {
            request.next_with_lease(facts) is Collect
        },
{
}

/// Upkeep that went well answers with what was measured, dropped and given back.
pub proof fn law_done_upkeep_tells_what_was_done(
    request: MaintenanceRequestV1View,
    facts: MaintenanceFacts,
    before: MaintenanceSizeV1,
    after: MaintenanceSizeV1,
    deleted: MaintenanceDeletedV1,
    pages: u64,
    mode: AutoVacuumMode,
)
    requires
        !request.dry_run,
        facts.before == Some(Ok::<MaintenanceSizeV1, StoreError>(before)),
        facts.pre_passed == Some(true),
        facts.auto_vacuum == Some(Ok::<AutoVacuumMode, StoreError>(mode)),
        request.mode == MaintenanceMode::IncrementalVacuum ==> mode != AutoVacuumMode::Off,
        facts.collected == Some(Ok::<MaintenanceDeletedV1, StoreError>(deleted)),
        facts.vacuumed == Some(Ok::<u64, StoreError>(pages)),
        facts.post_passed is Some,
        facts.after == Some(Ok::<MaintenanceSizeV1, StoreError>(after)),
    ensures
        request.next_with_lease(facts) matches MaintenanceStepView::Respond(response) && {
            let passed = facts.post_passed == Some(true);
            &&& response.request_id == request.request_id
            &&& response.before == before
            &&& response.after == after
            &&& response.after_complete
            &&& response.deleted == deleted
            &&& response.vacuum.mode == request.mode
            &&& response.vacuum.pages_changed == if request.mode == MaintenanceMode::Gc {
                0
            } else {
                pages
            }
            &&& response.status == MaintenanceStatus::Complete <==> passed
            &&& response.error is None <==> passed
            &&& !passed ==> response.error->0.error_code == ErrorCode::RunCorrupt
            &&& response.pre_integrity_check == MaintenancePreIntegrityCheck::Passed
            &&& response.post_integrity_check == MaintenancePostIntegrityCheck::Passed <==> passed
            &&& response.post_integrity_check == MaintenancePostIntegrityCheck::Failed <==> !passed
            &&& response.vacuum.status == MaintenanceVacuumStatus::Complete <==> passed
                && request.mode == MaintenanceMode::IncrementalVacuum
            &&& response.vacuum.status == MaintenanceVacuumStatus::NotRequested <==> passed
                && request.mode == MaintenanceMode::Gc
            &&& response.warnings.len() == 0
        },
{
}

/// Upkeep that failed in the midst of its work tells the fault, and what was dropped before
/// it.
pub proof fn law_broken_off_upkeep_tells_how_far_it_came(
    request: MaintenanceRequestV1View,
    facts: MaintenanceFacts,
    before: MaintenanceSizeV1,
    after: MaintenanceSizeV1,
    fault: StoreError,
    mode: AutoVacuumMode,
)
    requires
        !request.dry_run,
        facts.before == Some(Ok::<MaintenanceSizeV1, StoreError>(before)),
        facts.pre_passed == Some(true),
        facts.auto_vacuum == Some(Ok::<AutoVacuumMode, StoreError>(mode)),
        request.mode == MaintenanceMode::IncrementalVacuum ==> mode != AutoVacuumMode::Off,
        facts.collected is Some,
        facts.collected->0 == Err::<MaintenanceDeletedV1, StoreError>(fault) || (
        facts.collected->0 is Ok && request.mode == MaintenanceMode::IncrementalVacuum
            && facts.vacuumed == Some(Err::<u64, StoreError>(fault))),
        facts.post_passed is Some,
        facts.after == Some(Ok::<MaintenanceSizeV1, StoreError>(after)),
    ensures
        request.next_with_lease(facts) matches MaintenanceStepView::Respond(response) && {
            &&& response.status == MaintenanceStatus::Error
            &&& response.before == before
            &&& response.after == after
            &&& response.error is Some
            &&& response.error->0.error_code == fault@.error_code()
            &&& response.error->0.message == fault@.message()
            &&& response.error->0.stage == DiagnosticStage::Maintenance
            &&& facts.collected->0 is Ok ==> response.deleted == facts.collected->0->Ok_0
            &&& facts.collected->0 is Err ==> response.deleted.scan_runs_rows == 0
                && response.deleted.parse_cache_rows == 0
            &&& response.vacuum.status == MaintenanceVacuumStatus::Error
            &&& response.post_integrity_check == MaintenancePostIntegrityCheck::Passed
                <==> facts.post_passed == Some(true)
        },
{
}

/// Rows that are gone and rows that are left make up the rows that there were.
pub proof fn law_dropped_rows_account_for_the_difference(
    before: MaintenanceDeletedV1,
    after: MaintenanceDeletedV1,
)
    ensures
        ({
            let gone = all_lost(before, after);
            &&& after.parse_cache_rows <= before.parse_cache_rows ==> gone.parse_cache_rows
                + after.parse_cache_rows == before.parse_cache_rows
            &&& after.classification_cache_rows <= before.classification_cache_rows
                ==> gone.classification_cache_rows + after.classification_cache_rows
                == before.classification_cache_rows
            &&& after.context_artifacts_rows <= before.context_artifacts_rows
                ==> gone.context_artifacts_rows + after.context_artifacts_rows
                == before.context_artifacts_rows
            &&& after.context_artifact_files_rows <= before.context_artifact_files_rows
                ==> gone.context_artifact_files_rows + after.context_artifact_files_rows
                == before.context_artifact_files_rows
            &&& after.context_artifact_decisions_rows <= before.context_artifact_decisions_rows
                ==> gone.context_artifact_decisions_rows + after.context_artifact_decisions_rows
                == before.context_artifact_decisions_rows
            &&& after.scan_runs_rows <= before.scan_runs_rows ==> gone.scan_runs_rows
                + after.scan_runs_rows == before.scan_runs_rows
            &&& after.scan_run_attempts_rows <= before.scan_run_attempts_rows
                ==> gone.scan_run_attempts_rows + after.scan_run_attempts_rows
                == before.scan_run_attempts_rows
            &&& after.run_diagnostics_rows <= before.run_diagnostics_rows
                ==> gone.run_diagnostics_rows + after.run_diagnostics_rows
                == before.run_diagnostics_rows
            &&& after.scan_file_results_rows <= before.scan_file_results_rows
                ==> gone.scan_file_results_rows + after.scan_file_results_rows
                == before.scan_file_results_rows
            &&& after.scan_stage_metrics_rows <= before.scan_stage_metrics_rows
                ==> gone.scan_stage_metrics_rows + after.scan_stage_metrics_rows
                == before.scan_stage_metrics_rows
            &&& after.scan_extension_metrics_rows <= before.scan_extension_metrics_rows
                ==> gone.scan_extension_metrics_rows + after.scan_extension_metrics_rows
                == before.scan_extension_metrics_rows
            &&& after.context_runs_rows <= before.context_runs_rows ==> gone.context_runs_rows
                + after.context_runs_rows == before.context_runs_rows
            &&& after.context_decisions_rows <= before.context_decisions_rows
                ==> gone.context_decisions_rows + after.context_decisions_rows
                == before.context_decisions_rows
            &&& after.file_inventory_rows <= before.file_inventory_rows
                ==> gone.file_inventory_rows + after.file_inventory_rows
                == before.file_inventory_rows
        }),
        forall|left: u64, right: u64| left <= right ==> #[trigger] lost(left, right) == 0,
{
}

/// A count that the database gives is taken as it is, and none for one below zero.
pub proof fn law_counts_are_never_negative(value: i64)
    ensures
        value >= 0 ==> at_least_zero(value) == value,
        value <= 0 ==> at_least_zero(value) == 0,
{
}

/// The way in which a database gives its pages back is known by its number.
pub proof fn law_vacuum_modes_are_known_by_number(value: i64)
    ensures
        vacuum_mode_of(value) == AutoVacuumMode::Full <==> value == 1,
        vacuum_mode_of(value) == AutoVacuumMode::Incremental <==> value == 2,
        vacuum_mode_of(0) == AutoVacuumMode::Off,
{
}

/// A database is sound only where each cached entry is as large as it is told to be.
pub proof fn law_wrong_sizes_are_found(facts: IntegrityFacts, at: int)
    ensures
        facts.parse_rows matches Some(rows) && 0 <= at < rows@.len()
            && rows@[at]@.entry_size_bytes != rows@[at]@.payload_bytes() ==> !facts.sound(),
        facts.classification_rows matches Some(rows) && 0 <= at < rows@.len()
            && rows@[at]@.entry_size_bytes != rows@[at]@.payload_bytes() ==> !facts.sound(),
        facts.artifacts matches Some(artifacts) && 0 <= at < artifacts@.len()
            && artifacts@[at]@.context_sha256 != crate::hash::content_sha256(
            artifacts@[at]@.final_context,
        ) ==> !facts.sound(),
        facts.file_check is None ==> !facts.sound(),
        facts.file_check matches Some(found) && found@ != "ok"@ ==> !facts.sound(),
        facts.dangling_rows != Some(0u64) ==> !facts.sound(),
        facts.parse_rows is None ==> !facts.sound(),
        facts.classification_rows is None ==> !facts.sound(),
        facts.artifacts is None ==> !facts.sound(),
{
    if let Some(rows) = facts.parse_rows {
        if 0 <= at < rows@.len() {
            assert(views(rows@)[at] == rows@[at]@);
        }
    }
    if let Some(rows) = facts.classification_rows {
        if 0 <= at < rows@.len() {
            assert(views(rows@)[at] == rows@[at]@);
        }
    }
}

/// A database in which everything was read and nothing is amiss is sound.
pub proof fn law_empty_databases_are_sound(facts: IntegrityFacts)
    requires
        facts.file_check matches Some(found) && found@ == "ok"@,
        facts.dangling_rows == Some(0u64),
        facts.parse_rows matches Some(rows) && rows@.len() == 0,
        facts.classification_rows matches Some(rows) && rows@.len() == 0,
        facts.artifacts matches Some(artifacts) && artifacts@.len() == 0,
    ensures
        facts.sound(),
{
}

/// The policy that an answer tells is that by which the caches and the runs are kept.
pub proof fn law_the_told_policy_is_the_kept_one()
    ensures
        policy_view().parse_cache_max_bytes == PARSE_CACHE_MAX_BYTES,
        policy_view().classification_cache_max_bytes == CLASSIFICATION_CACHE_MAX_BYTES,
        policy_view().context_artifacts_max_bytes
            == crate::store::cache::CONTEXT_ARTIFACTS_MAX_BYTES,
        policy_view().terminal_audit_max_bytes == crate::store::cache::TERMINAL_AUDIT_MAX_BYTES,
        policy_view().terminal_run_max_count == crate::store::cache::TERMINAL_RUN_MAX_COUNT,
        policy_view().terminal_run_max_age_days == crate::store::cache::TERMINAL_RUN_MAX_AGE_DAYS,
        policy_view().opportunistic_gc_budget_ms
            == crate::store::cache::OPPORTUNISTIC_GC_BUDGET_MS,
{
}

/// Each kind of upkeep is told by its own name.
pub proof fn law_upkeep_modes_have_names_of_their_own(mode: MaintenanceMode)
    ensures
        mode.text_spec() == "gc"@ <==> mode == MaintenanceMode::Gc,
        mode.text_spec() == "incremental_vacuum"@ <==> mode == MaintenanceMode::IncrementalVacuum,
{
    reveal_strlit("gc");
    reveal_strlit("incremental_vacuum");
    assert("gc"@.len() == 2);
    assert("incremental_vacuum"@.len() == 18);
}

/// Upkeep that went well and upkeep that failed are told by their names.
pub proof fn law_upkeep_statuses_have_names_of_their_own(status: MaintenanceStatus)
    ensures
        status.text_spec() == "ok"@ <==> status == MaintenanceStatus::Complete,
        status.text_spec() == "error"@ <==> status == MaintenanceStatus::Error,
{
    reveal_strlit("ok");
    reveal_strlit("error");
    assert("ok"@.len() == 2);
    assert("error"@.len() == 5);
}

/// Each outcome of giving pages back is told by its own name.
pub proof fn law_vacuum_statuses_have_names_of_their_own(status: MaintenanceVacuumStatus)
    ensures
        status.text_spec() == "not_requested"@ <==> status == MaintenanceVacuumStatus::NotRequested,
        status.text_spec() == "skipped_dry_run"@ <==> status
            == MaintenanceVacuumStatus::SkippedDryRun,
        status.text_spec() == "ok"@ <==> status == MaintenanceVacuumStatus::Complete,
        status.text_spec() == "error"@ <==> status == MaintenanceVacuumStatus::Error,
{
    reveal_strlit("not_requested");
    reveal_strlit("skipped_dry_run");
    reveal_strlit("ok");
    reveal_strlit("error");
    assert("not_requested"@.len() == 13);
    assert("skipped_dry_run"@.len() == 15);
    assert("ok"@.len() == 2);
    assert("error"@.len() == 5);
}

/// The outcomes of the check before the work are told by their names.
pub proof fn law_first_checks_have_names_of_their_own(check: MaintenancePreIntegrityCheck)
    ensures
        check.text_spec() == "ok"@ <==> check == MaintenancePreIntegrityCheck::Passed,
        check.text_spec() == "failed"@ <==> check == MaintenancePreIntegrityCheck::Failed,
{
    reveal_strlit("ok");
    reveal_strlit("failed");
    assert("ok"@.len() == 2);
    assert("failed"@.len() == 6);
}

/// The outcomes of the check after the work are told by their names.
pub proof fn law_last_checks_have_names_of_their_own(check: MaintenancePostIntegrityCheck)
    ensures
        check.text_spec() == "ok"@ <==> check == MaintenancePostIntegrityCheck::Passed,
        check.text_spec() == "failed"@ <==> check == MaintenancePostIntegrityCheck::Failed,
        check.text_spec() == "not_run"@ <==> check == MaintenancePostIntegrityCheck::NotRun,
{
    reveal_strlit("ok");
    reveal_strlit("failed");
    reveal_strlit("not_run");
    assert("ok"@.len() == 2);
    assert("failed"@.len() == 6);
    assert("not_run"@.len() == 7);
}

/// Each way of giving pages back is told by its own name.
pub proof fn law_vacuum_modes_have_names_of_their_own(mode: AutoVacuumMode)
    ensures
        mode.text_spec() == "none"@ <==> mode == AutoVacuumMode::Off,
        mode.text_spec() == "full"@ <==> mode == AutoVacuumMode::Full,
        mode.text_spec() == "incremental"@ <==> mode == AutoVacuumMode::Incremental,
{
    reveal_strlit("none");
    reveal_strlit("full");
    reveal_strlit("incremental");
    assert("none"@.len() == 4);
    assert("full"@.len() == 4);
    assert("incremental"@.len() == 11);
    assert("full"@[0] == 'f');
    assert("none"@[0] == 'n');
}

} // verus!
