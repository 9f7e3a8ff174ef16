//! Runs, their attempts and the lease that one of them holds.
use crate::contract::{
    clone_all, opt_view, views, ContextSummary, Diagnostic, DiagnosticStage, DiagnosticView,
    EngineStatus, ErrorCode, RunStatus,
};
use crate::hash::{domain_hash, sha256_text};
use crate::json::{json_text, JsonWriter};
use crate::store::inventory::{is_absolute_path, is_contract_absolute_path};
use crate::text::{decimal, is_sha256, is_sha256_text, is_within, text_eq, within};
use vstd::prelude::*;
use vstd::string::StringExecFns;

verus! {

/// The file name that a scanner database has.
pub const SCAN_DB_FILENAME: &'static str = "scan_index_v3.sqlite3";

/// The algorithm that request hashes are formed with.
pub const REQUEST_HASH_ALGORITHM: &'static str = "sha256-request-v1";

/// Milliseconds between two heartbeats of a run.
pub const HEARTBEAT_INTERVAL_MS: u64 = 5_000;

/// Milliseconds for which a heartbeat keeps a lease alive.
pub const LEASE_GRACE_MS: u64 = 20_000;

/// The lease grace as a stored timestamp difference.
pub const LEASE_GRACE: i64 = 20_000;


/// Why a store operation failed.
#[derive(Debug, PartialEq, Eq)]
pub enum StoreError {
    InvalidRequest(String),
    CacheOpen { detail: String },
    CacheWrite { detail: String },
    ScanAlreadyRunning,
    RequestInProgress,
    RequestIdConflict,
    RunCorrupt(String),
    RunNotFound,
    LeaseLost,
    SchemaUpgradeRequired,
    SchemaTooNew,
    ArtifactMismatch(String),
}

/// Why a store operation failed.
#[verifier::ext_equal]
pub enum StoreErrorView {
    InvalidRequest(Seq<char>),
    CacheOpen(Seq<char>),
    CacheWrite(Seq<char>),
    ScanAlreadyRunning,
    RequestInProgress,
    RequestIdConflict,
    RunCorrupt(Seq<char>),
    RunNotFound,
    LeaseLost,
    SchemaUpgradeRequired,
    SchemaTooNew,
    ArtifactMismatch(Seq<char>),
}

impl View for StoreError {
    type V = StoreErrorView;

    open spec fn view(&self) -> StoreErrorView {
        match self {
            StoreError::InvalidRequest(message) => StoreErrorView::InvalidRequest(message@),
            StoreError::CacheOpen { detail } => StoreErrorView::CacheOpen(detail@),
            StoreError::CacheWrite { detail } => StoreErrorView::CacheWrite(detail@),
            StoreError::ScanAlreadyRunning => StoreErrorView::ScanAlreadyRunning,
            StoreError::RequestInProgress => StoreErrorView::RequestInProgress,
            StoreError::RequestIdConflict => StoreErrorView::RequestIdConflict,
            StoreError::RunCorrupt(message) => StoreErrorView::RunCorrupt(message@),
            StoreError::RunNotFound => StoreErrorView::RunNotFound,
            StoreError::LeaseLost => StoreErrorView::LeaseLost,
            StoreError::SchemaUpgradeRequired => StoreErrorView::SchemaUpgradeRequired,
            StoreError::SchemaTooNew => StoreErrorView::SchemaTooNew,
            StoreError::ArtifactMismatch(message) => StoreErrorView::ArtifactMismatch(message@),
        }
    }
}

impl StoreErrorView {
    /// The error code that the failure is reported with.
    pub open spec fn error_code(self) -> ErrorCode {
        match self {
            StoreErrorView::InvalidRequest(_) => ErrorCode::InvalidRequest,
            StoreErrorView::CacheOpen(_) => ErrorCode::CacheOpenFailed,
            StoreErrorView::CacheWrite(_) | StoreErrorView::LeaseLost =>
                ErrorCode::CacheWriteFailed,
            StoreErrorView::ScanAlreadyRunning => ErrorCode::ScanAlreadyRunning,
            StoreErrorView::RequestInProgress => ErrorCode::RequestInProgress,
            StoreErrorView::RequestIdConflict => ErrorCode::RequestIdConflict,
            StoreErrorView::RunCorrupt(_) => ErrorCode::RunCorrupt,
            StoreErrorView::RunNotFound => ErrorCode::RunNotFound,
            StoreErrorView::SchemaUpgradeRequired | StoreErrorView::SchemaTooNew =>
                ErrorCode::SchemaUpgradeRequired,
            StoreErrorView::ArtifactMismatch(_) => ErrorCode::BudgetModelMismatch,
        }
    }

    /// The same operation may succeed later.
    pub open spec fn retryable(self) -> bool {
        match self {
            StoreErrorView::CacheOpen(_)
            | StoreErrorView::CacheWrite(_)
            | StoreErrorView::ScanAlreadyRunning
            | StoreErrorView::RequestInProgress
            | StoreErrorView::LeaseLost => true,
            _ => false,
        }
    }

    /// What the failure is reported as. Details of the database stay out of it.
    pub open spec fn message(self) -> Seq<char> {
        match self {
            StoreErrorView::InvalidRequest(text) => "scanner request is invalid: "@ + text,
            StoreErrorView::CacheOpen(_) => "scanner database could not be opened"@,
            StoreErrorView::CacheWrite(_) => "scanner database transaction failed"@,
            StoreErrorView::ScanAlreadyRunning => "another scanner run owns the database lease"@,
            StoreErrorView::RequestInProgress => "this request is already running"@,
            StoreErrorView::RequestIdConflict =>
                "request id was reused with different logical input"@,
            StoreErrorView::RunCorrupt(text) => "persisted scanner run is corrupt: "@ + text,
            StoreErrorView::RunNotFound => "scanner run was not found"@,
            StoreErrorView::LeaseLost => "scanner run lease ownership was lost"@,
            StoreErrorView::SchemaUpgradeRequired =>
                "scanner database schema requires an explicit upgrade"@,
            StoreErrorView::SchemaTooNew => "scanner database schema is newer than this engine"@,
            StoreErrorView::ArtifactMismatch(text) =>
                "artifact is not dedup-compatible with the stored snapshot: "@ + text,
        }
    }

    /// The diagnostic that reports the failure.
    pub open spec fn diagnostic(self, stage: DiagnosticStage) -> DiagnosticView {
        DiagnosticView {
            error_code: self.error_code(),
            message: self.message(),
            retryable: self.retryable(),
            stage,
            file_path: None,
            backend: None,
        }
    }
}

pub(crate) fn joined_text(prefix: &str, text: &str) -> (joined: String)
    ensures
        joined@ == prefix@ + text@,
{
    let mut joined: String = prefix.to_string();
    joined.append(text);
    joined
}

impl StoreError {
    /// A request that is not valid.
    pub fn invalid(message: &str) -> (error: Self)
        ensures
            error@ == StoreErrorView::InvalidRequest(message@),
    {
        StoreError::InvalidRequest(message.to_string())
    }

    /// A stored run that is not sound.
    pub fn corrupt(message: &str) -> (error: Self)
        ensures
            error@ == StoreErrorView::RunCorrupt(message@),
    {
        StoreError::RunCorrupt(message.to_string())
    }

    /// The error code that the failure is reported with.
    pub fn error_code(&self) -> (code: ErrorCode)
        ensures
            code == self@.error_code(),
    {
        match self {
            StoreError::InvalidRequest(_) => ErrorCode::InvalidRequest,
            StoreError::CacheOpen { detail: _ } => ErrorCode::CacheOpenFailed,
            StoreError::CacheWrite { detail: _ } => ErrorCode::CacheWriteFailed,
            StoreError::LeaseLost => ErrorCode::CacheWriteFailed,
            StoreError::ScanAlreadyRunning => ErrorCode::ScanAlreadyRunning,
            StoreError::RequestInProgress => ErrorCode::RequestInProgress,
            StoreError::RequestIdConflict => ErrorCode::RequestIdConflict,
            StoreError::RunCorrupt(_) => ErrorCode::RunCorrupt,
            StoreError::RunNotFound => ErrorCode::RunNotFound,
            StoreError::SchemaUpgradeRequired => ErrorCode::SchemaUpgradeRequired,
            StoreError::SchemaTooNew => ErrorCode::SchemaUpgradeRequired,
            StoreError::ArtifactMismatch(_) => ErrorCode::BudgetModelMismatch,
        }
    }

    /// Whether the same operation may succeed later.
    pub fn retryable(&self) -> (yes: bool)
        ensures
            yes == self@.retryable(),
    {
        match self {
            StoreError::CacheOpen { detail: _ } => true,
            StoreError::CacheWrite { detail: _ } => true,
            StoreError::ScanAlreadyRunning => true,
            StoreError::RequestInProgress => true,
            StoreError::LeaseLost => true,
            _ => false,
        }
    }

    /// What the failure is reported as.
    pub fn message(&self) -> (message: String)
        ensures
            message@ == self@.message(),
    {
        match self {
            StoreError::InvalidRequest(text) => joined_text(
                "scanner request is invalid: ",
                text.as_str(),
            ),
            StoreError::CacheOpen { detail: _ } =>
                "scanner database could not be opened".to_string(),
            StoreError::CacheWrite { detail: _ } =>
                "scanner database transaction failed".to_string(),
            StoreError::ScanAlreadyRunning =>
                "another scanner run owns the database lease".to_string(),
            StoreError::RequestInProgress => "this request is already running".to_string(),
            StoreError::RequestIdConflict =>
                "request id was reused with different logical input".to_string(),
            StoreError::RunCorrupt(text) => joined_text(
                "persisted scanner run is corrupt: ",
                text.as_str(),
            ),
            StoreError::RunNotFound => "scanner run was not found".to_string(),
            StoreError::LeaseLost => "scanner run lease ownership was lost".to_string(),
            StoreError::SchemaUpgradeRequired =>
                "scanner database schema requires an explicit upgrade".to_string(),
            StoreError::SchemaTooNew =>
                "scanner database schema is newer than this engine".to_string(),
            StoreError::ArtifactMismatch(text) => joined_text(
                "artifact is not dedup-compatible with the stored snapshot: ",
                text.as_str(),
            ),
        }
    }

    /// The diagnostic that reports the failure.
    pub fn diagnostic(&self, stage: DiagnosticStage) -> (diagnostic: Diagnostic)
        ensures
            diagnostic@ == self@.diagnostic(stage),
    {
        Diagnostic {
            error_code: self.error_code(),
            message: self.message(),
            retryable: self.retryable(),
            stage,
            file_path: None,
            backend: None,
        }
    }
}

/// A result with its failure taken by what it says.
pub open spec fn outcome_view<T>(outcome: Result<T, StoreError>) -> Result<T, StoreErrorView> {
    match outcome {
        Ok(value) => Ok(value),
        Err(error) => Err(error@),
    }
}

/// The failure of a number that is too large to store.
pub open spec fn too_large(field: Seq<char>) -> StoreErrorView {
    StoreErrorView::InvalidRequest(field + " exceeds SQLite integer range"@)
}

/// `value` as a stored integer.
pub fn checked_i64(value: u64, field: &str) -> (stored: Result<i64, StoreError>)
    ensures
        outcome_view(stored) == if value <= i64::MAX {
            Ok(value as i64)
        } else {
            Err(too_large(field@))
        },
{
    if value <= 9_223_372_036_854_775_807 {
        Ok(value as i64)
    } else {
        Err(StoreError::InvalidRequest(joined_text(field, " exceeds SQLite integer range")))
    }
}

/// The stored status of a run or of an attempt.
#[derive(Clone, Copy, Debug, PartialEq, Eq, Structural)]
pub enum PersistedRunStatus {
    Running,
    Success,
    Partial,
    Error,
    Abandoned,
}

impl PersistedRunStatus {
    /// The stored text of the status.
    pub open spec fn text_spec(self) -> Seq<char> {
        match self {
            PersistedRunStatus::Running => "running"@,
            PersistedRunStatus::Success => "success"@,
            PersistedRunStatus::Partial => "partial"@,
            PersistedRunStatus::Error => "error"@,
            PersistedRunStatus::Abandoned => "abandoned"@,
        }
    }

    /// The stored text of the status.
    pub fn text(self) -> (text: &'static str)
        ensures
            text@ == self.text_spec(),
    {
        match self {
            PersistedRunStatus::Running => "running",
            PersistedRunStatus::Success => "success",
            PersistedRunStatus::Partial => "partial",
            PersistedRunStatus::Error => "error",
            PersistedRunStatus::Abandoned => "abandoned",
        }
    }
}

/// What an attempt of a run works with.
#[derive(Debug, PartialEq, Eq)]
pub struct AttemptRuntime {
    pub normalized_scan_db_path: String,
    pub normalized_office_worker_path: String,
    pub normalized_python_executable: String,
    pub normalized_python_module_root: String,
    pub python_document_worker_module: String,
    pub engine_fingerprint: String,
}

/// What a [`AttemptRuntime`] says.
#[verifier::ext_equal]
pub struct AttemptRuntimeView {
    pub normalized_scan_db_path: Seq<char>,
    pub normalized_office_worker_path: Seq<char>,
    pub normalized_python_executable: Seq<char>,
    pub normalized_python_module_root: Seq<char>,
    pub python_document_worker_module: Seq<char>,
    pub engine_fingerprint: Seq<char>,
}

impl View for AttemptRuntime {
    type V = AttemptRuntimeView;

    open spec fn view(&self) -> AttemptRuntimeView {
        AttemptRuntimeView {
            normalized_scan_db_path: self.normalized_scan_db_path@,
            normalized_office_worker_path: self.normalized_office_worker_path@,
            normalized_python_executable: self.normalized_python_executable@,
            normalized_python_module_root: self.normalized_python_module_root@,
            python_document_worker_module: self.python_document_worker_module@,
            engine_fingerprint: self.engine_fingerprint@,
        }
    }
}

impl Clone for AttemptRuntime {
    fn clone(&self) -> (copy: Self)
        ensures
            copy@ == self@,
            copy == *self,
    {
        AttemptRuntime {
            normalized_scan_db_path: self.normalized_scan_db_path.clone(),
            normalized_office_worker_path: self.normalized_office_worker_path.clone(),
            normalized_python_executable: self.normalized_python_executable.clone(),
            normalized_python_module_root: self.normalized_python_module_root.clone(),
            python_document_worker_module: self.python_document_worker_module.clone(),
            engine_fingerprint: self.engine_fingerprint.clone(),
        }
    }
}

/// Who the engine of an attempt is.
#[derive(Debug, PartialEq, Eq)]
pub struct EngineFingerprint {
    pub contract: String,
    pub protocol_version: u64,
    pub binary_name: String,
    pub engine_version: String,
    pub engine_build: String,
    pub target_triple: String,
}

/// What a [`EngineFingerprint`] says.
#[verifier::ext_equal]
pub struct EngineFingerprintView {
    pub contract: Seq<char>,
    pub protocol_version: u64,
    pub binary_name: Seq<char>,
    pub engine_version: Seq<char>,
    pub engine_build: Seq<char>,
    pub target_triple: Seq<char>,
}

impl View for EngineFingerprint {
    type V = EngineFingerprintView;

    open spec fn view(&self) -> EngineFingerprintView {
        EngineFingerprintView {
            contract: self.contract@,
            protocol_version: self.protocol_version,
            binary_name: self.binary_name@,
            engine_version: self.engine_version@,
            engine_build: self.engine_build@,
            target_triple: self.target_triple@,
        }
    }
}

impl Clone for EngineFingerprint {
    fn clone(&self) -> (copy: Self)
        ensures
            copy@ == self@,
            copy == *self,
    {
        EngineFingerprint {
            contract: self.contract.clone(),
            protocol_version: self.protocol_version,
            binary_name: self.binary_name.clone(),
            engine_version: self.engine_version.clone(),
            engine_build: self.engine_build.clone(),
            target_triple: self.target_triple.clone(),
        }
    }
}

/// Who a worker of an attempt is.
#[derive(Debug, PartialEq, Eq)]
pub struct WorkerFingerprint {
    pub contract: String,
    pub version: String,
    pub build: String,
}

/// What a [`WorkerFingerprint`] says.
#[verifier::ext_equal]
pub struct WorkerFingerprintView {
    pub contract: Seq<char>,
    pub version: Seq<char>,
    pub build: Seq<char>,
}

impl View for WorkerFingerprint {
    type V = WorkerFingerprintView;

    open spec fn view(&self) -> WorkerFingerprintView {
        WorkerFingerprintView {
            contract: self.contract@,
            version: self.version@,
            build: self.build@,
        }
    }
}

impl Clone for WorkerFingerprint {
    fn clone(&self) -> (copy: Self)
        ensures
            copy@ == self@,
            copy == *self,
    {
        WorkerFingerprint {
            contract: self.contract.clone(),
            version: self.version.clone(),
            build: self.build.clone(),
        }
    }
}

/// A stored run.
#[derive(Debug, PartialEq, Eq)]
pub struct RunRow {
    pub scan_run_id: i64,
    pub request_id: String,
    pub canonical_request_json: String,
    pub request_hash: String,
    pub owner_id: String,
    pub status: PersistedRunStatus,
    pub created_at_ms: i64,
    pub started_at_ms: i64,
    pub updated_at_ms: i64,
    pub finished_at_ms: Option<i64>,
    pub final_envelope_metadata_json: Option<String>,
    pub audit_size_bytes: Option<i64>,
}

/// What a [`RunRow`] says.
#[verifier::ext_equal]
pub struct RunRowView {
    pub scan_run_id: i64,
    pub request_id: Seq<char>,
    pub canonical_request_json: Seq<char>,
    pub request_hash: Seq<char>,
    pub owner_id: Seq<char>,
    pub status: PersistedRunStatus,
    pub created_at_ms: i64,
    pub started_at_ms: i64,
    pub updated_at_ms: i64,
    pub finished_at_ms: Option<i64>,
    pub final_envelope_metadata_json: Option<Seq<char>>,
    pub audit_size_bytes: Option<i64>,
}

impl View for RunRow {
    type V = RunRowView;

    open spec fn view(&self) -> RunRowView {
        RunRowView {
            scan_run_id: self.scan_run_id,
            request_id: self.request_id@,
            canonical_request_json: self.canonical_request_json@,
            request_hash: self.request_hash@,
            owner_id: self.owner_id@,
            status: self.status,
            created_at_ms: self.created_at_ms,
            started_at_ms: self.started_at_ms,
            updated_at_ms: self.updated_at_ms,
            finished_at_ms: self.finished_at_ms,
            final_envelope_metadata_json: opt_view(self.final_envelope_metadata_json),
            audit_size_bytes: self.audit_size_bytes,
        }
    }
}

impl Clone for RunRow {
    fn clone(&self) -> (copy: Self)
        ensures
            copy@ == self@,
            copy == *self,
    {
        RunRow {
            scan_run_id: self.scan_run_id,
            request_id: self.request_id.clone(),
            canonical_request_json: self.canonical_request_json.clone(),
            request_hash: self.request_hash.clone(),
            owner_id: self.owner_id.clone(),
            status: self.status,
            created_at_ms: self.created_at_ms,
            started_at_ms: self.started_at_ms,
            updated_at_ms: self.updated_at_ms,
            finished_at_ms: self.finished_at_ms,
            final_envelope_metadata_json: self.final_envelope_metadata_json.clone(),
            audit_size_bytes: self.audit_size_bytes,
        }
    }
}

/// The lease on the database.
#[derive(Debug, PartialEq, Eq)]
pub struct LeaseRow {
    pub owner_id: String,
    pub owner_pid: i64,
    pub acquired_at_ms: i64,
    pub heartbeat_at_ms: i64,
    pub expires_at_ms: i64,
}

/// What a [`LeaseRow`] says.
#[verifier::ext_equal]
pub struct LeaseRowView {
    pub owner_id: Seq<char>,
    pub owner_pid: i64,
    pub acquired_at_ms: i64,
    pub heartbeat_at_ms: i64,
    pub expires_at_ms: i64,
}

impl View for LeaseRow {
    type V = LeaseRowView;

    open spec fn view(&self) -> LeaseRowView {
        LeaseRowView {
            owner_id: self.owner_id@,
            owner_pid: self.owner_pid,
            acquired_at_ms: self.acquired_at_ms,
            heartbeat_at_ms: self.heartbeat_at_ms,
            expires_at_ms: self.expires_at_ms,
        }
    }
}

impl Clone for LeaseRow {
    fn clone(&self) -> (copy: Self)
        ensures
            copy@ == self@,
            copy == *self,
    {
        LeaseRow {
            owner_id: self.owner_id.clone(),
            owner_pid: self.owner_pid,
            acquired_at_ms: self.acquired_at_ms,
            heartbeat_at_ms: self.heartbeat_at_ms,
            expires_at_ms: self.expires_at_ms,
        }
    }
}

/// A stored attempt of a run.
#[derive(Debug, PartialEq, Eq)]
pub struct AttemptRow {
    pub scan_run_id: i64,
    pub attempt_number: i64,
    pub owner_id: String,
    pub runtime: AttemptRuntime,
    pub office_worker: Option<WorkerFingerprint>,
    pub python_worker: Option<WorkerFingerprint>,
    pub started_at_ms: i64,
    pub finished_at_ms: Option<i64>,
    pub status: PersistedRunStatus,
}

/// What a [`AttemptRow`] says.
#[verifier::ext_equal]
pub struct AttemptRowView {
    pub scan_run_id: i64,
    pub attempt_number: i64,
    pub owner_id: Seq<char>,
    pub runtime: AttemptRuntimeView,
    pub office_worker: Option<WorkerFingerprintView>,
    pub python_worker: Option<WorkerFingerprintView>,
    pub started_at_ms: i64,
    pub finished_at_ms: Option<i64>,
    pub status: PersistedRunStatus,
}

impl View for AttemptRow {
    type V = AttemptRowView;

    open spec fn view(&self) -> AttemptRowView {
        AttemptRowView {
            scan_run_id: self.scan_run_id,
            attempt_number: self.attempt_number,
            owner_id: self.owner_id@,
            runtime: self.runtime@,
            office_worker: opt_view(self.office_worker),
            python_worker: opt_view(self.python_worker),
            started_at_ms: self.started_at_ms,
            finished_at_ms: self.finished_at_ms,
            status: self.status,
        }
    }
}

impl Clone for AttemptRow {
    fn clone(&self) -> (copy: Self)
        ensures
            copy@ == self@,
            copy == *self,
    {
        AttemptRow {
            scan_run_id: self.scan_run_id,
            attempt_number: self.attempt_number,
            owner_id: self.owner_id.clone(),
            runtime: self.runtime.clone(),
            office_worker: self.office_worker.clone(),
            python_worker: self.python_worker.clone(),
            started_at_ms: self.started_at_ms,
            finished_at_ms: self.finished_at_ms,
            status: self.status,
        }
    }
}

/// The answer to a request.
#[derive(Debug, PartialEq, Eq)]
pub struct ContextEnvelope {
    pub contract: String,
    pub protocol_version: u64,
    pub request_id: String,
    pub engine_version: String,
    pub engine_build: String,
    pub status: EngineStatus,
    pub file_context: String,
    pub summary: ContextSummary,
    pub scan_run_id: Option<u64>,
    pub context_run_id: Option<u64>,
    pub warnings: Vec<Diagnostic>,
    pub error: Option<Diagnostic>,
}

/// What a [`ContextEnvelope`] says.
#[verifier::ext_equal]
pub struct ContextEnvelopeView {
    pub contract: Seq<char>,
    pub protocol_version: u64,
    pub request_id: Seq<char>,
    pub engine_version: Seq<char>,
    pub engine_build: Seq<char>,
    pub status: EngineStatus,
    pub file_context: Seq<char>,
    pub summary: ContextSummary,
    pub scan_run_id: Option<u64>,
    pub context_run_id: Option<u64>,
    pub warnings: Seq<DiagnosticView>,
    pub error: Option<DiagnosticView>,
}

impl View for ContextEnvelope {
    type V = ContextEnvelopeView;

    open spec fn view(&self) -> ContextEnvelopeView {
        ContextEnvelopeView {
            contract: self.contract@,
            protocol_version: self.protocol_version,
            request_id: self.request_id@,
            engine_version: self.engine_version@,
            engine_build: self.engine_build@,
            status: self.status,
            file_context: self.file_context@,
            summary: self.summary,
            scan_run_id: self.scan_run_id,
            context_run_id: self.context_run_id,
            warnings: views(self.warnings@),
            error: opt_view(self.error),
        }
    }
}

impl Clone for ContextEnvelope {
    fn clone(&self) -> (copy: Self)
        ensures
            copy@ == self@,
    {
        ContextEnvelope {
            contract: self.contract.clone(),
            protocol_version: self.protocol_version,
            request_id: self.request_id.clone(),
            engine_version: self.engine_version.clone(),
            engine_build: self.engine_build.clone(),
            status: self.status,
            file_context: self.file_context.clone(),
            summary: self.summary,
            scan_run_id: self.scan_run_id,
            context_run_id: self.context_run_id,
            warnings: clone_all(&self.warnings),
            error: self.error.clone(),
        }
    }
}

impl PersistedRunStatus {
    /// The status that a stored text names.
    pub open spec fn of_text(text: Seq<char>) -> Option<PersistedRunStatus> {
        if text == "running"@ {
            Some(PersistedRunStatus::Running)
        } else if text == "success"@ {
            Some(PersistedRunStatus::Success)
        } else if text == "partial"@ {
            Some(PersistedRunStatus::Partial)
        } else if text == "error"@ {
            Some(PersistedRunStatus::Error)
        } else if text == "abandoned"@ {
            Some(PersistedRunStatus::Abandoned)
        } else {
            None
        }
    }

    /// Reads a stored status.
    pub fn parse(value: &str) -> (status: Result<Self, StoreError>)
        ensures
            outcome_view(status) == match PersistedRunStatus::of_text(value@) {
                Some(named) => Ok(named),
                None => Err(StoreErrorView::RunCorrupt("unknown run status"@)),
            },
    {
        if text_eq(value, "running") {
            Ok(PersistedRunStatus::Running)
        } else if text_eq(value, "success") {
            Ok(PersistedRunStatus::Success)
        } else if text_eq(value, "partial") {
            Ok(PersistedRunStatus::Partial)
        } else if text_eq(value, "error") {
            Ok(PersistedRunStatus::Error)
        } else if text_eq(value, "abandoned") {
            Ok(PersistedRunStatus::Abandoned)
        } else {
            Err(StoreError::corrupt("unknown run status"))
        }
    }

    /// The run has ended with an answer.
    pub open spec fn terminal(self) -> bool {
        self == PersistedRunStatus::Success || self == PersistedRunStatus::Partial || self
            == PersistedRunStatus::Error
    }

    /// Whether the run has ended with an answer.
    pub fn is_terminal(self) -> (yes: bool)
        ensures
            yes == self.terminal(),
    {
        match self {
            PersistedRunStatus::Success => true,
            PersistedRunStatus::Partial => true,
            PersistedRunStatus::Error => true,
            _ => false,
        }
    }
}

/// A stored status is read back as it was written.
pub proof fn law_run_status_round_trip(status: PersistedRunStatus)
    ensures
        PersistedRunStatus::of_text(status.text_spec()) == Some(status),
{
    reveal_strlit("running");
    reveal_strlit("success");
    reveal_strlit("partial");
    reveal_strlit("error");
    reveal_strlit("abandoned");
    assert("running"@[0] == 'r');
    assert("success"@[0] == 's');
    assert("partial"@[0] == 'p');
    assert("error"@[0] == 'e');
    assert("abandoned"@[0] == 'a');
}

// ---------------------------------------------------------------------------
// Requests
// ---------------------------------------------------------------------------

/// What separates request hashes from other hashes.
pub open spec fn request_domain() -> Seq<u8> {
    seq![114u8, 101u8, 113u8, 117u8, 101u8, 115u8, 116u8, 45u8, 118u8, 49u8, 0u8]
}

/// The hash of the canonical JSON of a request.
pub open spec fn request_digest(json: Seq<char>) -> Seq<char> {
    sha256_text(request_domain() + vstd::utf8::encode_utf8(json))
}

/// Hashes the canonical JSON of a request.
pub fn request_hash(json: &str) -> (hash: String)
    ensures
        hash@ == request_digest(json@),
        is_sha256_text(hash@),
{
    let domain: Vec<u8> = vec![
        114u8, 101u8, 113u8, 117u8, 101u8, 115u8, 116u8, 45u8, 118u8, 49u8, 0u8,
    ];
    assert(domain@ =~= request_domain());
    domain_hash(domain.as_slice(), json.as_bytes())
}

/// A request without what does not change its meaning, and its hash.
#[derive(Debug, PartialEq, Eq)]
pub struct CanonicalRequest {
    request_id: String,
    json: String,
    hash_algorithm: &'static str,
    hash: String,
}

/// What a [`CanonicalRequest`] says.
#[verifier::ext_equal]
pub struct CanonicalRequestView {
    pub request_id: Seq<char>,
    pub json: Seq<char>,
    pub hash_algorithm: Seq<char>,
    pub hash: Seq<char>,
}

impl View for CanonicalRequest {
    type V = CanonicalRequestView;

    closed spec fn view(&self) -> CanonicalRequestView {
        CanonicalRequestView {
            request_id: self.request_id@,
            json: self.json@,
            hash_algorithm: self.hash_algorithm@,
            hash: self.hash@,
        }
    }
}

impl Clone for CanonicalRequest {
    fn clone(&self) -> (copy: Self)
        ensures
            copy@ == self@,
            copy == *self,
    {
        CanonicalRequest {
            request_id: self.request_id.clone(),
            json: self.json.clone(),
            hash_algorithm: self.hash_algorithm,
            hash: self.hash.clone(),
        }
    }
}

impl CanonicalRequestView {
    /// The request of the given identity whose logical input has the given JSON.
    pub open spec fn of(request_id: Seq<char>, json: Seq<char>) -> CanonicalRequestView {
        CanonicalRequestView {
            request_id,
            json,
            hash_algorithm: REQUEST_HASH_ALGORITHM@,
            hash: request_digest(json),
        }
    }

    /// The hash is that of the JSON, and the request is the one that was asked for.
    pub open spec fn sound(self, request_id: Seq<char>) -> bool {
        &&& self.hash_algorithm == REQUEST_HASH_ALGORITHM@
        &&& self.request_id == request_id
        &&& is_sha256_text(self.hash)
        &&& self.json.len() > 0
        &&& request_digest(self.json) == self.hash
    }
}

impl CanonicalRequest {
    /// The request whose logical input has the given canonical JSON.
    pub fn from_json(request_id: &str, json: String) -> (request: Self)
        ensures
            request@ == CanonicalRequestView::of(request_id@, json@),
    {
        let hash: String = request_hash(json.as_str());
        CanonicalRequest {
            request_id: request_id.to_string(),
            json,
            hash_algorithm: REQUEST_HASH_ALGORITHM,
            hash,
        }
    }

    /// The canonical JSON.
    pub fn json(&self) -> (json: &str)
        ensures
            json@ == self@.json,
    {
        self.json.as_str()
    }

    /// The algorithm of the hash.
    pub fn hash_algorithm(&self) -> (algorithm: &'static str)
        ensures
            algorithm@ == self@.hash_algorithm,
    {
        self.hash_algorithm
    }

    /// The hash of the canonical JSON.
    pub fn hash(&self) -> (hash: &str)
        ensures
            hash@ == self@.hash,
    {
        self.hash.as_str()
    }

    /// Whether the hash is that of the JSON and the request the one asked for.
    pub fn is_sound(&self, request_id: &str) -> (yes: bool)
        ensures
            yes == self@.sound(request_id@),
    {
        let expected: String = request_hash(self.json.as_str());
        text_eq(self.hash_algorithm, REQUEST_HASH_ALGORITHM) && text_eq(
            self.request_id.as_str(),
            request_id,
        ) && is_sha256(self.hash.as_str()) && !self.json.as_str().is_empty() && text_eq(
            expected.as_str(),
            self.hash.as_str(),
        )
    }
}

// ---------------------------------------------------------------------------
// What a run works with
// ---------------------------------------------------------------------------

impl AttemptRuntimeView {
    /// Every path is absolute and every text is there and not too long.
    pub open spec fn complete(self) -> bool {
        &&& is_absolute_path(self.normalized_scan_db_path)
        &&& is_absolute_path(self.normalized_office_worker_path)
        &&& is_absolute_path(self.normalized_python_executable)
        &&& is_absolute_path(self.normalized_python_module_root)
        &&& self.python_document_worker_module.len() > 0
        &&& within(self.python_document_worker_module, 1_024)
        &&& self.engine_fingerprint.len() > 0
        &&& within(self.engine_fingerprint, 4_096)
    }
}

impl AttemptRuntime {
    /// What an attempt works with: the normalized paths of a request, and the engine.
    /// `accepted` is the verdict of the wire contract on what the engine says of itself.
    pub fn from_request(
        accepted: &Result<(), String>,
        engine: &EngineFingerprint,
        scan_db_path: String,
        office_worker_path: String,
        python_executable: String,
        python_module_root: String,
        python_document_worker_module: String,
    ) -> (runtime: Result<Self, StoreError>)
        ensures
            match (*accepted, runtime) {
                (Err(message), Err(error)) => error@ == StoreErrorView::InvalidRequest(message@),
                (Ok(_), Ok(formed)) => formed@ == (AttemptRuntimeView {
                    normalized_scan_db_path: scan_db_path@,
                    normalized_office_worker_path: office_worker_path@,
                    normalized_python_executable: python_executable@,
                    normalized_python_module_root: python_module_root@,
                    python_document_worker_module: python_document_worker_module@,
                    engine_fingerprint: engine@.json(),
                }),
                _ => false,
            },
    {
        if let Err(message) = accepted {
            return Err(StoreError::invalid(message.as_str()));
        }
        Ok(
            AttemptRuntime {
                normalized_scan_db_path: scan_db_path,
                normalized_office_worker_path: office_worker_path,
                normalized_python_executable: python_executable,
                normalized_python_module_root: python_module_root,
                python_document_worker_module,
                engine_fingerprint: engine.to_json(),
            },
        )
    }

    /// Checks what an attempt works with.
    pub fn validate(&self) -> (verdict: Result<(), StoreError>)
        ensures
            outcome_view(verdict) == if self@.complete() {
                Ok(())
            } else {
                Err(StoreErrorView::InvalidRequest("attempt runtime fingerprint is incomplete"@))
            },
    {
        if is_contract_absolute_path(self.normalized_scan_db_path.as_str())
            && is_contract_absolute_path(self.normalized_office_worker_path.as_str())
            && is_contract_absolute_path(self.normalized_python_executable.as_str())
            && is_contract_absolute_path(self.normalized_python_module_root.as_str())
            && !self.python_document_worker_module.as_str().is_empty() && is_within(
            self.python_document_worker_module.as_str(),
            1_024,
        ) && !self.engine_fingerprint.as_str().is_empty() && is_within(
            self.engine_fingerprint.as_str(),
            4_096,
        ) {
            Ok(())
        } else {
            Err(StoreError::invalid("attempt runtime fingerprint is incomplete"))
        }
    }
}

impl EngineFingerprintView {
    /// The stored form of the fingerprint.
    pub open spec fn json(self) -> Seq<char> {
        "{\"contract\":"@ + json_text(self.contract) + ",\"protocol_version\":"@ + decimal(
            self.protocol_version as nat,
        ) + ",\"binary_name\":"@ + json_text(self.binary_name) + ",\"engine_version\":"@
            + json_text(self.engine_version) + ",\"engine_build\":"@ + json_text(self.engine_build)
            + ",\"target_triple\":"@ + json_text(self.target_triple) + "}"@
    }
}

impl EngineFingerprint {
    /// Writes the stored form of the fingerprint.
    pub fn to_json(&self) -> (json: String)
        ensures
            json@ == self@.json(),
    {
        let mut writer = JsonWriter::new();
        writer.raw("{\"contract\":");
        writer.text(self.contract.as_str());
        writer.raw(",\"protocol_version\":");
        writer.number(self.protocol_version);
        writer.raw(",\"binary_name\":");
        writer.text(self.binary_name.as_str());
        writer.raw(",\"engine_version\":");
        writer.text(self.engine_version.as_str());
        writer.raw(",\"engine_build\":");
        writer.text(self.engine_build.as_str());
        writer.raw(",\"target_triple\":");
        writer.text(self.target_triple.as_str());
        writer.raw("}");
        let json: String = writer.finish();
        assert(json@ =~= self@.json());
        json
    }
}

impl WorkerFingerprintView {
    /// Every text is there and not too long.
    pub open spec fn complete(self) -> bool {
        &&& self.contract.len() > 0
        &&& within(self.contract, 1_024)
        &&& self.version.len() > 0
        &&& within(self.version, 1_024)
        &&& self.build.len() > 0
        &&& within(self.build, 4_096)
    }
}

impl WorkerFingerprint {
    /// Checks the fingerprint.
    pub fn validate(&self) -> (verdict: Result<(), StoreError>)
        ensures
            outcome_view(verdict) == if self@.complete() {
                Ok(())
            } else {
                Err(StoreErrorView::InvalidRequest("worker fingerprint is incomplete"@))
            },
    {
        if !self.contract.as_str().is_empty() && is_within(self.contract.as_str(), 1_024)
            && !self.version.as_str().is_empty() && is_within(self.version.as_str(), 1_024)
            && !self.build.as_str().is_empty() && is_within(self.build.as_str(), 4_096) {
            Ok(())
        } else {
            Err(StoreError::invalid("worker fingerprint is incomplete"))
        }
    }
}

/// A part of a path.
#[derive(Debug, PartialEq, Eq)]
pub enum PathPart {
    Prefix(String),
    Root,
    Current,
    Parent,
    Normal(String),
}

/// A part of a path.
pub enum PathPartView {
    Prefix(Seq<char>),
    Root,
    Current,
    Parent,
    Normal(Seq<char>),
}

impl View for PathPart {
    type V = PathPartView;

    open spec fn view(&self) -> PathPartView {
        match self {
            PathPart::Prefix(text) => PathPartView::Prefix(text@),
            PathPart::Root => PathPartView::Root,
            PathPart::Current => PathPartView::Current,
            PathPart::Parent => PathPartView::Parent,
            PathPart::Normal(text) => PathPartView::Normal(text@),
        }
    }
}

/// The first `count` parts of a path with `.` left out and each `..` taking back
/// the named part before it; above a root or a prefix there is nothing to take
/// back.
pub open spec fn lexical_parts(parts: Seq<PathPartView>, count: nat) -> Seq<PathPartView>
    decreases count,
{
    if count == 0 {
        Seq::empty()
    } else {
        let before = lexical_parts(parts, (count - 1) as nat);
        match parts[count - 1] {
            PathPartView::Current => before,
            PathPartView::Parent => if before.len() > 0 && before.last() is Normal {
                before.drop_last()
            } else {
                before
            },
            part => before.push(part),
        }
    }
}

/// Simplifies a path that cannot be resolved on disk.
pub fn simplify_parts(parts: Vec<PathPart>) -> (simple: Vec<PathPart>)
    ensures
        views(simple@) == lexical_parts(views(parts@), parts@.len()),
{
    let ghost all = views(parts@);
    let mut simple: Vec<PathPart> = Vec::new();
    let mut i: usize = 0;
    assert(views(simple@) =~= lexical_parts(all, 0));
    while i < parts.len()
        invariant
            i <= parts.len(),
            all == views(parts@),
            views(simple@) == lexical_parts(all, i as nat),
        decreases parts.len() - i,
    {
        assert(all[i as int] == parts@[i as int]@);
        let ghost before = views(simple@);
        match &parts[i] {
            PathPart::Current => {},
            PathPart::Parent => {
                let named: bool = if simple.len() > 0 {
                    match &simple[simple.len() - 1] {
                        PathPart::Normal(_) => true,
                        _ => false,
                    }
                } else {
                    false
                };
                assert(simple@.len() > 0 ==> before.last() == simple@.last()@);
                if named {
                    simple.pop();
                    assert(views(simple@) =~= before.drop_last());
                }
            },
            PathPart::Prefix(text) => {
                simple.push(PathPart::Prefix(text.clone()));
                assert(views(simple@) =~= before.push(all[i as int]));
            },
            PathPart::Root => {
                simple.push(PathPart::Root);
                assert(views(simple@) =~= before.push(all[i as int]));
            },
            PathPart::Normal(text) => {
                simple.push(PathPart::Normal(text.clone()));
                assert(views(simple@) =~= before.push(all[i as int]));
            },
        }
        i = i + 1;
    }
    simple
}

/// A simplified path holds neither `.` nor `..`, and simplifying it again changes
/// nothing.
pub proof fn law_simplified_paths_are_simple(parts: Seq<PathPartView>, count: nat)
    requires
        count <= parts.len(),
    ensures
        forall|i: int|
            0 <= i < lexical_parts(parts, count).len() ==> !((#[trigger] lexical_parts(
                parts,
                count,
            )[i]) is Current) && !(lexical_parts(parts, count)[i] is Parent),
        lexical_parts(lexical_parts(parts, count), lexical_parts(parts, count).len())
            == lexical_parts(parts, count),
    decreases count,
{
    if count > 0 {
        law_simplified_paths_are_simple(parts, (count - 1) as nat);
    }
    let simple = lexical_parts(parts, count);
    lemma_simple_is_fixed(simple, simple.len());
    assert(simple.take(simple.len() as int) =~= simple);
}

proof fn lemma_simple_is_fixed(simple: Seq<PathPartView>, count: nat)
    requires
        count <= simple.len(),
        forall|i: int|
            0 <= i < simple.len() ==> !((#[trigger] simple[i]) is Current) && !(simple[i]
                is Parent),
    ensures
        lexical_parts(simple, count) == simple.take(count as int),
    decreases count,
{
    if count > 0 {
        lemma_simple_is_fixed(simple, (count - 1) as nat);
        assert(simple.take(count as int) =~= simple.take(count - 1).push(simple[count - 1]));
    } else {
        assert(simple.take(0) =~= Seq::<PathPartView>::empty());
    }
}

// ---------------------------------------------------------------------------
// Leases
// ---------------------------------------------------------------------------

/// The difference of two timestamps, or the smallest one when it does not fit.
pub open spec fn saturated_difference(left: int, right: int) -> int {
    if left - right < i64::MIN {
        i64::MIN as int
    } else if left - right > i64::MAX {
        i64::MAX as int
    } else {
        left - right
    }
}

/// The lease is held: it has not run out, or its holder gave a sign of life within
/// the grace.
pub open spec fn lease_live(lease: LeaseRowView, now_ms: i64) -> bool {
    lease.expires_at_ms > now_ms || lease.heartbeat_at_ms > saturated_difference(
        now_ms as int,
        LEASE_GRACE as int,
    )
}

/// Whether the lease is held.
pub fn lease_is_live(lease: &LeaseRow, now_ms: i64) -> (live: bool)
    ensures
        live == lease_live(lease@, now_ms),
{
    let cutoff: i64 = if now_ms < -9_223_372_036_854_755_808 {
        -9_223_372_036_854_775_808
    } else {
        now_ms - LEASE_GRACE
    };
    lease.expires_at_ms > now_ms || lease.heartbeat_at_ms > cutoff
}

/// When a lease runs out that is taken or renewed now.
pub open spec fn expiry_of(now_ms: i64) -> Result<i64, StoreErrorView> {
    if now_ms + LEASE_GRACE > i64::MAX {
        Err(StoreErrorView::InvalidRequest("lease timestamp overflows"@))
    } else {
        Ok((now_ms + LEASE_GRACE) as i64)
    }
}

/// Computes when a lease runs out that is taken or renewed now.
pub fn lease_expiry(now_ms: i64) -> (expiry: Result<i64, StoreError>)
    ensures
        outcome_view(expiry) == expiry_of(now_ms),
{
    if now_ms > 9_223_372_036_854_755_807 {
        Err(StoreError::invalid("lease timestamp overflows"))
    } else {
        Ok(now_ms + LEASE_GRACE)
    }
}

/// A lease that is renewed stays held until its grace has passed, and no longer;
/// three heartbeats fit into the grace.
pub proof fn law_heartbeats_hold_the_lease(lease: LeaseRowView, renewed_ms: i64, now_ms: i64)
    requires
        lease.heartbeat_at_ms == renewed_ms,
        expiry_of(renewed_ms) == Ok::<i64, StoreErrorView>(lease.expires_at_ms),
        i64::MIN <= now_ms - LEASE_GRACE,
    ensures
        lease_live(lease, now_ms) <==> now_ms < renewed_ms + LEASE_GRACE,
        3 * HEARTBEAT_INTERVAL_MS <= LEASE_GRACE_MS,
        LEASE_GRACE == LEASE_GRACE_MS,
{
}

// ---------------------------------------------------------------------------
// The ledger of runs
// ---------------------------------------------------------------------------

/// A run that is under way.
#[derive(Debug, PartialEq, Eq)]
pub struct ActiveRun {
    scan_run_id: i64,
    attempt_number: i64,
    owner_id: String,
    request_id: String,
}

/// A run that is under way.
#[verifier::ext_equal]
pub struct ActiveRunView {
    pub scan_run_id: i64,
    pub attempt_number: i64,
    pub owner_id: Seq<char>,
    pub request_id: Seq<char>,
}

impl View for ActiveRun {
    type V = ActiveRunView;

    closed spec fn view(&self) -> ActiveRunView {
        ActiveRunView {
            scan_run_id: self.scan_run_id,
            attempt_number: self.attempt_number,
            owner_id: self.owner_id@,
            request_id: self.request_id@,
        }
    }
}

impl ActiveRun {
    /// The run of the given identities.
    pub fn new(scan_run_id: i64, attempt_number: i64, owner_id: String, request_id: String) -> (run:
        Self)
        ensures
            run@ == (ActiveRunView {
                scan_run_id,
                attempt_number,
                owner_id: owner_id@,
                request_id: request_id@,
            }),
    {
        ActiveRun { scan_run_id, attempt_number, owner_id, request_id }
    }

    /// The identity of the run.
    pub fn scan_run_id(&self) -> (id: u64)
        ensures
            id == self@.scan_run_id as u64,
    {
        self.scan_run_id as u64
    }

    /// The identity of the run's context, which is that of the run.
    pub fn context_run_id(&self) -> (id: u64)
        ensures
            id == self@.scan_run_id as u64,
    {
        self.scan_run_id()
    }

    /// Which attempt of the run this is, counted from one.
    pub fn attempt_number(&self) -> (number: u64)
        ensures
            number == self@.attempt_number as u64,
    {
        self.attempt_number as u64
    }

    /// The request that the run answers.
    pub fn request_id(&self) -> (id: &str)
        ensures
            id@ == self@.request_id,
    {
        self.request_id.as_str()
    }

    /// Who holds the lease for the run.
    pub fn owner_id(&self) -> (id: &str)
        ensures
            id@ == self@.owner_id,
    {
        self.owner_id.as_str()
    }
}

/// How a request to run was answered: with a run, or with a stored answer.
#[derive(Debug, PartialEq, Eq)]
pub enum BeginRunOutcome {
    Started(ActiveRun),
    Stored(i64),
}

/// How a request to run was answered.
#[verifier::ext_equal]
pub enum BeginRunOutcomeView {
    Started(ActiveRunView),
    Stored(i64),
}

impl View for BeginRunOutcome {
    type V = BeginRunOutcomeView;

    open spec fn view(&self) -> BeginRunOutcomeView {
        match self {
            BeginRunOutcome::Started(active) => BeginRunOutcomeView::Started(active@),
            BeginRunOutcome::Stored(id) => BeginRunOutcomeView::Stored(*id),
        }
    }
}

/// The runs, the attempts and the lease of a database.
pub struct RunLedger {
    pub runs: Vec<RunRow>,
    pub lease: Option<LeaseRow>,
    pub attempts: Vec<AttemptRow>,
    /// The identity that the next new run gets.
    pub next_run_id: i64,
}

/// The runs, the attempts and the lease of a database.
#[verifier::ext_equal]
pub struct RunLedgerView {
    pub runs: Seq<RunRowView>,
    pub lease: Option<LeaseRowView>,
    pub attempts: Seq<AttemptRowView>,
    pub next_run_id: i64,
}

impl View for RunLedger {
    type V = RunLedgerView;

    open spec fn view(&self) -> RunLedgerView {
        RunLedgerView {
            runs: views(self.runs@),
            lease: opt_view(self.lease),
            attempts: views(self.attempts@),
            next_run_id: self.next_run_id,
        }
    }
}

/// The first run, counted from `from`, of the given request.
pub open spec fn run_of_request(runs: Seq<RunRowView>, request_id: Seq<char>, from: int) -> Option<
    int,
>
    decreases runs.len() - from,
{
    if from < 0 || from >= runs.len() {
        None
    } else if runs[from].request_id == request_id {
        Some(from)
    } else {
        run_of_request(runs, request_id, from + 1)
    }
}

/// The first run, counted from `from`, that is under way for its owner.
pub open spec fn owned_run(runs: Seq<RunRowView>, active: ActiveRunView, from: int) -> Option<int>
    decreases runs.len() - from,
{
    if from < 0 || from >= runs.len() {
        None
    } else if runs[from].scan_run_id == active.scan_run_id && runs[from].owner_id == active.owner_id
        && runs[from].status == PersistedRunStatus::Running {
        Some(from)
    } else {
        owned_run(runs, active, from + 1)
    }
}

/// The first attempt, counted from `from`, that is under way for its owner.
pub open spec fn owned_attempt(
    attempts: Seq<AttemptRowView>,
    active: ActiveRunView,
    from: int,
) -> Option<int>
    decreases attempts.len() - from,
{
    if from < 0 || from >= attempts.len() {
        None
    } else if attempts[from].scan_run_id == active.scan_run_id && attempts[from].attempt_number
        == active.attempt_number && attempts[from].owner_id == active.owner_id
        && attempts[from].status == PersistedRunStatus::Running {
        Some(from)
    } else {
        owned_attempt(attempts, active, from + 1)
    }
}

/// The highest number of the first `count` attempts that belongs to the run.
pub open spec fn last_attempt(
    attempts: Seq<AttemptRowView>,
    scan_run_id: i64,
    count: nat,
) -> i64
    decreases count,
{
    if count == 0 {
        0
    } else {
        let earlier = last_attempt(attempts, scan_run_id, (count - 1) as nat);
        let attempt = attempts[count - 1];
        if attempt.scan_run_id == scan_run_id && attempt.attempt_number > earlier {
            attempt.attempt_number
        } else {
            earlier
        }
    }
}

/// The run, given up at the given time when the given owner had it under way.
pub open spec fn given_up(run: RunRowView, owner_id: Seq<char>, now_ms: i64) -> RunRowView {
    if run.owner_id == owner_id && run.status == PersistedRunStatus::Running {
        RunRowView {
            status: PersistedRunStatus::Abandoned,
            updated_at_ms: now_ms,
            finished_at_ms: Some(now_ms),
            ..run
        }
    } else {
        run
    }
}

/// The attempt, given up at the given time when the given owner had it under way.
pub open spec fn attempt_given_up(
    attempt: AttemptRowView,
    owner_id: Seq<char>,
    now_ms: i64,
) -> AttemptRowView {
    if attempt.owner_id == owner_id && attempt.status == PersistedRunStatus::Running {
        AttemptRowView {
            status: PersistedRunStatus::Abandoned,
            finished_at_ms: Some(now_ms),
            ..attempt
        }
    } else {
        attempt
    }
}

/// A request to run, as the store is asked it.
#[verifier::ext_equal]
pub struct BeginRequest {
    pub request_id: Seq<char>,
    pub canonical: CanonicalRequestView,
    pub runtime: AttemptRuntimeView,
    pub store_path: Seq<char>,
    pub owner_id: Seq<char>,
    pub owner_pid: i64,
    pub now_ms: u64,
}

impl BeginRequest {
    /// What is wrong with the request itself.
    pub open spec fn fault(self) -> Option<StoreErrorView> {
        if !self.runtime.complete() {
            Some(StoreErrorView::InvalidRequest("attempt runtime fingerprint is incomplete"@))
        } else if self.now_ms > i64::MAX {
            Some(too_large("run timestamp"@))
        } else if !self.canonical.sound(self.request_id) {
            Some(StoreErrorView::InvalidRequest("canonical request fingerprint is invalid"@))
        } else if self.store_path != self.runtime.normalized_scan_db_path {
            Some(
                StoreErrorView::InvalidRequest(
                    "attempt scan database path does not match the opened store"@,
                ),
            )
        } else {
            None
        }
    }
}

/// What is wrong with answering the request by the stored run: its hash is not that
/// of its JSON, or it is a run of other logical input.
pub open spec fn hash_fault(run: RunRowView, canonical: CanonicalRequestView) -> Option<
    StoreErrorView,
> {
    if request_digest(run.canonical_request_json) != run.request_hash {
        Some(StoreErrorView::RunCorrupt("stored logical request hash is invalid"@))
    } else if run.request_hash != canonical.hash || run.canonical_request_json != canonical.json {
        Some(StoreErrorView::RequestIdConflict)
    } else {
        None
    }
}

/// Checks that the stored run answers the request.
pub fn ensure_request_hash(existing: &RunRow, canonical: &CanonicalRequest) -> (verdict: Result<
    (),
    StoreError,
>)
    ensures
        outcome_view(verdict) == match hash_fault(existing@, canonical@) {
            Some(fault) => Err(fault),
            None => Ok(()),
        },
{
    let expected: String = request_hash(existing.canonical_request_json.as_str());
    if !text_eq(expected.as_str(), existing.request_hash.as_str()) {
        return Err(StoreError::corrupt("stored logical request hash is invalid"));
    }
    if !text_eq(existing.request_hash.as_str(), canonical.hash()) || !text_eq(
        existing.canonical_request_json.as_str(),
        canonical.json(),
    ) {
        return Err(StoreError::RequestIdConflict);
    }
    Ok(())
}

impl RunLedgerView {
    /// The ledger after the lease ran out and was taken back.
    pub open spec fn reclaimed(self, now_ms: i64) -> RunLedgerView {
        match self.lease {
            None => self,
            Some(lease) => RunLedgerView {
                runs: self.runs.map_values(
                    |run: RunRowView| given_up(run, lease.owner_id, now_ms),
                ),
                attempts: self.attempts.map_values(
                    |attempt: AttemptRowView| attempt_given_up(attempt, lease.owner_id, now_ms),
                ),
                lease: None,
                ..self
            },
        }
    }

    /// The ledger with a lease taken now.
    pub open spec fn leased(self, request: BeginRequest, now_ms: i64, expiry: i64) -> RunLedgerView {
        RunLedgerView {
            lease: Some(
                LeaseRowView {
                    owner_id: request.owner_id,
                    owner_pid: request.owner_pid,
                    acquired_at_ms: now_ms,
                    heartbeat_at_ms: now_ms,
                    expires_at_ms: expiry,
                },
            ),
            ..self
        }
    }

    /// The ledger with a new attempt of the run.
    pub open spec fn attempted(
        self,
        request: BeginRequest,
        scan_run_id: i64,
        now_ms: i64,
    ) -> (RunLedgerView, BeginRunOutcomeView) {
        let number = (last_attempt(self.attempts, scan_run_id, self.attempts.len()) + 1) as i64;
        (
            RunLedgerView {
                attempts: self.attempts.push(
                    AttemptRowView {
                        scan_run_id,
                        attempt_number: number,
                        owner_id: request.owner_id,
                        runtime: request.runtime,
                        office_worker: None,
                        python_worker: None,
                        started_at_ms: now_ms,
                        finished_at_ms: None,
                        status: PersistedRunStatus::Running,
                    },
                ),
                ..self
            },
            BeginRunOutcomeView::Started(
                ActiveRunView {
                    scan_run_id,
                    attempt_number: number,
                    owner_id: request.owner_id,
                    request_id: request.request_id,
                },
            ),
        )
    }

    /// The ledger with a new run.
    pub open spec fn with_new_run(self, request: BeginRequest, now_ms: i64) -> RunLedgerView {
        RunLedgerView {
            runs: self.runs.push(
                RunRowView {
                    scan_run_id: self.next_run_id,
                    request_id: request.request_id,
                    canonical_request_json: request.canonical.json,
                    request_hash: request.canonical.hash,
                    owner_id: request.owner_id,
                    status: PersistedRunStatus::Running,
                    created_at_ms: now_ms,
                    started_at_ms: now_ms,
                    updated_at_ms: now_ms,
                    finished_at_ms: None,
                    final_envelope_metadata_json: None,
                    audit_size_bytes: None,
                },
            ),
            next_run_id: (self.next_run_id + 1) as i64,
            ..self
        }
    }

    /// The ledger with an abandoned run under way again.
    pub open spec fn with_restarted(
        self,
        at: int,
        request: BeginRequest,
        now_ms: i64,
    ) -> RunLedgerView {
        RunLedgerView {
            runs: self.runs.update(
                at,
                RunRowView {
                    owner_id: request.owner_id,
                    status: PersistedRunStatus::Running,
                    started_at_ms: now_ms,
                    updated_at_ms: now_ms,
                    finished_at_ms: None,
                    ..self.runs[at]
                },
            ),
            ..self
        }
    }

    /// How the ledger answers a request to run.
    pub open spec fn begun(self, request: BeginRequest) -> Result<
        (RunLedgerView, BeginRunOutcomeView),
        StoreErrorView,
    > {
        let now_ms = request.now_ms as i64;
        let found = run_of_request(self.runs, request.request_id, 0);
        if request.fault() is Some {
            Err(request.fault()->0)
        } else if found is Some && hash_fault(self.runs[found->0], request.canonical) is Some {
            Err(hash_fault(self.runs[found->0], request.canonical)->0)
        } else if found is Some && self.runs[found->0].status.terminal() {
            Ok((self, BeginRunOutcomeView::Stored(self.runs[found->0].scan_run_id)))
        } else if self.lease is Some && lease_live(self.lease->0, now_ms) {
            if found is Some && self.runs[found->0].status == PersistedRunStatus::Running {
                Err(StoreErrorView::RequestInProgress)
            } else {
                Err(StoreErrorView::ScanAlreadyRunning)
            }
        } else if self.lease is None && found is Some && self.runs[found->0].status
            == PersistedRunStatus::Running {
            Err(StoreErrorView::RunCorrupt("running row has no engine lease"@))
        } else {
            match expiry_of(now_ms) {
                Err(fault) => Err(fault),
                Ok(expiry) => {
                    let free = self.reclaimed(now_ms);
                    let held = free.leased(request, now_ms, expiry);
                    match found {
                        None => Ok(
                            held.with_new_run(request, now_ms).attempted(
                                request,
                                self.next_run_id,
                                now_ms,
                            ),
                        ),
                        Some(at) => if free.runs[at].status != PersistedRunStatus::Abandoned {
                            Err(
                                StoreErrorView::RunCorrupt(
                                    "abandoned run could not be reactivated"@,
                                ),
                            )
                        } else {
                            Ok(
                                held.with_restarted(at, request, now_ms).attempted(
                                    request,
                                    self.runs[at].scan_run_id,
                                    now_ms,
                                ),
                            )
                        },
                    }
                },
            }
        }
    }

    /// The run is under way for its owner, who holds the lease.
    pub open spec fn owned(self, active: ActiveRunView) -> bool {
        owned_run(self.runs, active, 0) is Some && self.lease is Some && self.lease->0.owner_id
            == active.owner_id
    }

    /// The ledger after a sign of life of the run at the given time. A lease that
    /// has run out is not revived.
    pub open spec fn alive(self, active: ActiveRunView, now_ms: i64) -> Result<
        RunLedgerView,
        StoreErrorView,
    > {
        if !self.owned(active) {
            Err(StoreErrorView::LeaseLost)
        } else {
            match expiry_of(now_ms) {
                Err(fault) => Err(fault),
                Ok(expiry) => if !lease_live(self.lease->0, now_ms) {
                    Err(StoreErrorView::LeaseLost)
                } else {
                    let at = owned_run(self.runs, active, 0)->0;
                    Ok(
                        RunLedgerView {
                            lease: Some(
                                LeaseRowView {
                                    heartbeat_at_ms: now_ms,
                                    expires_at_ms: expiry,
                                    ..self.lease->0
                                },
                            ),
                            runs: self.runs.update(
                                at,
                                RunRowView { updated_at_ms: now_ms, ..self.runs[at] },
                            ),
                            ..self
                        },
                    )
                },
            }
        }
    }

    /// The ledger after the workers of the run were made known.
    pub open spec fn introduced(
        self,
        active: ActiveRunView,
        office: Option<WorkerFingerprintView>,
        python: Option<WorkerFingerprintView>,
        now_ms: u64,
    ) -> Result<RunLedgerView, StoreErrorView> {
        if (office is Some && !office->0.complete()) || (python is Some && !python->0.complete()) {
            Err(StoreErrorView::InvalidRequest("worker fingerprint is incomplete"@))
        } else if now_ms > i64::MAX {
            Err(too_large("worker fingerprint timestamp"@))
        } else if !self.owned(active) {
            Err(StoreErrorView::LeaseLost)
        } else {
            match owned_attempt(self.attempts, active, 0) {
                None => Err(StoreErrorView::LeaseLost),
                Some(at) => RunLedgerView {
                    attempts: self.attempts.update(
                        at,
                        AttemptRowView {
                            office_worker: office,
                            python_worker: python,
                            ..self.attempts[at]
                        },
                    ),
                    ..self
                }.alive(active, now_ms as i64),
            }
        }
    }

    /// The ledger after the run ended: its answer is stored, its attempt is closed
    /// and its lease is given back.
    pub open spec fn ended(
        self,
        active: ActiveRunView,
        status: PersistedRunStatus,
        engine: Option<EngineFingerprintView>,
        envelope: ContextEnvelopeView,
        workers_required: bool,
        metadata_json: Seq<char>,
        audit_size: i64,
        now_ms: i64,
    ) -> Result<RunLedgerView, StoreErrorView> {
        match self.alive(active, now_ms) {
            Err(fault) => Err(fault),
            Ok(beat) => match owned_attempt(beat.attempts, active, 0) {
                None => Err(StoreErrorView::LeaseLost),
                Some(at) => {
                    let run = owned_run(beat.runs, active, 0)->0;
                    if engine is None {
                        Err(StoreErrorView::RunCorrupt("attempt engine fingerprint is invalid"@))
                    } else if !same_engine(engine->0, envelope) {
                        Err(
                            StoreErrorView::RunCorrupt(
                                "final envelope engine identity changed during the run"@,
                            ),
                        )
                    } else if workers_required && (beat.attempts[at].office_worker is None
                        || beat.attempts[at].python_worker is None) {
                        Err(
                            StoreErrorView::RunCorrupt(
                                "terminal attempt is missing required worker handshakes"@,
                            ),
                        )
                    } else {
                        Ok(
                            RunLedgerView {
                                runs: beat.runs.update(
                                    run,
                                    RunRowView {
                                        status,
                                        updated_at_ms: now_ms,
                                        finished_at_ms: Some(now_ms),
                                        final_envelope_metadata_json: Some(metadata_json),
                                        audit_size_bytes: Some(audit_size),
                                        ..beat.runs[run]
                                    },
                                ),
                                attempts: beat.attempts.update(
                                    at,
                                    AttemptRowView {
                                        status,
                                        finished_at_ms: Some(now_ms),
                                        ..beat.attempts[at]
                                    },
                                ),
                                lease: None,
                                ..beat
                            },
                        )
                    }
                },
            },
        }
    }

    /// How the ledger answers a command that wants the database for itself, and what it
    /// is afterwards. A lease that has run out is taken back even where no new one can
    /// be given.
    pub open spec fn seized(self, owner_id: Seq<char>, owner_pid: i64, now_ms: i64) -> (
        RunLedgerView,
        Result<(), StoreErrorView>,
    ) {
        if self.lease is Some && lease_live(self.lease->0, now_ms) {
            (self, Err(StoreErrorView::ScanAlreadyRunning))
        } else {
            let free = self.reclaimed(now_ms);
            match expiry_of(now_ms) {
                Err(fault) => (free, Err(fault)),
                Ok(expiry) => (
                    RunLedgerView {
                        lease: Some(
                            LeaseRowView {
                                owner_id,
                                owner_pid,
                                acquired_at_ms: now_ms,
                                heartbeat_at_ms: now_ms,
                                expires_at_ms: expiry,
                            },
                        ),
                        ..free
                    },
                    Ok(()),
                ),
            }
        }
    }

    /// The ledger with every run that is still under way given up.
    pub open spec fn expired(self, now_ms: i64) -> RunLedgerView {
        RunLedgerView {
            runs: self.runs.map_values(
                |run: RunRowView|
                    if run.status == PersistedRunStatus::Running {
                        RunRowView {
                            status: PersistedRunStatus::Abandoned,
                            updated_at_ms: now_ms,
                            finished_at_ms: Some(now_ms),
                            ..run
                        }
                    } else {
                        run
                    },
            ),
            ..self
        }
    }

    /// New runs and new attempts can still be numbered.
    pub open spec fn can_number(self) -> bool {
        &&& self.next_run_id < i64::MAX
        &&& forall|i: int|
            0 <= i < self.attempts.len() ==> (#[trigger] self.attempts[i]).attempt_number
                < i64::MAX
    }

    /// Runs are told apart by their identities and their requests, and at most one
    /// of them is under way: that of the holder of the lease.
    pub open spec fn sound(self) -> bool {
        &&& forall|i: int, j: int|
            0 <= i < j < self.runs.len() ==> (#[trigger] self.runs[i]).scan_run_id != (
            #[trigger] self.runs[j]).scan_run_id && self.runs[i].request_id
                != self.runs[j].request_id
        &&& forall|i: int|
            0 <= i < self.runs.len() ==> (#[trigger] self.runs[i]).scan_run_id < self.next_run_id
        &&& forall|i: int|
            0 <= i < self.runs.len() && (#[trigger] self.runs[i]).status
                == PersistedRunStatus::Running ==> self.lease is Some && self.lease->0.owner_id
                == self.runs[i].owner_id
        &&& forall|i: int, j: int|
            0 <= i < j < self.runs.len() && (#[trigger] self.runs[i]).status
                == PersistedRunStatus::Running ==> (#[trigger] self.runs[j]).status
                != PersistedRunStatus::Running
    }
}

/// The engine that answers is the one that the attempt began with.
pub open spec fn same_engine(engine: EngineFingerprintView, envelope: ContextEnvelopeView) -> bool {
    &&& engine.contract == envelope.contract
    &&& engine.protocol_version == envelope.protocol_version
    &&& engine.engine_version == envelope.engine_version
    &&& engine.engine_build == envelope.engine_build
}

proof fn lemma_run_found(runs: Seq<RunRowView>, request_id: Seq<char>, from: int)
    requires
        0 <= from,
    ensures
        match run_of_request(runs, request_id, from) {
            Some(at) => from <= at < runs.len() && runs[at].request_id == request_id,
            None => forall|i: int|
                from <= i < runs.len() ==> (#[trigger] runs[i]).request_id != request_id,
        },
    decreases runs.len() - from,
{
    if from < runs.len() {
        lemma_run_found(runs, request_id, from + 1);
    }
}

proof fn lemma_owned_found(runs: Seq<RunRowView>, active: ActiveRunView, from: int)
    requires
        0 <= from,
    ensures
        owned_run(runs, active, from) matches Some(at) ==> from <= at < runs.len()
            && runs[at].scan_run_id == active.scan_run_id && runs[at].owner_id == active.owner_id
            && runs[at].status == PersistedRunStatus::Running,
    decreases runs.len() - from,
{
    if from < runs.len() {
        lemma_owned_found(runs, active, from + 1);
    }
}

proof fn lemma_attempt_found(attempts: Seq<AttemptRowView>, active: ActiveRunView, from: int)
    requires
        0 <= from,
    ensures
        owned_attempt(attempts, active, from) matches Some(at) ==> from <= at < attempts.len(),
    decreases attempts.len() - from,
{
    if from < attempts.len() {
        lemma_attempt_found(attempts, active, from + 1);
    }
}

proof fn lemma_last_attempt_bound(
    attempts: Seq<AttemptRowView>,
    scan_run_id: i64,
    count: nat,
    limit: int,
)
    requires
        count <= attempts.len(),
        0 <= limit,
        forall|i: int|
            0 <= i < attempts.len() ==> (#[trigger] attempts[i]).attempt_number <= limit,
    ensures
        0 <= last_attempt(attempts, scan_run_id, count) <= limit,
    decreases count,
{
    if count > 0 {
        lemma_last_attempt_bound(attempts, scan_run_id, (count - 1) as nat, limit);
    }
}

impl RunLedger {
    fn find_request(&self, request_id: &str) -> (found: Option<usize>)
        ensures
            match found {
                Some(at) => run_of_request(self@.runs, request_id@, 0) == Some(at as int) && at
                    < self.runs@.len(),
                None => run_of_request(self@.runs, request_id@, 0) is None,
            },
    {
        let ghost rows = self@.runs;
        let mut i: usize = 0;
        while i < self.runs.len()
            invariant
                i <= self.runs.len(),
                rows == self@.runs,
                run_of_request(rows, request_id@, 0) == run_of_request(rows, request_id@, i as int),
            decreases self.runs.len() - i,
        {
            assert(rows[i as int] == self.runs@[i as int]@);
            if text_eq(self.runs[i].request_id.as_str(), request_id) {
                return Some(i);
            }
            i = i + 1;
        }
        None
    }

    fn find_owned_run(&self, active: &ActiveRun) -> (found: Option<usize>)
        ensures
            match found {
                Some(at) => owned_run(self@.runs, active@, 0) == Some(at as int) && at
                    < self.runs@.len(),
                None => owned_run(self@.runs, active@, 0) is None,
            },
    {
        let ghost rows = self@.runs;
        let mut i: usize = 0;
        while i < self.runs.len()
            invariant
                i <= self.runs.len(),
                rows == self@.runs,
                owned_run(rows, active@, 0) == owned_run(rows, active@, i as int),
            decreases self.runs.len() - i,
        {
            let row: &RunRow = &self.runs[i];
            assert(rows[i as int] == row@);
            if row.scan_run_id == active.scan_run_id && text_eq(
                row.owner_id.as_str(),
                active.owner_id.as_str(),
            ) && row.status == PersistedRunStatus::Running {
                return Some(i);
            }
            i = i + 1;
        }
        None
    }

    fn find_owned_attempt(&self, active: &ActiveRun) -> (found: Option<usize>)
        ensures
            match found {
                Some(at) => owned_attempt(self@.attempts, active@, 0) == Some(at as int) && at
                    < self.attempts@.len(),
                None => owned_attempt(self@.attempts, active@, 0) is None,
            },
    {
        let ghost rows = self@.attempts;
        let mut i: usize = 0;
        while i < self.attempts.len()
            invariant
                i <= self.attempts.len(),
                rows == self@.attempts,
                owned_attempt(rows, active@, 0) == owned_attempt(rows, active@, i as int),
            decreases self.attempts.len() - i,
        {
            let row: &AttemptRow = &self.attempts[i];
            assert(rows[i as int] == row@);
            if row.scan_run_id == active.scan_run_id && row.attempt_number
                == active.attempt_number && text_eq(
                row.owner_id.as_str(),
                active.owner_id.as_str(),
            ) && row.status == PersistedRunStatus::Running {
                return Some(i);
            }
            i = i + 1;
        }
        None
    }

    fn set_run(&mut self, at: usize, row: RunRow)
        requires
            at < old(self).runs@.len(),
        ensures
            final(self)@ == (RunLedgerView {
                runs: old(self)@.runs.update(at as int, row@),
                ..old(self)@
            }),
            final(self).runs@.len() == old(self).runs@.len(),
            final(self).attempts == old(self).attempts,
    {
        let ghost before = self.runs@;
        self.runs.set(at, row);
        assert(views(before.update(at as int, row)) =~= views(before).update(at as int, row@));
    }

    fn set_attempt(&mut self, at: usize, row: AttemptRow)
        requires
            at < old(self).attempts@.len(),
        ensures
            final(self)@ == (RunLedgerView {
                attempts: old(self)@.attempts.update(at as int, row@),
                ..old(self)@
            }),
            final(self).attempts@.len() == old(self).attempts@.len(),
            final(self).runs == old(self).runs,
    {
        let ghost before = self.attempts@;
        self.attempts.set(at, row);
        assert(views(before.update(at as int, row)) =~= views(before).update(at as int, row@));
    }

    fn give_up_runs(&mut self, owner_id: &str, now_ms: i64)
        ensures
            final(self)@ == (RunLedgerView {
                runs: old(self)@.runs.map_values(
                    |run: RunRowView| given_up(run, owner_id@, now_ms),
                ),
                ..old(self)@
            }),
            final(self).runs@.len() == old(self).runs@.len(),
    {
        let ghost start = self@;
        let ghost wanted = start.runs.map_values(
            |run: RunRowView| given_up(run, owner_id@, now_ms),
        );
        let count: usize = self.runs.len();
        let mut i: usize = 0;
        assert(start.runs =~= wanted.take(0) + start.runs.skip(0));
        while i < count
            invariant
                i <= count,
                count == self.runs.len(),
                count == start.runs.len(),
                wanted == start.runs.map_values(
                    |run: RunRowView| given_up(run, owner_id@, now_ms),
                ),
                self@.runs == wanted.take(i as int) + start.runs.skip(i as int),
                self@ == (RunLedgerView { runs: self@.runs, ..start }),
            decreases count - i,
        {
            assert(self@.runs[i as int] == start.runs[i as int]);
            assert(self@.runs[i as int] == self.runs@[i as int]@);
            assert(wanted[i as int] == given_up(start.runs[i as int], owner_id@, now_ms));
            let ghost before = self@.runs;
            if text_eq(self.runs[i].owner_id.as_str(), owner_id) && self.runs[i].status
                == PersistedRunStatus::Running {
                let mut row: RunRow = self.runs[i].clone();
                row.status = PersistedRunStatus::Abandoned;
                row.updated_at_ms = now_ms;
                row.finished_at_ms = Some(now_ms);
                self.set_run(i, row);
                assert(self@.runs == before.update(i as int, wanted[i as int]));
            } else {
                assert(before =~= before.update(i as int, wanted[i as int]));
            }
            assert(before.update(i as int, wanted[i as int]) =~= wanted.take(i + 1)
                + start.runs.skip(i + 1));
            i = i + 1;
        }
        assert(wanted.take(count as int) + start.runs.skip(count as int) =~= wanted);
    }

    fn give_up_attempts(&mut self, owner_id: &str, now_ms: i64)
        ensures
            final(self)@ == (RunLedgerView {
                attempts: old(self)@.attempts.map_values(
                    |attempt: AttemptRowView| attempt_given_up(attempt, owner_id@, now_ms),
                ),
                ..old(self)@
            }),
            final(self).runs == old(self).runs,
    {
        let ghost start = self@;
        let ghost rows = self.runs;
        let ghost wanted = start.attempts.map_values(
            |attempt: AttemptRowView| attempt_given_up(attempt, owner_id@, now_ms),
        );
        let count: usize = self.attempts.len();
        let mut i: usize = 0;
        assert(start.attempts =~= wanted.take(0) + start.attempts.skip(0));
        while i < count
            invariant
                i <= count,
                count == self.attempts.len(),
                count == start.attempts.len(),
                rows == self.runs,
                wanted == start.attempts.map_values(
                    |attempt: AttemptRowView| attempt_given_up(attempt, owner_id@, now_ms),
                ),
                self@.attempts == wanted.take(i as int) + start.attempts.skip(i as int),
                self@ == (RunLedgerView { attempts: self@.attempts, ..start }),
            decreases count - i,
        {
            assert(self@.attempts[i as int] == start.attempts[i as int]);
            assert(self@.attempts[i as int] == self.attempts@[i as int]@);
            assert(wanted[i as int] == attempt_given_up(
                start.attempts[i as int],
                owner_id@,
                now_ms,
            ));
            let ghost before = self@.attempts;
            if text_eq(self.attempts[i].owner_id.as_str(), owner_id) && self.attempts[i].status
                == PersistedRunStatus::Running {
                let mut row: AttemptRow = self.attempts[i].clone();
                row.status = PersistedRunStatus::Abandoned;
                row.finished_at_ms = Some(now_ms);
                self.set_attempt(i, row);
                assert(self@.attempts == before.update(i as int, wanted[i as int]));
            } else {
                assert(before =~= before.update(i as int, wanted[i as int]));
            }
            assert(before.update(i as int, wanted[i as int]) =~= wanted.take(i + 1)
                + start.attempts.skip(i + 1));
            i = i + 1;
        }
        assert(wanted.take(count as int) + start.attempts.skip(count as int) =~= wanted);
    }

    fn reclaim(&mut self, now_ms: i64)
        ensures
            final(self)@ == old(self)@.reclaimed(now_ms),
            final(self).runs@.len() == old(self).runs@.len(),
    {
        let owner: String = match &self.lease {
            None => {
                return;
            },
            Some(lease) => lease.owner_id.clone(),
        };
        self.give_up_runs(owner.as_str(), now_ms);
        self.give_up_attempts(owner.as_str(), now_ms);
        self.lease = None;
    }

    /// Answers a request to run: with the stored answer of a run that has ended,
    /// or with a run that holds the lease. An abandoned run of the same request is
    /// taken up again. Nothing changes where it fails.
    pub fn begin_run(
        &mut self,
        request_id: &str,
        canonical: &CanonicalRequest,
        runtime: &AttemptRuntime,
        store_path: &str,
        owner_id: &str,
        owner_pid: i64,
        now_ms: u64,
    ) -> (outcome: Result<BeginRunOutcome, StoreError>)
        requires
            old(self)@.can_number(),
        ensures
            ({
                let request = BeginRequest {
                    request_id: request_id@,
                    canonical: canonical@,
                    runtime: runtime@,
                    store_path: store_path@,
                    owner_id: owner_id@,
                    owner_pid,
                    now_ms,
                };
                match outcome {
                    Ok(begun) => old(self)@.begun(request) == Ok::<
                        (RunLedgerView, BeginRunOutcomeView),
                        StoreErrorView,
                    >((final(self)@, begun@)),
                    Err(error) => old(self)@.begun(request) == Err::<
                        (RunLedgerView, BeginRunOutcomeView),
                        StoreErrorView,
                    >(error@) && final(self)@ == old(self)@,
                }
            }),
    {
        let ghost request = BeginRequest {
            request_id: request_id@,
            canonical: canonical@,
            runtime: runtime@,
            store_path: store_path@,
            owner_id: owner_id@,
            owner_pid,
            now_ms,
        };
        let ghost start = self@;
        if let Err(error) = runtime.validate() {
            return Err(error);
        }
        let now: i64 = match checked_i64(now_ms, "run timestamp") {
            Ok(now) => now,
            Err(error) => {
                return Err(error);
            },
        };
        if !canonical.is_sound(request_id) {
            return Err(StoreError::invalid("canonical request fingerprint is invalid"));
        }
        if !text_eq(store_path, runtime.normalized_scan_db_path.as_str()) {
            return Err(
                StoreError::invalid("attempt scan database path does not match the opened store"),
            );
        }
        assert(request.fault() is None);
        let found: Option<usize> = self.find_request(request_id);
        let mut running: bool = false;
        if let Some(at) = found {
            assert(self@.runs[at as int] == self.runs@[at as int]@);
            if let Err(error) = ensure_request_hash(&self.runs[at], canonical) {
                return Err(error);
            }
            if self.runs[at].status.is_terminal() {
                return Ok(BeginRunOutcome::Stored(self.runs[at].scan_run_id));
            }
            running = self.runs[at].status == PersistedRunStatus::Running;
        }
        match &self.lease {
            Some(lease) => {
                if lease_is_live(lease, now) {
                    if running {
                        return Err(StoreError::RequestInProgress);
                    }
                    return Err(StoreError::ScanAlreadyRunning);
                }
                if let Some(at) = found {
                    if running && !text_eq(
                        self.runs[at].owner_id.as_str(),
                        lease.owner_id.as_str(),
                    ) {
                        if let Err(error) = lease_expiry(now) {
                            return Err(error);
                        }
                        return Err(StoreError::corrupt("abandoned run could not be reactivated"));
                    }
                }
            },
            None => {
                if running {
                    return Err(StoreError::corrupt("running row has no engine lease"));
                }
            },
        }
        let expiry: i64 = match lease_expiry(now) {
            Ok(expiry) => expiry,
            Err(error) => {
                return Err(error);
            },
        };
        let ghost free = start.reclaimed(now);
        self.reclaim(now);
        self.lease = Some(
            LeaseRow {
                owner_id: owner_id.to_string(),
                owner_pid,
                acquired_at_ms: now,
                heartbeat_at_ms: now,
                expires_at_ms: expiry,
            },
        );
        let ghost held = free.leased(request, now, expiry);
        assert(self@ =~= held);
        let scan_run_id: i64 = match found {
            Some(at) => {
                assert(self@.runs[at as int] == self.runs@[at as int]@);
                let mut row: RunRow = self.runs[at].clone();
                row.owner_id = owner_id.to_string();
                row.status = PersistedRunStatus::Running;
                row.started_at_ms = now;
                row.updated_at_ms = now;
                row.finished_at_ms = None;
                let id: i64 = row.scan_run_id;
                self.set_run(at, row);
                assert(self@ =~= held.with_restarted(at as int, request, now));
                id
            },
            None => {
                let ghost before = self.runs@;
                let row = RunRow {
                    scan_run_id: self.next_run_id,
                    request_id: request_id.to_string(),
                    canonical_request_json: canonical.json().to_string(),
                    request_hash: canonical.hash().to_string(),
                    owner_id: owner_id.to_string(),
                    status: PersistedRunStatus::Running,
                    created_at_ms: now,
                    started_at_ms: now,
                    updated_at_ms: now,
                    finished_at_ms: None,
                    final_envelope_metadata_json: None,
                    audit_size_bytes: None,
                };
                let id: i64 = self.next_run_id;
                self.runs.push(row);
                self.next_run_id = id + 1;
                assert(views(before.push(row)) =~= views(before).push(row@));
                assert(self@ =~= held.with_new_run(request, now));
                id
            },
        };
        let ghost placed = self@;
        proof {
            assert(placed.attempts == free.attempts);
            assert forall|i: int| 0 <= i < placed.attempts.len() implies (
            #[trigger] placed.attempts[i]).attempt_number < i64::MAX by {
                assert(placed.attempts[i].attempt_number == start.attempts[i].attempt_number);
            }
        }
        let number: i64 = self.number_attempt(scan_run_id);
        let ghost before = self.attempts@;
        let row = AttemptRow {
            scan_run_id,
            attempt_number: number,
            owner_id: owner_id.to_string(),
            runtime: runtime.clone(),
            office_worker: None,
            python_worker: None,
            started_at_ms: now,
            finished_at_ms: None,
            status: PersistedRunStatus::Running,
        };
        self.attempts.push(row);
        assert(views(before.push(row)) =~= views(before).push(row@));
        let active = ActiveRun {
            scan_run_id,
            attempt_number: number,
            owner_id: owner_id.to_string(),
            request_id: request_id.to_string(),
        };
        assert(self@ =~= placed.attempted(request, scan_run_id, now).0);
        Ok(BeginRunOutcome::Started(active))
    }

    fn number_attempt(&self, scan_run_id: i64) -> (number: i64)
        requires
            forall|i: int|
                0 <= i < self@.attempts.len() ==> (
                #[trigger] self@.attempts[i]).attempt_number < i64::MAX,
        ensures
            number == last_attempt(self@.attempts, scan_run_id, self@.attempts.len()) + 1,
    {
        let ghost rows = self@.attempts;
        let mut last: i64 = 0;
        let mut i: usize = 0;
        while i < self.attempts.len()
            invariant
                i <= self.attempts.len(),
                rows == self@.attempts,
                last == last_attempt(rows, scan_run_id, i as nat),
            decreases self.attempts.len() - i,
        {
            assert(rows[i as int] == self.attempts@[i as int]@);
            if self.attempts[i].scan_run_id == scan_run_id && self.attempts[i].attempt_number
                > last {
                last = self.attempts[i].attempt_number;
            }
            i = i + 1;
        }
        proof {
            lemma_last_attempt_bound(rows, scan_run_id, rows.len(), i64::MAX - 1);
        }
        last + 1
    }

    fn check_alive(&self, active: &ActiveRun, now_ms: i64) -> (verdict: Result<
        (usize, i64),
        StoreError,
    >)
        ensures
            match verdict {
                Ok((run, expiry)) => self@.owned(active@) && lease_live(self@.lease->0, now_ms)
                    && expiry_of(now_ms) == Ok::<i64, StoreErrorView>(expiry) && owned_run(
                    self@.runs,
                    active@,
                    0,
                ) == Some(run as int) && run < self.runs@.len(),
                Err(error) => self@.alive(active@, now_ms) == Err::<RunLedgerView, StoreErrorView>(
                    error@,
                ),
            },
    {
        let run: usize = match self.find_owned_run(active) {
            Some(run) => run,
            None => {
                return Err(StoreError::LeaseLost);
            },
        };
        match &self.lease {
            None => Err(StoreError::LeaseLost),
            Some(lease) => {
                if !text_eq(lease.owner_id.as_str(), active.owner_id.as_str()) {
                    return Err(StoreError::LeaseLost);
                }
                match lease_expiry(now_ms) {
                    Err(error) => Err(error),
                    Ok(expiry) => {
                        if !lease_is_live(lease, now_ms) {
                            Err(StoreError::LeaseLost)
                        } else {
                            Ok((run, expiry))
                        }
                    },
                }
            },
        }
    }

    fn renew(&mut self, run: usize, expiry: i64, now_ms: i64)
        requires
            run < old(self).runs@.len(),
            old(self).lease is Some,
        ensures
            final(self)@ == (RunLedgerView {
                lease: Some(
                    LeaseRowView {
                        heartbeat_at_ms: now_ms,
                        expires_at_ms: expiry,
                        ..old(self)@.lease->0
                    },
                ),
                runs: old(self)@.runs.update(
                    run as int,
                    RunRowView { updated_at_ms: now_ms, ..old(self)@.runs[run as int] },
                ),
                ..old(self)@
            }),
            final(self).runs@.len() == old(self).runs@.len(),
            final(self).attempts == old(self).attempts,
    {
        let mut row: RunRow = self.runs[run].clone();
        row.updated_at_ms = now_ms;
        assert(self@.runs[run as int] == self.runs@[run as int]@);
        self.set_run(run, row);
        let lease: Option<LeaseRow> = match &self.lease {
            None => None,
            Some(lease) => Some(
                LeaseRow {
                    owner_id: lease.owner_id.clone(),
                    owner_pid: lease.owner_pid,
                    acquired_at_ms: lease.acquired_at_ms,
                    heartbeat_at_ms: now_ms,
                    expires_at_ms: expiry,
                },
            ),
        };
        self.lease = lease;
    }

    /// Gives a sign of life of the run. A lease that has run out is not revived.
    pub fn heartbeat(&mut self, active: &ActiveRun, now_ms: u64) -> (verdict: Result<
        (),
        StoreError,
    >)
        ensures
            ({
                let wanted = if now_ms > i64::MAX {
                    Err(too_large("heartbeat timestamp"@))
                } else {
                    old(self)@.alive(active@, now_ms as i64)
                };
                match verdict {
                    Ok(_) => wanted == Ok::<RunLedgerView, StoreErrorView>(final(self)@),
                    Err(error) => final(self)@ == old(self)@ && wanted == Err::<
                        RunLedgerView,
                        StoreErrorView,
                    >(error@),
                }
            }),
    {
        let now: i64 = match checked_i64(now_ms, "heartbeat timestamp") {
            Ok(now) => now,
            Err(error) => {
                return Err(error);
            },
        };
        match self.check_alive(active, now) {
            Err(error) => Err(error),
            Ok((run, expiry)) => {
                self.renew(run, expiry, now);
                Ok(())
            },
        }
    }

    /// Records who the workers of the run are.
    pub fn record_worker_fingerprints(
        &mut self,
        active: &ActiveRun,
        office: Option<&WorkerFingerprint>,
        python: Option<&WorkerFingerprint>,
        now_ms: u64,
    ) -> (verdict: Result<(), StoreError>)
        ensures
            ({
                let wanted = old(self)@.introduced(
                    active@,
                    opt_view(office),
                    opt_view(python),
                    now_ms,
                );
                match verdict {
                    Ok(_) => wanted == Ok::<RunLedgerView, StoreErrorView>(final(self)@),
                    Err(error) => final(self)@ == old(self)@ && wanted == Err::<
                        RunLedgerView,
                        StoreErrorView,
                    >(error@),
                }
            }),
    {
        if let Some(fingerprint) = office {
            if let Err(error) = fingerprint.validate() {
                return Err(error);
            }
        }
        if let Some(fingerprint) = python {
            if let Err(error) = fingerprint.validate() {
                return Err(error);
            }
        }
        let now: i64 = match checked_i64(now_ms, "worker fingerprint timestamp") {
            Ok(now) => now,
            Err(error) => {
                return Err(error);
            },
        };
        let at: usize = match self.find_owned_attempt(active) {
            Some(at) => at,
            None => {
                return Err(StoreError::LeaseLost);
            },
        };
        assert(self@.attempts[at as int] == self.attempts@[at as int]@);
        let mut row: AttemptRow = self.attempts[at].clone();
        row.office_worker = match office {
            Some(fingerprint) => Some(fingerprint.clone()),
            None => None,
        };
        row.python_worker = match python {
            Some(fingerprint) => Some(fingerprint.clone()),
            None => None,
        };
        match self.check_alive(active, now) {
            Err(error) => Err(error),
            Ok((run, expiry)) => {
                self.set_attempt(at, row);
                self.renew(run, expiry, now);
                Ok(())
            },
        }
    }

    /// Ends the run with the given status: stores its answer, closes its attempt
    /// and gives the lease back. `engine` is what the attempt recorded of its
    /// engine, where that can be read.
    pub fn finish_run(
        &mut self,
        active: &ActiveRun,
        status: PersistedRunStatus,
        engine: Option<&EngineFingerprint>,
        envelope: &ContextEnvelope,
        workers_required: bool,
        metadata_json: &str,
        audit_size: i64,
        now_ms: i64,
    ) -> (verdict: Result<(), StoreError>)
        ensures
            ({
                let wanted = old(self)@.ended(
                    active@,
                    status,
                    opt_view(engine),
                    envelope@,
                    workers_required,
                    metadata_json@,
                    audit_size,
                    now_ms,
                );
                match verdict {
                    Ok(_) => wanted == Ok::<RunLedgerView, StoreErrorView>(final(self)@),
                    Err(error) => final(self)@ == old(self)@ && wanted == Err::<
                        RunLedgerView,
                        StoreErrorView,
                    >(error@),
                }
            }),
    {
        let ghost start = self@;
        let (run, expiry): (usize, i64) = match self.check_alive(active, now_ms) {
            Ok(found) => found,
            Err(error) => {
                return Err(error);
            },
        };
        let ghost beat = start.alive(active@, now_ms)->Ok_0;
        proof {
            lemma_owned_found(start.runs, active@, 0);
            lemma_touch_keeps_owner(start.runs, active@, run as int, beat.runs[run as int], 0);
        }
        let at: usize = match self.find_owned_attempt(active) {
            Some(at) => at,
            None => {
                return Err(StoreError::LeaseLost);
            },
        };
        assert(start.attempts[at as int] == self.attempts@[at as int]@);
        match engine {
            None => {
                return Err(StoreError::corrupt("attempt engine fingerprint is invalid"));
            },
            Some(known) => {
                if !text_eq(known.contract.as_str(), envelope.contract.as_str())
                    || known.protocol_version != envelope.protocol_version || !text_eq(
                    known.engine_version.as_str(),
                    envelope.engine_version.as_str(),
                ) || !text_eq(known.engine_build.as_str(), envelope.engine_build.as_str()) {
                    return Err(
                        StoreError::corrupt("final envelope engine identity changed during the run"),
                    );
                }
            },
        }
        if workers_required && (self.attempts[at].office_worker.is_none()
            || self.attempts[at].python_worker.is_none()) {
            return Err(
                StoreError::corrupt("terminal attempt is missing required worker handshakes"),
            );
        }
        self.renew(run, expiry, now_ms);
        assert(self@ =~= beat);
        assert(beat.runs[run as int] == self.runs@[run as int]@);
        let mut row: RunRow = self.runs[run].clone();
        row.status = status;
        row.updated_at_ms = now_ms;
        row.finished_at_ms = Some(now_ms);
        row.final_envelope_metadata_json = Some(metadata_json.to_string());
        row.audit_size_bytes = Some(audit_size);
        let mut attempt: AttemptRow = self.attempts[at].clone();
        attempt.status = status;
        attempt.finished_at_ms = Some(now_ms);
        self.set_run(run, row);
        self.set_attempt(at, attempt);
        self.lease = None;
        Ok(())
    }

    /// Takes the lease for a command that wants the database for itself. The runs of
    /// an owner whose lease has run out are given up.
    pub fn acquire_upgrade_lease(&mut self, owner_id: &str, owner_pid: i64, now_ms: i64) -> (verdict:
        Result<(), StoreError>)
        ensures
            (final(self)@, outcome_view(verdict)) == old(self)@.seized(owner_id@, owner_pid, now_ms),
    {
        let live: bool = match &self.lease {
            Some(lease) => lease_is_live(lease, now_ms),
            None => false,
        };
        if live {
            return Err(StoreError::ScanAlreadyRunning);
        }
        self.reclaim(now_ms);
        match lease_expiry(now_ms) {
            Err(error) => Err(error),
            Ok(expiry) => {
                self.lease = Some(
                    LeaseRow {
                        owner_id: owner_id.to_string(),
                        owner_pid,
                        acquired_at_ms: now_ms,
                        heartbeat_at_ms: now_ms,
                        expires_at_ms: expiry,
                    },
                );
                Ok(())
            },
        }
    }

    /// Gives the lease back, whoever holds it.
    pub fn release_upgrade_lease(&mut self)
        ensures
            final(self)@ == (RunLedgerView { lease: None, ..old(self)@ }),
    {
        self.lease = None;
    }

    /// Gives up every run that is still under way. Whoever calls this holds the
    /// database alone.
    pub fn expire_stale_running_runs(&mut self, now_ms: i64)
        ensures
            final(self)@ == old(self)@.expired(now_ms),
    {
        let ghost start = self@;
        let ghost wanted = start.expired(now_ms).runs;
        let count: usize = self.runs.len();
        let mut i: usize = 0;
        assert(start.runs =~= wanted.take(0) + start.runs.skip(0));
        while i < count
            invariant
                i <= count,
                count == self.runs.len(),
                count == start.runs.len(),
                wanted == start.expired(now_ms).runs,
                self@.runs == wanted.take(i as int) + start.runs.skip(i as int),
                self@ == (RunLedgerView { runs: self@.runs, ..start }),
            decreases count - i,
        {
            assert(self@.runs[i as int] == start.runs[i as int]);
            assert(self@.runs[i as int] == self.runs@[i as int]@);
            let ghost before = self@.runs;
            if self.runs[i].status == PersistedRunStatus::Running {
                let mut row: RunRow = self.runs[i].clone();
                row.status = PersistedRunStatus::Abandoned;
                row.updated_at_ms = now_ms;
                row.finished_at_ms = Some(now_ms);
                self.set_run(i, row);
                assert(self@.runs == before.update(i as int, wanted[i as int]));
            } else {
                assert(before =~= before.update(i as int, wanted[i as int]));
            }
            assert(before.update(i as int, wanted[i as int]) =~= wanted.take(i + 1)
                + start.runs.skip(i + 1));
            i = i + 1;
        }
        assert(wanted.take(count as int) + start.runs.skip(count as int) =~= wanted);
    }
}

proof fn lemma_touch_keeps_owner(
    runs: Seq<RunRowView>,
    active: ActiveRunView,
    at: int,
    row: RunRowView,
    from: int,
)
    requires
        0 <= from <= at < runs.len(),
        owned_run(runs, active, from) == Some(at),
        row.scan_run_id == runs[at].scan_run_id,
        row.owner_id == runs[at].owner_id,
        row.status == runs[at].status,
    ensures
        owned_run(runs.update(at, row), active, from) == Some(at),
    decreases at - from,
{
    lemma_owned_found(runs, active, from);
    if from < at {
        if runs[from].scan_run_id == active.scan_run_id && runs[from].owner_id == active.owner_id
            && runs[from].status == PersistedRunStatus::Running {
            assert(owned_run(runs, active, from) == Some(from));
        } else {
            lemma_touch_keeps_owner(runs, active, at, row, from + 1);
        }
    }
}

/// Every operation keeps the ledger sound: runs stay told apart, and never is more
/// than one of them under way.
pub proof fn law_ledger_stays_sound(
    ledger: RunLedgerView,
    request: BeginRequest,
    active: ActiveRunView,
    office: Option<WorkerFingerprintView>,
    python: Option<WorkerFingerprintView>,
    status: PersistedRunStatus,
    engine: Option<EngineFingerprintView>,
    envelope: ContextEnvelopeView,
    workers_required: bool,
    metadata_json: Seq<char>,
    audit_size: i64,
    now_ms: i64,
)
    requires
        ledger.sound(),
        ledger.can_number(),
        status.terminal(),
    ensures
        ledger.begun(request) matches Ok((next, _)) ==> next.sound(),
        ledger.alive(active, now_ms) matches Ok(next) ==> next.sound(),
        ledger.introduced(active, office, python, request.now_ms) matches Ok(next)
            ==> next.sound(),
        ledger.ended(
            active,
            status,
            engine,
            envelope,
            workers_required,
            metadata_json,
            audit_size,
            now_ms,
        ) matches Ok(next) ==> next.sound() && next.lease is None,
        ledger.expired(now_ms).sound(),
{
    lemma_run_found(ledger.runs, request.request_id, 0);
    lemma_owned_found(ledger.runs, active, 0);
    if let Ok(beat) = ledger.alive(active, now_ms) {
        lemma_touch_keeps_owner(
            ledger.runs,
            active,
            owned_run(ledger.runs, active, 0)->0,
            beat.runs[owned_run(ledger.runs, active, 0)->0],
            0,
        );
        lemma_owned_found(beat.runs, active, 0);
    }
}

/// While one run holds the lease no other run begins: the request of the running
/// run is told that it is in progress, and any other unanswered request is told
/// that a run is under way.
pub proof fn law_one_run_at_a_time(ledger: RunLedgerView, request: BeginRequest)
    requires
        ledger.lease is Some,
        request.now_ms <= i64::MAX,
        lease_live(ledger.lease->0, request.now_ms as i64),
    ensures
        !(ledger.begun(request) matches Ok((_, BeginRunOutcomeView::Started(_)))),
        request.fault() is None && run_of_request(ledger.runs, request.request_id, 0) is None
            ==> ledger.begun(request) == Err::<
            (RunLedgerView, BeginRunOutcomeView),
            StoreErrorView,
        >(StoreErrorView::ScanAlreadyRunning),
        request.fault() is None && (run_of_request(ledger.runs, request.request_id, 0) matches Some(
            at,
        ) && hash_fault(ledger.runs[at], request.canonical) is None && ledger.runs[at].status
            == PersistedRunStatus::Running) ==> ledger.begun(request) == Err::<
            (RunLedgerView, BeginRunOutcomeView),
            StoreErrorView,
        >(StoreErrorView::RequestInProgress),
{
}

/// A command that wants the database for itself and a run keep each other out: it gets
/// the lease only where no run is under way afterwards, and while it holds the lease no
/// run begins; a run that holds the lease keeps it out and is left as it was.
pub proof fn law_commands_and_runs_keep_apart(
    ledger: RunLedgerView,
    owner_id: Seq<char>,
    owner_pid: i64,
    now_ms: i64,
    request: BeginRequest,
)
    requires
        ledger.sound(),
        request.now_ms <= i64::MAX,
    ensures
        ({
            let (next, verdict) = ledger.seized(owner_id, owner_pid, now_ms);
            &&& verdict is Ok ==> next.sound() && forall|i: int|
                0 <= i < next.runs.len() ==> (#[trigger] next.runs[i]).status
                    != PersistedRunStatus::Running
            &&& verdict is Ok && request.now_ms < now_ms + LEASE_GRACE ==> !(next.begun(
                request,
            ) matches Ok((_, BeginRunOutcomeView::Started(_))))
            &&& ledger.lease is Some && lease_live(ledger.lease->0, now_ms) ==> next == ledger
                && verdict == Err::<(), StoreErrorView>(StoreErrorView::ScanAlreadyRunning)
        }),
{
}

/// A run that has ended is never run again: the same request is answered by it and
/// changes nothing, and a request of other logical input under the same identity
/// is refused.
pub proof fn law_ended_runs_answer_for_good(ledger: RunLedgerView, request: BeginRequest, at: int)
    requires
        request.fault() is None,
        run_of_request(ledger.runs, request.request_id, 0) == Some(at),
        ledger.runs[at].status.terminal(),
        request_digest(ledger.runs[at].canonical_request_json) == ledger.runs[at].request_hash,
    ensures
        ledger.runs[at].canonical_request_json == request.canonical.json ==> ledger.begun(request)
            == Ok::<(RunLedgerView, BeginRunOutcomeView), StoreErrorView>(
            (ledger, BeginRunOutcomeView::Stored(ledger.runs[at].scan_run_id)),
        ),
        ledger.runs[at].canonical_request_json != request.canonical.json ==> ledger.begun(request)
            == Err::<(RunLedgerView, BeginRunOutcomeView), StoreErrorView>(
            StoreErrorView::RequestIdConflict,
        ),
{
}

impl RunLedgerView {
    /// The run is under way for its owner, for the request and for the logical input.
    pub open spec fn works_on(self, active: ActiveRunView, json: Seq<char>) -> bool {
        owned_run(self.runs, active, 0) matches Some(at) && self.runs[at].request_id
            == active.request_id && self.runs[at].canonical_request_json == json
            && self.runs[at].request_hash == request_digest(json)
    }
}

proof fn lemma_owned_at(runs: Seq<RunRowView>, active: ActiveRunView, from: int, at: int)
    requires
        0 <= from <= at < runs.len(),
        runs[at].scan_run_id == active.scan_run_id,
        runs[at].owner_id == active.owner_id,
        runs[at].status == PersistedRunStatus::Running,
        forall|i: int|
            from <= i < at ==> (#[trigger] runs[i]).scan_run_id != active.scan_run_id,
    ensures
        owned_run(runs, active, from) == Some(at),
    decreases at - from,
{
    if from < at {
        assert(runs[from].scan_run_id != active.scan_run_id);
        lemma_owned_at(runs, active, from + 1, at);
    }
}

/// A run that begins works on the request that it was begun for, and goes on to do so
/// through every sign of life and when its workers are made known.
pub proof fn law_runs_keep_their_request(
    ledger: RunLedgerView,
    request: BeginRequest,
    active: ActiveRunView,
    json: Seq<char>,
    office: Option<WorkerFingerprintView>,
    python: Option<WorkerFingerprintView>,
    now_ms: u64,
)
    requires
        ledger.sound(),
        ledger.can_number(),
    ensures
        ledger.begun(request) matches Ok((next, BeginRunOutcomeView::Started(begun)))
            ==> begun.request_id == request.request_id && next.works_on(
            begun,
            request.canonical.json,
        ),
        ledger.works_on(active, json) && now_ms <= i64::MAX ==> (ledger.alive(
            active,
            now_ms as i64,
        ) matches Ok(next) ==> next.works_on(active, json)),
        ledger.works_on(active, json) ==> (ledger.introduced(
            active,
            office,
            python,
            now_ms,
        ) matches Ok(next) ==> next.works_on(active, json)),
{
    lemma_run_found(ledger.runs, request.request_id, 0);
    lemma_owned_found(ledger.runs, active, 0);
    if let Ok((next, BeginRunOutcomeView::Started(begun))) = ledger.begun(request) {
        let at = match run_of_request(ledger.runs, request.request_id, 0) {
            Some(found) => found,
            None => ledger.runs.len() as int,
        };
        assert(next.runs[at].scan_run_id == begun.scan_run_id);
        assert forall|i: int| 0 <= i < at implies (#[trigger] next.runs[i]).scan_run_id
            != begun.scan_run_id by {
            assert(next.runs[i].scan_run_id == ledger.runs[i].scan_run_id);
        }
        lemma_owned_at(next.runs, begun, 0, at);
    }
    if ledger.works_on(active, json) {
        let at = owned_run(ledger.runs, active, 0)->0;
        let touched = RunRowView { updated_at_ms: now_ms as i64, ..ledger.runs[at] };
        lemma_touch_keeps_owner(ledger.runs, active, at, touched, 0);
    }
}

/// A request that is repeated after its run has ended is answered by that run: no new
/// attempt is started, nothing changes, and the answer is the one that was stored. A
/// request of other logical input under the same identity is refused.
pub proof fn law_repeated_requests_are_answered(
    ledger: RunLedgerView,
    active: ActiveRunView,
    json: Seq<char>,
    status: PersistedRunStatus,
    engine: Option<EngineFingerprintView>,
    envelope: ContextEnvelopeView,
    workers_required: bool,
    metadata_json: Seq<char>,
    audit_size: i64,
    now_ms: i64,
    again: BeginRequest,
)
    requires
        ledger.sound(),
        ledger.works_on(active, json),
        status.terminal(),
        again.fault() is None,
        again.request_id == active.request_id,
    ensures
        ledger.ended(
            active,
            status,
            engine,
            envelope,
            workers_required,
            metadata_json,
            audit_size,
            now_ms,
        ) matches Ok(ended) ==> if again.canonical.json == json {
            &&& ended.begun(again) == Ok::<(RunLedgerView, BeginRunOutcomeView), StoreErrorView>(
                (ended, BeginRunOutcomeView::Stored(active.scan_run_id)),
            )
            &&& run_of_request(ended.runs, again.request_id, 0) matches Some(at)
                && ended.runs[at].scan_run_id == active.scan_run_id
                && ended.runs[at].final_envelope_metadata_json == Some(metadata_json)
            &&& ended.attempts.len() == ledger.attempts.len()
        } else {
            ended.begun(again) == Err::<(RunLedgerView, BeginRunOutcomeView), StoreErrorView>(
                StoreErrorView::RequestIdConflict,
            )
        },
{
    lemma_owned_found(ledger.runs, active, 0);
    let at = owned_run(ledger.runs, active, 0)->0;
    let touched = RunRowView { updated_at_ms: now_ms, ..ledger.runs[at] };
    lemma_touch_keeps_owner(ledger.runs, active, at, touched, 0);
    lemma_attempt_found(ledger.attempts, active, 0);
    if let Ok(ended) = ledger.ended(
        active,
        status,
        engine,
        envelope,
        workers_required,
        metadata_json,
        audit_size,
        now_ms,
    ) {
        assert(ended.runs[at].request_id == again.request_id);
        lemma_run_found(ended.runs, again.request_id, 0);
        let found = run_of_request(ended.runs, again.request_id, 0)->0;
        assert(ended.runs[found].request_id == ledger.runs[found].request_id);
        assert(found == at);
        assert(ended.runs[at].status == status);
        assert(ended.runs[at].canonical_request_json == json);
        assert(ended.runs[at].request_hash == request_digest(json));
        assert(ended.runs[at].final_envelope_metadata_json == Some(metadata_json));
        assert(again.canonical.sound(again.request_id));
        assert(ended.attempts.len() == ledger.attempts.len());
        if again.canonical.json == json {
            assert(hash_fault(ended.runs[at], again.canonical) is None);
        } else {
            assert(hash_fault(ended.runs[at], again.canonical)
                == Some(StoreErrorView::RequestIdConflict));
        }
    }
}

/// A run whose owner went silent for longer than the grace is given up when the
/// next one begins; the same request takes it up again under its old identity, as
/// its next attempt.
pub proof fn law_silent_runs_are_taken_over(ledger: RunLedgerView, request: BeginRequest, at: int)
    requires
        ledger.sound(),
        ledger.can_number(),
        request.fault() is None,
        request.now_ms + LEASE_GRACE <= i64::MAX,
        ledger.lease is Some,
        !lease_live(ledger.lease->0, request.now_ms as i64),
        0 <= at < ledger.runs.len(),
        ledger.runs[at].status == PersistedRunStatus::Running,
        run_of_request(ledger.runs, request.request_id, 0) matches Some(found) ==> found == at
            && hash_fault(ledger.runs[at], request.canonical) is None,
    ensures
        ledger.begun(request) matches Ok((next, BeginRunOutcomeView::Started(active))) && (
        run_of_request(ledger.runs, request.request_id, 0) is Some ==> active.scan_run_id
            == ledger.runs[at].scan_run_id && active.attempt_number == last_attempt(
            ledger.attempts,
            active.scan_run_id,
            ledger.attempts.len(),
        ) + 1) && (run_of_request(ledger.runs, request.request_id, 0) is None
            ==> active.scan_run_id == ledger.next_run_id && next.runs[at].status
            == PersistedRunStatus::Abandoned),
{
    lemma_run_found(ledger.runs, request.request_id, 0);
    let free = ledger.reclaimed(request.now_ms as i64);
    assert(free.runs[at] == given_up(
        ledger.runs[at],
        ledger.lease->0.owner_id,
        request.now_ms as i64,
    ));
    lemma_numbers_kept(
        ledger.attempts,
        free.attempts,
        ledger.runs[at].scan_run_id,
        ledger.attempts.len(),
    );
    lemma_last_attempt_bound(
        ledger.attempts,
        ledger.runs[at].scan_run_id,
        ledger.attempts.len(),
        i64::MAX - 1,
    );
}

proof fn lemma_numbers_kept(
    left: Seq<AttemptRowView>,
    right: Seq<AttemptRowView>,
    scan_run_id: i64,
    count: nat,
)
    requires
        count <= left.len(),
        left.len() == right.len(),
        forall|i: int|
            0 <= i < left.len() ==> (#[trigger] left[i]).scan_run_id == right[i].scan_run_id
                && left[i].attempt_number == right[i].attempt_number,
    ensures
        last_attempt(left, scan_run_id, count) == last_attempt(right, scan_run_id, count),
    decreases count,
{
    if count > 0 {
        lemma_numbers_kept(left, right, scan_run_id, (count - 1) as nat);
    }
}

/// An owner whose lease has run out cannot bring it back to life.
pub proof fn law_stale_leases_are_not_revived(
    ledger: RunLedgerView,
    active: ActiveRunView,
    now_ms: i64,
)
    requires
        ledger.lease is Some,
        !lease_live(ledger.lease->0, now_ms),
        now_ms + LEASE_GRACE <= i64::MAX,
    ensures
        ledger.alive(active, now_ms) == Err::<RunLedgerView, StoreErrorView>(
            StoreErrorView::LeaseLost,
        ),
{
}

// ---------------------------------------------------------------------------
// Stored answers
// ---------------------------------------------------------------------------

/// The answer of an engine has the status that its run was stored with.
pub open spec fn engine_status_matches(run: PersistedRunStatus, engine: EngineStatus) -> bool {
    match run {
        PersistedRunStatus::Success => engine == EngineStatus::Complete,
        PersistedRunStatus::Partial => engine == EngineStatus::Partial,
        PersistedRunStatus::Error => engine == EngineStatus::Error,
        _ => false,
    }
}

/// Whether the answer of an engine has the status that its run was stored with.
pub fn envelope_status_matches(run_status: PersistedRunStatus, engine_status: EngineStatus) -> (yes:
    bool)
    ensures
        yes == engine_status_matches(run_status, engine_status),
{
    match run_status {
        PersistedRunStatus::Success => engine_status == EngineStatus::Complete,
        PersistedRunStatus::Partial => engine_status == EngineStatus::Partial,
        PersistedRunStatus::Error => engine_status == EngineStatus::Error,
        _ => false,
    }
}

/// What keeps a stored run from being answered from: its hash, its status, or the
/// lack of what its answer is rebuilt from.
pub open spec fn replay_fault(run: RunRowView) -> Option<StoreErrorView> {
    if request_digest(run.canonical_request_json) != run.request_hash {
        Some(StoreErrorView::RunCorrupt("stored logical request hash is invalid"@))
    } else if !run.status.terminal() {
        Some(StoreErrorView::RunCorrupt("nonterminal run has no reusable envelope"@))
    } else if run.final_envelope_metadata_json is None {
        Some(StoreErrorView::RunCorrupt("terminal run has no envelope metadata"@))
    } else {
        None
    }
}

/// The metadata that the answer of a stored run is rebuilt from.
pub fn replay_metadata(run: &RunRow) -> (metadata: Result<String, StoreError>)
    ensures
        match replay_fault(run@) {
            Some(fault) => metadata is Err && metadata->Err_0@ == fault,
            None => metadata is Ok && Some(metadata->Ok_0@) == run@.final_envelope_metadata_json,
        },
{
    let expected: String = request_hash(run.canonical_request_json.as_str());
    if !text_eq(expected.as_str(), run.request_hash.as_str()) {
        return Err(StoreError::corrupt("stored logical request hash is invalid"));
    }
    if !run.status.is_terminal() {
        return Err(StoreError::corrupt("nonterminal run has no reusable envelope"));
    }
    match &run.final_envelope_metadata_json {
        Some(json) => Ok(json.clone()),
        None => Err(StoreError::corrupt("terminal run has no envelope metadata")),
    }
}

/// The rebuilt answer of a stored run is the answer to the request, of that run, with the
/// status that the run was stored with.
pub open spec fn replay_agrees(
    run: RunRowView,
    request_id: Seq<char>,
    envelope: ContextEnvelopeView,
) -> bool {
    &&& envelope.request_id == request_id
    &&& envelope.scan_run_id == Some(run.scan_run_id as u64)
    &&& engine_status_matches(run.status, envelope.status)
}

/// Checks that a rebuilt answer is that of its run and of the request.
pub fn check_replay(run: &RunRow, request_id: &str, envelope: &ContextEnvelope) -> (verdict: Result<
    (),
    StoreError,
>)
    ensures
        outcome_view(verdict) == if envelope@.request_id == request_id@ && envelope.scan_run_id
            == Some(run.scan_run_id as u64) && engine_status_matches(
            run.status,
            envelope.status,
        ) {
            Ok(())
        } else {
            Err(StoreErrorView::RunCorrupt("rebuilt envelope does not match its run"@))
        },
        verdict is Ok <==> replay_agrees(run@, request_id@, envelope@),
{
    let same_run: bool = match envelope.scan_run_id {
        Some(id) => id == run.scan_run_id as u64,
        None => false,
    };
    if text_eq(envelope.request_id.as_str(), request_id) && same_run && envelope_status_matches(
        run.status,
        envelope.status,
    ) {
        Ok(())
    } else {
        Err(StoreError::corrupt("rebuilt envelope does not match its run"))
    }
}

/// The status of a run that has ended, as it is stored.
pub open spec fn terminal_status(status: RunStatus) -> Result<PersistedRunStatus, StoreErrorView> {
    match status {
        RunStatus::Success => Ok(PersistedRunStatus::Success),
        RunStatus::Partial => Ok(PersistedRunStatus::Partial),
        RunStatus::Error => Ok(PersistedRunStatus::Error),
        RunStatus::Running | RunStatus::Abandoned => Err(
            StoreErrorView::InvalidRequest("final status must be success, partial, or error"@),
        ),
    }
}

/// Reads the status that a run is to be stored with; only an end is one.
pub fn stored_terminal_status(status: RunStatus) -> (stored: Result<PersistedRunStatus, StoreError>)
    ensures
        outcome_view(stored) == terminal_status(status),
{
    match status {
        RunStatus::Success => Ok(PersistedRunStatus::Success),
        RunStatus::Partial => Ok(PersistedRunStatus::Partial),
        RunStatus::Error => Ok(PersistedRunStatus::Error),
        _ => Err(StoreError::invalid("final status must be success, partial, or error")),
    }
}

/// The stored text of the status of a run that has ended.
pub fn terminal_status_text(status: RunStatus) -> (text: Result<&'static str, StoreError>)
    ensures
        match terminal_status(status) {
            Ok(stored) => text is Ok && text->Ok_0@ == stored.text_spec(),
            Err(fault) => text is Err && text->Err_0@ == fault,
        },
{
    match stored_terminal_status(status) {
        Ok(stored) => Ok(stored.text()),
        Err(error) => Err(error),
    }
}

/// What a random owner identity looks like: thirty-two hexadecimal digits in the
/// form of a random UUID.
pub open spec fn owner_id_of(hex: Seq<char>) -> Seq<char> {
    let marked = hex.update(12, '4').update(16, '8');
    marked.subrange(0, 8) + "-"@ + marked.subrange(8, 12) + "-"@ + marked.subrange(12, 16) + "-"@
        + marked.subrange(16, 20) + "-"@ + marked.subrange(20, 32)
}

fn append_chars(text: &mut String, chars: &Vec<char>, from: usize, to: usize)
    requires
        from <= to <= chars@.len(),
    ensures
        final(text)@ == old(text)@ + chars@.subrange(from as int, to as int),
{
    let ghost before = text@;
    let mut i: usize = from;
    assert(before + chars@.subrange(from as int, from as int) =~= before);
    while i < to
        invariant
            from <= i <= to <= chars@.len(),
            text@ == before + chars@.subrange(from as int, i as int),
        decreases to - i,
    {
        text.push(chars[i]);
        i = i + 1;
        assert(text@ =~= before + chars@.subrange(from as int, i as int));
    }
}

/// Forms an owner identity of thirty-two random hexadecimal digits.
pub fn form_owner_id(hex: &str) -> (id: Result<String, StoreError>)
    ensures
        match id {
            Ok(text) => hex@.len() == 32 && text@ == owner_id_of(hex@),
            Err(error) => hex@.len() != 32 && error@ == StoreErrorView::CacheWrite(
                "SQLite random owner id had invalid length"@,
            ),
        },
{
    let mut chars: Vec<char> = crate::text::to_chars(hex);
    if chars.len() != 32 {
        return Err(
            StoreError::CacheWrite {
                detail: "SQLite random owner id had invalid length".to_string(),
            },
        );
    }
    chars.set(12, '4');
    chars.set(16, '8');
    let mut id: String = String::new();
    append_chars(&mut id, &chars, 0, 8);
    id.append("-");
    append_chars(&mut id, &chars, 8, 12);
    id.append("-");
    append_chars(&mut id, &chars, 12, 16);
    id.append("-");
    append_chars(&mut id, &chars, 16, 20);
    id.append("-");
    append_chars(&mut id, &chars, 20, 32);
    assert(id@ =~= owner_id_of(hex@));
    Ok(id)
}

/// Checks where a scanner database may lie: at an absolute path with the fixed file
/// name, in a directory that exists.
pub fn validate_database_path(is_absolute: bool, file_name: Option<&str>, parent_is_directory: bool)
    -> (verdict: Result<(), StoreError>)
    ensures
        outcome_view(verdict) == if is_absolute && (file_name matches Some(name) && name@
            == SCAN_DB_FILENAME@) && parent_is_directory {
            Ok(())
        } else {
            Err(
                StoreErrorView::InvalidRequest(
                    "scan_db_path must be an absolute path ending in "@ + SCAN_DB_FILENAME@
                        + " with an existing parent"@,
                ),
            )
        },
{
    let named: bool = match file_name {
        Some(name) => text_eq(name, SCAN_DB_FILENAME),
        None => false,
    };
    if is_absolute && named && parent_is_directory {
        Ok(())
    } else {
        let mut message: String = "scan_db_path must be an absolute path ending in ".to_string();
        message.append(SCAN_DB_FILENAME);
        message.append(" with an existing parent");
        Err(StoreError::InvalidRequest(message))
    }
}

// ---------------------------------------------------------------------------
// Laws of the ends of runs
// ---------------------------------------------------------------------------

/// Each end of a run has exactly one status of its answer, and no status of an answer is
/// accepted for two ends: a success is answered as complete, and partial runs and errors by
/// their own names. A run that has not ended has none.
pub proof fn law_ends_have_one_answer_status(
    run: PersistedRunStatus,
    other: PersistedRunStatus,
    engine: EngineStatus,
)
    ensures
        engine_status_matches(run, engine) && engine_status_matches(other, engine) ==> run == other,
        engine_status_matches(run, EngineStatus::Complete) <==> run == PersistedRunStatus::Success,
        engine_status_matches(run, EngineStatus::Partial) <==> run == PersistedRunStatus::Partial,
        engine_status_matches(run, EngineStatus::Error) <==> run == PersistedRunStatus::Error,
        engine_status_matches(run, engine) ==> run.terminal(),
        engine_status_matches(run, engine) && engine != EngineStatus::Complete ==> run.text_spec()
            == engine.text_spec(),
        run.terminal() <==> exists|status: EngineStatus|
            #[trigger] engine_status_matches(run, status),
{
    assert(engine_status_matches(PersistedRunStatus::Success, EngineStatus::Complete));
    assert(engine_status_matches(PersistedRunStatus::Partial, EngineStatus::Partial));
    assert(engine_status_matches(PersistedRunStatus::Error, EngineStatus::Error));
}

/// The end of a run is stored under its own name, and only an end is.
pub proof fn law_ends_are_stored_under_their_name(status: RunStatus)
    ensures
        terminal_status(status) matches Ok(stored) ==> stored.text_spec() == status.text_spec()
            && stored.terminal(),
        terminal_status(status) is Err <==> status == RunStatus::Running || status
            == RunStatus::Abandoned,
        status == RunStatus::Success ==> terminal_status(status) == Ok::<
            PersistedRunStatus,
            StoreErrorView,
        >(PersistedRunStatus::Success),
        status == RunStatus::Partial ==> terminal_status(status) == Ok::<
            PersistedRunStatus,
            StoreErrorView,
        >(PersistedRunStatus::Partial),
        status == RunStatus::Error ==> terminal_status(status) == Ok::<
            PersistedRunStatus,
            StoreErrorView,
        >(PersistedRunStatus::Error),
{
}

/// A run that ends is stored with the status, the answer and the size that it ended with,
/// and its attempt with the same status; the lease is given back, and no other run or
/// attempt is touched.
pub proof fn law_ended_runs_are_stored_as_they_ended(
    ledger: RunLedgerView,
    active: ActiveRunView,
    status: PersistedRunStatus,
    engine: Option<EngineFingerprintView>,
    envelope: ContextEnvelopeView,
    workers_required: bool,
    metadata_json: Seq<char>,
    audit_size: i64,
    now_ms: i64,
    other: int,
)
    ensures
        ledger.ended(
            active,
            status,
            engine,
            envelope,
            workers_required,
            metadata_json,
            audit_size,
            now_ms,
        ) matches Ok(next) ==> {
            let at = owned_run(ledger.runs, active, 0)->0;
            let attempt = owned_attempt(ledger.attempts, active, 0)->0;
            &&& owned_run(ledger.runs, active, 0) is Some
            &&& owned_attempt(ledger.attempts, active, 0) is Some
            &&& next.runs.len() == ledger.runs.len()
            &&& next.attempts.len() == ledger.attempts.len()
            &&& next.runs[at].status == status
            &&& next.runs[at].final_envelope_metadata_json == Some(metadata_json)
            &&& next.runs[at].audit_size_bytes == Some(audit_size)
            &&& next.runs[at].finished_at_ms == Some(now_ms)
            &&& next.runs[at].scan_run_id == ledger.runs[at].scan_run_id
            &&& next.runs[at].request_id == ledger.runs[at].request_id
            &&& next.runs[at].canonical_request_json == ledger.runs[at].canonical_request_json
            &&& next.runs[at].request_hash == ledger.runs[at].request_hash
            &&& next.attempts[attempt].status == status
            &&& next.attempts[attempt].finished_at_ms == Some(now_ms)
            &&& next.attempts[attempt].attempt_number == active.attempt_number
            &&& next.lease is None
            &&& next.next_run_id == ledger.next_run_id
            &&& 0 <= other < ledger.runs.len() && other != at ==> next.runs[other]
                == ledger.runs[other]
            &&& 0 <= other < ledger.attempts.len() && other != attempt ==> next.attempts[other]
                == ledger.attempts[other]
        },
{
    lemma_owned_found(ledger.runs, active, 0);
    lemma_own_attempt(ledger.attempts, active, 0);
    if ledger.alive(active, now_ms) is Ok {
        let at = owned_run(ledger.runs, active, 0)->0;
        lemma_touch_keeps_owner(
            ledger.runs,
            active,
            at,
            RunRowView { updated_at_ms: now_ms, ..ledger.runs[at] },
            0,
        );
    }
}

proof fn lemma_own_attempt(attempts: Seq<AttemptRowView>, active: ActiveRunView, from: int)
    requires
        0 <= from,
    ensures
        owned_attempt(attempts, active, from) matches Some(at) ==> from <= at < attempts.len()
            && attempts[at].scan_run_id == active.scan_run_id && attempts[at].attempt_number
            == active.attempt_number && attempts[at].owner_id == active.owner_id
            && attempts[at].status == PersistedRunStatus::Running,
    decreases attempts.len() - from,
{
    if from < attempts.len() {
        lemma_own_attempt(attempts, active, from + 1);
    }
}

/// A run ends only for the owner of its live lease, in an attempt that is under way, with
/// an answer of the engine that the attempt was begun with, and with the workers that it
/// needed made known; then it does end.
pub proof fn law_runs_end_only_for_their_owner(
    ledger: RunLedgerView,
    active: ActiveRunView,
    status: PersistedRunStatus,
    engine: Option<EngineFingerprintView>,
    envelope: ContextEnvelopeView,
    workers_required: bool,
    metadata_json: Seq<char>,
    audit_size: i64,
    now_ms: i64,
)
    ensures
        ({
            let attempt = owned_attempt(ledger.attempts, active, 0);
            ledger.ended(
                active,
                status,
                engine,
                envelope,
                workers_required,
                metadata_json,
                audit_size,
                now_ms,
            ) is Ok <==> {
                &&& owned_run(ledger.runs, active, 0) is Some
                &&& ledger.lease is Some && ledger.lease->0.owner_id == active.owner_id
                &&& now_ms + LEASE_GRACE <= i64::MAX
                &&& lease_live(ledger.lease->0, now_ms)
                &&& attempt is Some
                &&& engine is Some
                &&& engine->0.contract == envelope.contract
                &&& engine->0.protocol_version == envelope.protocol_version
                &&& engine->0.engine_version == envelope.engine_version
                &&& engine->0.engine_build == envelope.engine_build
                &&& workers_required ==> ledger.attempts[attempt->0].office_worker is Some
                    && ledger.attempts[attempt->0].python_worker is Some
            }
        }),
{
    lemma_owned_found(ledger.runs, active, 0);
    lemma_own_attempt(ledger.attempts, active, 0);
}

/// A run that begins holds the lease for its grace, under its owner, and its attempt is
/// under way with its runtime; a new run is stored with its request, and no other run that
/// has ended is touched.
pub proof fn law_begun_runs_hold_the_lease(
    ledger: RunLedgerView,
    request: BeginRequest,
    later_ms: i64,
    other: int,
)
    requires
        ledger.sound(),
        ledger.can_number(),
    ensures
        ledger.begun(request) matches Ok((next, BeginRunOutcomeView::Started(active))) ==> {
            let attempt = next.attempts.last();
            &&& active.owner_id == request.owner_id
            &&& active.request_id == request.request_id
            &&& next.lease matches Some(lease) && lease.owner_id == request.owner_id
                && lease.owner_pid == request.owner_pid && lease.acquired_at_ms == request.now_ms
                && lease.heartbeat_at_ms == request.now_ms && lease.expires_at_ms
                == request.now_ms + LEASE_GRACE
            &&& request.now_ms <= later_ms < request.now_ms + LEASE_GRACE ==> lease_live(
                next.lease->0,
                later_ms,
            )
            &&& next.attempts.len() == ledger.attempts.len() + 1
            &&& attempt.scan_run_id == active.scan_run_id
            &&& attempt.attempt_number == active.attempt_number
            &&& attempt.owner_id == request.owner_id
            &&& attempt.runtime == request.runtime
            &&& attempt.status == PersistedRunStatus::Running
            &&& attempt.started_at_ms == request.now_ms && attempt.finished_at_ms is None
            &&& attempt.office_worker is None && attempt.python_worker is None
            &&& 0 <= other < ledger.runs.len() && ledger.runs[other].status.terminal()
                ==> next.runs[other] == ledger.runs[other]
            &&& run_of_request(ledger.runs, request.request_id, 0) is None ==> {
                let run = next.runs.last();
                &&& next.runs.len() == ledger.runs.len() + 1
                &&& run.scan_run_id == active.scan_run_id
                &&& run.scan_run_id == ledger.next_run_id
                &&& next.next_run_id == ledger.next_run_id + 1
                &&& run.request_id == request.request_id
                &&& run.canonical_request_json == request.canonical.json
                &&& run.request_hash == request.canonical.hash
                &&& run.owner_id == request.owner_id
                &&& run.status == PersistedRunStatus::Running
                &&& run.created_at_ms == request.now_ms && run.started_at_ms == request.now_ms
                &&& run.finished_at_ms is None && run.final_envelope_metadata_json is None
                &&& active.attempt_number > 0
            }
            &&& run_of_request(ledger.runs, request.request_id, 0) matches Some(at) ==> {
                &&& next.runs.len() == ledger.runs.len()
                &&& next.next_run_id == ledger.next_run_id
                &&& next.runs[at].scan_run_id == ledger.runs[at].scan_run_id
                &&& active.scan_run_id == ledger.runs[at].scan_run_id
                &&& next.runs[at].owner_id == request.owner_id
                &&& next.runs[at].status == PersistedRunStatus::Running
                &&& next.runs[at].created_at_ms == ledger.runs[at].created_at_ms
            }
        },
{
    lemma_run_found(ledger.runs, request.request_id, 0);
    let free = ledger.reclaimed(request.now_ms as i64);
    lemma_last_attempt_bound(
        ledger.attempts,
        ledger.next_run_id,
        ledger.attempts.len(),
        i64::MAX - 1,
    );
    if ledger.lease is Some {
        lemma_numbers_kept(
            ledger.attempts,
            free.attempts,
            ledger.next_run_id,
            ledger.attempts.len(),
        );
    }
    if 0 <= other < ledger.runs.len() && ledger.runs[other].status.terminal() {
        assert(free.runs[other] == ledger.runs[other]);
    }
}

/// A request is refused before anything is looked at where its runtime is incomplete, its
/// time cannot be stored, its canonical form is not its own or its database is another; and
/// only then.
pub proof fn law_only_sound_requests_begin(request: BeginRequest)
    ensures
        request.fault() is None <==> {
            &&& request.runtime.complete()
            &&& request.now_ms <= i64::MAX
            &&& request.canonical.request_id == request.request_id
            &&& request.canonical.hash == request_digest(request.canonical.json)
            &&& request.canonical.hash_algorithm == REQUEST_HASH_ALGORITHM@
            &&& is_sha256_text(request.canonical.hash)
            &&& request.canonical.json.len() > 0
            &&& request.store_path == request.runtime.normalized_scan_db_path
        },
{
}

/// A canonical request that was formed of its JSON is one that a run can begin with.
pub proof fn law_formed_requests_are_sound(request_id: Seq<char>, json: Seq<char>)
    requires
        json.len() > 0,
        is_sha256_text(request_digest(json)),
    ensures
        CanonicalRequestView::of(request_id, json).sound(request_id),
        CanonicalRequestView::of(request_id, json).json == json,
        CanonicalRequestView::of(request_id, json).hash == request_digest(json),
{
}

/// Taking a lapsed lease over gives up the runs and the attempts of its owner that were
/// under way, and touches nothing else.
pub proof fn law_only_runs_under_way_are_given_up(
    ledger: RunLedgerView,
    now_ms: i64,
    at: int,
)
    requires
        0 <= at < ledger.runs.len(),
    ensures
        ({
            let next = ledger.reclaimed(now_ms);
            let before = ledger.runs[at];
            let after = next.runs[at];
            let lost = ledger.lease is Some && before.owner_id == ledger.lease->0.owner_id
                && before.status == PersistedRunStatus::Running;
            &&& next.runs.len() == ledger.runs.len()
            &&& next.lease is None
            &&& lost ==> after.status == PersistedRunStatus::Abandoned && after.finished_at_ms
                == Some(now_ms)
            &&& !lost ==> after == before
            &&& after.scan_run_id == before.scan_run_id && after.request_id == before.request_id
            &&& after.canonical_request_json == before.canonical_request_json
            &&& after.request_hash == before.request_hash
            &&& after.owner_id == before.owner_id
        }),
        ({
            let before = ledger.runs[at];
            let after = ledger.expired(now_ms).runs[at];
            &&& before.status == PersistedRunStatus::Running ==> after.status
                == PersistedRunStatus::Abandoned && after.finished_at_ms == Some(now_ms)
            &&& before.status != PersistedRunStatus::Running ==> after == before
            &&& after.scan_run_id == before.scan_run_id && after.request_id == before.request_id
            &&& ledger.expired(now_ms).lease == ledger.lease
        }),
{
}

/// A sign of life renews the lease of the run for its grace and changes nothing else but
/// the time at which the run was last heard of.
pub proof fn law_signs_of_life_renew_the_lease(
    ledger: RunLedgerView,
    active: ActiveRunView,
    now_ms: i64,
    other: int,
)
    ensures
        ledger.alive(active, now_ms) matches Ok(next) ==> {
            let at = owned_run(ledger.runs, active, 0)->0;
            &&& next.lease matches Some(lease) && lease.heartbeat_at_ms == now_ms
                && lease.expires_at_ms == now_ms + LEASE_GRACE && lease.owner_id
                == active.owner_id && lease.acquired_at_ms == ledger.lease->0.acquired_at_ms
                && lease.owner_pid == ledger.lease->0.owner_pid
            &&& next.runs[at] == (RunRowView { updated_at_ms: now_ms, ..ledger.runs[at] })
            &&& 0 <= other < ledger.runs.len() && other != at ==> next.runs[other]
                == ledger.runs[other]
            &&& next.attempts == ledger.attempts && next.next_run_id == ledger.next_run_id
        },
        ledger.alive(active, now_ms) is Ok <==> {
            &&& owned_run(ledger.runs, active, 0) is Some
            &&& ledger.lease is Some && ledger.lease->0.owner_id == active.owner_id
            &&& now_ms + LEASE_GRACE <= i64::MAX
            &&& lease_live(ledger.lease->0, now_ms)
        },
{
    lemma_owned_found(ledger.runs, active, 0);
}

/// The workers of a run are made known in its own attempt.
pub proof fn law_workers_are_made_known_in_the_attempt(
    ledger: RunLedgerView,
    active: ActiveRunView,
    office: Option<WorkerFingerprintView>,
    python: Option<WorkerFingerprintView>,
    now_ms: u64,
    other: int,
)
    ensures
        ledger.introduced(active, office, python, now_ms) matches Ok(next) ==> {
            let at = owned_attempt(ledger.attempts, active, 0)->0;
            &&& next.attempts[at].office_worker == office
            &&& next.attempts[at].python_worker == python
            &&& next.attempts[at].scan_run_id == active.scan_run_id
            &&& next.attempts[at].attempt_number == active.attempt_number
            &&& next.attempts[at].status == PersistedRunStatus::Running
            &&& 0 <= other < ledger.attempts.len() && other != at ==> next.attempts[other]
                == ledger.attempts[other]
            &&& office matches Some(worker) ==> worker.complete()
            &&& python matches Some(worker) ==> worker.complete()
        },
{
    lemma_own_attempt(ledger.attempts, active, 0);
}

/// A command that gets the database for itself holds the lease for its grace, under its
/// owner.
pub proof fn law_commands_hold_the_lease(
    ledger: RunLedgerView,
    owner_id: Seq<char>,
    owner_pid: i64,
    now_ms: i64,
)
    ensures
        ({
            let (next, verdict) = ledger.seized(owner_id, owner_pid, now_ms);
            &&& verdict is Ok <==> !(ledger.lease is Some && lease_live(ledger.lease->0, now_ms))
                && now_ms + LEASE_GRACE <= i64::MAX
            &&& verdict is Ok ==> next.lease == Some(
                LeaseRowView {
                    owner_id,
                    owner_pid,
                    acquired_at_ms: now_ms,
                    heartbeat_at_ms: now_ms,
                    expires_at_ms: (now_ms + LEASE_GRACE) as i64,
                },
            )
            &&& next.runs.len() == ledger.runs.len() && next.next_run_id == ledger.next_run_id
        }),
{
}

/// A lease is dead exactly where it has expired and its last sign of life is as old as the
/// grace.
pub proof fn law_leases_die_with_their_grace(lease: LeaseRowView, now_ms: i64)
    requires
        i64::MIN <= now_ms - LEASE_GRACE,
    ensures
        !lease_live(lease, now_ms) <==> lease.expires_at_ms <= now_ms && lease.heartbeat_at_ms
            + LEASE_GRACE <= now_ms,
{
}

/// Whether a failure of the store may be retried follows from its code: what another owner
/// or the disk stands in the way of may, what is wrong with the request or the database may
/// not. What is wrong is told, and each failure has a code of its own but for those that
/// are reported alike.
pub proof fn law_store_failures_are_told_by_code(
    error: StoreErrorView,
    stage: DiagnosticStage,
    text: Seq<char>,
)
    ensures
        ({
            let told = error.diagnostic(stage);
            &&& told.stage == stage
            &&& told.error_code == error.error_code() && told.message == error.message()
                && told.retryable == error.retryable()
            &&& told.retryable <==> (told.error_code == ErrorCode::CacheOpenFailed
                || told.error_code == ErrorCode::CacheWriteFailed || told.error_code
                == ErrorCode::ScanAlreadyRunning || told.error_code
                == ErrorCode::RequestInProgress)
            &&& told.error_code == ErrorCode::InvalidRequest <==> error is InvalidRequest
            &&& told.error_code == ErrorCode::CacheOpenFailed <==> error is CacheOpen
            &&& told.error_code == ErrorCode::CacheWriteFailed <==> error is CacheWrite || error
                is LeaseLost
            &&& told.error_code == ErrorCode::ScanAlreadyRunning <==> error is ScanAlreadyRunning
            &&& told.error_code == ErrorCode::RequestInProgress <==> error is RequestInProgress
            &&& told.error_code == ErrorCode::RequestIdConflict <==> error is RequestIdConflict
            &&& told.error_code == ErrorCode::RunCorrupt <==> error is RunCorrupt
            &&& told.error_code == ErrorCode::RunNotFound <==> error is RunNotFound
            &&& told.error_code == ErrorCode::SchemaUpgradeRequired <==> error
                is SchemaUpgradeRequired || error is SchemaTooNew
            &&& told.error_code == ErrorCode::BudgetModelMismatch <==> error is ArtifactMismatch
            &&& error == StoreErrorView::InvalidRequest(text) || error
                == StoreErrorView::RunCorrupt(text) || error == StoreErrorView::ArtifactMismatch(
                text,
            ) ==> told.message.len() >= text.len() && told.message.skip(
                told.message.len() - text.len(),
            ) == text
        }),
{
    let message = error.message();
    if error == StoreErrorView::InvalidRequest(text) || error == StoreErrorView::RunCorrupt(text)
        || error == StoreErrorView::ArtifactMismatch(text) {
        assert(message.skip(message.len() - text.len()) =~= text);
    }
}

/// A stored run can be answered from exactly where it has ended, its answer was stored and
/// its request still has the hash that it was stored with.
pub proof fn law_ended_runs_can_be_answered_from(run: RunRowView)
    ensures
        replay_fault(run) is None <==> {
            &&& run.status == PersistedRunStatus::Success || run.status
                == PersistedRunStatus::Partial || run.status == PersistedRunStatus::Error
            &&& run.final_envelope_metadata_json is Some
            &&& run.request_hash == request_digest(run.canonical_request_json)
        },
{
}

/// A request is the one of a stored run exactly where it has the same JSON and hash, and
/// the stored hash is that of the stored JSON.
pub proof fn law_requests_are_known_by_their_input(
    run: RunRowView,
    canonical: CanonicalRequestView,
)
    ensures
        hash_fault(run, canonical) is None <==> run.canonical_request_json == canonical.json
            && run.request_hash == canonical.hash && run.request_hash == request_digest(
            run.canonical_request_json,
        ),
        hash_fault(run, canonical) == Some(StoreErrorView::RequestIdConflict) <==> run.request_hash
            == request_digest(run.canonical_request_json) && (run.canonical_request_json
            != canonical.json || run.request_hash != canonical.hash),
{
}

/// Going into a directory and out of it again leads back, and staying where one is leads
/// nowhere.
pub proof fn law_ways_in_and_out_cancel(parts: Seq<PathPartView>, name: Seq<char>)
    ensures
        lexical_parts(
            parts.push(PathPartView::Normal(name)).push(PathPartView::Parent),
            parts.len() + 2,
        ) == lexical_parts(parts, parts.len()),
        lexical_parts(parts.push(PathPartView::Current), parts.len() + 1) == lexical_parts(
            parts,
            parts.len(),
        ),
        lexical_parts(parts.push(PathPartView::Normal(name)), parts.len() + 1) == lexical_parts(
            parts,
            parts.len(),
        ).push(PathPartView::Normal(name)),
{
    let into = parts.push(PathPartView::Normal(name));
    let out = into.push(PathPartView::Parent);
    let n = parts.len();
    lemma_lexical_prefix(parts, into, n);
    lemma_lexical_prefix(parts, out, n);
    lemma_lexical_prefix(parts, parts.push(PathPartView::Current), n);
    let before = lexical_parts(parts, n);
    assert(out[n as int] == PathPartView::Normal(name));
    assert(lexical_parts(out, n + 1) == before.push(PathPartView::Normal(name)));
    assert(before.push(PathPartView::Normal(name)).drop_last() =~= before);
}

proof fn lemma_lexical_prefix(left: Seq<PathPartView>, right: Seq<PathPartView>, count: nat)
    requires
        count <= left.len(),
        count <= right.len(),
        forall|i: int| 0 <= i < count ==> left[i] == right[i],
    ensures
        lexical_parts(left, count) == lexical_parts(right, count),
    decreases count,
{
    if count > 0 {
        lemma_lexical_prefix(left, right, (count - 1) as nat);
    }
}

/// The identity of an owner is a version 4 UUID text of the random digits that it was
/// formed of.
pub proof fn law_owner_ids_are_of_their_digits(hex: Seq<char>, i: int)
    requires
        hex.len() == 32,
        0 <= i < 32,
    ensures
        ({
            let id = owner_id_of(hex);
            let at = i + if i < 8 {
                0int
            } else if i < 12 {
                1
            } else if i < 16 {
                2
            } else if i < 20 {
                3
            } else {
                4
            };
            &&& id.len() == 36
            &&& id[8] == '-' && id[13] == '-' && id[18] == '-' && id[23] == '-'
            &&& id[14] == '4' && id[19] == '8'
            &&& i != 12 && i != 16 ==> id[at] == hex[i]
        }),
{
    reveal_strlit("-");
}

/// A number is stored as it is where it fits, and refused by its name where it does not.
pub proof fn law_numbers_are_stored_where_they_fit(
    value: u64,
    field: &str,
    stored: Result<i64, StoreError>,
)
    requires
        call_ensures(checked_i64, (value, field), stored),
    ensures
        stored is Ok <==> value <= i64::MAX,
        stored matches Ok(number) ==> number == value,
        stored matches Err(error) ==> error@ == StoreErrorView::InvalidRequest(
            field@ + " exceeds SQLite integer range"@,
        ),
{
}

/// A database is worked with only under an absolute path, by its own name, in a directory
/// that is there.
pub proof fn law_databases_have_their_own_name(
    is_absolute: bool,
    file_name: Option<&str>,
    parent_is_directory: bool,
    verdict: Result<(), StoreError>,
)
    requires
        call_ensures(
            validate_database_path,
            (is_absolute, file_name, parent_is_directory),
            verdict,
        ),
    ensures
        verdict is Ok <==> is_absolute && parent_is_directory && file_name is Some
            && file_name->0@ == "scan_index_v3.sqlite3"@,
        verdict matches Err(error) ==> error@ is InvalidRequest,
{
}

/// A difference is exact where it fits, and as near as it can be where it does not.
pub proof fn law_differences_are_exact_where_they_fit(left: i64, right: i64)
    ensures
        ({
            let difference = saturated_difference(left as int, right as int);
            &&& i64::MIN <= difference <= i64::MAX
            &&& i64::MIN <= left - right <= i64::MAX ==> difference == left - right
            &&& left - right < i64::MIN ==> difference == i64::MIN
            &&& left - right > i64::MAX ==> difference == i64::MAX
        }),
{
}

/// A rebuilt answer is given only to its own request, by its own run, and with the status
/// that the run ended with.
pub proof fn law_rebuilt_answers_are_of_their_run(
    run: &RunRow,
    request_id: &str,
    envelope: &ContextEnvelope,
    verdict: Result<(), StoreError>,
)
    requires
        call_ensures(check_replay, (run, request_id, envelope), verdict),
    ensures
        verdict is Ok ==> envelope.request_id@ == request_id@ && envelope.scan_run_id is Some,
        verdict is Ok ==> (envelope.status == EngineStatus::Complete <==> run.status
            == PersistedRunStatus::Success),
        verdict is Ok ==> (envelope.status == EngineStatus::Partial <==> run.status
            == PersistedRunStatus::Partial),
        verdict is Ok ==> (envelope.status == EngineStatus::Error <==> run.status
            == PersistedRunStatus::Error),
        verdict matches Err(error) ==> error@ is RunCorrupt,
{
}

} // verus!
