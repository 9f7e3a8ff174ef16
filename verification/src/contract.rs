//! Wire vocabulary of the scanner: codes, statuses and the records that are
//! exchanged between the stages of a run.
use vstd::prelude::*;

verus! {

/// The views of the elements of a sequence.
pub open spec fn views<T: View>(items: Seq<T>) -> Seq<T::V> {
    items.map_values(|item: T| item@)
}

/// The view of what an option holds.
pub open spec fn opt_view<T: View>(item: Option<T>) -> Option<T::V> {
    match item {
        Some(value) => Some(value@),
        None => None,
    }
}

/// A copy of `items`, element by element.
pub fn clone_all<T: Clone + View>(items: &Vec<T>) -> (copies: Vec<T>)
    requires
        forall|item: T, copy: T| #[trigger]
            call_ensures(T::clone, (&item,), copy) ==> copy@ == item@,
        forall|item: T| #[trigger] call_requires(T::clone, (&item,)),
    ensures
        views(copies@) == views(items@),
{
    let mut copies: Vec<T> = Vec::new();
    let mut i: usize = 0;
    while i < items.len()
        invariant
            i <= items.len(),
            copies.len() == i,
            forall|item: T, copy: T| #[trigger]
                call_ensures(T::clone, (&item,), copy) ==> copy@ == item@,
            forall|item: T| #[trigger] call_requires(T::clone, (&item,)),
            forall|k: int| 0 <= k < i ==> (#[trigger] copies@[k])@ == items@[k]@,
        decreases items.len() - i,
    {
        let copy = items[i].clone();
        copies.push(copy);
        i = i + 1;
    }
    assert(views(copies@) =~= views(items@));
    copies
}

/// Codes of the diagnostics that the scanner reports.
#[derive(Clone, Copy, Debug, PartialEq, Eq, Structural)]
pub enum ErrorCode {
    BudgetModelMismatch,
    CacheOpenFailed,
    CacheWriteFailed,
    ContextFixedSectionsOverBudget,
    DiagnosticsAggregated,
    DiscoveryEntryUnreadable,
    FileTooLarge,
    InternalError,
    InvalidRequest,
    MaintenanceModeUnavailable,
    ParserFailed,
    ParserInvalidPayload,
    ParserStartFailed,
    ParserTimeout,
    ProfileRouteInvariant,
    RequestIdConflict,
    RequestInProgress,
    RunCorrupt,
    RunNotFound,
    ScanAlreadyRunning,
    SchemaMigrationFailed,
    SchemaUpgradeRequired,
    SourceFileLimitExceeded,
    SourceGuardUnavailable,
    SourceVersionChanged,
    StageDeadlineExhausted,
    WorkerBuildChanged,
    WorkerHandshakeFailed,
    WorkerVersionMismatch,
}

impl ErrorCode {
    /// The wire text of the code.
    pub open spec fn text_spec(self) -> Seq<char> {
        match self {
            ErrorCode::BudgetModelMismatch => "BUDGET_MODEL_MISMATCH"@,
            ErrorCode::CacheOpenFailed => "CACHE_OPEN_FAILED"@,
            ErrorCode::CacheWriteFailed => "CACHE_WRITE_FAILED"@,
            ErrorCode::ContextFixedSectionsOverBudget => "CONTEXT_FIXED_SECTIONS_OVER_BUDGET"@,
            ErrorCode::DiagnosticsAggregated => "DIAGNOSTICS_AGGREGATED"@,
            ErrorCode::DiscoveryEntryUnreadable => "DISCOVERY_ENTRY_UNREADABLE"@,
            ErrorCode::FileTooLarge => "FILE_TOO_LARGE"@,
            ErrorCode::InternalError => "INTERNAL_ERROR"@,
            ErrorCode::InvalidRequest => "INVALID_REQUEST"@,
            ErrorCode::MaintenanceModeUnavailable => "MAINTENANCE_MODE_UNAVAILABLE"@,
            ErrorCode::ParserFailed => "PARSER_FAILED"@,
            ErrorCode::ParserInvalidPayload => "PARSER_INVALID_PAYLOAD"@,
            ErrorCode::ParserStartFailed => "PARSER_START_FAILED"@,
            ErrorCode::ParserTimeout => "PARSER_TIMEOUT"@,
            ErrorCode::ProfileRouteInvariant => "PROFILE_ROUTE_INVARIANT"@,
            ErrorCode::RequestIdConflict => "REQUEST_ID_CONFLICT"@,
            ErrorCode::RequestInProgress => "REQUEST_IN_PROGRESS"@,
            ErrorCode::RunCorrupt => "RUN_CORRUPT"@,
            ErrorCode::RunNotFound => "RUN_NOT_FOUND"@,
            ErrorCode::ScanAlreadyRunning => "SCAN_ALREADY_RUNNING"@,
            ErrorCode::SchemaMigrationFailed => "SCHEMA_MIGRATION_FAILED"@,
            ErrorCode::SchemaUpgradeRequired => "SCHEMA_UPGRADE_REQUIRED"@,
            ErrorCode::SourceFileLimitExceeded => "SOURCE_FILE_LIMIT_EXCEEDED"@,
            ErrorCode::SourceGuardUnavailable => "SOURCE_GUARD_UNAVAILABLE"@,
            ErrorCode::SourceVersionChanged => "SOURCE_VERSION_CHANGED"@,
            ErrorCode::StageDeadlineExhausted => "STAGE_DEADLINE_EXHAUSTED"@,
            ErrorCode::WorkerBuildChanged => "WORKER_BUILD_CHANGED"@,
            ErrorCode::WorkerHandshakeFailed => "WORKER_HANDSHAKE_FAILED"@,
            ErrorCode::WorkerVersionMismatch => "WORKER_VERSION_MISMATCH"@,
        }
    }

    /// The wire text of the code.
    pub fn text(self) -> (text: &'static str)
        ensures
            text@ == self.text_spec(),
    {
        match self {
            ErrorCode::BudgetModelMismatch => "BUDGET_MODEL_MISMATCH",
            ErrorCode::CacheOpenFailed => "CACHE_OPEN_FAILED",
            ErrorCode::CacheWriteFailed => "CACHE_WRITE_FAILED",
            ErrorCode::ContextFixedSectionsOverBudget => "CONTEXT_FIXED_SECTIONS_OVER_BUDGET",
            ErrorCode::DiagnosticsAggregated => "DIAGNOSTICS_AGGREGATED",
            ErrorCode::DiscoveryEntryUnreadable => "DISCOVERY_ENTRY_UNREADABLE",
            ErrorCode::FileTooLarge => "FILE_TOO_LARGE",
            ErrorCode::InternalError => "INTERNAL_ERROR",
            ErrorCode::InvalidRequest => "INVALID_REQUEST",
            ErrorCode::MaintenanceModeUnavailable => "MAINTENANCE_MODE_UNAVAILABLE",
            ErrorCode::ParserFailed => "PARSER_FAILED",
            ErrorCode::ParserInvalidPayload => "PARSER_INVALID_PAYLOAD",
            ErrorCode::ParserStartFailed => "PARSER_START_FAILED",
            ErrorCode::ParserTimeout => "PARSER_TIMEOUT",
            ErrorCode::ProfileRouteInvariant => "PROFILE_ROUTE_INVARIANT",
            ErrorCode::RequestIdConflict => "REQUEST_ID_CONFLICT",
            ErrorCode::RequestInProgress => "REQUEST_IN_PROGRESS",
            ErrorCode::RunCorrupt => "RUN_CORRUPT",
            ErrorCode::RunNotFound => "RUN_NOT_FOUND",
            ErrorCode::ScanAlreadyRunning => "SCAN_ALREADY_RUNNING",
            ErrorCode::SchemaMigrationFailed => "SCHEMA_MIGRATION_FAILED",
            ErrorCode::SchemaUpgradeRequired => "SCHEMA_UPGRADE_REQUIRED",
            ErrorCode::SourceFileLimitExceeded => "SOURCE_FILE_LIMIT_EXCEEDED",
            ErrorCode::SourceGuardUnavailable => "SOURCE_GUARD_UNAVAILABLE",
            ErrorCode::SourceVersionChanged => "SOURCE_VERSION_CHANGED",
            ErrorCode::StageDeadlineExhausted => "STAGE_DEADLINE_EXHAUSTED",
            ErrorCode::WorkerBuildChanged => "WORKER_BUILD_CHANGED",
            ErrorCode::WorkerHandshakeFailed => "WORKER_HANDSHAKE_FAILED",
            ErrorCode::WorkerVersionMismatch => "WORKER_VERSION_MISMATCH",
        }
    }
}

/// The stage that a diagnostic belongs to.
#[derive(Clone, Copy, Debug, PartialEq, Eq, Structural)]
pub enum DiagnosticStage {
    Cache,
    Context,
    Discovery,
    Internal,
    Maintenance,
    Parse,
    Process,
}

impl DiagnosticStage {
    /// The wire text of the stage.
    pub open spec fn text_spec(self) -> Seq<char> {
        match self {
            DiagnosticStage::Cache => "cache"@,
            DiagnosticStage::Context => "context"@,
            DiagnosticStage::Discovery => "discovery"@,
            DiagnosticStage::Internal => "internal"@,
            DiagnosticStage::Maintenance => "maintenance"@,
            DiagnosticStage::Parse => "parse"@,
            DiagnosticStage::Process => "process"@,
        }
    }

    /// The wire text of the stage.
    pub fn text(self) -> (text: &'static str)
        ensures
            text@ == self.text_spec(),
    {
        match self {
            DiagnosticStage::Cache => "cache",
            DiagnosticStage::Context => "context",
            DiagnosticStage::Discovery => "discovery",
            DiagnosticStage::Internal => "internal",
            DiagnosticStage::Maintenance => "maintenance",
            DiagnosticStage::Parse => "parse",
            DiagnosticStage::Process => "process",
        }
    }
}

/// How the parse of one file ended.
#[derive(Clone, Copy, Debug, PartialEq, Eq, Structural)]
pub enum ParseStatus {
    Success,
    Error,
    Timeout,
    NotParsed,
}

impl ParseStatus {
    /// The stored text of the status.
    pub open spec fn text_spec(self) -> Seq<char> {
        match self {
            ParseStatus::Success => "success"@,
            ParseStatus::Error => "error"@,
            ParseStatus::Timeout => "timeout"@,
            ParseStatus::NotParsed => "not_parsed"@,
        }
    }

    /// The stored text of the status.
    pub fn text(self) -> (text: &'static str)
        ensures
            text@ == self.text_spec(),
    {
        match self {
            ParseStatus::Success => "success",
            ParseStatus::Error => "error",
            ParseStatus::Timeout => "timeout",
            ParseStatus::NotParsed => "not_parsed",
        }
    }
}

/// Whether a parse came from the cache.
#[derive(Clone, Copy, Debug, PartialEq, Eq, Structural)]
pub enum CacheStatus {
    Fresh,
    Miss,
}

impl CacheStatus {
    /// The stored text of the status.
    pub open spec fn text_spec(self) -> Seq<char> {
        match self {
            CacheStatus::Fresh => "fresh"@,
            CacheStatus::Miss => "miss"@,
        }
    }

    /// The stored text of the status.
    pub fn text(self) -> (text: &'static str)
        ensures
            text@ == self.text_spec(),
    {
        match self {
            CacheStatus::Fresh => "fresh",
            CacheStatus::Miss => "miss",
        }
    }
}

/// Why the parse cache held no usable entry.
#[derive(Clone, Copy, Debug, PartialEq, Eq, Structural)]
pub enum CacheMissReason {
    NotMissed,
    NewFile,
    ErrorCache,
    SourceVersionChanged,
    ParserProfileChanged,
    ParserIdentityChanged,
    EntryAbsentOrEvicted,
}

impl CacheMissReason {
    /// The stored text of the reason; empty when there was no miss.
    pub open spec fn text_spec(self) -> Seq<char> {
        match self {
            CacheMissReason::NotMissed => ""@,
            CacheMissReason::NewFile => "new_file"@,
            CacheMissReason::ErrorCache => "error_cache"@,
            CacheMissReason::SourceVersionChanged => "source_version_changed"@,
            CacheMissReason::ParserProfileChanged => "parser_profile_changed"@,
            CacheMissReason::ParserIdentityChanged => "parser_identity_changed"@,
            CacheMissReason::EntryAbsentOrEvicted => "entry_absent_or_evicted"@,
        }
    }

    /// The stored text of the reason; empty when there was no miss.
    pub fn text(self) -> (text: &'static str)
        ensures
            text@ == self.text_spec(),
    {
        match self {
            CacheMissReason::NotMissed => "",
            CacheMissReason::NewFile => "new_file",
            CacheMissReason::ErrorCache => "error_cache",
            CacheMissReason::SourceVersionChanged => "source_version_changed",
            CacheMissReason::ParserProfileChanged => "parser_profile_changed",
            CacheMissReason::ParserIdentityChanged => "parser_identity_changed",
            CacheMissReason::EntryAbsentOrEvicted => "entry_absent_or_evicted",
        }
    }
}

/// The lane that produced a parse.
#[derive(Clone, Copy, Debug, PartialEq, Eq, Structural)]
pub enum AuditWorkerLane {
    RustCore,
    RustOfficeProcess,
    PythonDocumentProcess,
    NotParsed,
}

impl AuditWorkerLane {
    /// The stored text of the lane.
    pub open spec fn text_spec(self) -> Seq<char> {
        match self {
            AuditWorkerLane::RustCore => "rust_core"@,
            AuditWorkerLane::RustOfficeProcess => "rust_office_process"@,
            AuditWorkerLane::PythonDocumentProcess => "python_document_process"@,
            AuditWorkerLane::NotParsed => "not_parsed"@,
        }
    }

    /// The stored text of the lane.
    pub fn text(self) -> (text: &'static str)
        ensures
            text@ == self.text_spec(),
    {
        match self {
            AuditWorkerLane::RustCore => "rust_core",
            AuditWorkerLane::RustOfficeProcess => "rust_office_process",
            AuditWorkerLane::PythonDocumentProcess => "python_document_process",
            AuditWorkerLane::NotParsed => "not_parsed",
        }
    }
}

/// How a parse request reached its parser.
#[derive(Clone, Copy, Debug, PartialEq, Eq, Structural)]
pub enum ParseTransport {
    RustInProcess,
    Session,
    OneShot,
    NotApplicable,
}

impl ParseTransport {
    /// The stored text of the transport.
    pub open spec fn text_spec(self) -> Seq<char> {
        match self {
            ParseTransport::RustInProcess => "rust_in_process"@,
            ParseTransport::Session => "session"@,
            ParseTransport::OneShot => "one_shot"@,
            ParseTransport::NotApplicable => "not_applicable"@,
        }
    }

    /// The stored text of the transport.
    pub fn text(self) -> (text: &'static str)
        ensures
            text@ == self.text_spec(),
    {
        match self {
            ParseTransport::RustInProcess => "rust_in_process",
            ParseTransport::Session => "session",
            ParseTransport::OneShot => "one_shot",
            ParseTransport::NotApplicable => "not_applicable",
        }
    }
}

/// The status of a scanner run.
#[derive(Clone, Copy, Debug, PartialEq, Eq, Structural)]
pub enum RunStatus {
    Running,
    Success,
    Partial,
    Error,
    Abandoned,
}

impl RunStatus {
    /// The stored text of the status.
    pub open spec fn text_spec(self) -> Seq<char> {
        match self {
            RunStatus::Running => "running"@,
            RunStatus::Success => "success"@,
            RunStatus::Partial => "partial"@,
            RunStatus::Error => "error"@,
            RunStatus::Abandoned => "abandoned"@,
        }
    }

    /// The stored text of the status.
    pub fn text(self) -> (text: &'static str)
        ensures
            text@ == self.text_spec(),
    {
        match self {
            RunStatus::Running => "running",
            RunStatus::Success => "success",
            RunStatus::Partial => "partial",
            RunStatus::Error => "error",
            RunStatus::Abandoned => "abandoned",
        }
    }
}

/// The status that an envelope reports.
#[derive(Clone, Copy, Debug, PartialEq, Eq, Structural)]
pub enum EngineStatus {
    Complete,
    Partial,
    Error,
}

impl EngineStatus {
    /// The wire text of the status.
    pub open spec fn text_spec(self) -> Seq<char> {
        match self {
            EngineStatus::Complete => "ok"@,
            EngineStatus::Partial => "partial"@,
            EngineStatus::Error => "error"@,
        }
    }

    /// The wire text of the status.
    pub fn text(self) -> (text: &'static str)
        ensures
            text@ == self.text_spec(),
    {
        match self {
            EngineStatus::Complete => "ok",
            EngineStatus::Partial => "partial",
            EngineStatus::Error => "error",
        }
    }
}

/// The timed stages of a run.
#[derive(Clone, Copy, Debug, PartialEq, Eq, Structural)]
pub enum StageName {
    Discovery,
    Cache,
    Parse,
    Context,
}

impl StageName {
    /// The stored text of the stage.
    pub open spec fn text_spec(self) -> Seq<char> {
        match self {
            StageName::Discovery => "discovery"@,
            StageName::Cache => "cache"@,
            StageName::Parse => "parse"@,
            StageName::Context => "context"@,
        }
    }

    /// The stored text of the stage.
    pub fn text(self) -> (text: &'static str)
        ensures
            text@ == self.text_spec(),
    {
        match self {
            StageName::Discovery => "discovery",
            StageName::Cache => "cache",
            StageName::Parse => "parse",
            StageName::Context => "context",
        }
    }
}

/// What the context does with one file.
#[derive(Clone, Copy, Debug, PartialEq, Eq, Structural)]
pub enum ContextAction {
    Keep,
    Compress,
    MetadataOnly,
    Omit,
    Error,
}

impl ContextAction {
    /// The stored text of the action.
    pub open spec fn text_spec(self) -> Seq<char> {
        match self {
            ContextAction::Keep => "keep"@,
            ContextAction::Compress => "compress"@,
            ContextAction::MetadataOnly => "metadata_only"@,
            ContextAction::Omit => "omit"@,
            ContextAction::Error => "error"@,
        }
    }

    /// The stored text of the action.
    pub fn text(self) -> (text: &'static str)
        ensures
            text@ == self.text_spec(),
    {
        match self {
            ContextAction::Keep => "keep",
            ContextAction::Compress => "compress",
            ContextAction::MetadataOnly => "metadata_only",
            ContextAction::Omit => "omit",
            ContextAction::Error => "error",
        }
    }
}

/// What the classifier found out about a PDF.
#[derive(Clone, Copy, Debug, PartialEq, Eq, Structural)]
pub enum PdfClassificationStatus {
    TextInParseWindow,
    NoTextInParseWindow,
    Unknown,
    Error,
    NotClassifiedByBudget,
}

impl PdfClassificationStatus {
    /// The name of the status, as it stands in messages.
    pub open spec fn name_spec(self) -> Seq<char> {
        match self {
            PdfClassificationStatus::TextInParseWindow => "TextInParseWindow"@,
            PdfClassificationStatus::NoTextInParseWindow => "NoTextInParseWindow"@,
            PdfClassificationStatus::Unknown => "Unknown"@,
            PdfClassificationStatus::Error => "Error"@,
            PdfClassificationStatus::NotClassifiedByBudget => "NotClassifiedByBudget"@,
        }
    }

    /// The name of the status, as it stands in messages.
    pub fn name(self) -> (text: &'static str)
        ensures
            text@ == self.name_spec(),
    {
        match self {
            PdfClassificationStatus::TextInParseWindow => "TextInParseWindow",
            PdfClassificationStatus::NoTextInParseWindow => "NoTextInParseWindow",
            PdfClassificationStatus::Unknown => "Unknown",
            PdfClassificationStatus::Error => "Error",
            PdfClassificationStatus::NotClassifiedByBudget => "NotClassifiedByBudget",
        }
    }
}

/// The parser route of an admitted file.
#[derive(Clone, Copy, Debug, PartialEq, Eq, Structural)]
pub enum RouteKind {
    LightText,
    RustOffice,
    RustXlsx,
    Pdf,
    PythonOffice,
    PythonSharepointText,
}

/// The parser route that a request is sent on.
#[derive(Clone, Copy, Debug, PartialEq, Eq, Structural)]
pub enum ParserRoute {
    LightText,
    RustOffice,
    RustXlsx,
    Pdf,
    PythonOffice,
    PythonSharepointText,
}

/// How severe a run diagnostic is.
#[derive(Clone, Copy, Debug, PartialEq, Eq, Structural)]
pub enum DiagnosticSeverity {
    Warning,
    Error,
}

impl DiagnosticSeverity {
    /// The stored text of the severity.
    pub open spec fn as_str_spec(self) -> Seq<char> {
        match self {
            DiagnosticSeverity::Warning => "warning"@,
            DiagnosticSeverity::Error => "error"@,
        }
    }

    /// The stored text of the severity.
    pub fn as_str(self) -> (text: &'static str)
        ensures
            text@ == self.as_str_spec(),
    {
        match self {
            DiagnosticSeverity::Warning => "warning",
            DiagnosticSeverity::Error => "error",
        }
    }
}

/// One reported condition.
#[derive(Debug, PartialEq, Eq)]
pub struct Diagnostic {
    pub error_code: ErrorCode,
    pub message: String,
    pub retryable: bool,
    pub stage: DiagnosticStage,
    pub file_path: Option<String>,
    pub backend: Option<String>,
}

/// What a [`Diagnostic`] says.
#[verifier::ext_equal]
pub struct DiagnosticView {
    pub error_code: ErrorCode,
    pub message: Seq<char>,
    pub retryable: bool,
    pub stage: DiagnosticStage,
    pub file_path: Option<Seq<char>>,
    pub backend: Option<Seq<char>>,
}

impl View for Diagnostic {
    type V = DiagnosticView;

    open spec fn view(&self) -> DiagnosticView {
        DiagnosticView {
            error_code: self.error_code,
            message: self.message@,
            retryable: self.retryable,
            stage: self.stage,
            file_path: opt_view(self.file_path),
            backend: opt_view(self.backend),
        }
    }
}

impl Clone for Diagnostic {
    fn clone(&self) -> (copy: Self)
        ensures
            copy@ == self@,
            copy == *self,
    {
        Diagnostic {
            error_code: self.error_code,
            message: self.message.clone(),
            retryable: self.retryable,
            stage: self.stage,
            file_path: self.file_path.clone(),
            backend: self.backend.clone(),
        }
    }
}

/// A diagnostic of a run, with its severity.
#[derive(Debug, PartialEq, Eq)]
pub struct RunDiagnosticRecord {
    pub severity: DiagnosticSeverity,
    pub diagnostic: Diagnostic,
}

/// What a [`RunDiagnosticRecord`] says.
#[verifier::ext_equal]
pub struct RunDiagnosticRecordView {
    pub severity: DiagnosticSeverity,
    pub diagnostic: DiagnosticView,
}

impl View for RunDiagnosticRecord {
    type V = RunDiagnosticRecordView;

    open spec fn view(&self) -> RunDiagnosticRecordView {
        RunDiagnosticRecordView {
            severity: self.severity,
            diagnostic: self.diagnostic@,
        }
    }
}

impl Clone for RunDiagnosticRecord {
    fn clone(&self) -> (copy: Self)
        ensures
            copy@ == self@,
            copy == *self,
    {
        RunDiagnosticRecord {
            severity: self.severity,
            diagnostic: self.diagnostic.clone(),
        }
    }
}

/// A source file as discovery observed it.
#[derive(Debug, PartialEq, Eq)]
pub struct DiscoveredFileOut {
    pub file_identity: String,
    pub path: String,
    pub extension: String,
    pub modified_at: String,
    pub size_bytes: u64,
    pub source_version: String,
    pub source_guard_kind: Option<String>,
    pub source_guard_sha256: Option<String>,
}

/// What a [`DiscoveredFileOut`] says.
#[verifier::ext_equal]
pub struct DiscoveredFileOutView {
    pub file_identity: Seq<char>,
    pub path: Seq<char>,
    pub extension: Seq<char>,
    pub modified_at: Seq<char>,
    pub size_bytes: u64,
    pub source_version: Seq<char>,
    pub source_guard_kind: Option<Seq<char>>,
    pub source_guard_sha256: Option<Seq<char>>,
}

impl View for DiscoveredFileOut {
    type V = DiscoveredFileOutView;

    open spec fn view(&self) -> DiscoveredFileOutView {
        DiscoveredFileOutView {
            file_identity: self.file_identity@,
            path: self.path@,
            extension: self.extension@,
            modified_at: self.modified_at@,
            size_bytes: self.size_bytes,
            source_version: self.source_version@,
            source_guard_kind: opt_view(self.source_guard_kind),
            source_guard_sha256: opt_view(self.source_guard_sha256),
        }
    }
}

impl Clone for DiscoveredFileOut {
    fn clone(&self) -> (copy: Self)
        ensures
            copy@ == self@,
            copy == *self,
    {
        DiscoveredFileOut {
            file_identity: self.file_identity.clone(),
            path: self.path.clone(),
            extension: self.extension.clone(),
            modified_at: self.modified_at.clone(),
            size_bytes: self.size_bytes,
            source_version: self.source_version.clone(),
            source_guard_kind: self.source_guard_kind.clone(),
            source_guard_sha256: self.source_guard_sha256.clone(),
        }
    }
}

/// An entry that discovery could not read.
#[derive(Debug, PartialEq, Eq)]
pub struct DiscoveryIssue {
    pub path: Option<String>,
    pub message: String,
}

/// What a [`DiscoveryIssue`] says.
#[verifier::ext_equal]
pub struct DiscoveryIssueView {
    pub path: Option<Seq<char>>,
    pub message: Seq<char>,
}

impl View for DiscoveryIssue {
    type V = DiscoveryIssueView;

    open spec fn view(&self) -> DiscoveryIssueView {
        DiscoveryIssueView {
            path: opt_view(self.path),
            message: self.message@,
        }
    }
}

impl Clone for DiscoveryIssue {
    fn clone(&self) -> (copy: Self)
        ensures
            copy@ == self@,
            copy == *self,
    {
        DiscoveryIssue {
            path: self.path.clone(),
            message: self.message.clone(),
        }
    }
}

/// Item count and duration of one stage.
#[derive(Clone, Copy, Debug, PartialEq, Eq, Structural)]
pub struct StageMetric {
    pub stage: StageName,
    pub item_count: u64,
    pub duration_ms: u64,
}

/// Counts and durations of the files of one extension.
#[derive(Debug, PartialEq, Eq)]
pub struct ExtensionMetric {
    pub extension: String,
    pub file_count: u64,
    pub parse_duration_ms: u64,
    pub success_count: u64,
    pub error_count: u64,
    pub timeout_count: u64,
}

/// What a [`ExtensionMetric`] says.
#[verifier::ext_equal]
pub struct ExtensionMetricView {
    pub extension: Seq<char>,
    pub file_count: u64,
    pub parse_duration_ms: u64,
    pub success_count: u64,
    pub error_count: u64,
    pub timeout_count: u64,
}

impl View for ExtensionMetric {
    type V = ExtensionMetricView;

    open spec fn view(&self) -> ExtensionMetricView {
        ExtensionMetricView {
            extension: self.extension@,
            file_count: self.file_count,
            parse_duration_ms: self.parse_duration_ms,
            success_count: self.success_count,
            error_count: self.error_count,
            timeout_count: self.timeout_count,
        }
    }
}

impl Clone for ExtensionMetric {
    fn clone(&self) -> (copy: Self)
        ensures
            copy@ == self@,
            copy == *self,
    {
        ExtensionMetric {
            extension: self.extension.clone(),
            file_count: self.file_count,
            parse_duration_ms: self.parse_duration_ms,
            success_count: self.success_count,
            error_count: self.error_count,
            timeout_count: self.timeout_count,
        }
    }
}

/// Totals of a rendered context.
#[derive(Clone, Copy, Debug, PartialEq, Eq, Structural)]
pub struct ContextSummary {
    pub source_file_count: u64,
    pub success_count: u64,
    pub timeout_count: u64,
    pub included_file_count: u64,
    pub omitted_file_count: u64,
    pub error_file_count: u64,
    pub input_chars: u64,
    pub output_chars: u64,
    pub total_duration_ms: u64,
    pub discovery_duration_ms: u64,
    pub parse_duration_ms: u64,
    pub compression_duration_ms: u64,
}

/// What the context did with one file, and why.
#[derive(Debug, PartialEq, Eq)]
pub struct ContextDecision {
    pub relative_path: String,
    pub action: ContextAction,
    pub reason: String,
    pub priority: u64,
    pub input_chars: u64,
    pub output_chars: u64,
    pub truncated: bool,
    pub error_code: String,
}

/// What a [`ContextDecision`] says.
#[verifier::ext_equal]
pub struct ContextDecisionView {
    pub relative_path: Seq<char>,
    pub action: ContextAction,
    pub reason: Seq<char>,
    pub priority: u64,
    pub input_chars: u64,
    pub output_chars: u64,
    pub truncated: bool,
    pub error_code: Seq<char>,
}

impl View for ContextDecision {
    type V = ContextDecisionView;

    open spec fn view(&self) -> ContextDecisionView {
        ContextDecisionView {
            relative_path: self.relative_path@,
            action: self.action,
            reason: self.reason@,
            priority: self.priority,
            input_chars: self.input_chars,
            output_chars: self.output_chars,
            truncated: self.truncated,
            error_code: self.error_code@,
        }
    }
}

impl Clone for ContextDecision {
    fn clone(&self) -> (copy: Self)
        ensures
            copy@ == self@,
            copy == *self,
    {
        ContextDecision {
            relative_path: self.relative_path.clone(),
            action: self.action,
            reason: self.reason.clone(),
            priority: self.priority,
            input_chars: self.input_chars,
            output_chars: self.output_chars,
            truncated: self.truncated,
            error_code: self.error_code.clone(),
        }
    }
}

/// A context decision with the identity of its file.
#[derive(Debug, PartialEq, Eq)]
pub struct ContextDecisionRecord {
    pub file_identity: String,
    pub decision: ContextDecision,
}

/// What a [`ContextDecisionRecord`] says.
#[verifier::ext_equal]
pub struct ContextDecisionRecordView {
    pub file_identity: Seq<char>,
    pub decision: ContextDecisionView,
}

impl View for ContextDecisionRecord {
    type V = ContextDecisionRecordView;

    open spec fn view(&self) -> ContextDecisionRecordView {
        ContextDecisionRecordView {
            file_identity: self.file_identity@,
            decision: self.decision@,
        }
    }
}

impl Clone for ContextDecisionRecord {
    fn clone(&self) -> (copy: Self)
        ensures
            copy@ == self@,
            copy == *self,
    {
        ContextDecisionRecord {
            file_identity: self.file_identity.clone(),
            decision: self.decision.clone(),
        }
    }
}

/// The context that a run commits.
#[derive(Debug, PartialEq, Eq)]
pub struct ContextRunRecord {
    pub context_profile_hash: String,
    pub status: RunStatus,
    pub final_context: String,
    pub context_sha256: String,
    pub summary: ContextSummary,
    pub decisions: Vec<ContextDecisionRecord>,
}

/// What a [`ContextRunRecord`] says.
#[verifier::ext_equal]
pub struct ContextRunRecordView {
    pub context_profile_hash: Seq<char>,
    pub status: RunStatus,
    pub final_context: Seq<char>,
    pub context_sha256: Seq<char>,
    pub summary: ContextSummary,
    pub decisions: Seq<ContextDecisionRecordView>,
}

impl View for ContextRunRecord {
    type V = ContextRunRecordView;

    open spec fn view(&self) -> ContextRunRecordView {
        ContextRunRecordView {
            context_profile_hash: self.context_profile_hash@,
            status: self.status,
            final_context: self.final_context@,
            context_sha256: self.context_sha256@,
            summary: self.summary,
            decisions: views(self.decisions@),
        }
    }
}

impl Clone for ContextRunRecord {
    fn clone(&self) -> (copy: Self)
        ensures
            copy@ == self@,
    {
        ContextRunRecord {
            context_profile_hash: self.context_profile_hash.clone(),
            status: self.status,
            final_context: self.final_context.clone(),
            context_sha256: self.context_sha256.clone(),
            summary: self.summary,
            decisions: clone_all(&self.decisions),
        }
    }
}

/// Each error code is told by its own name.
pub proof fn law_error_codes_have_names_of_their_own(code: ErrorCode)
    ensures
        code.text_spec() == "BUDGET_MODEL_MISMATCH"@ <==> code == ErrorCode::BudgetModelMismatch,
        code.text_spec() == "CACHE_OPEN_FAILED"@ <==> code == ErrorCode::CacheOpenFailed,
        code.text_spec() == "CACHE_WRITE_FAILED"@ <==> code == ErrorCode::CacheWriteFailed,
        code.text_spec() == "CONTEXT_FIXED_SECTIONS_OVER_BUDGET"@ <==> code
            == ErrorCode::ContextFixedSectionsOverBudget,
        code.text_spec() == "DIAGNOSTICS_AGGREGATED"@ <==> code == ErrorCode::DiagnosticsAggregated,
        code.text_spec() == "DISCOVERY_ENTRY_UNREADABLE"@ <==> code
            == ErrorCode::DiscoveryEntryUnreadable,
        code.text_spec() == "FILE_TOO_LARGE"@ <==> code == ErrorCode::FileTooLarge,
        code.text_spec() == "INTERNAL_ERROR"@ <==> code == ErrorCode::InternalError,
        code.text_spec() == "INVALID_REQUEST"@ <==> code == ErrorCode::InvalidRequest,
        code.text_spec() == "MAINTENANCE_MODE_UNAVAILABLE"@ <==> code
            == ErrorCode::MaintenanceModeUnavailable,
        code.text_spec() == "PARSER_FAILED"@ <==> code == ErrorCode::ParserFailed,
        code.text_spec() == "PARSER_INVALID_PAYLOAD"@ <==> code == ErrorCode::ParserInvalidPayload,
        code.text_spec() == "PARSER_START_FAILED"@ <==> code == ErrorCode::ParserStartFailed,
        code.text_spec() == "PARSER_TIMEOUT"@ <==> code == ErrorCode::ParserTimeout,
        code.text_spec() == "PROFILE_ROUTE_INVARIANT"@ <==> code
            == ErrorCode::ProfileRouteInvariant,
        code.text_spec() == "REQUEST_ID_CONFLICT"@ <==> code == ErrorCode::RequestIdConflict,
        code.text_spec() == "REQUEST_IN_PROGRESS"@ <==> code == ErrorCode::RequestInProgress,
        code.text_spec() == "RUN_CORRUPT"@ <==> code == ErrorCode::RunCorrupt,
        code.text_spec() == "RUN_NOT_FOUND"@ <==> code == ErrorCode::RunNotFound,
        code.text_spec() == "SCAN_ALREADY_RUNNING"@ <==> code == ErrorCode::ScanAlreadyRunning,
        code.text_spec() == "SCHEMA_MIGRATION_FAILED"@ <==> code
            == ErrorCode::SchemaMigrationFailed,
        code.text_spec() == "SCHEMA_UPGRADE_REQUIRED"@ <==> code
            == ErrorCode::SchemaUpgradeRequired,
        code.text_spec() == "SOURCE_FILE_LIMIT_EXCEEDED"@ <==> code
            == ErrorCode::SourceFileLimitExceeded,
        code.text_spec() == "SOURCE_GUARD_UNAVAILABLE"@ <==> code
            == ErrorCode::SourceGuardUnavailable,
        code.text_spec() == "SOURCE_VERSION_CHANGED"@ <==> code == ErrorCode::SourceVersionChanged,
        code.text_spec() == "STAGE_DEADLINE_EXHAUSTED"@ <==> code
            == ErrorCode::StageDeadlineExhausted,
        code.text_spec() == "WORKER_BUILD_CHANGED"@ <==> code == ErrorCode::WorkerBuildChanged,
        code.text_spec() == "WORKER_HANDSHAKE_FAILED"@ <==> code
            == ErrorCode::WorkerHandshakeFailed,
        code.text_spec() == "WORKER_VERSION_MISMATCH"@ <==> code
            == ErrorCode::WorkerVersionMismatch,
{
    reveal_strlit("BUDGET_MODEL_MISMATCH");
    reveal_strlit("CACHE_OPEN_FAILED");
    reveal_strlit("CACHE_WRITE_FAILED");
    reveal_strlit("CONTEXT_FIXED_SECTIONS_OVER_BUDGET");
    reveal_strlit("DIAGNOSTICS_AGGREGATED");
    reveal_strlit("DISCOVERY_ENTRY_UNREADABLE");
    reveal_strlit("FILE_TOO_LARGE");
    reveal_strlit("INTERNAL_ERROR");
    reveal_strlit("INVALID_REQUEST");
    reveal_strlit("MAINTENANCE_MODE_UNAVAILABLE");
    reveal_strlit("PARSER_FAILED");
    reveal_strlit("PARSER_INVALID_PAYLOAD");
    reveal_strlit("PARSER_START_FAILED");
    reveal_strlit("PARSER_TIMEOUT");
    reveal_strlit("PROFILE_ROUTE_INVARIANT");
    reveal_strlit("REQUEST_ID_CONFLICT");
    reveal_strlit("REQUEST_IN_PROGRESS");
    reveal_strlit("RUN_CORRUPT");
    reveal_strlit("RUN_NOT_FOUND");
    reveal_strlit("SCAN_ALREADY_RUNNING");
    reveal_strlit("SCHEMA_MIGRATION_FAILED");
    reveal_strlit("SCHEMA_UPGRADE_REQUIRED");
    reveal_strlit("SOURCE_FILE_LIMIT_EXCEEDED");
    reveal_strlit("SOURCE_GUARD_UNAVAILABLE");
    reveal_strlit("SOURCE_VERSION_CHANGED");
    reveal_strlit("STAGE_DEADLINE_EXHAUSTED");
    reveal_strlit("WORKER_BUILD_CHANGED");
    reveal_strlit("WORKER_HANDSHAKE_FAILED");
    reveal_strlit("WORKER_VERSION_MISMATCH");
    assert("BUDGET_MODEL_MISMATCH"@.len() == 21);
    assert("CACHE_OPEN_FAILED"@.len() == 17);
    assert("CACHE_WRITE_FAILED"@.len() == 18);
    assert("CONTEXT_FIXED_SECTIONS_OVER_BUDGET"@.len() == 34);
    assert("DIAGNOSTICS_AGGREGATED"@.len() == 22);
    assert("DISCOVERY_ENTRY_UNREADABLE"@.len() == 26);
    assert("FILE_TOO_LARGE"@.len() == 14);
    assert("INTERNAL_ERROR"@.len() == 14);
    assert("INVALID_REQUEST"@.len() == 15);
    assert("MAINTENANCE_MODE_UNAVAILABLE"@.len() == 28);
    assert("PARSER_FAILED"@.len() == 13);
    assert("PARSER_INVALID_PAYLOAD"@.len() == 22);
    assert("PARSER_START_FAILED"@.len() == 19);
    assert("PARSER_TIMEOUT"@.len() == 14);
    assert("PROFILE_ROUTE_INVARIANT"@.len() == 23);
    assert("REQUEST_ID_CONFLICT"@.len() == 19);
    assert("REQUEST_IN_PROGRESS"@.len() == 19);
    assert("RUN_CORRUPT"@.len() == 11);
    assert("RUN_NOT_FOUND"@.len() == 13);
    assert("SCAN_ALREADY_RUNNING"@.len() == 20);
    assert("SCHEMA_MIGRATION_FAILED"@.len() == 23);
    assert("SCHEMA_UPGRADE_REQUIRED"@.len() == 23);
    assert("SOURCE_FILE_LIMIT_EXCEEDED"@.len() == 26);
    assert("SOURCE_GUARD_UNAVAILABLE"@.len() == 24);
    assert("SOURCE_VERSION_CHANGED"@.len() == 22);
    assert("STAGE_DEADLINE_EXHAUSTED"@.len() == 24);
    assert("WORKER_BUILD_CHANGED"@.len() == 20);
    assert("WORKER_HANDSHAKE_FAILED"@.len() == 23);
    assert("WORKER_VERSION_MISMATCH"@.len() == 23);
    assert("DIAGNOSTICS_AGGREGATED"@[0] == 'D');
    assert("PARSER_INVALID_PAYLOAD"@[0] == 'P');
    assert("SOURCE_VERSION_CHANGED"@[0] == 'S');
    assert("DISCOVERY_ENTRY_UNREADABLE"@[0] == 'D');
    assert("SOURCE_FILE_LIMIT_EXCEEDED"@[0] == 'S');
    assert("FILE_TOO_LARGE"@[0] == 'F');
    assert("INTERNAL_ERROR"@[0] == 'I');
    assert("PARSER_TIMEOUT"@[0] == 'P');
    assert("PARSER_FAILED"@[0] == 'P');
    assert("RUN_NOT_FOUND"@[0] == 'R');
    assert("PARSER_START_FAILED"@[9] == 'A');
    assert("REQUEST_ID_CONFLICT"@[9] == 'D');
    assert("REQUEST_IN_PROGRESS"@[9] == 'N');
    assert("PROFILE_ROUTE_INVARIANT"@[7] == '_');
    assert("SCHEMA_MIGRATION_FAILED"@[7] == 'M');
    assert("SCHEMA_UPGRADE_REQUIRED"@[7] == 'U');
    assert("WORKER_HANDSHAKE_FAILED"@[7] == 'H');
    assert("WORKER_VERSION_MISMATCH"@[7] == 'V');
    assert("SCAN_ALREADY_RUNNING"@[0] == 'S');
    assert("WORKER_BUILD_CHANGED"@[0] == 'W');
    assert("SOURCE_GUARD_UNAVAILABLE"@[1] == 'O');
    assert("STAGE_DEADLINE_EXHAUSTED"@[1] == 'T');
}

/// Each stage of a diagnostic is told by its own name.
pub proof fn law_diagnostic_stages_have_names_of_their_own(stage: DiagnosticStage)
    ensures
        stage.text_spec() == "cache"@ <==> stage == DiagnosticStage::Cache,
        stage.text_spec() == "context"@ <==> stage == DiagnosticStage::Context,
        stage.text_spec() == "discovery"@ <==> stage == DiagnosticStage::Discovery,
        stage.text_spec() == "internal"@ <==> stage == DiagnosticStage::Internal,
        stage.text_spec() == "maintenance"@ <==> stage == DiagnosticStage::Maintenance,
        stage.text_spec() == "parse"@ <==> stage == DiagnosticStage::Parse,
        stage.text_spec() == "process"@ <==> stage == DiagnosticStage::Process,
{
    reveal_strlit("cache");
    reveal_strlit("context");
    reveal_strlit("discovery");
    reveal_strlit("internal");
    reveal_strlit("maintenance");
    reveal_strlit("parse");
    reveal_strlit("process");
    assert("cache"@.len() == 5);
    assert("context"@.len() == 7);
    assert("discovery"@.len() == 9);
    assert("internal"@.len() == 8);
    assert("maintenance"@.len() == 11);
    assert("parse"@.len() == 5);
    assert("process"@.len() == 7);
    assert("cache"@[0] == 'c');
    assert("parse"@[0] == 'p');
    assert("context"@[0] == 'c');
    assert("process"@[0] == 'p');
}

/// Each end of a parse is told by its own name.
pub proof fn law_parse_statuses_have_names_of_their_own(status: ParseStatus)
    ensures
        status.text_spec() == "success"@ <==> status == ParseStatus::Success,
        status.text_spec() == "error"@ <==> status == ParseStatus::Error,
        status.text_spec() == "timeout"@ <==> status == ParseStatus::Timeout,
        status.text_spec() == "not_parsed"@ <==> status == ParseStatus::NotParsed,
{
    reveal_strlit("success");
    reveal_strlit("error");
    reveal_strlit("timeout");
    reveal_strlit("not_parsed");
    assert("success"@.len() == 7);
    assert("error"@.len() == 5);
    assert("timeout"@.len() == 7);
    assert("not_parsed"@.len() == 10);
    assert("success"@[0] == 's');
    assert("timeout"@[0] == 't');
}

/// A hit and a miss of the cache are told by their names.
pub proof fn law_cache_statuses_have_names_of_their_own(status: CacheStatus)
    ensures
        status.text_spec() == "fresh"@ <==> status == CacheStatus::Fresh,
        status.text_spec() == "miss"@ <==> status == CacheStatus::Miss,
{
    reveal_strlit("fresh");
    reveal_strlit("miss");
    assert("fresh"@.len() == 5);
    assert("miss"@.len() == 4);
}

/// Each reason for a miss is told by its own name, and no reason by none.
pub proof fn law_miss_reasons_have_names_of_their_own(reason: CacheMissReason)
    ensures
        reason.text_spec() == ""@ <==> reason == CacheMissReason::NotMissed,
        reason.text_spec() == "new_file"@ <==> reason == CacheMissReason::NewFile,
        reason.text_spec() == "error_cache"@ <==> reason == CacheMissReason::ErrorCache,
        reason.text_spec() == "source_version_changed"@ <==> reason
            == CacheMissReason::SourceVersionChanged,
        reason.text_spec() == "parser_profile_changed"@ <==> reason
            == CacheMissReason::ParserProfileChanged,
        reason.text_spec() == "parser_identity_changed"@ <==> reason
            == CacheMissReason::ParserIdentityChanged,
        reason.text_spec() == "entry_absent_or_evicted"@ <==> reason
            == CacheMissReason::EntryAbsentOrEvicted,
{
    reveal_strlit("");
    reveal_strlit("new_file");
    reveal_strlit("error_cache");
    reveal_strlit("source_version_changed");
    reveal_strlit("parser_profile_changed");
    reveal_strlit("parser_identity_changed");
    reveal_strlit("entry_absent_or_evicted");
    assert(""@.len() == 0);
    assert("new_file"@.len() == 8);
    assert("error_cache"@.len() == 11);
    assert("source_version_changed"@.len() == 22);
    assert("parser_profile_changed"@.len() == 22);
    assert("parser_identity_changed"@.len() == 23);
    assert("entry_absent_or_evicted"@.len() == 23);
    assert("parser_profile_changed"@[0] == 'p');
    assert("source_version_changed"@[0] == 's');
    assert("entry_absent_or_evicted"@[0] == 'e');
    assert("parser_identity_changed"@[0] == 'p');
}

/// Each worker lane is told by its own name.
pub proof fn law_lanes_have_names_of_their_own(lane: AuditWorkerLane)
    ensures
        lane.text_spec() == "rust_core"@ <==> lane == AuditWorkerLane::RustCore,
        lane.text_spec() == "rust_office_process"@ <==> lane == AuditWorkerLane::RustOfficeProcess,
        lane.text_spec() == "python_document_process"@ <==> lane
            == AuditWorkerLane::PythonDocumentProcess,
        lane.text_spec() == "not_parsed"@ <==> lane == AuditWorkerLane::NotParsed,
{
    reveal_strlit("rust_core");
    reveal_strlit("rust_office_process");
    reveal_strlit("python_document_process");
    reveal_strlit("not_parsed");
    assert("rust_core"@.len() == 9);
    assert("rust_office_process"@.len() == 19);
    assert("python_document_process"@.len() == 23);
    assert("not_parsed"@.len() == 10);
}

/// Each transport of a parse is told by its own name.
pub proof fn law_transports_have_names_of_their_own(transport: ParseTransport)
    ensures
        transport.text_spec() == "rust_in_process"@ <==> transport == ParseTransport::RustInProcess,
        transport.text_spec() == "session"@ <==> transport == ParseTransport::Session,
        transport.text_spec() == "one_shot"@ <==> transport == ParseTransport::OneShot,
        transport.text_spec() == "not_applicable"@ <==> transport == ParseTransport::NotApplicable,
{
    reveal_strlit("rust_in_process");
    reveal_strlit("session");
    reveal_strlit("one_shot");
    reveal_strlit("not_applicable");
    assert("rust_in_process"@.len() == 15);
    assert("session"@.len() == 7);
    assert("one_shot"@.len() == 8);
    assert("not_applicable"@.len() == 14);
}

/// Each state of a run is told by its own name.
pub proof fn law_run_statuses_have_names_of_their_own(status: RunStatus)
    ensures
        status.text_spec() == "running"@ <==> status == RunStatus::Running,
        status.text_spec() == "success"@ <==> status == RunStatus::Success,
        status.text_spec() == "partial"@ <==> status == RunStatus::Partial,
        status.text_spec() == "error"@ <==> status == RunStatus::Error,
        status.text_spec() == "abandoned"@ <==> status == RunStatus::Abandoned,
{
    reveal_strlit("running");
    reveal_strlit("success");
    reveal_strlit("partial");
    reveal_strlit("error");
    reveal_strlit("abandoned");
    assert("running"@.len() == 7);
    assert("success"@.len() == 7);
    assert("partial"@.len() == 7);
    assert("error"@.len() == 5);
    assert("abandoned"@.len() == 9);
    assert("partial"@[0] == 'p');
    assert("running"@[0] == 'r');
    assert("success"@[0] == 's');
}

/// Each status of an answer is told by its own name.
pub proof fn law_engine_statuses_have_names_of_their_own(status: EngineStatus)
    ensures
        status.text_spec() == "ok"@ <==> status == EngineStatus::Complete,
        status.text_spec() == "partial"@ <==> status == EngineStatus::Partial,
        status.text_spec() == "error"@ <==> status == EngineStatus::Error,
{
    reveal_strlit("ok");
    reveal_strlit("partial");
    reveal_strlit("error");
    assert("ok"@.len() == 2);
    assert("partial"@.len() == 7);
    assert("error"@.len() == 5);
}

/// Each stage of a run is told by its own name.
pub proof fn law_stages_have_names_of_their_own(stage: StageName)
    ensures
        stage.text_spec() == "discovery"@ <==> stage == StageName::Discovery,
        stage.text_spec() == "cache"@ <==> stage == StageName::Cache,
        stage.text_spec() == "parse"@ <==> stage == StageName::Parse,
        stage.text_spec() == "context"@ <==> stage == StageName::Context,
{
    reveal_strlit("discovery");
    reveal_strlit("cache");
    reveal_strlit("parse");
    reveal_strlit("context");
    assert("discovery"@.len() == 9);
    assert("cache"@.len() == 5);
    assert("parse"@.len() == 5);
    assert("context"@.len() == 7);
    assert("cache"@[0] == 'c');
    assert("parse"@[0] == 'p');
}

/// Each way in which a file goes into the context is told by its own name.
pub proof fn law_context_actions_have_names_of_their_own(action: ContextAction)
    ensures
        action.text_spec() == "keep"@ <==> action == ContextAction::Keep,
        action.text_spec() == "compress"@ <==> action == ContextAction::Compress,
        action.text_spec() == "metadata_only"@ <==> action == ContextAction::MetadataOnly,
        action.text_spec() == "omit"@ <==> action == ContextAction::Omit,
        action.text_spec() == "error"@ <==> action == ContextAction::Error,
{
    reveal_strlit("keep");
    reveal_strlit("compress");
    reveal_strlit("metadata_only");
    reveal_strlit("omit");
    reveal_strlit("error");
    assert("keep"@.len() == 4);
    assert("compress"@.len() == 8);
    assert("metadata_only"@.len() == 13);
    assert("omit"@.len() == 4);
    assert("error"@.len() == 5);
    assert("keep"@[0] == 'k');
    assert("omit"@[0] == 'o');
}

/// Each outcome of a classification is told by its own name.
pub proof fn law_classifications_have_names_of_their_own(status: PdfClassificationStatus)
    ensures
        status.name_spec() == "TextInParseWindow"@ <==> status
            == PdfClassificationStatus::TextInParseWindow,
        status.name_spec() == "NoTextInParseWindow"@ <==> status
            == PdfClassificationStatus::NoTextInParseWindow,
        status.name_spec() == "Unknown"@ <==> status == PdfClassificationStatus::Unknown,
        status.name_spec() == "Error"@ <==> status == PdfClassificationStatus::Error,
        status.name_spec() == "NotClassifiedByBudget"@ <==> status
            == PdfClassificationStatus::NotClassifiedByBudget,
{
    reveal_strlit("TextInParseWindow");
    reveal_strlit("NoTextInParseWindow");
    reveal_strlit("Unknown");
    reveal_strlit("Error");
    reveal_strlit("NotClassifiedByBudget");
    assert("TextInParseWindow"@.len() == 17);
    assert("NoTextInParseWindow"@.len() == 19);
    assert("Unknown"@.len() == 7);
    assert("Error"@.len() == 5);
    assert("NotClassifiedByBudget"@.len() == 21);
}

/// A warning and an error are told by their names.
pub proof fn law_severities_have_names_of_their_own(severity: DiagnosticSeverity)
    ensures
        severity.as_str_spec() == "warning"@ <==> severity == DiagnosticSeverity::Warning,
        severity.as_str_spec() == "error"@ <==> severity == DiagnosticSeverity::Error,
{
    reveal_strlit("warning");
    reveal_strlit("error");
    assert("warning"@.len() == 7);
    assert("error"@.len() == 5);
}

} // verus!
