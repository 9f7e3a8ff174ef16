//! Records that the stages of a run hand to each other.
use crate::contract::{
    clone_all, opt_view, views, AuditWorkerLane, CacheMissReason, CacheStatus, Diagnostic,
    DiagnosticStage, DiagnosticView, DiscoveredFileOut, DiscoveredFileOutView, ErrorCode,
    ParseStatus, ParseTransport, RouteKind,
};
use crate::ordered::{TextMap, TextSet};
use crate::scheduler::plan::map_views;
use crate::store::cache::{
    CacheLookup, CacheLookupView, CacheWriteRecord, CacheWriteRecordView,
    ClassificationCacheWriteRecord, ClassificationCacheWriteRecordView,
};
use crate::text::{capped, take_chars};
use vstd::prelude::*;

verus! {

/// Milliseconds kept back at the end of a run for its envelope and its commit.
pub const FINALIZATION_RESERVE_MS: u64 = 2_000;

/// The most source files that one run takes.
pub const MAX_SOURCE_FILES_PER_RUN: u64 = 1_000_000;

/// The longest message of a diagnostic, in characters.
pub const MAX_MESSAGE_CHARS: usize = 4_096;

/// Why a cache operation failed.
#[derive(Debug, PartialEq, Eq)]
pub enum CachePortError {
    Store { detail: String },
    InvalidKey { detail: String },
}

impl CachePortError {
    /// The diagnostic that reports the failure. Only a failure of the store may be
    /// retried.
    pub fn diagnostic(&self, stage: DiagnosticStage) -> (diagnostic: Diagnostic)
        ensures
            diagnostic@ == self.diagnostic_view(stage),
    {
        match self {
            CachePortError::Store { detail } => Diagnostic {
                error_code: ErrorCode::CacheWriteFailed,
                message: detail.clone(),
                retryable: true,
                stage,
                file_path: None,
                backend: None,
            },
            CachePortError::InvalidKey { detail } => Diagnostic {
                error_code: ErrorCode::InvalidRequest,
                message: detail.clone(),
                retryable: false,
                stage,
                file_path: None,
                backend: None,
            },
        }
    }

    /// The diagnostic that reports the failure.
    pub open spec fn diagnostic_view(self, stage: DiagnosticStage) -> DiagnosticView {
        match self {
            CachePortError::Store { detail } => DiagnosticView {
                error_code: ErrorCode::CacheWriteFailed,
                message: detail@,
                retryable: true,
                stage,
                file_path: None,
                backend: None,
            },
            CachePortError::InvalidKey { detail } => DiagnosticView {
                error_code: ErrorCode::InvalidRequest,
                message: detail@,
                retryable: false,
                stage,
                file_path: None,
                backend: None,
            },
        }
    }
}

/// A run that cannot form an outcome.
#[derive(Debug, PartialEq, Eq)]
pub struct SchedulerFailure {
    pub diagnostic: Diagnostic,
}

impl SchedulerFailure {
    /// A failure with the given diagnostic; a long message is cut.
    pub fn new(error_code: ErrorCode, message: String, retryable: bool, stage: DiagnosticStage) -> (
    failure: Self)
        ensures
            failure.diagnostic@ == (DiagnosticView {
                error_code,
                message: capped(message@, MAX_MESSAGE_CHARS as int),
                retryable,
                stage,
                file_path: None,
                backend: None,
            }),
    {
        SchedulerFailure {
            diagnostic: Diagnostic {
                error_code,
                message: take_chars(message.as_str(), MAX_MESSAGE_CHARS),
                retryable,
                stage,
                file_path: None,
                backend: None,
            },
        }
    }

    /// An internal failure.
    pub fn internal(message: &str) -> (failure: Self)
        ensures
            failure.diagnostic@ == internal_failure(message@),
    {
        Self::new(ErrorCode::InternalError, message.to_string(), false, DiagnosticStage::Internal)
    }
}

/// The diagnostic of an internal failure.
pub open spec fn internal_failure(message: Seq<char>) -> DiagnosticView {
    DiagnosticView {
        error_code: ErrorCode::InternalError,
        message: capped(message, MAX_MESSAGE_CHARS as int),
        retryable: false,
        stage: DiagnosticStage::Internal,
        file_path: None,
        backend: None,
    }
}

/// How a run ends.
#[derive(Clone, Copy, Debug, PartialEq, Eq, Structural)]
pub enum TerminalIntent {
    Success,
    Partial,
    Error,
}

/// Verified identities of the workers of a run.
#[derive(Debug, PartialEq, Eq)]
pub struct WorkerIdentities {
    pub office_contract: Option<String>,
    pub office_version: Option<String>,
    pub office_build: Option<String>,
    pub python_contract: Option<String>,
    pub python_version: Option<String>,
    pub python_build: Option<String>,
    pub classifier_build: Option<String>,
}

/// What a [`WorkerIdentities`] says.
#[verifier::ext_equal]
pub struct WorkerIdentitiesView {
    pub office_contract: Option<Seq<char>>,
    pub office_version: Option<Seq<char>>,
    pub office_build: Option<Seq<char>>,
    pub python_contract: Option<Seq<char>>,
    pub python_version: Option<Seq<char>>,
    pub python_build: Option<Seq<char>>,
    pub classifier_build: Option<Seq<char>>,
}

impl View for WorkerIdentities {
    type V = WorkerIdentitiesView;

    open spec fn view(&self) -> WorkerIdentitiesView {
        WorkerIdentitiesView {
            office_contract: opt_view(self.office_contract),
            office_version: opt_view(self.office_version),
            office_build: opt_view(self.office_build),
            python_contract: opt_view(self.python_contract),
            python_version: opt_view(self.python_version),
            python_build: opt_view(self.python_build),
            classifier_build: opt_view(self.classifier_build),
        }
    }
}

impl Clone for WorkerIdentities {
    fn clone(&self) -> (copy: Self)
        ensures
            copy@ == self@,
            copy == *self,
    {
        WorkerIdentities {
            office_contract: self.office_contract.clone(),
            office_version: self.office_version.clone(),
            office_build: self.office_build.clone(),
            python_contract: self.python_contract.clone(),
            python_version: self.python_version.clone(),
            python_build: self.python_build.clone(),
            classifier_build: self.classifier_build.clone(),
        }
    }
}

/// A request to parse one file.
#[derive(Debug, PartialEq, Eq)]
pub struct ParseRequest {
    pub file: DiscoveredFileOut,
    pub route: RouteKind,
    pub timeout_ms: u64,
}

/// What a [`ParseRequest`] says.
#[verifier::ext_equal]
pub struct ParseRequestView {
    pub file: DiscoveredFileOutView,
    pub route: RouteKind,
    pub timeout_ms: u64,
}

impl View for ParseRequest {
    type V = ParseRequestView;

    open spec fn view(&self) -> ParseRequestView {
        ParseRequestView {
            file: self.file@,
            route: self.route,
            timeout_ms: self.timeout_ms,
        }
    }
}

impl Clone for ParseRequest {
    fn clone(&self) -> (copy: Self)
        ensures
            copy@ == self@,
            copy == *self,
    {
        ParseRequest {
            file: self.file.clone(),
            route: self.route,
            timeout_ms: self.timeout_ms,
        }
    }
}

/// The result of parsing one file.
#[derive(Debug, PartialEq, Eq)]
pub struct ParseResult {
    pub file_identity: String,
    pub content: String,
    pub parser_backend: String,
    pub worker_lane: String,
    pub truncated: bool,
    pub content_sha256: String,
    pub parse_status: ParseStatus,
    pub error: Option<Diagnostic>,
    pub warnings: Vec<Diagnostic>,
    pub failure_class: String,
    pub fallback_backend: String,
    pub fallback_reason_code: String,
    pub parse_transport: ParseTransport,
    pub parse_attempt_count: u64,
    pub primary_duration_ms: u64,
    pub fallback_duration_ms: u64,
    pub parse_duration_ms: u64,
}

/// What a [`ParseResult`] says.
#[verifier::ext_equal]
pub struct ParseResultView {
    pub file_identity: Seq<char>,
    pub content: Seq<char>,
    pub parser_backend: Seq<char>,
    pub worker_lane: Seq<char>,
    pub truncated: bool,
    pub content_sha256: Seq<char>,
    pub parse_status: ParseStatus,
    pub error: Option<DiagnosticView>,
    pub warnings: Seq<DiagnosticView>,
    pub failure_class: Seq<char>,
    pub fallback_backend: Seq<char>,
    pub fallback_reason_code: Seq<char>,
    pub parse_transport: ParseTransport,
    pub parse_attempt_count: u64,
    pub primary_duration_ms: u64,
    pub fallback_duration_ms: u64,
    pub parse_duration_ms: u64,
}

impl View for ParseResult {
    type V = ParseResultView;

    open spec fn view(&self) -> ParseResultView {
        ParseResultView {
            file_identity: self.file_identity@,
            content: self.content@,
            parser_backend: self.parser_backend@,
            worker_lane: self.worker_lane@,
            truncated: self.truncated,
            content_sha256: self.content_sha256@,
            parse_status: self.parse_status,
            error: opt_view(self.error),
            warnings: views(self.warnings@),
            failure_class: self.failure_class@,
            fallback_backend: self.fallback_backend@,
            fallback_reason_code: self.fallback_reason_code@,
            parse_transport: self.parse_transport,
            parse_attempt_count: self.parse_attempt_count,
            primary_duration_ms: self.primary_duration_ms,
            fallback_duration_ms: self.fallback_duration_ms,
            parse_duration_ms: self.parse_duration_ms,
        }
    }
}

impl Clone for ParseResult {
    fn clone(&self) -> (copy: Self)
        ensures
            copy@ == self@,
    {
        ParseResult {
            file_identity: self.file_identity.clone(),
            content: self.content.clone(),
            parser_backend: self.parser_backend.clone(),
            worker_lane: self.worker_lane.clone(),
            truncated: self.truncated,
            content_sha256: self.content_sha256.clone(),
            parse_status: self.parse_status,
            error: self.error.clone(),
            warnings: clone_all(&self.warnings),
            failure_class: self.failure_class.clone(),
            fallback_backend: self.fallback_backend.clone(),
            fallback_reason_code: self.fallback_reason_code.clone(),
            parse_transport: self.parse_transport,
            parse_attempt_count: self.parse_attempt_count,
            primary_duration_ms: self.primary_duration_ms,
            fallback_duration_ms: self.fallback_duration_ms,
            parse_duration_ms: self.parse_duration_ms,
        }
    }
}

/// What the parse cache said about a file, and the profile hash it was asked with.
#[derive(Debug, PartialEq, Eq)]
pub struct ParseLookupOutcome {
    pub parse_profile_hash: String,
    pub lookup: CacheLookup,
}

/// What a [`ParseLookupOutcome`] says.
#[verifier::ext_equal]
pub struct ParseLookupOutcomeView {
    pub parse_profile_hash: Seq<char>,
    pub lookup: CacheLookupView,
}

impl View for ParseLookupOutcome {
    type V = ParseLookupOutcomeView;

    open spec fn view(&self) -> ParseLookupOutcomeView {
        ParseLookupOutcomeView {
            parse_profile_hash: self.parse_profile_hash@,
            lookup: self.lookup@,
        }
    }
}

/// What the context is told about one file.
#[derive(Debug, PartialEq, Eq)]
pub struct ContextFileEvidence {
    pub file_identity: String,
    pub absolute_path: String,
    pub relative_path: String,
    pub extension: String,
    pub size_bytes: Option<u64>,
    pub content: String,
    pub parser_backend: String,
    pub worker_lane: AuditWorkerLane,
    pub cache_status: CacheStatus,
    pub parse_status: ParseStatus,
    pub truncated: bool,
    pub error: Option<Diagnostic>,
    pub reason: Option<String>,
}

/// What a [`ContextFileEvidence`] says.
#[verifier::ext_equal]
pub struct ContextFileEvidenceView {
    pub file_identity: Seq<char>,
    pub absolute_path: Seq<char>,
    pub relative_path: Seq<char>,
    pub extension: Seq<char>,
    pub size_bytes: Option<u64>,
    pub content: Seq<char>,
    pub parser_backend: Seq<char>,
    pub worker_lane: AuditWorkerLane,
    pub cache_status: CacheStatus,
    pub parse_status: ParseStatus,
    pub truncated: bool,
    pub error: Option<DiagnosticView>,
    pub reason: Option<Seq<char>>,
}

impl View for ContextFileEvidence {
    type V = ContextFileEvidenceView;

    open spec fn view(&self) -> ContextFileEvidenceView {
        ContextFileEvidenceView {
            file_identity: self.file_identity@,
            absolute_path: self.absolute_path@,
            relative_path: self.relative_path@,
            extension: self.extension@,
            size_bytes: self.size_bytes,
            content: self.content@,
            parser_backend: self.parser_backend@,
            worker_lane: self.worker_lane,
            cache_status: self.cache_status,
            parse_status: self.parse_status,
            truncated: self.truncated,
            error: opt_view(self.error),
            reason: opt_view(self.reason),
        }
    }
}

impl Clone for ContextFileEvidence {
    fn clone(&self) -> (copy: Self)
        ensures
            copy@ == self@,
            copy == *self,
    {
        ContextFileEvidence {
            file_identity: self.file_identity.clone(),
            absolute_path: self.absolute_path.clone(),
            relative_path: self.relative_path.clone(),
            extension: self.extension.clone(),
            size_bytes: self.size_bytes,
            content: self.content.clone(),
            parser_backend: self.parser_backend.clone(),
            worker_lane: self.worker_lane,
            cache_status: self.cache_status,
            parse_status: self.parse_status,
            truncated: self.truncated,
            error: self.error.clone(),
            reason: self.reason.clone(),
        }
    }
}

/// Counts that a run collects.
#[derive(Clone, Copy, Debug, PartialEq, Eq)]
pub struct ExecutionMetrics {
    pub discovery_observed_file_count: u64,
    pub source_guard_content_hash_file_count: u64,
    pub source_guard_unavailable_count: u64,
    pub source_guard_bytes_read: u64,
    pub candidate_file_count: u64,
    pub classification_slot_count: u64,
    pub admitted_file_count: u64,
    pub extraction_slot_count: u64,
    pub stage_deadline_exhausted_count: u64,
    pub parse_cache_lookup_count: u64,
    pub classification_cache_lookup_count: u64,
    pub parse_cache_all_hit: Option<bool>,
    pub classification_cache_all_hit: Option<bool>,
    pub classify_attempt_count: u64,
    pub parse_attempt_count: u64,
    pub reserved_chars: u64,
    pub rendered_chars: u64,
    pub deadline_precommit_elapsed_ms: u64,
    pub confirmed_run_inspected_pages_total: u64,
    pub unobserved_classification_attempt_count: u64,
    pub nominal_charged_pages_total: u64,
    pub pdfplumber_invocations: u64,
}

/// Metrics of a run that has counted nothing.
pub open spec fn no_metrics() -> ExecutionMetrics {
    ExecutionMetrics {
        discovery_observed_file_count: 0,
        source_guard_content_hash_file_count: 0,
        source_guard_unavailable_count: 0,
        source_guard_bytes_read: 0,
        candidate_file_count: 0,
        classification_slot_count: 0,
        admitted_file_count: 0,
        extraction_slot_count: 0,
        stage_deadline_exhausted_count: 0,
        parse_cache_lookup_count: 0,
        classification_cache_lookup_count: 0,
        parse_cache_all_hit: None,
        classification_cache_all_hit: None,
        classify_attempt_count: 0,
        parse_attempt_count: 0,
        reserved_chars: 0,
        rendered_chars: 0,
        deadline_precommit_elapsed_ms: 0,
        confirmed_run_inspected_pages_total: 0,
        unobserved_classification_attempt_count: 0,
        nominal_charged_pages_total: 0,
        pdfplumber_invocations: 0,
    }
}

impl Default for ExecutionMetrics {
    fn default() -> (metrics: Self)
        ensures
            metrics == no_metrics(),
    {
        ExecutionMetrics {
            discovery_observed_file_count: 0,
            source_guard_content_hash_file_count: 0,
            source_guard_unavailable_count: 0,
            source_guard_bytes_read: 0,
            candidate_file_count: 0,
            classification_slot_count: 0,
            admitted_file_count: 0,
            extraction_slot_count: 0,
            stage_deadline_exhausted_count: 0,
            parse_cache_lookup_count: 0,
            classification_cache_lookup_count: 0,
            parse_cache_all_hit: None,
            classification_cache_all_hit: None,
            classify_attempt_count: 0,
            parse_attempt_count: 0,
            reserved_chars: 0,
            rendered_chars: 0,
            deadline_precommit_elapsed_ms: 0,
            confirmed_run_inspected_pages_total: 0,
            unobserved_classification_attempt_count: 0,
            nominal_charged_pages_total: 0,
            pdfplumber_invocations: 0,
        }
    }
}

/// What the parse stage of a run brings forth.
pub struct ParseOutputs {
    pub results: TextMap<ParseResult>,
    /// Files that were admitted and not parsed because the deadline had come.
    pub runtime_not_parsed: TextSet,
    pub parse_cache_receipts: Vec<CacheWriteRecord>,
    pub classification_cache_receipts: Vec<ClassificationCacheWriteRecord>,
    pub parse_profile_hashes: TextMap<String>,
    pub parse_cache_status: TextMap<CacheStatus>,
    pub parse_cache_miss_reason: TextMap<CacheMissReason>,
    /// Warnings about cache writes that did not come about.
    pub cache_write_warnings: Vec<Diagnostic>,
    /// Warnings that parsers raised.
    pub parse_warnings: Vec<Diagnostic>,
    /// Files whose parse came from the cache.
    pub parse_fresh_hits: Vec<String>,
}

/// What the parse stage of a run brings forth.
#[verifier::ext_equal]
pub struct ParseOutputsView {
    pub results: Map<Seq<char>, ParseResultView>,
    pub runtime_not_parsed: Set<Seq<char>>,
    pub parse_cache_receipts: Seq<CacheWriteRecordView>,
    pub classification_cache_receipts: Seq<ClassificationCacheWriteRecordView>,
    pub parse_profile_hashes: Map<Seq<char>, Seq<char>>,
    pub parse_cache_status: Map<Seq<char>, CacheStatus>,
    pub parse_cache_miss_reason: Map<Seq<char>, CacheMissReason>,
    pub cache_write_warnings: Seq<DiagnosticView>,
    pub parse_warnings: Seq<DiagnosticView>,
    pub parse_fresh_hits: Seq<Seq<char>>,
}

impl View for ParseOutputs {
    type V = ParseOutputsView;

    open spec fn view(&self) -> ParseOutputsView {
        ParseOutputsView {
            results: map_views(self.results@),
            runtime_not_parsed: self.runtime_not_parsed@,
            parse_cache_receipts: views(self.parse_cache_receipts@),
            classification_cache_receipts: views(self.classification_cache_receipts@),
            parse_profile_hashes: map_views(self.parse_profile_hashes@),
            parse_cache_status: self.parse_cache_status@,
            parse_cache_miss_reason: self.parse_cache_miss_reason@,
            cache_write_warnings: views(self.cache_write_warnings@),
            parse_warnings: views(self.parse_warnings@),
            parse_fresh_hits: views(self.parse_fresh_hits@),
        }
    }
}

/// A parse stage that has done nothing.
pub open spec fn no_outputs() -> ParseOutputsView {
    ParseOutputsView {
        results: Map::empty(),
        runtime_not_parsed: Set::empty(),
        parse_cache_receipts: Seq::empty(),
        classification_cache_receipts: Seq::empty(),
        parse_profile_hashes: Map::empty(),
        parse_cache_status: Map::empty(),
        parse_cache_miss_reason: Map::empty(),
        cache_write_warnings: Seq::empty(),
        parse_warnings: Seq::empty(),
        parse_fresh_hits: Seq::empty(),
    }
}

impl ParseOutputs {
    /// A parse stage that has done nothing.
    pub fn new() -> (outputs: Self)
        ensures
            outputs@ == no_outputs(),
    {
        let outputs = ParseOutputs {
            results: TextMap::new(),
            runtime_not_parsed: TextSet::new(),
            parse_cache_receipts: Vec::new(),
            classification_cache_receipts: Vec::new(),
            parse_profile_hashes: TextMap::new(),
            parse_cache_status: TextMap::new(),
            parse_cache_miss_reason: TextMap::new(),
            cache_write_warnings: Vec::new(),
            parse_warnings: Vec::new(),
            parse_fresh_hits: Vec::new(),
        };
        assert(outputs@ =~= no_outputs());
        outputs
    }
}

/// A failure of the cache is told with its detail under the stage that asked: one of the
/// store may be tried again, one of the key is a fault of the request.
pub proof fn law_cache_failures_are_told_with_their_detail(
    failure: CachePortError,
    stage: DiagnosticStage,
)
    ensures
        ({
            let told = failure.diagnostic_view(stage);
            &&& told.stage == stage
            &&& told.file_path is None
            &&& told.backend is None
            &&& told.retryable <==> failure is Store
            &&& told.error_code == ErrorCode::CacheWriteFailed <==> failure is Store
            &&& told.error_code == ErrorCode::InvalidRequest <==> failure is InvalidKey
            &&& failure matches CachePortError::Store { detail } ==> told.message == detail@
            &&& failure matches CachePortError::InvalidKey { detail } ==> told.message == detail@
        }),
{
}

/// A fault of the engine itself is told as such, and is not worth another try.
pub proof fn law_faults_of_the_engine_are_told(message: Seq<char>)
    ensures
        internal_failure(message).error_code == ErrorCode::InternalError,
        internal_failure(message).stage == DiagnosticStage::Internal,
        !internal_failure(message).retryable,
        message.len() <= 4_096 ==> internal_failure(message).message == message,
        internal_failure(message).message.len() <= 4_096,
{
}

} // verus!
