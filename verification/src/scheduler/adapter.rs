//! What a parse comes to, from what the parser or the worker answered, and what the
//! cache is asked for a file.
use crate::contract::{
    opt_view, views, AuditWorkerLane, Diagnostic, DiagnosticStage, DiagnosticView,
    DiscoveredFileOut, DiscoveredFileOutView, ErrorCode, ParseStatus, ParseTransport, ParserRoute,
    RouteKind,
};
use crate::hash::{content_hash, content_sha256};
use crate::profile::{NormalizedScannerProfileV1, NormalizedScannerProfileV1View};
use crate::scheduler::records::{
    CachePortError, ParseLookupOutcome, ParseLookupOutcomeView, ParseRequest, ParseRequestView,
    ParseResult, ParseResultView,
};
use crate::store::cache::{
    parse_profile_digest, parse_profile_hash, CacheLookupView, ClassificationCacheLookup,
    ClassificationCacheLookupView, ClassificationCacheRow, ClassificationCacheRowView,
    ParseCacheRow, ParseCacheRowView, RouteStackFingerprints, RouteStackFingerprintsView,
};
use crate::store::lookup::{
    checked_classification_lookup, checked_lookup_cache, checked_lookup_classification_cache,
    checked_parse_lookup,
};
use crate::store::run::{StoreError, StoreErrorView};
use crate::text::text_eq;
use vstd::prelude::*;

verus! {

/// How a worker was reached.
#[derive(Clone, Copy, Debug, PartialEq, Eq, Structural)]
pub enum WorkerTransport {
    Session,
    NotApplicable,
}

/// The lane that a worker runs in.
#[derive(Clone, Copy, Debug, PartialEq, Eq, Structural)]
pub enum WorkerLane {
    RustOfficeProcessV2,
    PythonDocumentProcessV2,
}

impl WorkerLane {
    /// The name of the lane.
    pub open spec fn name_spec(self) -> Seq<char> {
        match self {
            WorkerLane::RustOfficeProcessV2 => "rust_office_process_v2"@,
            WorkerLane::PythonDocumentProcessV2 => "python_document_process_v2"@,
        }
    }

    /// The name of the lane.
    pub fn name(self) -> (text: &'static str)
        ensures
            text@ == self.name_spec(),
    {
        match self {
            WorkerLane::RustOfficeProcessV2 => "rust_office_process_v2",
            WorkerLane::PythonDocumentProcessV2 => "python_document_process_v2",
        }
    }
}

/// Why a plain text could not be read.
#[derive(Clone, Copy, Debug, PartialEq, Eq, Structural)]
pub enum LightTextFault {
    ReadFailed,
    MetadataFailed,
    FileTooLarge,
    Unreadable,
}

/// Who parses a file.
#[derive(Clone, Copy, Debug, PartialEq, Eq, Structural)]
pub enum WorkerPoolKind {
    InProcess,
    Python,
    Office,
}

/// A backend of a worker.
#[derive(Debug, PartialEq, Eq)]
pub struct WorkerBackend {
    pub name: String,
    pub lane: WorkerLane,
}

/// What a [`WorkerBackend`] says.
#[verifier::ext_equal]
pub struct WorkerBackendView {
    pub name: Seq<char>,
    pub lane: WorkerLane,
}

impl View for WorkerBackend {
    type V = WorkerBackendView;

    open spec fn view(&self) -> WorkerBackendView {
        WorkerBackendView {
            name: self.name@,
            lane: self.lane,
        }
    }
}

impl Clone for WorkerBackend {
    fn clone(&self) -> (copy: Self)
        ensures
            copy@ == self@,
            copy == *self,
    {
        WorkerBackend {
            name: self.name.clone(),
            lane: self.lane,
        }
    }
}

/// Why a worker gave no content.
#[derive(Debug, PartialEq, Eq)]
pub struct AttemptFailure {
    pub diagnostic: Diagnostic,
    pub failure_class: String,
    pub timed_out: bool,
}

/// What a [`AttemptFailure`] says.
#[verifier::ext_equal]
pub struct AttemptFailureView {
    pub diagnostic: DiagnosticView,
    pub failure_class: Seq<char>,
    pub timed_out: bool,
}

impl View for AttemptFailure {
    type V = AttemptFailureView;

    open spec fn view(&self) -> AttemptFailureView {
        AttemptFailureView {
            diagnostic: self.diagnostic@,
            failure_class: self.failure_class@,
            timed_out: self.timed_out,
        }
    }
}

impl Clone for AttemptFailure {
    fn clone(&self) -> (copy: Self)
        ensures
            copy@ == self@,
            copy == *self,
    {
        AttemptFailure {
            diagnostic: self.diagnostic.clone(),
            failure_class: self.failure_class.clone(),
            timed_out: self.timed_out,
        }
    }
}

/// What a worker answered.
#[derive(Debug, PartialEq, Eq)]
pub struct WorkerResponse {
    pub content: String,
    pub parser_backend: WorkerBackend,
    pub truncated: bool,
}

/// What a [`WorkerResponse`] says.
#[verifier::ext_equal]
pub struct WorkerResponseView {
    pub content: Seq<char>,
    pub parser_backend: WorkerBackendView,
    pub truncated: bool,
}

impl View for WorkerResponse {
    type V = WorkerResponseView;

    open spec fn view(&self) -> WorkerResponseView {
        WorkerResponseView {
            content: self.content@,
            parser_backend: self.parser_backend@,
            truncated: self.truncated,
        }
    }
}

impl Clone for WorkerResponse {
    fn clone(&self) -> (copy: Self)
        ensures
            copy@ == self@,
            copy == *self,
    {
        WorkerResponse {
            content: self.content.clone(),
            parser_backend: self.parser_backend.clone(),
            truncated: self.truncated,
        }
    }
}

/// What a worker answered, and how it got there.
#[derive(Debug, PartialEq, Eq)]
pub struct WorkerOutcome {
    pub response: WorkerResponse,
    pub duration_ms: u64,
    pub transport: WorkerTransport,
    pub attempt_count: u64,
}

/// What a [`WorkerOutcome`] says.
#[verifier::ext_equal]
pub struct WorkerOutcomeView {
    pub response: WorkerResponseView,
    pub duration_ms: u64,
    pub transport: WorkerTransport,
    pub attempt_count: u64,
}

impl View for WorkerOutcome {
    type V = WorkerOutcomeView;

    open spec fn view(&self) -> WorkerOutcomeView {
        WorkerOutcomeView {
            response: self.response@,
            duration_ms: self.duration_ms,
            transport: self.transport,
            attempt_count: self.attempt_count,
        }
    }
}

impl Clone for WorkerOutcome {
    fn clone(&self) -> (copy: Self)
        ensures
            copy@ == self@,
            copy == *self,
    {
        WorkerOutcome {
            response: self.response.clone(),
            duration_ms: self.duration_ms,
            transport: self.transport,
            attempt_count: self.attempt_count,
        }
    }
}

/// Why a worker gave no content, and how it got there.
#[derive(Debug, PartialEq, Eq)]
pub struct WorkerFailure {
    pub failure: AttemptFailure,
    pub duration_ms: u64,
    pub transport: WorkerTransport,
    pub attempt_count: u64,
}

/// What a [`WorkerFailure`] says.
#[verifier::ext_equal]
pub struct WorkerFailureView {
    pub failure: AttemptFailureView,
    pub duration_ms: u64,
    pub transport: WorkerTransport,
    pub attempt_count: u64,
}

impl View for WorkerFailure {
    type V = WorkerFailureView;

    open spec fn view(&self) -> WorkerFailureView {
        WorkerFailureView {
            failure: self.failure@,
            duration_ms: self.duration_ms,
            transport: self.transport,
            attempt_count: self.attempt_count,
        }
    }
}

impl Clone for WorkerFailure {
    fn clone(&self) -> (copy: Self)
        ensures
            copy@ == self@,
            copy == *self,
    {
        WorkerFailure {
            failure: self.failure.clone(),
            duration_ms: self.duration_ms,
            transport: self.transport,
            attempt_count: self.attempt_count,
        }
    }
}

/// What became of a parse that may be handed from one worker to another.
#[derive(Debug, PartialEq, Eq)]
pub struct OfficeParseExecution {
    pub response: Option<WorkerResponse>,
    pub primary_failure: Option<AttemptFailure>,
    pub final_failure: Option<AttemptFailure>,
    pub last_started_backend: Option<WorkerBackend>,
    pub fallback_backend: Option<WorkerBackend>,
    pub attempt_count: u64,
    pub primary_duration_ms: u64,
    pub fallback_duration_ms: u64,
}

/// What a [`OfficeParseExecution`] says.
#[verifier::ext_equal]
pub struct OfficeParseExecutionView {
    pub response: Option<WorkerResponseView>,
    pub primary_failure: Option<AttemptFailureView>,
    pub final_failure: Option<AttemptFailureView>,
    pub last_started_backend: Option<WorkerBackendView>,
    pub fallback_backend: Option<WorkerBackendView>,
    pub attempt_count: u64,
    pub primary_duration_ms: u64,
    pub fallback_duration_ms: u64,
}

impl View for OfficeParseExecution {
    type V = OfficeParseExecutionView;

    open spec fn view(&self) -> OfficeParseExecutionView {
        OfficeParseExecutionView {
            response: opt_view(self.response),
            primary_failure: opt_view(self.primary_failure),
            final_failure: opt_view(self.final_failure),
            last_started_backend: opt_view(self.last_started_backend),
            fallback_backend: opt_view(self.fallback_backend),
            attempt_count: self.attempt_count,
            primary_duration_ms: self.primary_duration_ms,
            fallback_duration_ms: self.fallback_duration_ms,
        }
    }
}

impl Clone for OfficeParseExecution {
    fn clone(&self) -> (copy: Self)
        ensures
            copy@ == self@,
            copy == *self,
    {
        OfficeParseExecution {
            response: self.response.clone(),
            primary_failure: self.primary_failure.clone(),
            final_failure: self.final_failure.clone(),
            last_started_backend: self.last_started_backend.clone(),
            fallback_backend: self.fallback_backend.clone(),
            attempt_count: self.attempt_count,
            primary_duration_ms: self.primary_duration_ms,
            fallback_duration_ms: self.fallback_duration_ms,
        }
    }
}

/// What was read of a plain text.
#[derive(Debug, PartialEq, Eq)]
pub struct LightText {
    pub content: String,
    pub truncated: bool,
}

/// What a [`LightText`] says.
#[verifier::ext_equal]
pub struct LightTextView {
    pub content: Seq<char>,
    pub truncated: bool,
}

impl View for LightText {
    type V = LightTextView;

    open spec fn view(&self) -> LightTextView {
        LightTextView {
            content: self.content@,
            truncated: self.truncated,
        }
    }
}

impl Clone for LightText {
    fn clone(&self) -> (copy: Self)
        ensures
            copy@ == self@,
            copy == *self,
    {
        LightText {
            content: self.content.clone(),
            truncated: self.truncated,
        }
    }
}

// ---------------------------------------------------------------------------
// Routes
// ---------------------------------------------------------------------------

/// The parser route of an admitted file.
pub open spec fn parser_route_of(route: RouteKind) -> ParserRoute {
    match route {
        RouteKind::LightText => ParserRoute::LightText,
        RouteKind::RustOffice => ParserRoute::RustOffice,
        RouteKind::RustXlsx => ParserRoute::RustXlsx,
        RouteKind::Pdf => ParserRoute::Pdf,
        RouteKind::PythonOffice => ParserRoute::PythonOffice,
        RouteKind::PythonSharepointText => ParserRoute::PythonSharepointText,
    }
}

/// The parser route of an admitted file.
pub fn parser_route(route: RouteKind) -> (parser: ParserRoute)
    ensures
        parser == parser_route_of(route),
{
    match route {
        RouteKind::LightText => ParserRoute::LightText,
        RouteKind::RustOffice => ParserRoute::RustOffice,
        RouteKind::RustXlsx => ParserRoute::RustXlsx,
        RouteKind::Pdf => ParserRoute::Pdf,
        RouteKind::PythonOffice => ParserRoute::PythonOffice,
        RouteKind::PythonSharepointText => ParserRoute::PythonSharepointText,
    }
}

/// Who parses the files of a route: plain text is read in process, documents by the
/// Python workers, and the newer office formats by the office workers.
pub fn pool_for_route(route: RouteKind) -> (pool: WorkerPoolKind)
    ensures
        pool == match route {
            RouteKind::LightText => WorkerPoolKind::InProcess,
            RouteKind::Pdf | RouteKind::PythonOffice | RouteKind::PythonSharepointText =>
                WorkerPoolKind::Python,
            RouteKind::RustOffice | RouteKind::RustXlsx => WorkerPoolKind::Office,
        },
{
    match route {
        RouteKind::LightText => WorkerPoolKind::InProcess,
        RouteKind::Pdf => WorkerPoolKind::Python,
        RouteKind::PythonOffice => WorkerPoolKind::Python,
        RouteKind::PythonSharepointText => WorkerPoolKind::Python,
        RouteKind::RustOffice => WorkerPoolKind::Office,
        RouteKind::RustXlsx => WorkerPoolKind::Office,
    }
}

/// The name of the lane that a backend runs in.
pub fn worker_lane_for_backend(backend: &WorkerBackend) -> (name: &'static str)
    ensures
        name@ == backend.lane.name_spec(),
{
    backend.lane.name()
}

/// How a worker was reached, as it is audited.
pub open spec fn transport_of(transport: WorkerTransport) -> ParseTransport {
    match transport {
        WorkerTransport::Session => ParseTransport::Session,
        WorkerTransport::NotApplicable => ParseTransport::NotApplicable,
    }
}

fn audited_transport(transport: WorkerTransport) -> (audited: ParseTransport)
    ensures
        audited == transport_of(transport),
{
    match transport {
        WorkerTransport::Session => ParseTransport::Session,
        WorkerTransport::NotApplicable => ParseTransport::NotApplicable,
    }
}

// ---------------------------------------------------------------------------
// Workers
// ---------------------------------------------------------------------------

/// The result of a parse that a worker answered.
pub open spec fn worker_success(
    request: ParseRequestView,
    outcome: WorkerOutcomeView,
    lane: Seq<char>,
) -> ParseResultView {
    ParseResultView {
        file_identity: request.file.file_identity,
        content: outcome.response.content,
        parser_backend: outcome.response.parser_backend.name,
        worker_lane: lane,
        truncated: outcome.response.truncated,
        content_sha256: content_sha256(outcome.response.content),
        parse_status: ParseStatus::Success,
        error: None,
        warnings: Seq::empty(),
        failure_class: Seq::empty(),
        fallback_backend: Seq::empty(),
        fallback_reason_code: Seq::empty(),
        parse_transport: transport_of(outcome.transport),
        parse_attempt_count: outcome.attempt_count,
        primary_duration_ms: outcome.duration_ms,
        fallback_duration_ms: 0,
        parse_duration_ms: outcome.duration_ms,
    }
}

/// The result of a parse that no worker answered. Where none was reached, none is named
/// and none took any time.
pub open spec fn worker_failed(
    request: ParseRequestView,
    failed: WorkerFailureView,
    backend: Seq<char>,
    lane: Seq<char>,
) -> ParseResultView {
    let started = failed.attempt_count > 0;
    let duration_ms = if started {
        failed.duration_ms
    } else {
        0
    };
    ParseResultView {
        file_identity: request.file.file_identity,
        content: Seq::empty(),
        parser_backend: if started {
            backend
        } else {
            "not_parsed"@
        },
        worker_lane: if started {
            lane
        } else {
            "not_parsed"@
        },
        truncated: false,
        content_sha256: content_sha256(Seq::empty()),
        parse_status: if failed.failure.timed_out {
            ParseStatus::Timeout
        } else {
            ParseStatus::Error
        },
        error: Some(failed.failure.diagnostic),
        warnings: Seq::empty(),
        failure_class: failed.failure.failure_class,
        fallback_backend: Seq::empty(),
        fallback_reason_code: Seq::empty(),
        parse_transport: if started {
            transport_of(failed.transport)
        } else {
            ParseTransport::NotApplicable
        },
        parse_attempt_count: failed.attempt_count,
        primary_duration_ms: duration_ms,
        fallback_duration_ms: 0,
        parse_duration_ms: duration_ms,
    }
}

/// The result of a parse that was handed to a worker. `backend` and `lane` are those of
/// the route.
pub fn worker_parse_result(
    request: &ParseRequest,
    answer: Result<WorkerOutcome, WorkerFailure>,
    backend: &str,
    lane: &str,
) -> (result: ParseResult)
    ensures
        result@ == match answer {
            Ok(outcome) => worker_success(request@, outcome@, lane@),
            Err(failed) => worker_failed(request@, failed@, backend@, lane@),
        },
{
    match answer {
        Ok(outcome) => {
            let content_sha256: String = content_hash(outcome.response.content.as_str());
            let result = ParseResult {
                file_identity: request.file.file_identity.clone(),
                content: outcome.response.content,
                parser_backend: outcome.response.parser_backend.name,
                worker_lane: lane.to_string(),
                truncated: outcome.response.truncated,
                content_sha256,
                parse_status: ParseStatus::Success,
                error: None,
                warnings: Vec::new(),
                failure_class: String::new(),
                fallback_backend: String::new(),
                fallback_reason_code: String::new(),
                parse_transport: audited_transport(outcome.transport),
                parse_attempt_count: outcome.attempt_count,
                primary_duration_ms: outcome.duration_ms,
                fallback_duration_ms: 0,
                parse_duration_ms: outcome.duration_ms,
            };
            assert(result@ =~= worker_success(request@, outcome@, lane@));
            result
        },
        Err(failed) => {
            let started: bool = failed.attempt_count > 0;
            let empty: String = String::new();
            let duration_ms: u64 = if started {
                failed.duration_ms
            } else {
                0
            };
            let result = ParseResult {
                file_identity: request.file.file_identity.clone(),
                content: String::new(),
                parser_backend: if started {
                    backend.to_string()
                } else {
                    "not_parsed".to_string()
                },
                worker_lane: if started {
                    lane.to_string()
                } else {
                    "not_parsed".to_string()
                },
                truncated: false,
                content_sha256: content_hash(empty.as_str()),
                parse_status: if failed.failure.timed_out {
                    ParseStatus::Timeout
                } else {
                    ParseStatus::Error
                },
                error: Some(failed.failure.diagnostic),
                warnings: Vec::new(),
                failure_class: failed.failure.failure_class,
                fallback_backend: String::new(),
                fallback_reason_code: String::new(),
                parse_transport: if started {
                    audited_transport(failed.transport)
                } else {
                    ParseTransport::NotApplicable
                },
                parse_attempt_count: failed.attempt_count,
                primary_duration_ms: duration_ms,
                fallback_duration_ms: 0,
                parse_duration_ms: duration_ms,
            };
            assert(result@ =~= worker_failed(request@, failed@, backend@, lane@));
            result
        },
    }
}

// ---------------------------------------------------------------------------
// Plain text
// ---------------------------------------------------------------------------

/// The result of a plain text that could not be read.
pub open spec fn light_text_failed(
    request: ParseRequestView,
    error_code: ErrorCode,
    message: Seq<char>,
    retryable: bool,
    attempt_count: u64,
    duration_ms: u64,
) -> ParseResultView {
    let started = attempt_count != 0;
    ParseResultView {
        file_identity: request.file.file_identity,
        content: Seq::empty(),
        parser_backend: if started {
            "light_text_v2"@
        } else {
            "not_parsed"@
        },
        worker_lane: if started {
            "rust_core"@
        } else {
            "not_parsed"@
        },
        truncated: false,
        content_sha256: content_sha256(Seq::empty()),
        parse_status: ParseStatus::Error,
        error: Some(
            DiagnosticView {
                error_code,
                message,
                retryable,
                stage: DiagnosticStage::Parse,
                file_path: Some(request.file.path),
                backend: Some("light_text_v2"@),
            },
        ),
        warnings: Seq::empty(),
        failure_class: if retryable {
            "environment_unavailable"@
        } else {
            "deterministic"@
        },
        fallback_backend: Seq::empty(),
        fallback_reason_code: Seq::empty(),
        parse_transport: if started {
            ParseTransport::RustInProcess
        } else {
            ParseTransport::NotApplicable
        },
        parse_attempt_count: attempt_count,
        primary_duration_ms: duration_ms,
        fallback_duration_ms: 0,
        parse_duration_ms: duration_ms,
    }
}

/// The result of a plain text that could not be read.
pub fn light_text_error(
    request: &ParseRequest,
    error_code: ErrorCode,
    message: &str,
    retryable: bool,
    attempt_count: u64,
    duration_ms: u64,
) -> (result: ParseResult)
    ensures
        result@ == light_text_failed(
            request@,
            error_code,
            message@,
            retryable,
            attempt_count,
            duration_ms,
        ),
{
    let empty: String = String::new();
    let result = ParseResult {
        file_identity: request.file.file_identity.clone(),
        content: String::new(),
        parser_backend: if attempt_count == 0 {
            "not_parsed".to_string()
        } else {
            "light_text_v2".to_string()
        },
        worker_lane: if attempt_count == 0 {
            "not_parsed".to_string()
        } else {
            "rust_core".to_string()
        },
        truncated: false,
        content_sha256: content_hash(empty.as_str()),
        parse_status: ParseStatus::Error,
        error: Some(
            Diagnostic {
                error_code,
                message: message.to_string(),
                retryable,
                stage: DiagnosticStage::Parse,
                file_path: Some(request.file.path.clone()),
                backend: Some("light_text_v2".to_string()),
            },
        ),
        warnings: Vec::new(),
        failure_class: if retryable {
            "environment_unavailable".to_string()
        } else {
            "deterministic".to_string()
        },
        fallback_backend: String::new(),
        fallback_reason_code: String::new(),
        parse_transport: if attempt_count == 0 {
            ParseTransport::NotApplicable
        } else {
            ParseTransport::RustInProcess
        },
        parse_attempt_count: attempt_count,
        primary_duration_ms: duration_ms,
        fallback_duration_ms: 0,
        parse_duration_ms: duration_ms,
    };
    assert(result@ =~= light_text_failed(
        request@,
        error_code,
        message@,
        retryable,
        attempt_count,
        duration_ms,
    ));
    result
}

/// What keeps a plain text from being read: its file cannot be seen, or is no longer the
/// one that was discovered.
pub open spec fn text_before(request: ParseRequestView, observed: Option<Seq<char>>) -> Option<
    ParseResultView,
> {
    match observed {
        None => Some(
            light_text_failed(
                request,
                ErrorCode::ParserFailed,
                "file metadata is unavailable"@,
                true,
                0,
                0,
            ),
        ),
        Some(version) => if version == request.file.source_version {
            None
        } else {
            Some(
                light_text_failed(
                    request,
                    ErrorCode::SourceVersionChanged,
                    "file source version changed before or during parsing"@,
                    false,
                    0,
                    0,
                ),
            )
        },
    }
}

/// Decides whether a plain text is read, from the version that its file has now.
pub fn light_text_before(request: &ParseRequest, observed: &Option<String>) -> (result: Option<
    ParseResult,
>)
    ensures
        opt_view(result) == text_before(request@, opt_view(*observed)),
{
    match observed {
        None => Some(
            light_text_error(
                request,
                ErrorCode::ParserFailed,
                "file metadata is unavailable",
                true,
                0,
                0,
            ),
        ),
        Some(version) => {
            if text_eq(version.as_str(), request.file.source_version.as_str()) {
                None
            } else {
                Some(
                    light_text_error(
                        request,
                        ErrorCode::SourceVersionChanged,
                        "file source version changed before or during parsing",
                        false,
                        0,
                        0,
                    ),
                )
            }
        },
    }
}

/// The result of a plain text that was read: it counts only where its file is still the
/// one that was discovered.
pub open spec fn text_after(
    request: ParseRequestView,
    read: Result<LightTextView, (LightTextFault, Seq<char>)>,
    observed: Option<Seq<char>>,
    duration_ms: u64,
) -> ParseResultView {
    match read {
        Err((fault, message)) => light_text_failed(
            request,
            if fault == LightTextFault::FileTooLarge {
                ErrorCode::FileTooLarge
            } else {
                ErrorCode::ParserFailed
            },
            message,
            fault == LightTextFault::ReadFailed || fault == LightTextFault::MetadataFailed,
            1,
            duration_ms,
        ),
        Ok(text) => if observed != Some(request.file.source_version) {
            light_text_failed(
                request,
                ErrorCode::SourceVersionChanged,
                "file source version changed before or during parsing"@,
                false,
                1,
                duration_ms,
            )
        } else {
            ParseResultView {
                file_identity: request.file.file_identity,
                content: text.content,
                parser_backend: "light_text_v2"@,
                worker_lane: "rust_core"@,
                truncated: text.truncated,
                content_sha256: content_sha256(text.content),
                parse_status: ParseStatus::Success,
                error: None,
                warnings: Seq::empty(),
                failure_class: Seq::empty(),
                fallback_backend: Seq::empty(),
                fallback_reason_code: Seq::empty(),
                parse_transport: ParseTransport::RustInProcess,
                parse_attempt_count: 1,
                primary_duration_ms: duration_ms,
                fallback_duration_ms: 0,
                parse_duration_ms: duration_ms,
            }
        },
    }
}

/// What was read, or why nothing was.
pub open spec fn read_view(read: Result<LightText, (LightTextFault, String)>) -> Result<
    LightTextView,
    (LightTextFault, Seq<char>),
> {
    match read {
        Ok(text) => Ok(text@),
        Err((fault, message)) => Err((fault, message@)),
    }
}

/// The result of a plain text, from what was read and the version that its file has
/// afterwards.
pub fn light_text_after(
    request: &ParseRequest,
    read: Result<LightText, (LightTextFault, String)>,
    observed: &Option<String>,
    duration_ms: u64,
) -> (result: ParseResult)
    ensures
        result@ == text_after(request@, read_view(read), opt_view(*observed), duration_ms),
{
    match read {
        Err((fault, message)) => {
            let code: ErrorCode = if fault == LightTextFault::FileTooLarge {
                ErrorCode::FileTooLarge
            } else {
                ErrorCode::ParserFailed
            };
            let retryable: bool = fault == LightTextFault::ReadFailed || fault
                == LightTextFault::MetadataFailed;
            light_text_error(request, code, message.as_str(), retryable, 1, duration_ms)
        },
        Ok(text) => {
            let unchanged: bool = match observed {
                Some(version) => text_eq(version.as_str(), request.file.source_version.as_str()),
                None => false,
            };
            if !unchanged {
                return light_text_error(
                    request,
                    ErrorCode::SourceVersionChanged,
                    "file source version changed before or during parsing",
                    false,
                    1,
                    duration_ms,
                );
            }
            let content_sha256: String = content_hash(text.content.as_str());
            let result = ParseResult {
                file_identity: request.file.file_identity.clone(),
                content: text.content,
                parser_backend: "light_text_v2".to_string(),
                worker_lane: "rust_core".to_string(),
                truncated: text.truncated,
                content_sha256,
                parse_status: ParseStatus::Success,
                error: None,
                warnings: Vec::new(),
                failure_class: String::new(),
                fallback_backend: String::new(),
                fallback_reason_code: String::new(),
                parse_transport: ParseTransport::RustInProcess,
                parse_attempt_count: 1,
                primary_duration_ms: duration_ms,
                fallback_duration_ms: 0,
                parse_duration_ms: duration_ms,
            };
            assert(result@ =~= text_after(
                request@,
                read_view(read),
                opt_view(*observed),
                duration_ms,
            ));
            result
        },
    }
}

// ---------------------------------------------------------------------------
// Office documents
// ---------------------------------------------------------------------------

/// The sum of two durations, or the largest one where it does not fit.
pub open spec fn duration_sum(left: u64, right: u64) -> u64 {
    if left + right > u64::MAX {
        u64::MAX
    } else {
        (left + right) as u64
    }
}

/// The result of a parse that may have been handed from one worker to another: the last
/// failure decides, and a first failure that was made good is a warning.
pub open spec fn office_result_of(
    execution: OfficeParseExecutionView,
    request: ParseRequestView,
) -> ParseResultView {
    let started = execution.attempt_count > 0;
    let content = match execution.response {
        Some(response) => response.content,
        None => Seq::empty(),
    };
    ParseResultView {
        file_identity: request.file.file_identity,
        content,
        parser_backend: if !started {
            "not_parsed"@
        } else {
            match execution.response {
                Some(response) => response.parser_backend.name,
                None => match execution.last_started_backend {
                    Some(backend) => backend.name,
                    None => "not_parsed"@,
                },
            }
        },
        worker_lane: if !started {
            "not_parsed"@
        } else {
            match execution.response {
                Some(response) => response.parser_backend.lane.name_spec(),
                None => match execution.last_started_backend {
                    Some(backend) => backend.lane.name_spec(),
                    None => "not_parsed"@,
                },
            }
        },
        truncated: execution.response matches Some(response) && response.truncated,
        content_sha256: content_sha256(content),
        parse_status: match execution.final_failure {
            None => ParseStatus::Success,
            Some(failure) => if failure.timed_out {
                ParseStatus::Timeout
            } else {
                ParseStatus::Error
            },
        },
        error: match execution.final_failure {
            None => None,
            Some(failure) => Some(failure.diagnostic),
        },
        warnings: match (execution.final_failure, execution.primary_failure) {
            (None, Some(failure)) => seq![failure.diagnostic],
            _ => Seq::empty(),
        },
        failure_class: match execution.final_failure {
            None => Seq::empty(),
            Some(failure) => failure.failure_class,
        },
        fallback_backend: match execution.fallback_backend {
            None => Seq::empty(),
            Some(backend) => backend.name,
        },
        fallback_reason_code: match execution.primary_failure {
            None => Seq::empty(),
            Some(failure) => failure.diagnostic.error_code.text_spec(),
        },
        parse_transport: if started {
            ParseTransport::Session
        } else {
            ParseTransport::NotApplicable
        },
        parse_attempt_count: execution.attempt_count,
        primary_duration_ms: execution.primary_duration_ms,
        fallback_duration_ms: execution.fallback_duration_ms,
        parse_duration_ms: duration_sum(
            execution.primary_duration_ms,
            execution.fallback_duration_ms,
        ),
    }
}

/// The result of a parse that may have been handed from one worker to another.
pub fn office_execution_result(execution: OfficeParseExecution, request: &ParseRequest) -> (result:
    ParseResult)
    ensures
        result@ == office_result_of(execution@, request@),
{
    let started: bool = execution.attempt_count > 0;
    let content: String = match &execution.response {
        Some(response) => response.content.clone(),
        None => String::new(),
    };
    let truncated: bool = match &execution.response {
        Some(response) => response.truncated,
        None => false,
    };
    let backend: String = match &execution.response {
        Some(response) => response.parser_backend.name.clone(),
        None => match &execution.last_started_backend {
            Some(backend) => backend.name.clone(),
            None => "not_parsed".to_string(),
        },
    };
    let lane: &str = match &execution.response {
        Some(response) => worker_lane_for_backend(&response.parser_backend),
        None => match &execution.last_started_backend {
            Some(backend) => worker_lane_for_backend(backend),
            None => "not_parsed",
        },
    };
    let status: ParseStatus = match &execution.final_failure {
        None => ParseStatus::Success,
        Some(failure) => {
            if failure.timed_out {
                ParseStatus::Timeout
            } else {
                ParseStatus::Error
            }
        },
    };
    let mut warnings: Vec<Diagnostic> = Vec::new();
    assert(views(warnings@) =~= Seq::<DiagnosticView>::empty());
    if execution.final_failure.is_none() {
        if let Some(failure) = &execution.primary_failure {
            let warning: Diagnostic = failure.diagnostic.clone();
            warnings.push(warning);
            assert(views(warnings@) =~= seq![warning@]);
        }
    }
    let reason: String = match &execution.primary_failure {
        None => String::new(),
        Some(failure) => failure.diagnostic.error_code.text().to_string(),
    };
    let fallback: String = match &execution.fallback_backend {
        None => String::new(),
        Some(backend) => backend.name.clone(),
    };
    let failure_class: String = match &execution.final_failure {
        None => String::new(),
        Some(failure) => failure.failure_class.clone(),
    };
    let error: Option<Diagnostic> = match &execution.final_failure {
        None => None,
        Some(failure) => Some(failure.diagnostic.clone()),
    };
    let total: u64 = if execution.fallback_duration_ms > u64::MAX - execution.primary_duration_ms {
        u64::MAX
    } else {
        execution.primary_duration_ms + execution.fallback_duration_ms
    };
    let result = ParseResult {
        file_identity: request.file.file_identity.clone(),
        content_sha256: content_hash(content.as_str()),
        content,
        parser_backend: if started {
            backend
        } else {
            "not_parsed".to_string()
        },
        worker_lane: if started {
            lane.to_string()
        } else {
            "not_parsed".to_string()
        },
        truncated,
        parse_status: status,
        error,
        warnings,
        failure_class,
        fallback_backend: fallback,
        fallback_reason_code: reason,
        parse_transport: if started {
            ParseTransport::Session
        } else {
            ParseTransport::NotApplicable
        },
        parse_attempt_count: execution.attempt_count,
        primary_duration_ms: execution.primary_duration_ms,
        fallback_duration_ms: execution.fallback_duration_ms,
        parse_duration_ms: total,
    };
    assert(result@ =~= office_result_of(execution@, request@));
    result
}

// ---------------------------------------------------------------------------
// The cache
// ---------------------------------------------------------------------------

/// What a failed cache operation says.
#[verifier::ext_equal]
pub enum PortFault {
    Store(Seq<char>),
    InvalidKey(Seq<char>),
}

/// What a failed cache operation says.
pub open spec fn port_fault(error: CachePortError) -> PortFault {
    match error {
        CachePortError::Store { detail } => PortFault::Store(detail@),
        CachePortError::InvalidKey { detail } => PortFault::InvalidKey(detail@),
    }
}

/// A failure of the store, as a failure of the cache.
pub fn map_store_error(error: &StoreError) -> (mapped: CachePortError)
    ensures
        port_fault(mapped) == PortFault::Store(error@.message()),
{
    CachePortError::Store { detail: error.message() }
}

/// The guard that a file is looked up with, or which part of it is missing.
pub open spec fn guard_for_lookup(file: DiscoveredFileOutView) -> Result<
    (Seq<char>, Seq<char>),
    PortFault,
> {
    match (file.source_guard_kind, file.source_guard_sha256) {
        (None, _) => Err(PortFault::InvalidKey("source guard kind is missing"@)),
        (Some(_), None) => Err(PortFault::InvalidKey("source guard sha256 is missing"@)),
        (Some(kind), Some(hash)) => Ok((kind, hash)),
    }
}

fn take_guard(file: &DiscoveredFileOut) -> (guard: Result<(String, String), CachePortError>)
    ensures
        match guard {
            Ok(parts) => guard_for_lookup(file@) == Ok::<(Seq<char>, Seq<char>), PortFault>(
                (parts.0@, parts.1@),
            ),
            Err(error) => guard_for_lookup(file@) == Err::<(Seq<char>, Seq<char>), PortFault>(
                port_fault(error),
            ),
        },
{
    let kind: String = match &file.source_guard_kind {
        Some(kind) => kind.clone(),
        None => {
            return Err(
                CachePortError::InvalidKey { detail: "source guard kind is missing".to_string() },
            );
        },
    };
    match &file.source_guard_sha256 {
        Some(hash) => Ok((kind, hash.clone())),
        None => Err(
            CachePortError::InvalidKey { detail: "source guard sha256 is missing".to_string() },
        ),
    }
}

/// What the parse cache says of a file. `rows` is what could be read of the cache, and
/// `accepted` the verdict of the wire contract on the profile.
pub open spec fn parse_evidence(
    file: DiscoveredFileOutView,
    route: RouteKind,
    stacks: RouteStackFingerprintsView,
    profile: NormalizedScannerProfileV1View,
    accepted: Result<(), String>,
    rows: Result<Seq<ParseCacheRowView>, StoreErrorView>,
) -> Result<ParseLookupOutcomeView, PortFault> {
    match accepted {
        Err(message) => Err(PortFault::InvalidKey(message@)),
        Ok(_) => {
            let digest = parse_profile_digest(stacks.of(parser_route_of(route)), profile);
            match rows {
                Err(fault) => Err(PortFault::Store(fault.message())),
                Ok(cached) => match guard_for_lookup(file) {
                    Err(fault) => Err(fault),
                    Ok((kind, hash)) => match checked_parse_lookup(
                        cached,
                        file.file_identity,
                        file.source_version,
                        kind,
                        hash,
                        digest,
                    ) {
                        Err(fault) => Err(PortFault::Store(fault.message())),
                        Ok(lookup) => Ok(
                            ParseLookupOutcomeView { parse_profile_hash: digest, lookup },
                        ),
                    },
                },
            }
        },
    }
}

/// What could be read of the parse cache.
pub open spec fn rows_read(rows: Result<Vec<ParseCacheRow>, StoreError>) -> Result<
    Seq<ParseCacheRowView>,
    StoreErrorView,
> {
    match rows {
        Ok(cached) => Ok(views(cached@)),
        Err(error) => Err(error@),
    }
}

/// Asks the parse cache for a file.
pub fn lookup_parse(
    file: &DiscoveredFileOut,
    route: RouteKind,
    stacks: &RouteStackFingerprints,
    profile: &NormalizedScannerProfileV1,
    accepted: Result<(), String>,
    rows: &Result<Vec<ParseCacheRow>, StoreError>,
    inventory_existed_before: bool,
) -> (outcome: Result<ParseLookupOutcome, CachePortError>)
    ensures
        ({
            let wanted = parse_evidence(
                file@,
                route,
                stacks@,
                profile@,
                accepted,
                rows_read(*rows),
            );
            match outcome {
                Ok(found) => wanted == Ok::<ParseLookupOutcomeView, PortFault>(found@),
                Err(error) => wanted == Err::<ParseLookupOutcomeView, PortFault>(
                    port_fault(error),
                ),
            }
        }),
{
    let digest: String = match parse_profile_hash(
        1,
        stacks.for_route(parser_route(route)),
        profile,
        accepted,
    ) {
        Ok(digest) => digest,
        Err(message) => {
            return Err(CachePortError::InvalidKey { detail: message });
        },
    };
    let cached: &Vec<ParseCacheRow> = match rows {
        Ok(cached) => cached,
        Err(error) => {
            return Err(map_store_error(error));
        },
    };
    let (kind, hash): (String, String) = match take_guard(file) {
        Ok(guard) => guard,
        Err(error) => {
            return Err(error);
        },
    };
    match checked_lookup_cache(
        cached,
        file.file_identity.as_str(),
        file.source_version.as_str(),
        kind.as_str(),
        hash.as_str(),
        digest.as_str(),
        inventory_existed_before,
    ) {
        Ok(lookup) => Ok(ParseLookupOutcome { parse_profile_hash: digest, lookup }),
        Err(error) => Err(map_store_error(&error)),
    }
}

/// What could be read of the classification cache.
pub open spec fn classified_rows_read(rows: Result<Vec<ClassificationCacheRow>, StoreError>) -> Result<
    Seq<ClassificationCacheRowView>,
    StoreErrorView,
> {
    match rows {
        Ok(cached) => Ok(views(cached@)),
        Err(error) => Err(error@),
    }
}

/// What the classification cache says of a file.
pub open spec fn classification_evidence(
    file: DiscoveredFileOutView,
    profile_hash: Seq<char>,
    build: Seq<char>,
    rows: Result<Seq<ClassificationCacheRowView>, StoreErrorView>,
    existed_before: bool,
) -> Result<ClassificationCacheLookupView, PortFault> {
    match guard_for_lookup(file) {
        Err(fault) => Err(fault),
        Ok((kind, hash)) => match rows {
            Err(fault) => Err(PortFault::Store(fault.message())),
            Ok(cached) => match checked_classification_lookup(
                cached,
                file.file_identity,
                file.source_version,
                kind,
                hash,
                profile_hash,
                build,
                existed_before,
            ) {
                Err(fault) => Err(PortFault::Store(fault.message())),
                Ok(lookup) => Ok(lookup),
            },
        },
    }
}

/// Asks the classification cache for a file.
pub fn lookup_classification(
    file: &DiscoveredFileOut,
    classifier_profile_hash: &str,
    classifier_build: &str,
    rows: &Result<Vec<ClassificationCacheRow>, StoreError>,
    inventory_existed_before: bool,
) -> (outcome: Result<ClassificationCacheLookup, CachePortError>)
    ensures
        ({
            let wanted = classification_evidence(
                file@,
                classifier_profile_hash@,
                classifier_build@,
                classified_rows_read(*rows),
                inventory_existed_before,
            );
            match outcome {
                Ok(found) => wanted == Ok::<ClassificationCacheLookupView, PortFault>(found@),
                Err(error) => wanted == Err::<ClassificationCacheLookupView, PortFault>(
                    port_fault(error),
                ),
            }
        }),
{
    let (kind, hash): (String, String) = match take_guard(file) {
        Ok(guard) => guard,
        Err(error) => {
            return Err(error);
        },
    };
    let cached: &Vec<ClassificationCacheRow> = match rows {
        Ok(cached) => cached,
        Err(error) => {
            return Err(map_store_error(error));
        },
    };
    match checked_lookup_classification_cache(
        cached,
        file.file_identity.as_str(),
        file.source_version.as_str(),
        kind.as_str(),
        hash.as_str(),
        classifier_profile_hash,
        classifier_build,
        inventory_existed_before,
    ) {
        Ok(lookup) => Ok(lookup),
        Err(error) => Err(map_store_error(&error)),
    }
}

/// The identity of a run as it is stored, or that it is too large for that.
pub fn stored_run_id(scan_run_id: u64) -> (stored: Result<i64, CachePortError>)
    ensures
        match stored {
            Ok(id) => id == scan_run_id,
            Err(error) => scan_run_id > i64::MAX && port_fault(error) == PortFault::InvalidKey(
                "scan_run_id exceeds SQLite integer range"@,
            ),
        },
{
    if scan_run_id > i64::MAX as u64 {
        Err(
            CachePortError::InvalidKey {
                detail: "scan_run_id exceeds SQLite integer range".to_string(),
            },
        )
    } else {
        Ok(scan_run_id as i64)
    }
}

// ---------------------------------------------------------------------------
// Laws
// ---------------------------------------------------------------------------

/// A worker that was never reached leaves no trace: no backend, no lane, no transport and
/// no time.
pub proof fn law_unreached_workers_leave_no_trace(
    request: ParseRequestView,
    failed: WorkerFailureView,
    backend: Seq<char>,
    lane: Seq<char>,
)
    requires
        failed.attempt_count == 0,
    ensures
        ({
            let result = worker_failed(request, failed, backend, lane);
            &&& result.parser_backend == "not_parsed"@
            &&& result.worker_lane == "not_parsed"@
            &&& result.parse_transport == ParseTransport::NotApplicable
            &&& result.parse_duration_ms == 0
            &&& result.parse_attempt_count == 0
        }),
{
}

/// Whoever parsed it, a result is of the file that was asked for, and its hash is that of
/// its content.
pub proof fn law_results_hash_their_content(
    request: ParseRequestView,
    outcome: WorkerOutcomeView,
    failed: WorkerFailureView,
    execution: OfficeParseExecutionView,
    read: Result<LightTextView, (LightTextFault, Seq<char>)>,
    observed: Option<Seq<char>>,
    backend: Seq<char>,
    lane: Seq<char>,
    duration_ms: u64,
)
    ensures
        ({
            let success = worker_success(request, outcome, lane);
            success.content_sha256 == content_sha256(success.content) && success.file_identity
                == request.file.file_identity
        }),
        ({
            let failure = worker_failed(request, failed, backend, lane);
            failure.content_sha256 == content_sha256(failure.content) && failure.file_identity
                == request.file.file_identity
        }),
        ({
            let office = office_result_of(execution, request);
            office.content_sha256 == content_sha256(office.content) && office.file_identity
                == request.file.file_identity
        }),
        ({
            let text = text_after(request, read, observed, duration_ms);
            text.content_sha256 == content_sha256(text.content) && text.file_identity
                == request.file.file_identity
        }),
{
}

/// A plain text counts as parsed only where its file was the discovered one after it was
/// read.
pub proof fn law_changed_texts_are_not_parsed(
    request: ParseRequestView,
    read: Result<LightTextView, (LightTextFault, Seq<char>)>,
    observed: Option<Seq<char>>,
    duration_ms: u64,
)
    requires
        text_after(request, read, observed, duration_ms).parse_status == ParseStatus::Success,
    ensures
        observed == Some(request.file.source_version),
        read is Ok,
{
}

/// The result of an office parse is a success exactly where there is no final failure, and
/// it carries an error exactly where it is none; it is a timeout exactly where the final
/// failure timed out.
pub proof fn law_office_results_tell_success_from_failure(
    execution: OfficeParseExecutionView,
    request: ParseRequestView,
)
    ensures
        ({
            let result = office_result_of(execution, request);
            &&& result.parse_status == ParseStatus::Success <==> execution.final_failure is None
            &&& result.parse_status == ParseStatus::Success <==> result.error is None
            &&& result.parse_status == ParseStatus::Timeout <==> (
            execution.final_failure matches Some(failure) && failure.timed_out)
            &&& result.parse_status != ParseStatus::NotParsed
            &&& execution.final_failure matches Some(failure) ==> result.error == Some(
                failure.diagnostic,
            ) && result.failure_class == failure.failure_class
            &&& execution.final_failure is None ==> result.failure_class.len() == 0
        }),
{
}

/// An office document has the content that its worker answered with, cut where the worker
/// cut it, and none where no worker answered.
pub proof fn law_office_results_hold_the_answer(
    execution: OfficeParseExecutionView,
    request: ParseRequestView,
)
    ensures
        ({
            let result = office_result_of(execution, request);
            &&& execution.response matches Some(response) ==> result.content == response.content
                && result.truncated == response.truncated
            &&& execution.response is None ==> result.content.len() == 0 && !result.truncated
            &&& result.parse_attempt_count == execution.attempt_count
            &&& result.primary_duration_ms == execution.primary_duration_ms
            &&& result.fallback_duration_ms == execution.fallback_duration_ms
            &&& execution.primary_duration_ms + execution.fallback_duration_ms <= u64::MAX
                ==> result.parse_duration_ms == execution.primary_duration_ms
                + execution.fallback_duration_ms
            &&& execution.primary_duration_ms + execution.fallback_duration_ms > u64::MAX
                ==> result.parse_duration_ms == u64::MAX
        }),
{
}

/// An office result names the backend that answered or else the one that was started last,
/// with that backend's lane; where no worker was started it names none and went over no
/// transport.
pub proof fn law_office_results_name_their_worker(
    execution: OfficeParseExecutionView,
    request: ParseRequestView,
)
    ensures
        ({
            let result = office_result_of(execution, request);
            &&& execution.attempt_count == 0 ==> result.parser_backend == "not_parsed"@
                && result.worker_lane == "not_parsed"@ && result.parse_transport
                == ParseTransport::NotApplicable
            &&& execution.attempt_count > 0 ==> result.parse_transport == ParseTransport::Session
            &&& execution.attempt_count > 0 ==> (execution.response matches Some(response)
                ==> result.parser_backend == response.parser_backend.name && result.worker_lane
                == response.parser_backend.lane.name_spec())
            &&& execution.attempt_count > 0 && execution.response is None ==> (
            execution.last_started_backend matches Some(backend) ==> result.parser_backend
                == backend.name && result.worker_lane == backend.lane.name_spec())
        }),
{
}

/// A fallback is told: the result names the backend that was fallen back to and the code of
/// the failure that led to it, and where the fallback succeeded that failure is a warning.
pub proof fn law_fallbacks_are_told(
    execution: OfficeParseExecutionView,
    request: ParseRequestView,
)
    ensures
        ({
            let result = office_result_of(execution, request);
            &&& execution.fallback_backend matches Some(backend) ==> result.fallback_backend
                == backend.name
            &&& execution.fallback_backend is None ==> result.fallback_backend.len() == 0
            &&& execution.primary_failure matches Some(failure) ==> result.fallback_reason_code
                == failure.diagnostic.error_code.text_spec()
            &&& execution.primary_failure is None ==> result.fallback_reason_code.len() == 0
                && result.warnings.len() == 0
            &&& execution.final_failure is Some ==> result.warnings.len() == 0
            &&& execution.final_failure is None ==> (execution.primary_failure matches Some(
                failure,
            ) ==> result.warnings == seq![failure.diagnostic])
        }),
{
}

/// What a worker answered is the result: its content, cut where the worker cut it, from the
/// backend that answered, without an error.
pub proof fn law_worker_answers_are_successes(
    request: ParseRequestView,
    outcome: WorkerOutcomeView,
    lane: Seq<char>,
)
    ensures
        ({
            let result = worker_success(request, outcome, lane);
            &&& result.parse_status == ParseStatus::Success
            &&& result.error is None
            &&& result.warnings.len() == 0
            &&& result.failure_class.len() == 0
            &&& result.content == outcome.response.content
            &&& result.truncated == outcome.response.truncated
            &&& result.parser_backend == outcome.response.parser_backend.name
            &&& result.worker_lane == lane
            &&& result.parse_attempt_count == outcome.attempt_count
            &&& result.parse_duration_ms == outcome.duration_ms
            &&& result.primary_duration_ms + result.fallback_duration_ms
                == result.parse_duration_ms
            &&& result.parse_transport == ParseTransport::Session <==> outcome.transport
                == WorkerTransport::Session
        }),
{
}

/// A worker that failed leaves a failure, with its diagnostic and no content: a timeout
/// exactly where it timed out. One that was started is named with its lane, its transport
/// and its time.
pub proof fn law_worker_failures_are_failures(
    request: ParseRequestView,
    failed: WorkerFailureView,
    backend: Seq<char>,
    lane: Seq<char>,
)
    ensures
        ({
            let result = worker_failed(request, failed, backend, lane);
            &&& result.parse_status == ParseStatus::Timeout <==> failed.failure.timed_out
            &&& result.parse_status == ParseStatus::Error <==> !failed.failure.timed_out
            &&& result.error == Some(failed.failure.diagnostic)
            &&& result.failure_class == failed.failure.failure_class
            &&& result.content.len() == 0 && !result.truncated
            &&& result.parse_attempt_count == failed.attempt_count
            &&& failed.attempt_count > 0 ==> result.parser_backend == backend
                && result.worker_lane == lane && result.parse_duration_ms == failed.duration_ms
                && result.primary_duration_ms == failed.duration_ms
            &&& failed.attempt_count > 0 ==> (result.parse_transport == ParseTransport::Session
                <==> failed.transport == WorkerTransport::Session)
        }),
{
}

/// A plain text that was read from an unchanged file is a success with its content; every
/// other read is an error of the file without content.
pub proof fn law_texts_are_parsed_or_fail(
    request: ParseRequestView,
    read: Result<LightTextView, (LightTextFault, Seq<char>)>,
    observed: Option<Seq<char>>,
    duration_ms: u64,
)
    ensures
        ({
            let result = text_after(request, read, observed, duration_ms);
            let sound = read is Ok && observed == Some(request.file.source_version);
            &&& sound <==> result.parse_status == ParseStatus::Success
            &&& !sound <==> result.parse_status == ParseStatus::Error
            &&& sound <==> result.error is None
            &&& sound ==> result.content == (read->Ok_0).content && result.truncated == (
            read->Ok_0).truncated
            &&& !sound ==> result.content.len() == 0 && !result.truncated
            &&& result.error matches Some(error) ==> error.file_path == Some(request.file.path)
            &&& result.parser_backend == "light_text_v2"@
            &&& result.worker_lane == AuditWorkerLane::RustCore.text_spec()
            &&& result.parse_transport == ParseTransport::RustInProcess
            &&& result.parse_attempt_count == 1
            &&& result.parse_duration_ms == duration_ms
        }),
{
}

/// Why a plain text was not parsed is told: a file that is too large or unreadable fails
/// for good, one that could not be read may be tried again, and one that changed meanwhile
/// is told as changed.
pub proof fn law_text_faults_are_told_apart(
    request: ParseRequestView,
    read: Result<LightTextView, (LightTextFault, Seq<char>)>,
    observed: Option<Seq<char>>,
    duration_ms: u64,
)
    ensures
        ({
            let result = text_after(request, read, observed, duration_ms);
            &&& read matches Err((fault, message)) ==> {
                &&& result.error->0.message == message
                &&& result.error->0.error_code == ErrorCode::FileTooLarge <==> fault
                    == LightTextFault::FileTooLarge
                &&& result.error->0.error_code == ErrorCode::ParserFailed <==> fault
                    != LightTextFault::FileTooLarge
                &&& result.error->0.retryable <==> (fault == LightTextFault::ReadFailed || fault
                    == LightTextFault::MetadataFailed)
                &&& result.failure_class == if result.error->0.retryable {
                    "environment_unavailable"@
                } else {
                    "deterministic"@
                }
            }
            &&& read is Ok && observed != Some(request.file.source_version) ==> {
                &&& result.error->0.error_code == ErrorCode::SourceVersionChanged
                &&& !result.error->0.retryable
            }
        }),
{
}

/// A plain text is read only where its file is the discovered one; otherwise it fails
/// without having been tried.
pub proof fn law_only_discovered_texts_are_read(
    request: ParseRequestView,
    observed: Option<Seq<char>>,
)
    ensures
        ({
            let result = text_before(request, observed);
            &&& result is None <==> observed == Some(request.file.source_version)
            &&& result matches Some(failed) ==> {
                &&& failed.parse_status == ParseStatus::Error
                &&& failed.error is Some
                &&& failed.file_identity == request.file.file_identity
                &&& failed.content.len() == 0
                &&& failed.parse_attempt_count == 0
                &&& failed.parser_backend == "not_parsed"@
                &&& failed.parse_transport == ParseTransport::NotApplicable
                &&& failed.error->0.error_code == ErrorCode::SourceVersionChanged <==> observed
                    is Some
                &&& failed.error->0.retryable <==> observed is None
            }
        }),
{
}

/// Each route is parsed under a parser of its own, whose fingerprint its cache entries are
/// kept under.
pub proof fn law_routes_have_parsers_of_their_own(left: RouteKind, right: RouteKind)
    ensures
        parser_route_of(left) == parser_route_of(right) ==> left == right,
        (parser_route_of(left) == ParserRoute::Pdf) <==> left == RouteKind::Pdf,
        (parser_route_of(left) == ParserRoute::LightText) <==> left == RouteKind::LightText,
        (parser_route_of(left) == ParserRoute::RustOffice) <==> left == RouteKind::RustOffice,
        (parser_route_of(left) == ParserRoute::RustXlsx) <==> left == RouteKind::RustXlsx,
        (parser_route_of(left) == ParserRoute::PythonOffice) <==> left == RouteKind::PythonOffice,
{
}

/// A file without a guard has no place in a cache: it is not looked up.
pub proof fn law_unguarded_files_are_not_looked_up(
    file: DiscoveredFileOutView,
    route: RouteKind,
    stacks: RouteStackFingerprintsView,
    profile: NormalizedScannerProfileV1View,
    accepted: Result<(), String>,
    rows: Result<Seq<ParseCacheRowView>, StoreErrorView>,
    classified: Result<Seq<ClassificationCacheRowView>, StoreErrorView>,
    profile_hash: Seq<char>,
    build: Seq<char>,
    existed_before: bool,
)
    requires
        file.source_guard_kind is None || file.source_guard_sha256 is None,
    ensures
        parse_evidence(file, route, stacks, profile, accepted, rows) is Err,
        classification_evidence(file, profile_hash, build, classified, existed_before) is Err,
{
}

/// What the parse cache answers is asked under the fingerprint of the parser of the route,
/// and told with it; nothing is answered where the profile was not accepted or the cache
/// could not be read.
pub proof fn law_parse_answers_are_of_the_route(
    file: DiscoveredFileOutView,
    route: RouteKind,
    stacks: RouteStackFingerprintsView,
    profile: NormalizedScannerProfileV1View,
    accepted: Result<(), String>,
    rows: Result<Seq<ParseCacheRowView>, StoreErrorView>,
)
    ensures
        ({
            let answer = parse_evidence(file, route, stacks, profile, accepted, rows);
            &&& answer matches Ok(outcome) ==> {
                &&& accepted is Ok && rows is Ok
                &&& outcome.parse_profile_hash == parse_profile_digest(
                    stacks.of(parser_route_of(route)),
                    profile,
                )
                &&& checked_parse_lookup(
                    rows->Ok_0,
                    file.file_identity,
                    file.source_version,
                    file.source_guard_kind->0,
                    file.source_guard_sha256->0,
                    outcome.parse_profile_hash,
                ) == Ok::<CacheLookupView, StoreErrorView>(outcome.lookup)
            }
            &&& accepted is Err ==> answer is Err && answer->Err_0 is InvalidKey
            &&& accepted is Ok && rows is Err ==> answer is Err && answer->Err_0
                == PortFault::Store((rows->Err_0).message())
        }),
{
}

/// Texts are parsed in this process, office files by the office worker, and all other files by
/// the Python worker.
pub proof fn law_routes_have_a_pool(route: RouteKind, pool: WorkerPoolKind)
    requires
        call_ensures(pool_for_route, (route,), pool),
    ensures
        pool is InProcess <==> route == RouteKind::LightText,
        pool is Office <==> route == RouteKind::RustOffice || route == RouteKind::RustXlsx,
        pool is Python <==> route == RouteKind::Pdf || route == RouteKind::PythonOffice || route
            == RouteKind::PythonSharepointText,
{
}

/// A worker that answered over a session is audited so, and one that did not without a
/// transport.
pub proof fn law_transports_are_audited_as_they_were(transport: WorkerTransport)
    ensures
        transport_of(transport) == ParseTransport::Session <==> transport
            == WorkerTransport::Session,
        transport_of(transport) == ParseTransport::NotApplicable <==> transport
            == WorkerTransport::NotApplicable,
{
}

/// A failure of the cache keeps its kind and its detail; one of the store is told with the
/// message of the store, and a number that cannot be stored as a fault of the key.
pub proof fn law_port_failures_keep_their_kind(
    failure: CachePortError,
    error: &StoreError,
    mapped: CachePortError,
    scan_run_id: u64,
    stored: Result<i64, CachePortError>,
)
    requires
        call_ensures(map_store_error, (error,), mapped),
        call_ensures(stored_run_id, (scan_run_id,), stored),
    ensures
        port_fault(failure) is Store <==> failure is Store,
        port_fault(failure) is InvalidKey <==> failure is InvalidKey,
        failure matches CachePortError::Store { detail } ==> port_fault(failure)
            == PortFault::Store(detail@),
        failure matches CachePortError::InvalidKey { detail } ==> port_fault(failure)
            == PortFault::InvalidKey(detail@),
        mapped matches CachePortError::Store { detail } && detail@ == error@.message(),
        stored is Ok <==> scan_run_id <= i64::MAX,
        stored matches Ok(id) ==> id == scan_run_id,
        stored matches Err(fault) ==> fault is InvalidKey,
{
}

/// A file is looked up under its own guard, and not at all where it has none.
pub proof fn law_files_are_looked_up_under_their_guard(file: DiscoveredFileOutView)
    ensures
        guard_for_lookup(file) is Ok <==> file.source_guard_kind is Some
            && file.source_guard_sha256 is Some,
        guard_for_lookup(file) matches Ok(parts) ==> file.source_guard_kind == Some(parts.0)
            && file.source_guard_sha256 == Some(parts.1),
        guard_for_lookup(file) matches Err(fault) ==> fault is InvalidKey,
{
}

} // verus!
