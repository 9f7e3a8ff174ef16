//! Long-lived worker sessions: parameters, failures, retries, framing and the
//! checks on what a worker answers.
use crate::contract::{
    clone_all, opt_view, views, Diagnostic, DiagnosticStage, DiagnosticView, ErrorCode,
};
use crate::profile::NormalizedScannerProfileV2;
use crate::text::text_eq;
use std::time::Duration;
use vstd::prelude::*;
use vstd::string::StringExecFns;

verus! {

pub const SESSION_CONTRACT_VERSION: &'static str = "ai_daily_python_session_v1";

pub const SESSION_PROTOCOL_VERSION: u64 = 1;

/// The longest hello frame, in bytes.
pub const SESSION_HELLO_FRAME_LIMIT: usize = 1_048_576;

/// The longest request frame, in bytes.
pub const SESSION_REQUEST_FRAME_LIMIT: usize = 1_048_576;

/// The longest classification response, in bytes.
pub const SESSION_CLASSIFY_FRAME_LIMIT: usize = 1_048_576;

/// The most error output kept for one request, in bytes.
pub const SESSION_STDERR_LIMIT: usize = 1_048_576;

/// The longest line that is read from a worker at all, in bytes.
pub const SESSION_STDOUT_HARD_CAP: usize = 67_108_864;

/// Attempts at one classification.
pub const MAX_CLASSIFY_ATTEMPTS: u32 = 3;

/// Attempts at one parse.
pub const MAX_PARSE_ATTEMPTS: u32 = 3;

/// The length of time of so many milliseconds, as `Duration::from_millis` gives it.
pub uninterp spec fn duration_of_millis(millis: u64) -> Duration;

/// `Duration::from_millis` makes a length of time from a number of milliseconds;
/// the same number gives the same length.
pub assume_specification[ Duration::from_millis ](millis: u64) -> (duration: Duration)
    ensures
        duration == duration_of_millis(millis),
;

/// Codes that a worker reports.
#[derive(Clone, Copy, Debug, PartialEq, Eq, Structural)]
pub enum PythonOperationErrorCode {
    InvalidRequest,
    ParserStartFailed,
    ParserTimeout,
    ParserInvalidPayload,
    ParserFailed,
    SourceVersionChanged,
    InternalError,
}

/// The stage that a worker reports.
#[derive(Clone, Copy, Debug, PartialEq, Eq, Structural)]
pub enum PythonOperationStage {
    Parse,
    Process,
}

/// A diagnostic that a worker reports.
#[derive(Debug, PartialEq, Eq)]
pub struct PythonOperationDiagnosticV1 {
    pub error_code: PythonOperationErrorCode,
    pub message: String,
    pub retryable: bool,
    pub stage: PythonOperationStage,
    pub file_path: Option<String>,
    pub backend: Option<String>,
}

/// What a [`PythonOperationDiagnosticV1`] says.
#[verifier::ext_equal]
pub struct PythonOperationDiagnosticV1View {
    pub error_code: PythonOperationErrorCode,
    pub message: Seq<char>,
    pub retryable: bool,
    pub stage: PythonOperationStage,
    pub file_path: Option<Seq<char>>,
    pub backend: Option<Seq<char>>,
}

impl View for PythonOperationDiagnosticV1 {
    type V = PythonOperationDiagnosticV1View;

    open spec fn view(&self) -> PythonOperationDiagnosticV1View {
        PythonOperationDiagnosticV1View {
            error_code: self.error_code,
            message: self.message@,
            retryable: self.retryable,
            stage: self.stage,
            file_path: opt_view(self.file_path),
            backend: opt_view(self.backend),
        }
    }
}

impl Clone for PythonOperationDiagnosticV1 {
    fn clone(&self) -> (copy: Self)
        ensures
            copy@ == self@,
            copy == *self,
    {
        PythonOperationDiagnosticV1 {
            error_code: self.error_code,
            message: self.message.clone(),
            retryable: self.retryable,
            stage: self.stage,
            file_path: self.file_path.clone(),
            backend: self.backend.clone(),
        }
    }
}

/// What kind of failure a parse failure is.
#[derive(Clone, Copy, Debug, PartialEq, Eq, Structural)]
pub enum FailureClass {
    RecoverableParserFailure,
    ContractFailure,
}

/// A failed parse operation.
#[derive(Debug, PartialEq, Eq)]
pub struct ParseFailure {
    pub class: FailureClass,
    pub diagnostic: Diagnostic,
}

/// What a [`ParseFailure`] says.
#[verifier::ext_equal]
pub struct ParseFailureView {
    pub class: FailureClass,
    pub diagnostic: DiagnosticView,
}

impl View for ParseFailure {
    type V = ParseFailureView;

    open spec fn view(&self) -> ParseFailureView {
        ParseFailureView {
            class: self.class,
            diagnostic: self.diagnostic@,
        }
    }
}

impl Clone for ParseFailure {
    fn clone(&self) -> (copy: Self)
        ensures
            copy@ == self@,
            copy == *self,
    {
        ParseFailure {
            class: self.class,
            diagnostic: self.diagnostic.clone(),
        }
    }
}

/// What a session is asked to do.
#[derive(Clone, Copy, Debug, PartialEq, Eq, Structural)]
pub enum PythonSessionOperation {
    ClassifyPdfV1,
    ParseV1,
}

/// How a session answers.
#[derive(Clone, Copy, Debug, PartialEq, Eq, Structural)]
pub enum PythonSessionResponseStatus {
    Complete,
    Error,
}

/// What a classifier found.
#[derive(Clone, Copy, Debug, PartialEq, Eq, Structural)]
pub enum PdfClassifierResultStatus {
    TextInParseWindow,
    NoTextInParseWindow,
    Unknown,
    Error,
}

/// The result of a classification.
#[derive(Debug, PartialEq, Eq)]
pub struct PdfClassifierResultV1 {
    pub status: PdfClassifierResultStatus,
    pub page_count: Option<u64>,
    pub result_examined_pages: Option<u64>,
    pub diagnostic: Option<PythonOperationDiagnosticV1>,
}

/// What a [`PdfClassifierResultV1`] says.
#[verifier::ext_equal]
pub struct PdfClassifierResultV1View {
    pub status: PdfClassifierResultStatus,
    pub page_count: Option<u64>,
    pub result_examined_pages: Option<u64>,
    pub diagnostic: Option<PythonOperationDiagnosticV1View>,
}

impl View for PdfClassifierResultV1 {
    type V = PdfClassifierResultV1View;

    open spec fn view(&self) -> PdfClassifierResultV1View {
        PdfClassifierResultV1View {
            status: self.status,
            page_count: self.page_count,
            result_examined_pages: self.result_examined_pages,
            diagnostic: opt_view(self.diagnostic),
        }
    }
}

impl Clone for PdfClassifierResultV1 {
    fn clone(&self) -> (copy: Self)
        ensures
            copy@ == self@,
            copy == *self,
    {
        PdfClassifierResultV1 {
            status: self.status,
            page_count: self.page_count,
            result_examined_pages: self.result_examined_pages,
            diagnostic: self.diagnostic.clone(),
        }
    }
}

/// The result of a parse by a worker.
#[derive(Debug, PartialEq, Eq)]
pub struct WorkerParseResponse {
    pub contract: String,
    pub protocol_version: u64,
    pub request_id: String,
    pub content: String,
    pub parser_backend: String,
    pub truncated: bool,
}

/// What a [`WorkerParseResponse`] says.
#[verifier::ext_equal]
pub struct WorkerParseResponseView {
    pub contract: Seq<char>,
    pub protocol_version: u64,
    pub request_id: Seq<char>,
    pub content: Seq<char>,
    pub parser_backend: Seq<char>,
    pub truncated: bool,
}

impl View for WorkerParseResponse {
    type V = WorkerParseResponseView;

    open spec fn view(&self) -> WorkerParseResponseView {
        WorkerParseResponseView {
            contract: self.contract@,
            protocol_version: self.protocol_version,
            request_id: self.request_id@,
            content: self.content@,
            parser_backend: self.parser_backend@,
            truncated: self.truncated,
        }
    }
}

impl Clone for WorkerParseResponse {
    fn clone(&self) -> (copy: Self)
        ensures
            copy@ == self@,
            copy == *self,
    {
        WorkerParseResponse {
            contract: self.contract.clone(),
            protocol_version: self.protocol_version,
            request_id: self.request_id.clone(),
            content: self.content.clone(),
            parser_backend: self.parser_backend.clone(),
            truncated: self.truncated,
        }
    }
}

/// A request to classify a PDF.
#[derive(Debug, PartialEq, Eq)]
pub struct PdfClassifierRequestV1 {
    pub contract: String,
    pub protocol_version: u64,
    pub request_id: String,
    pub file_path: String,
    pub source_version: String,
    pub max_pages: u64,
    pub policy_version: String,
}

/// What a [`PdfClassifierRequestV1`] says.
#[verifier::ext_equal]
pub struct PdfClassifierRequestV1View {
    pub contract: Seq<char>,
    pub protocol_version: u64,
    pub request_id: Seq<char>,
    pub file_path: Seq<char>,
    pub source_version: Seq<char>,
    pub max_pages: u64,
    pub policy_version: Seq<char>,
}

impl View for PdfClassifierRequestV1 {
    type V = PdfClassifierRequestV1View;

    open spec fn view(&self) -> PdfClassifierRequestV1View {
        PdfClassifierRequestV1View {
            contract: self.contract@,
            protocol_version: self.protocol_version,
            request_id: self.request_id@,
            file_path: self.file_path@,
            source_version: self.source_version@,
            max_pages: self.max_pages,
            policy_version: self.policy_version@,
        }
    }
}

impl Clone for PdfClassifierRequestV1 {
    fn clone(&self) -> (copy: Self)
        ensures
            copy@ == self@,
            copy == *self,
    {
        PdfClassifierRequestV1 {
            contract: self.contract.clone(),
            protocol_version: self.protocol_version,
            request_id: self.request_id.clone(),
            file_path: self.file_path.clone(),
            source_version: self.source_version.clone(),
            max_pages: self.max_pages,
            policy_version: self.policy_version.clone(),
        }
    }
}

/// The identity of a session worker.
#[derive(Debug, PartialEq, Eq)]
pub struct PythonSessionVersionResponseV1 {
    pub contract: String,
    pub protocol_version: u64,
    pub session_contract_version: String,
    pub worker_build: String,
    pub classifier_build: String,
    pub supported_operations: Vec<String>,
}

/// What a [`PythonSessionVersionResponseV1`] says.
#[verifier::ext_equal]
pub struct PythonSessionVersionResponseV1View {
    pub contract: Seq<char>,
    pub protocol_version: u64,
    pub session_contract_version: Seq<char>,
    pub worker_build: Seq<char>,
    pub classifier_build: Seq<char>,
    pub supported_operations: Seq<Seq<char>>,
}

impl View for PythonSessionVersionResponseV1 {
    type V = PythonSessionVersionResponseV1View;

    open spec fn view(&self) -> PythonSessionVersionResponseV1View {
        PythonSessionVersionResponseV1View {
            contract: self.contract@,
            protocol_version: self.protocol_version,
            session_contract_version: self.session_contract_version@,
            worker_build: self.worker_build@,
            classifier_build: self.classifier_build@,
            supported_operations: views(self.supported_operations@),
        }
    }
}

impl Clone for PythonSessionVersionResponseV1 {
    fn clone(&self) -> (copy: Self)
        ensures
            copy@ == self@,
    {
        PythonSessionVersionResponseV1 {
            contract: self.contract.clone(),
            protocol_version: self.protocol_version,
            session_contract_version: self.session_contract_version.clone(),
            worker_build: self.worker_build.clone(),
            classifier_build: self.classifier_build.clone(),
            supported_operations: clone_all(&self.supported_operations),
        }
    }
}

/// The first frame of a session.
#[derive(Debug, PartialEq, Eq)]
pub struct PythonSessionHelloV1 {
    pub worker_build: String,
    pub classifier_build: String,
}

/// What a [`PythonSessionHelloV1`] says.
#[verifier::ext_equal]
pub struct PythonSessionHelloV1View {
    pub worker_build: Seq<char>,
    pub classifier_build: Seq<char>,
}

impl View for PythonSessionHelloV1 {
    type V = PythonSessionHelloV1View;

    open spec fn view(&self) -> PythonSessionHelloV1View {
        PythonSessionHelloV1View {
            worker_build: self.worker_build@,
            classifier_build: self.classifier_build@,
        }
    }
}

impl Clone for PythonSessionHelloV1 {
    fn clone(&self) -> (copy: Self)
        ensures
            copy@ == self@,
            copy == *self,
    {
        PythonSessionHelloV1 {
            worker_build: self.worker_build.clone(),
            classifier_build: self.classifier_build.clone(),
        }
    }
}

/// What an answer carries.
#[derive(Debug, PartialEq, Eq)]
pub enum PythonSessionResultV1 {
    Classify(PdfClassifierResultV1),
    Parse(WorkerParseResponse),
}

/// An answer of a session.
#[derive(Debug, PartialEq, Eq)]
pub struct PythonSessionResponseV1 {
    pub contract: String,
    pub protocol_version: u64,
    pub request_id: String,
    pub operation: PythonSessionOperation,
    pub status: PythonSessionResponseStatus,
    pub result: Option<PythonSessionResultV1>,
    pub error: Option<PythonOperationDiagnosticV1>,
}

/// Parameters of the life of a session.
#[derive(Clone, Copy, Debug, PartialEq, Eq)]
pub struct SessionParams {
    pub concurrency: usize,
    pub max_requests_per_session: u64,
    pub idle_ttl: Duration,
    pub rss_limit_bytes: u64,
}

impl Default for SessionParams {
    fn default() -> (params: Self)
        ensures
            params.concurrency == 4,
            params.max_requests_per_session == 128,
            params.idle_ttl == duration_of_millis(30_000),
            params.rss_limit_bytes == 536_870_912,
    {
        SessionParams {
            concurrency: 4,
            max_requests_per_session: 128,
            idle_ttl: Duration::from_millis(30_000),
            rss_limit_bytes: 536_870_912,
        }
    }
}

/// `value`, raised to `low` or lowered to `high`.
pub open spec fn clamped(value: int, low: int, high: int) -> int {
    if value < low {
        low
    } else if value > high {
        high
    } else {
        value
    }
}

impl SessionParams {
    /// The defaults, with as many sessions as workers, at least one and at most
    /// four.
    pub fn with_default_concurrency(max_workers: u64) -> (params: Self)
        ensures
            params.concurrency == clamped(max_workers as int, 1, 4),
            params.max_requests_per_session == 128,
            params.idle_ttl == duration_of_millis(30_000),
            params.rss_limit_bytes == 536_870_912,
    {
        let mut params: SessionParams = SessionParams::default();
        params.concurrency = if max_workers < 1 {
            1
        } else if max_workers > 4 {
            4
        } else {
            max_workers as usize
        };
        params
    }

    /// The parameters that a profile sets, with one to eight sessions.
    pub fn from_profile_v2(profile: &NormalizedScannerProfileV2) -> (params: Self)
        ensures
            params.concurrency == clamped(profile.session_concurrency as int, 1, 8),
            params.max_requests_per_session == profile.max_requests_per_session,
            params.idle_ttl == duration_of_millis(profile.session_idle_ttl_ms),
            params.rss_limit_bytes == profile.session_rss_limit_bytes,
    {
        let concurrency: usize = if profile.session_concurrency < 1 {
            1
        } else if profile.session_concurrency > 8 {
            8
        } else {
            profile.session_concurrency as usize
        };
        SessionParams {
            concurrency,
            max_requests_per_session: profile.max_requests_per_session,
            idle_ttl: Duration::from_millis(profile.session_idle_ttl_ms),
            rss_limit_bytes: profile.session_rss_limit_bytes,
        }
    }
}

/// A failure of a session or of its transport.
#[derive(Debug, PartialEq, Eq)]
pub enum SessionError {
    /// The worker could not be started or contained.
    StartFailed,
    /// The request outlasted its deadline.
    Timeout,
    /// The worker crashed or was killed.
    Crashed,
    /// A pipe was closed early.
    Eof,
    /// What was read is not what the protocol allows.
    ProtocolCorruption(String),
    /// Reading failed.
    IoFailed,
    /// The worker refused the request.
    Rejected(PythonOperationDiagnosticV1),
    /// The worker is not the one that was announced.
    BuildMismatch,
    /// A frame was longer than allowed.
    FrameTooLarge,
}

impl SessionError {
    /// Tests for a timeout.
    pub fn is_timeout(&self) -> (yes: bool)
        ensures
            yes == (*self is Timeout),
    {
        match self {
            SessionError::Timeout => true,
            _ => false,
        }
    }

    /// A failure of the transport that a fresh worker may not show again.
    pub open spec fn transport_may_be_retried(self) -> bool {
        match self {
            SessionError::StartFailed => true,
            SessionError::Crashed => true,
            SessionError::Eof => true,
            SessionError::Rejected(diagnostic) => diagnostic.retryable,
            _ => false,
        }
    }

    /// Tests for a failure of the transport that a fresh worker may not show
    /// again.
    pub fn is_retryable_transport(&self) -> (yes: bool)
        ensures
            yes == self.transport_may_be_retried(),
    {
        match self {
            SessionError::StartFailed => true,
            SessionError::Crashed => true,
            SessionError::Eof => true,
            SessionError::Rejected(diagnostic) => diagnostic.retryable,
            _ => false,
        }
    }

    /// Code, message and retry mark of the failure.
    pub open spec fn report(self) -> (ErrorCode, Seq<char>, bool) {
        match self {
            SessionError::Timeout => (
                ErrorCode::ParserTimeout,
                "worker session exceeded its deadline"@,
                false,
            ),
            SessionError::StartFailed => (
                ErrorCode::ParserStartFailed,
                "worker session could not be started"@,
                true,
            ),
            SessionError::Crashed => (
                ErrorCode::ParserFailed,
                "worker session crashed before completing its response"@,
                true,
            ),
            SessionError::Eof => (
                ErrorCode::ParserFailed,
                "worker session reached EOF before completing its response"@,
                true,
            ),
            SessionError::IoFailed => (
                ErrorCode::ParserInvalidPayload,
                "worker session transport failed"@,
                false,
            ),
            SessionError::ProtocolCorruption(message) => (
                ErrorCode::ParserInvalidPayload,
                message@,
                false,
            ),
            SessionError::Rejected(diagnostic) => (
                scanner_code(diagnostic.error_code),
                diagnostic.message@,
                diagnostic.retryable,
            ),
            SessionError::BuildMismatch => (
                ErrorCode::WorkerBuildChanged,
                "session hello build does not match the preflight identity"@,
                false,
            ),
            SessionError::FrameTooLarge => (
                ErrorCode::ParserInvalidPayload,
                "worker session response exceeded its capture limit"@,
                false,
            ),
        }
    }

    /// The parse failure that reports the session failure.
    pub fn diagnostic(&self, file_path: Option<&str>) -> (failure: ParseFailure)
        ensures
            ({
                let report = self.report();
                failure@ == (ParseFailureView {
                    class: if report.2 {
                        FailureClass::RecoverableParserFailure
                    } else {
                        FailureClass::ContractFailure
                    },
                    diagnostic: DiagnosticView {
                        error_code: report.0,
                        message: report.1,
                        retryable: report.2,
                        stage: DiagnosticStage::Process,
                        file_path: opt_view(file_path),
                        backend: None,
                    },
                })
            }),
    {
        let (code, message, retryable): (ErrorCode, String, bool) = match self {
            SessionError::Timeout => (
                ErrorCode::ParserTimeout,
                "worker session exceeded its deadline".to_string(),
                false,
            ),
            SessionError::StartFailed => (
                ErrorCode::ParserStartFailed,
                "worker session could not be started".to_string(),
                true,
            ),
            SessionError::Crashed => (
                ErrorCode::ParserFailed,
                "worker session crashed before completing its response".to_string(),
                true,
            ),
            SessionError::Eof => (
                ErrorCode::ParserFailed,
                "worker session reached EOF before completing its response".to_string(),
                true,
            ),
            SessionError::IoFailed => (
                ErrorCode::ParserInvalidPayload,
                "worker session transport failed".to_string(),
                false,
            ),
            SessionError::ProtocolCorruption(message) => (
                ErrorCode::ParserInvalidPayload,
                message.clone(),
                false,
            ),
            SessionError::Rejected(diagnostic) => (
                code_of_worker(diagnostic.error_code),
                diagnostic.message.clone(),
                diagnostic.retryable,
            ),
            SessionError::BuildMismatch => (
                ErrorCode::WorkerBuildChanged,
                "session hello build does not match the preflight identity".to_string(),
                false,
            ),
            SessionError::FrameTooLarge => (
                ErrorCode::ParserInvalidPayload,
                "worker session response exceeded its capture limit".to_string(),
                false,
            ),
        };
        let class: FailureClass = if retryable {
            FailureClass::RecoverableParserFailure
        } else {
            FailureClass::ContractFailure
        };
        let path: Option<String> = match file_path {
            Some(text) => Some(text.to_string()),
            None => None,
        };
        ParseFailure {
            class,
            diagnostic: Diagnostic {
                error_code: code,
                message,
                retryable,
                stage: DiagnosticStage::Process,
                file_path: path,
                backend: None,
            },
        }
    }
}

/// The scanner's code for a code that a worker reports.
pub open spec fn scanner_code(code: PythonOperationErrorCode) -> ErrorCode {
    match code {
        PythonOperationErrorCode::InvalidRequest => ErrorCode::InvalidRequest,
        PythonOperationErrorCode::ParserStartFailed => ErrorCode::ParserStartFailed,
        PythonOperationErrorCode::ParserTimeout => ErrorCode::ParserTimeout,
        PythonOperationErrorCode::ParserInvalidPayload => ErrorCode::ParserInvalidPayload,
        PythonOperationErrorCode::ParserFailed => ErrorCode::ParserFailed,
        PythonOperationErrorCode::SourceVersionChanged => ErrorCode::SourceVersionChanged,
        PythonOperationErrorCode::InternalError => ErrorCode::InternalError,
    }
}

fn code_of_worker(code: PythonOperationErrorCode) -> (mapped: ErrorCode)
    ensures
        mapped == scanner_code(code),
{
    match code {
        PythonOperationErrorCode::InvalidRequest => ErrorCode::InvalidRequest,
        PythonOperationErrorCode::ParserStartFailed => ErrorCode::ParserStartFailed,
        PythonOperationErrorCode::ParserTimeout => ErrorCode::ParserTimeout,
        PythonOperationErrorCode::ParserInvalidPayload => ErrorCode::ParserInvalidPayload,
        PythonOperationErrorCode::ParserFailed => ErrorCode::ParserFailed,
        PythonOperationErrorCode::SourceVersionChanged => ErrorCode::SourceVersionChanged,
        PythonOperationErrorCode::InternalError => ErrorCode::InternalError,
    }
}

/// What is done about a failed operation.
#[derive(Clone, Copy, Debug, PartialEq, Eq, Structural)]
pub enum RetryAction {
    /// A new session is started for another attempt.
    RetrySession,
    /// One attempt is made outside a session.
    OneShot,
    /// No further attempt is made.
    GiveUp,
}

/// What is done about `error` after `session_attempt` earlier failures in a
/// session: a timeout and a final refusal end the operation, any other first
/// failure is tried in a new session, and after that only a transport failure
/// gets one attempt outside a session.
pub open spec fn retry_of(error: SessionError, session_attempt: u32) -> RetryAction {
    if error is Timeout {
        RetryAction::GiveUp
    } else if error matches SessionError::Rejected(diagnostic) && !diagnostic.retryable {
        RetryAction::GiveUp
    } else if session_attempt == 0 {
        RetryAction::RetrySession
    } else if error.transport_may_be_retried() {
        RetryAction::OneShot
    } else {
        RetryAction::GiveUp
    }
}

/// Decides what is done about a failed operation.
pub fn retry_action(error: &SessionError, session_attempt: u32) -> (action: RetryAction)
    ensures
        action == retry_of(*error, session_attempt),
{
    if error.is_timeout() {
        return RetryAction::GiveUp;
    }
    if let SessionError::Rejected(diagnostic) = error {
        if !diagnostic.retryable {
            return RetryAction::GiveUp;
        }
    }
    if session_attempt == 0 {
        RetryAction::RetrySession
    } else if error.is_retryable_transport() {
        RetryAction::OneShot
    } else {
        RetryAction::GiveUp
    }
}

/// Attempts that an operation makes when its session attempts fail with the given
/// errors, from the given attempt on; an attempt outside a session is the last.
pub open spec fn attempts_made(errors: Seq<SessionError>, session_attempt: nat) -> nat
    decreases errors.len() - session_attempt,
{
    if session_attempt >= errors.len() {
        1
    } else {
        match retry_of(errors[session_attempt as int], session_attempt as u32) {
            RetryAction::GiveUp => 1,
            RetryAction::OneShot => 2,
            RetryAction::RetrySession => 1 + attempts_made(errors, session_attempt + 1),
        }
    }
}

/// An operation makes at most three attempts, whatever goes wrong; after a timeout
/// it makes none.
pub proof fn law_attempts_are_bounded(errors: Seq<SessionError>)
    ensures
        attempts_made(errors, 0) <= MAX_PARSE_ATTEMPTS,
        attempts_made(errors, 0) <= MAX_CLASSIFY_ATTEMPTS,
        errors.len() > 0 && errors[0] is Timeout ==> attempts_made(errors, 0) == 1,
{
    reveal_with_fuel(attempts_made, 3);
}

// ---------------------------------------------------------------------------
// Framing
// ---------------------------------------------------------------------------

/// The end of the first line of `bytes`, its newline included, or all of it.
pub open spec fn line_end(bytes: Seq<u8>, from: int) -> int
    decreases bytes.len() - from,
{
    if from < 0 || from >= bytes.len() {
        bytes.len() as int
    } else if bytes[from] == 10 {
        from + 1
    } else {
        line_end(bytes, from + 1)
    }
}

/// What reading some more bytes does to a line.
#[derive(Clone, Copy, Debug, PartialEq, Eq, Structural)]
pub enum LineStep {
    /// The line goes on; so many bytes were taken.
    More(usize),
    /// The line is complete; so many bytes were taken.
    Line(usize),
    /// The line is longer than allowed.
    TooLarge,
}

proof fn lemma_line_end(bytes: Seq<u8>, from: int)
    requires
        0 <= from <= bytes.len(),
    ensures
        from <= line_end(bytes, from) <= bytes.len(),
        from < bytes.len() ==> from < line_end(bytes, from),
        forall|i: int| from <= i < line_end(bytes, from) - 1 ==> bytes[i] != 10,
        line_end(bytes, from) > from ==> (bytes[line_end(bytes, from) - 1] == 10 || line_end(
            bytes,
            from,
        ) == bytes.len()),
    decreases bytes.len() - from,
{
    if from < bytes.len() && bytes[from] != 10 {
        lemma_line_end(bytes, from + 1);
    }
}

/// The line ends in a newline within `bytes`.
pub open spec fn has_newline(bytes: Seq<u8>) -> bool {
    line_end(bytes, 0) > 0 && bytes[line_end(bytes, 0) - 1] == 10
}

/// Takes the rest of a line out of the bytes that are available, up to the length
/// that is allowed.
pub fn absorb(line: &mut Vec<u8>, available: &[u8], cap: usize) -> (step: LineStep)
    requires
        available@.len() > 0,
    ensures
        ({
            let end = line_end(available@, 0);
            if old(line)@.len() + end > cap {
                step == LineStep::TooLarge && final(line)@ == old(line)@
            } else {
                &&& final(line)@ == old(line)@ + available@.take(end)
                &&& step == if has_newline(available@) {
                    LineStep::Line(end as usize)
                } else {
                    LineStep::More(end as usize)
                }
            }
        }),
{
    let ghost before = line@;
    let mut end: usize = 0;
    let mut found: bool = false;
    while end < available.len() && !found
        invariant
            end <= available.len(),
            available@.len() > 0,
            !found ==> line_end(available@, 0) == line_end(available@, end as int),
            found ==> line_end(available@, 0) == end && end > 0 && available@[end - 1] == 10,
            !found ==> forall|i: int| 0 <= i < end ==> available@[i] != 10,
        decreases available.len() - end,
    {
        if available[end] == 10 {
            found = true;
        }
        end = end + 1;
    }
    proof {
        lemma_line_end(available@, 0);
    }
    if line.len() > cap || end > cap - line.len() {
        return LineStep::TooLarge;
    }
    let mut i: usize = 0;
    while i < end
        invariant
            i <= end <= available.len(),
            line@ == before + available@.take(i as int),
        decreases end - i,
    {
        line.push(available[i]);
        i = i + 1;
        assert(line@ =~= before + available@.take(i as int));
    }
    if found {
        LineStep::Line(end)
    } else {
        LineStep::More(end)
    }
}

/// Bytes that are read in pieces.
pub struct ByteReader {
    data: Vec<u8>,
    at: usize,
    piece: usize,
}

impl ByteReader {
    /// The bytes that have not been read.
    pub closed spec fn unread(&self) -> Seq<u8> {
        self.data@.skip(self.at as int)
    }

    #[verifier::type_invariant]
    spec fn in_bounds(self) -> bool {
        self.at <= self.data@.len() && self.piece > 0
    }

    /// Reads `data` in pieces of at most `piece` bytes.
    pub fn new(data: Vec<u8>, piece: usize) -> (reader: Self)
        requires
            piece > 0,
        ensures
            reader.unread() == data@,
    {
        let reader = ByteReader { data, at: 0, piece };
        assert(reader.data@.skip(0) =~= data@);
        reader
    }

    /// The next piece; it is empty at the end.
    fn fill(&self) -> (available: Vec<u8>)
        ensures
            available@.len() <= self.unread().len(),
            available@ == self.unread().take(available@.len() as int),
            available@.len() == 0 <==> self.unread().len() == 0,
    {
        proof {
            use_type_invariant(self);
        }
        let mut available: Vec<u8> = Vec::new();
        let mut i: usize = self.at;
        while i < self.data.len() && i - self.at < self.piece
            invariant
                self.at <= i <= self.data.len(),
                available@ == self.data@.subrange(self.at as int, i as int),
                self.piece > 0,
            decreases self.data.len() - i,
        {
            available.push(self.data[i]);
            i = i + 1;
            assert(available@ =~= self.data@.subrange(self.at as int, i as int));
        }
        assert(available@ =~= self.unread().take(available@.len() as int));
        available
    }

    /// Marks `count` bytes as read.
    fn consume(&mut self, count: usize)
        requires
            count <= old(self).unread().len(),
        ensures
            final(self).unread() == old(self).unread().skip(count as int),
    {
        proof {
            use_type_invariant(&*self);
        }
        let ghost before = self.unread();
        assert(before.len() == self.data.len() - self.at);
        self.at = self.at + count;
        assert(self.data@.skip(self.at as int) =~= before.skip(count as int));
    }
}

proof fn lemma_line_end_of_prefix(bytes: Seq<u8>, split: int, from: int)
    requires
        0 <= from <= split <= bytes.len(),
    ensures
        ({
            let head = bytes.take(split);
            if line_end(head, from) > from && head[line_end(head, from) - 1] == 10 {
                line_end(bytes, from) == line_end(head, from)
            } else {
                line_end(bytes, from) == line_end(bytes, split)
            }
        }),
    decreases split - from,
{
    let head = bytes.take(split);
    if from < split {
        assert(head[from] == bytes[from]);
        if bytes[from] != 10 {
            lemma_line_end_of_prefix(bytes, split, from + 1);
            lemma_line_end(head, from + 1);
        }
    }
}

proof fn lemma_line_end_shift(bytes: Seq<u8>, by: int, from: int)
    requires
        0 <= by <= bytes.len(),
        0 <= from <= bytes.len() - by,
    ensures
        line_end(bytes, by + from) == by + line_end(bytes.skip(by), from),
    decreases bytes.len() - by - from,
{
    if from < bytes.len() - by {
        assert(bytes.skip(by)[from] == bytes[by + from]);
        if bytes[by + from] != 10 {
            lemma_line_end_shift(bytes, by, from + 1);
        }
    }
}

/// Reads the next line, its newline included; the last line may lack it. There is
/// none at the end, and a line longer than `cap` is an error. How the bytes are
/// cut into pieces makes no difference.
pub fn read_line_bounded(reader: &mut ByteReader, cap: usize) -> (line: Result<
    Option<Vec<u8>>,
    SessionError,
>)
    ensures
        ({
            let unread = old(reader).unread();
            let end = line_end(unread, 0);
            match line {
                Ok(None) => unread.len() == 0 && final(reader).unread() == unread,
                Ok(Some(bytes)) => unread.len() > 0 && end <= cap && bytes@ == unread.take(end)
                    && final(reader).unread() == unread.skip(end),
                Err(error) => end > cap && error is FrameTooLarge,
            }
        }),
{
    let ghost unread = reader.unread();
    let mut line: Vec<u8> = Vec::new();
    proof {
        assert(unread.take(0) =~= Seq::<u8>::empty());
        assert(unread.skip(0) =~= unread);
    }
    loop
        invariant
            unread == old(reader).unread(),
            line@.len() <= unread.len(),
            line@ == unread.take(line@.len() as int),
            line@.len() <= cap,
            reader.unread() == unread.skip(line@.len() as int),
            line_end(unread, 0) == line_end(unread, line@.len() as int),
            line@.len() > 0 ==> line@[line@.len() - 1] != 10,
        decreases unread.len() - line@.len(),
    {
        let available: Vec<u8> = reader.fill();
        let ghost taken = line@.len() as int;
        let ghost rest = unread.skip(taken);
        if available.len() == 0 {
            proof {
                assert(rest.len() == 0);
                assert(line_end(unread, taken) == unread.len());
                assert(unread.take(unread.len() as int) =~= unread);
                assert(rest =~= unread.skip(unread.len() as int));
            }
            if line.len() == 0 {
                return Ok(None);
            }
            return Ok(Some(line));
        }
        proof {
            lemma_line_end(available@, 0);
            lemma_line_end_of_prefix(rest, available@.len() as int, 0);
            lemma_line_end_shift(unread, taken, 0);
            lemma_line_end_shift(unread, taken, available@.len() as int);
            lemma_line_end(rest, available@.len() as int);
        }
        match absorb(&mut line, available.as_slice(), cap) {
            LineStep::TooLarge => {
                return Err(SessionError::FrameTooLarge);
            },
            LineStep::Line(count) => {
                reader.consume(count);
                proof {
                    assert(available@.take(count as int) =~= rest.take(count as int));
                    assert(line@ =~= unread.take(taken + count));
                    assert(rest.skip(count as int) =~= unread.skip(taken + count));
                }
                return Ok(Some(line));
            },
            LineStep::More(count) => {
                reader.consume(count);
                proof {
                    assert(count == available@.len());
                    assert(available@.take(count as int) =~= rest.take(count as int));
                    assert(line@ =~= unread.take(taken + count));
                    assert(rest.skip(count as int) =~= unread.skip(taken + count));
                    assert(line@[line@.len() - 1] == available@[count - 1]);
                }
            },
        }
    }
}

/// Bytes of error output that are still kept, of `count` that were read, and
/// whether reading stops because some were not.
pub fn accept_stderr(kept: usize, count: usize) -> (accepted: (usize, bool))
    ensures
        accepted.0 == if kept + count <= SESSION_STDERR_LIMIT {
            count as int
        } else if kept < SESSION_STDERR_LIMIT {
            SESSION_STDERR_LIMIT - kept
        } else {
            0
        },
        accepted.1 == (accepted.0 < count),
{
    let available: usize = if kept < SESSION_STDERR_LIMIT {
        SESSION_STDERR_LIMIT - kept
    } else {
        0
    };
    let taken: usize = if available < count {
        available
    } else {
        count
    };
    (taken, taken < count)
}

// ---------------------------------------------------------------------------
// Answers
// ---------------------------------------------------------------------------

/// Checks a request frame before it is written.
pub fn check_request_frame(length: usize) -> (verdict: Result<(), SessionError>)
    ensures
        verdict == if length > SESSION_REQUEST_FRAME_LIMIT {
            Err::<(), SessionError>(SessionError::FrameTooLarge)
        } else {
            Ok(())
        },
{
    if length > SESSION_REQUEST_FRAME_LIMIT {
        Err(SessionError::FrameTooLarge)
    } else {
        Ok(())
    }
}

/// A corruption whose message is the two texts together.
fn corruption(prefix: &str, detail: &str) -> (error: SessionError)
    ensures
        error matches SessionError::ProtocolCorruption(message) && message@ == prefix@ + detail@,
{
    let mut message: String = prefix.to_string();
    message.append(detail);
    SessionError::ProtocolCorruption(message)
}

/// `error` is a corruption with the given message.
pub open spec fn is_corruption(error: SessionError, message: Seq<char>) -> bool {
    error matches SessionError::ProtocolCorruption(text) && text@ == message
}

/// Checks the first frame of a session: its length, that it was read as a hello
/// (`None` when it is no such frame), the verdict of the wire contract on it, and
/// that the worker is the announced one.
pub fn check_hello(
    length: usize,
    hello: Option<&PythonSessionHelloV1>,
    contract_verdict: Result<(), String>,
    expected: &PythonSessionVersionResponseV1,
) -> (verdict: Result<(), SessionError>)
    ensures
        match verdict {
            Ok(()) => length <= SESSION_HELLO_FRAME_LIMIT && contract_verdict is Ok && (
            hello matches Some(frame) && frame.worker_build@ == expected.worker_build@
                && frame.classifier_build@ == expected.classifier_build@),
            Err(error) => if length > SESSION_HELLO_FRAME_LIMIT {
                error is FrameTooLarge
            } else if hello is None {
                is_corruption(error, "session hello is not one strict JSON frame"@)
            } else {
                match contract_verdict {
                    Err(message) => is_corruption(
                        error,
                        "session hello violates the strict contract: "@ + message@,
                    ),
                    Ok(()) => error is BuildMismatch && (hello->0.worker_build@
                        != expected.worker_build@ || hello->0.classifier_build@
                        != expected.classifier_build@),
                }
            },
        },
{
    if length > SESSION_HELLO_FRAME_LIMIT {
        return Err(SessionError::FrameTooLarge);
    }
    let frame: &PythonSessionHelloV1 = match hello {
        Some(frame) => frame,
        None => {
            return Err(
                SessionError::ProtocolCorruption(
                    "session hello is not one strict JSON frame".to_string(),
                ),
            );
        },
    };
    if let Err(message) = contract_verdict {
        return Err(
            corruption("session hello violates the strict contract: ", message.as_str()),
        );
    }
    if !text_eq(frame.worker_build.as_str(), expected.worker_build.as_str()) || !text_eq(
        frame.classifier_build.as_str(),
        expected.classifier_build.as_str(),
    ) {
        return Err(SessionError::BuildMismatch);
    }
    Ok(())
}

/// The answer belongs to the request: same contract, protocol, operation and
/// request.
pub open spec fn answers(
    response: PythonSessionResponseV1,
    operation: PythonSessionOperation,
    request_id: Seq<char>,
) -> bool {
    response.contract@ == "ai_daily_python_session"@ && response.protocol_version
        == SESSION_PROTOCOL_VERSION && response.operation == operation && response.request_id@
        == request_id
}

/// Accepts an answer: it was read as one (`None` when it is no such frame), the
/// wire contract accepts it, and it belongs to the request.
pub fn parse_response(
    response: Option<PythonSessionResponseV1>,
    contract_verdict: Result<(), String>,
    expected_operation: PythonSessionOperation,
    expected_request_id: &str,
) -> (accepted: Result<PythonSessionResponseV1, SessionError>)
    ensures
        match accepted {
            Ok(answer) => response == Some(answer) && contract_verdict is Ok && answers(
                answer,
                expected_operation,
                expected_request_id@,
            ),
            Err(error) => match response {
                None => is_corruption(error, "session stdout is not one strict JSON response"@),
                Some(answer) => match contract_verdict {
                    Err(message) => is_corruption(
                        error,
                        "session response violates the strict contract: "@ + message@,
                    ),
                    Ok(()) => !answers(answer, expected_operation, expected_request_id@)
                        && is_corruption(
                        error,
                        "session response operation/contract/request_id mismatch"@,
                    ),
                },
            },
        },
{
    let answer: PythonSessionResponseV1 = match response {
        Some(answer) => answer,
        None => {
            return Err(
                SessionError::ProtocolCorruption(
                    "session stdout is not one strict JSON response".to_string(),
                ),
            );
        },
    };
    if let Err(message) = contract_verdict {
        return Err(
            corruption("session response violates the strict contract: ", message.as_str()),
        );
    }
    if !text_eq(answer.contract.as_str(), "ai_daily_python_session") || answer.protocol_version
        != SESSION_PROTOCOL_VERSION || answer.operation != expected_operation || !text_eq(
        answer.request_id.as_str(),
        expected_request_id,
    ) {
        return Err(
            SessionError::ProtocolCorruption(
                "session response operation/contract/request_id mismatch".to_string(),
            ),
        );
    }
    Ok(answer)
}

/// An answer to one request is never taken for the answer to another: an accepted
/// answer carries the identifier of the request.
pub proof fn law_answers_are_not_mixed_up(
    response: PythonSessionResponseV1,
    operation: PythonSessionOperation,
    request_id: Seq<char>,
    other_operation: PythonSessionOperation,
    other_id: Seq<char>,
)
    requires
        answers(response, operation, request_id),
        answers(response, other_operation, other_id),
    ensures
        operation == other_operation,
        request_id == other_id,
{
}

/// Takes the classification out of an accepted answer.
pub fn classify_outcome(response: PythonSessionResponseV1) -> (outcome: Result<
    PdfClassifierResultV1,
    SessionError,
>)
    ensures
        match (response.status, response.result, response.error) {
            (
                PythonSessionResponseStatus::Complete,
                Some(PythonSessionResultV1::Classify(result)),
                _,
            ) => outcome == Ok::<PdfClassifierResultV1, SessionError>(result),
            (PythonSessionResponseStatus::Error, _, Some(diagnostic)) => outcome == Err::<
                PdfClassifierResultV1,
                SessionError,
            >(SessionError::Rejected(diagnostic)),
            (_, Some(PythonSessionResultV1::Parse(_)), _) => outcome matches Err(error)
                && is_corruption(error, "classify response carried a parse result"@),
            (_, None, _) => outcome matches Err(error) && is_corruption(
                error,
                "ok classify response is missing its typed result"@,
            ),
            _ => outcome matches Err(error) && is_corruption(
                error,
                "classify response violates the ok/error tagged union"@,
            ),
        },
{
    match (response.status, response.result, response.error) {
        (
            PythonSessionResponseStatus::Complete,
            Some(PythonSessionResultV1::Classify(result)),
            _,
        ) => Ok(result),
        (PythonSessionResponseStatus::Error, _, Some(diagnostic)) => Err(
            SessionError::Rejected(diagnostic),
        ),
        (_, Some(PythonSessionResultV1::Parse(_)), _) => Err(
            SessionError::ProtocolCorruption("classify response carried a parse result".to_string()),
        ),
        (_, None, _) => Err(
            SessionError::ProtocolCorruption(
                "ok classify response is missing its typed result".to_string(),
            ),
        ),
        _ => Err(
            SessionError::ProtocolCorruption(
                "classify response violates the ok/error tagged union".to_string(),
            ),
        ),
    }
}

/// A parse result repeats the request it answers.
pub open spec fn parse_identity_matches(
    result: WorkerParseResponse,
    request_id: Seq<char>,
) -> bool {
    result.request_id@ == request_id && result.contract@ == "ai_daily_worker"@
        && result.protocol_version == 1
}

/// Takes the parse out of an accepted answer.
pub fn parse_outcome(response: PythonSessionResponseV1, request_id: &str) -> (outcome: Result<
    WorkerParseResponse,
    SessionError,
>)
    ensures
        match (response.status, response.result, response.error) {
            (
                PythonSessionResponseStatus::Complete,
                Some(PythonSessionResultV1::Parse(result)),
                _,
            ) => if parse_identity_matches(result, request_id@) {
                outcome == Ok::<WorkerParseResponse, SessionError>(result)
            } else {
                outcome matches Err(error) && is_corruption(
                    error,
                    "session parse response identity does not match the request"@,
                )
            },
            (PythonSessionResponseStatus::Error, _, Some(diagnostic)) => outcome == Err::<
                WorkerParseResponse,
                SessionError,
            >(SessionError::Rejected(diagnostic)),
            (_, Some(PythonSessionResultV1::Classify(_)), _) => outcome matches Err(error)
                && is_corruption(error, "parse response carried a classify result"@),
            (_, None, _) => outcome matches Err(error) && is_corruption(
                error,
                "ok parse response is missing its typed result"@,
            ),
            _ => outcome matches Err(error) && is_corruption(
                error,
                "parse response violates the ok/error tagged union"@,
            ),
        },
{
    match (response.status, response.result, response.error) {
        (
            PythonSessionResponseStatus::Complete,
            Some(PythonSessionResultV1::Parse(result)),
            _,
        ) => {
            if !text_eq(result.request_id.as_str(), request_id) || !text_eq(
                result.contract.as_str(),
                "ai_daily_worker",
            ) || result.protocol_version != 1 {
                return Err(
                    SessionError::ProtocolCorruption(
                        "session parse response identity does not match the request".to_string(),
                    ),
                );
            }
            Ok(result)
        },
        (PythonSessionResponseStatus::Error, _, Some(diagnostic)) => Err(
            SessionError::Rejected(diagnostic),
        ),
        (_, Some(PythonSessionResultV1::Classify(_)), _) => Err(
            SessionError::ProtocolCorruption("parse response carried a classify result".to_string()),
        ),
        (_, None, _) => Err(
            SessionError::ProtocolCorruption(
                "ok parse response is missing its typed result".to_string(),
            ),
        ),
        _ => Err(
            SessionError::ProtocolCorruption(
                "parse response violates the ok/error tagged union".to_string(),
            ),
        ),
    }
}

/// Checks the length of an answer.
pub fn check_response_frame(length: usize, capture_limit: usize) -> (verdict: Result<
    (),
    SessionError,
>)
    ensures
        verdict == if length > capture_limit {
            Err::<(), SessionError>(SessionError::FrameTooLarge)
        } else {
            Ok(())
        },
{
    if length > capture_limit {
        Err(SessionError::FrameTooLarge)
    } else {
        Ok(())
    }
}

/// A session is renewed when its worker is gone, when it has served its requests,
/// or when it has been idle for too long. Milliseconds of idling are counted from
/// the last complete answer.
pub fn recycle_due(
    alive: bool,
    requests_served: u64,
    max_requests_per_session: u64,
    idle_ms: u64,
    idle_ttl_ms: u64,
) -> (due: bool)
    ensures
        due == (!alive || requests_served >= max_requests_per_session || idle_ms >= idle_ttl_ms),
{
    !alive || requests_served >= max_requests_per_session || idle_ms >= idle_ttl_ms
}

/// A request to classify a PDF.
pub fn build_classify_request(
    request_id: String,
    file_path: &str,
    source_version: &str,
    max_pages: u64,
) -> (request: PdfClassifierRequestV1)
    ensures
        request@ == (PdfClassifierRequestV1View {
            contract: "ai_daily_pdf_classifier"@,
            protocol_version: 1,
            request_id: request_id@,
            file_path: file_path@,
            source_version: source_version@,
            max_pages,
            policy_version: "pdf_text_presence_v1"@,
        }),
{
    PdfClassifierRequestV1 {
        contract: "ai_daily_pdf_classifier".to_string(),
        protocol_version: 1,
        request_id,
        file_path: file_path.to_string(),
        source_version: source_version.to_string(),
        max_pages,
        policy_version: "pdf_text_presence_v1".to_string(),
    }
}

/// A failure is worth another try over the transport exactly where the report says that it
/// may be tried again, and then it is one that a parser can recover from.
pub proof fn law_retryable_failures_are_reported_so(error: SessionError)
    ensures
        error.transport_may_be_retried() <==> error.report().2,
        error is Timeout || error is BuildMismatch || error is FrameTooLarge || error is IoFailed
            || error is ProtocolCorruption ==> !error.transport_may_be_retried(),
        error is StartFailed || error is Crashed || error is Eof
            ==> error.transport_may_be_retried(),
        error matches SessionError::Rejected(diagnostic) ==> (error.transport_may_be_retried()
            <==> diagnostic.retryable),
{
}

/// Each failure of a session is reported under the code that names it, and what the worker or
/// the frame said is passed on.
pub proof fn law_session_failures_are_reported_by_code(error: SessionError)
    ensures
        error is Timeout ==> error.report().0 == ErrorCode::ParserTimeout,
        error is StartFailed ==> error.report().0 == ErrorCode::ParserStartFailed,
        error is Crashed || error is Eof ==> error.report().0 == ErrorCode::ParserFailed,
        error is IoFailed || error is FrameTooLarge ==> error.report().0
            == ErrorCode::ParserInvalidPayload,
        error is BuildMismatch ==> error.report().0 == ErrorCode::WorkerBuildChanged,
        error matches SessionError::ProtocolCorruption(message) ==> error.report().0
            == ErrorCode::ParserInvalidPayload && error.report().1 == message@,
        error matches SessionError::Rejected(diagnostic) ==> error.report().1
            == diagnostic.message@ && error.report().2 == diagnostic.retryable,
{
}

/// A code of the worker is the code of the same name.
pub proof fn law_codes_of_the_worker_keep_their_name(code: PythonOperationErrorCode)
    ensures
        scanner_code(code) == ErrorCode::InvalidRequest <==> code
            == PythonOperationErrorCode::InvalidRequest,
        scanner_code(code) == ErrorCode::ParserStartFailed <==> code
            == PythonOperationErrorCode::ParserStartFailed,
        scanner_code(code) == ErrorCode::ParserTimeout <==> code
            == PythonOperationErrorCode::ParserTimeout,
        scanner_code(code) == ErrorCode::ParserInvalidPayload <==> code
            == PythonOperationErrorCode::ParserInvalidPayload,
        scanner_code(code) == ErrorCode::ParserFailed <==> code
            == PythonOperationErrorCode::ParserFailed,
        scanner_code(code) == ErrorCode::SourceVersionChanged <==> code
            == PythonOperationErrorCode::SourceVersionChanged,
        scanner_code(code) == ErrorCode::InternalError <==> code
            == PythonOperationErrorCode::InternalError,
{
}

/// What becomes of a failed attempt: a timeout and a rejection for good end it, a first
/// failure of any other kind gets a new session, and a later one a process of its own where
/// the failure may be tried again.
pub proof fn law_failed_attempts_are_tried_again_where_it_helps(
    error: SessionError,
    session_attempt: u32,
)
    ensures
        ({
            let action = retry_of(error, session_attempt);
            let final_word = error is Timeout || (error matches SessionError::Rejected(diagnostic)
                && !diagnostic.retryable);
            &&& final_word ==> action is GiveUp
            &&& action is RetrySession <==> session_attempt == 0 && !final_word
            &&& action is OneShot <==> session_attempt > 0 && (error is StartFailed
                || error is Crashed || error is Eof || (error matches SessionError::Rejected(
                diagnostic,
            ) && diagnostic.retryable))
        }),
{
}

/// A line ends behind its first line feed, or with the bytes where there is none.
pub proof fn law_lines_end_at_the_first_line_feed(bytes: Seq<u8>, from: int)
    requires
        0 <= from <= bytes.len(),
    ensures
        from <= line_end(bytes, from) <= bytes.len(),
        forall|i: int| from <= i < line_end(bytes, from) - 1 ==> #[trigger] bytes[i] != 10,
        line_end(bytes, from) < bytes.len() ==> line_end(bytes, from) > from && bytes[line_end(
            bytes,
            from,
        ) - 1] == 10,
        line_end(bytes, from) == from ==> from == bytes.len(),
    decreases bytes.len() - from,
{
    if from < bytes.len() && bytes[from] != 10 {
        law_lines_end_at_the_first_line_feed(bytes, from + 1);
        assert forall|i: int| from <= i < line_end(bytes, from) - 1 implies #[trigger] bytes[i]
            != 10 by {
            if i > from {
                assert(from + 1 <= i);
            }
        }
    }
}

/// Bytes hold a whole line exactly where there is a line feed among them.
pub proof fn law_whole_lines_have_a_line_feed(bytes: Seq<u8>)
    ensures
        has_newline(bytes) <==> bytes.contains(10),
{
    law_lines_end_at_the_first_line_feed(bytes, 0);
    let end = line_end(bytes, 0);
    if bytes.contains(10) {
        let at = choose|i: int| 0 <= i < bytes.len() && bytes[i] == 10;
        assert(at >= end - 1);
        if end == bytes.len() && bytes[end - 1] != 10 {
            assert(at == end - 1);
        }
    }
    if has_newline(bytes) {
        assert(bytes[end - 1] == 10);
    }
}

/// A number is brought into its bounds, and left where it is within them.
pub proof fn law_settings_are_kept_within_their_bounds(value: int, low: int, high: int)
    requires
        low <= high,
    ensures
        low <= clamped(value, low, high) <= high,
        low <= value <= high ==> clamped(value, low, high) == value,
        value <= low ==> clamped(value, low, high) == low,
        value >= high ==> clamped(value, low, high) == high,
{
}

/// An answer is taken only for the request and the operation that it names.
pub proof fn law_answers_are_taken_for_their_request(
    response: PythonSessionResponseV1,
    operation: PythonSessionOperation,
    request_id: Seq<char>,
)
    ensures
        response.request_id@ != request_id ==> !answers(response, operation, request_id),
        response.operation != operation ==> !answers(response, operation, request_id),
        response.protocol_version != 1 ==> !answers(response, operation, request_id),
        response.contract@ != "ai_daily_python_session"@ ==> !answers(
            response,
            operation,
            request_id,
        ),
        response.contract@ == "ai_daily_python_session"@ && response.protocol_version == 1
            ==> answers(response, response.operation, response.request_id@),
{
}

/// A parse is taken only for the request that it names.
pub proof fn law_parses_are_taken_for_their_request(
    result: WorkerParseResponse,
    request_id: Seq<char>,
)
    ensures
        result.request_id@ != request_id ==> !parse_identity_matches(result, request_id),
        result.contract@ != "ai_daily_worker"@ ==> !parse_identity_matches(result, request_id),
        result.protocol_version != 1 ==> !parse_identity_matches(result, request_id),
        result.contract@ == "ai_daily_worker"@ && result.protocol_version == 1
            ==> parse_identity_matches(result, result.request_id@),
{
}

/// What a session answers to a classification: the result of a complete answer, the rejection
/// of one that failed, and nothing of an answer to a parse.
pub proof fn law_classification_answers_are_passed_on(
    response: PythonSessionResponseV1,
    outcome: Result<PdfClassifierResultV1, SessionError>,
)
    requires
        call_ensures(classify_outcome, (response,), outcome),
    ensures
        outcome matches Ok(result) ==> response.status == PythonSessionResponseStatus::Complete
            && response.result == Some(PythonSessionResultV1::Classify(result)),
        response.status == PythonSessionResponseStatus::Complete && response.result is Some
            && response.result->0 is Classify ==> outcome is Ok,
        response.status == PythonSessionResponseStatus::Error ==> outcome is Err,
        response.status == PythonSessionResponseStatus::Error ==> (response.error matches Some(
            diagnostic,
        ) ==> outcome->Err_0 == SessionError::Rejected(diagnostic)),
{
}

/// What a session answers to a parse: the result of a complete answer for the request, the
/// rejection of one that failed, and nothing of an answer to a classification.
pub proof fn law_parse_answers_are_passed_on(
    response: PythonSessionResponseV1,
    request_id: &str,
    outcome: Result<WorkerParseResponse, SessionError>,
)
    requires
        call_ensures(parse_outcome, (response, request_id), outcome),
    ensures
        outcome matches Ok(result) ==> response.status == PythonSessionResponseStatus::Complete
            && response.result == Some(PythonSessionResultV1::Parse(result))
            && result.request_id@ == request_id@,
        response.status == PythonSessionResponseStatus::Error ==> outcome is Err,
        response.status == PythonSessionResponseStatus::Error ==> (response.error matches Some(
            diagnostic,
        ) ==> outcome->Err_0 == SessionError::Rejected(diagnostic)),
        response.status == PythonSessionResponseStatus::Complete ==> (
        response.result matches Some(PythonSessionResultV1::Parse(result)) ==> (
        result.request_id@ == request_id@ && result.contract@ == "ai_daily_worker"@
            && result.protocol_version == 1 ==> outcome is Ok)),
{
}

/// A session is given up where it is dead, where it has served all its requests, or where it
/// has been idle for too long; a fresh one of a sound setting is kept.
pub proof fn law_worn_out_sessions_are_given_up(
    alive: bool,
    requests_served: u64,
    max_requests_per_session: u64,
    idle_ms: u64,
    idle_ttl_ms: u64,
    due: bool,
)
    requires
        call_ensures(
            recycle_due,
            (alive, requests_served, max_requests_per_session, idle_ms, idle_ttl_ms),
            due,
        ),
    ensures
        !alive ==> due,
        requests_served >= max_requests_per_session ==> due,
        idle_ms >= idle_ttl_ms ==> due,
        due ==> !alive || requests_served >= max_requests_per_session || idle_ms >= idle_ttl_ms,
{
}

/// Of what a worker writes to its error stream no more is kept than there is room for, and
/// all of it where there is.
pub proof fn law_error_output_is_kept_up_to_its_limit(
    kept: usize,
    count: usize,
    accepted: (usize, bool),
)
    requires
        call_ensures(accept_stderr, (kept, count), accepted),
    ensures
        accepted.0 <= count,
        kept <= 1_048_576 ==> kept + accepted.0 <= 1_048_576,
        kept + count <= 1_048_576 ==> accepted.0 == count && !accepted.1,
        kept + count > 1_048_576 && count > 0 ==> accepted.1,
        kept <= 1_048_576 && kept + count > 1_048_576 ==> kept + accepted.0 == 1_048_576,
{
}

/// A frame is taken exactly up to its limit.
pub proof fn law_frames_are_taken_up_to_their_limit(
    length: usize,
    limit: usize,
    request: Result<(), SessionError>,
    response: Result<(), SessionError>,
)
    requires
        call_ensures(check_request_frame, (length,), request),
        call_ensures(check_response_frame, (length, limit), response),
    ensures
        request is Ok <==> length <= 1_048_576,
        request matches Err(error) ==> error is FrameTooLarge,
        response is Ok <==> length <= limit,
        response matches Err(error) ==> error is FrameTooLarge,
{
}

} // verus!
