//! What workers answer, and what is bound to the end of a run.
use std::time::Duration;

use scanner_core::profile::{
    ExecutionProfile, NormalizedScannerProfileV2, OfficeParseProfile, ParseProfile,
    PdfParseProfile, TextParseProfile,
};
use scanner_core::session::{
    accept_stderr, build_classify_request, check_hello, check_request_frame, check_response_frame,
    classify_outcome, parse_outcome, parse_response, recycle_due, PdfClassifierResultStatus,
    PdfClassifierResultV1, PythonOperationDiagnosticV1, PythonOperationErrorCode,
    PythonOperationStage, PythonSessionHelloV1, PythonSessionOperation,
    PythonSessionResponseStatus, PythonSessionResponseV1, PythonSessionResultV1,
    PythonSessionVersionResponseV1, SessionError, SessionParams, WorkerParseResponse,
    SESSION_HELLO_FRAME_LIMIT, SESSION_REQUEST_FRAME_LIMIT, SESSION_STDERR_LIMIT,
};
use scanner_core::source_guard::{
    epoch_ns, form_guard, joined_size, windows_identity, SourceGuardKind, SourceGuardObserver,
    WindowsIdentity,
};
use scanner_core::store::cache::{ClassificationCacheEntry, ClassificationCacheRow};
use scanner_core::store::finalize::{
    check_execution_metrics, ExecutionMetricsV2, TerminalAuditTimings,
};
use scanner_core::store::lookup::touch_classification_cache_access;
use scanner_core::store::run::StoreError;

fn announced() -> PythonSessionVersionResponseV1 {
    PythonSessionVersionResponseV1 {
        contract: "ai_daily_python_session".to_string(),
        protocol_version: 1,
        session_contract_version: "ai_daily_python_session_v1".to_string(),
        worker_build: "worker".to_string(),
        classifier_build: "classifier".to_string(),
        supported_operations: vec!["classify_pdf_v1".to_string()],
    }
}

fn hello(worker_build: &str, classifier_build: &str) -> PythonSessionHelloV1 {
    PythonSessionHelloV1 {
        worker_build: worker_build.to_string(),
        classifier_build: classifier_build.to_string(),
    }
}

fn classified() -> PdfClassifierResultV1 {
    PdfClassifierResultV1 {
        status: PdfClassifierResultStatus::TextInParseWindow,
        page_count: Some(3),
        result_examined_pages: Some(1),
        diagnostic: None,
    }
}

fn parsed(request_id: &str) -> WorkerParseResponse {
    WorkerParseResponse {
        contract: "ai_daily_worker".to_string(),
        protocol_version: 1,
        request_id: request_id.to_string(),
        content: "text".to_string(),
        parser_backend: "pdf_text_v1".to_string(),
        truncated: false,
    }
}

fn refusal() -> PythonOperationDiagnosticV1 {
    PythonOperationDiagnosticV1 {
        error_code: PythonOperationErrorCode::ParserFailed,
        message: "broken".to_string(),
        retryable: true,
        stage: PythonOperationStage::Parse,
        file_path: None,
        backend: None,
    }
}

fn response(
    operation: PythonSessionOperation,
    status: PythonSessionResponseStatus,
    result: Option<PythonSessionResultV1>,
    error: Option<PythonOperationDiagnosticV1>,
) -> PythonSessionResponseV1 {
    PythonSessionResponseV1 {
        contract: "ai_daily_python_session".to_string(),
        protocol_version: 1,
        request_id: "request".to_string(),
        operation,
        status,
        result,
        error,
    }
}

fn corruption(message: &str) -> SessionError {
    SessionError::ProtocolCorruption(message.to_string())
}

const CLASSIFY: PythonSessionOperation = PythonSessionOperation::ClassifyPdfV1;
const PARSE: PythonSessionOperation = PythonSessionOperation::ParseV1;
const COMPLETE: PythonSessionResponseStatus = PythonSessionResponseStatus::Complete;
const ERROR: PythonSessionResponseStatus = PythonSessionResponseStatus::Error;

#[test]
fn hellos_must_be_those_of_the_announced_worker() {
    let expected = announced();
    let good = hello("worker", "classifier");
    assert_eq!(check_hello(100, Some(&good), Ok(()), &expected), Ok(()));
    assert_eq!(
        check_hello(SESSION_HELLO_FRAME_LIMIT + 1, Some(&good), Ok(()), &expected),
        Err(SessionError::FrameTooLarge)
    );
    assert_eq!(
        check_hello(100, None, Ok(()), &expected),
        Err(corruption("session hello is not one strict JSON frame"))
    );
    assert_eq!(
        check_hello(100, Some(&good), Err("odd".to_string()), &expected),
        Err(corruption("session hello violates the strict contract: odd"))
    );
    assert_eq!(
        check_hello(100, Some(&hello("other", "classifier")), Ok(()), &expected),
        Err(SessionError::BuildMismatch)
    );
    assert_eq!(
        check_hello(100, Some(&hello("worker", "other")), Ok(()), &expected),
        Err(SessionError::BuildMismatch)
    );
}

#[test]
fn answers_of_other_requests_are_not_taken() {
    let answer = || response(CLASSIFY, COMPLETE, None, None);
    assert_eq!(
        parse_response(Some(answer()), Ok(()), CLASSIFY, "request"),
        Ok(answer())
    );
    let mismatch = corruption("session response operation/contract/request_id mismatch");
    assert_eq!(
        parse_response(Some(answer()), Ok(()), PARSE, "request").unwrap_err(),
        mismatch
    );
    assert_eq!(
        parse_response(Some(answer()), Ok(()), CLASSIFY, "other").unwrap_err(),
        mismatch
    );
    assert_eq!(
        parse_response(None, Ok(()), CLASSIFY, "request"),
        Err(corruption("session stdout is not one strict JSON response"))
    );
    assert_eq!(
        parse_response(Some(answer()), Err("odd".to_string()), CLASSIFY, "request"),
        Err(corruption("session response violates the strict contract: odd"))
    );
}

#[test]
fn classifications_are_taken_out_of_answers() {
    let with = |status, result, error| classify_outcome(response(CLASSIFY, status, result, error));
    let classify = || Some(PythonSessionResultV1::Classify(classified()));
    let parse = || Some(PythonSessionResultV1::Parse(parsed("request")));
    assert_eq!(with(COMPLETE, classify(), None), Ok(classified()));
    assert_eq!(
        with(ERROR, None, Some(refusal())),
        Err(SessionError::Rejected(refusal()))
    );
    assert_eq!(
        with(COMPLETE, parse(), None),
        Err(corruption("classify response carried a parse result"))
    );
    assert_eq!(
        with(COMPLETE, None, None),
        Err(corruption("ok classify response is missing its typed result"))
    );
    assert_eq!(
        with(ERROR, classify(), None),
        Err(corruption("classify response violates the ok/error tagged union"))
    );
}

#[test]
fn parses_are_taken_out_of_answers() {
    let with = |status, result, error| {
        parse_outcome(response(PARSE, status, result, error), "request")
    };
    let parse = |id: &str| Some(PythonSessionResultV1::Parse(parsed(id)));
    let classify = || Some(PythonSessionResultV1::Classify(classified()));
    assert_eq!(with(COMPLETE, parse("request"), None), Ok(parsed("request")));
    assert_eq!(
        with(COMPLETE, parse("other"), None),
        Err(corruption("session parse response identity does not match the request"))
    );
    assert_eq!(
        with(ERROR, None, Some(refusal())),
        Err(SessionError::Rejected(refusal()))
    );
    assert_eq!(
        with(COMPLETE, classify(), None),
        Err(corruption("parse response carried a classify result"))
    );
    assert_eq!(
        with(COMPLETE, None, None),
        Err(corruption("ok parse response is missing its typed result"))
    );
    assert_eq!(
        with(ERROR, parse("request"), None),
        Err(corruption("parse response violates the ok/error tagged union"))
    );
}

#[test]
fn frames_are_bounded() {
    assert_eq!(check_request_frame(SESSION_REQUEST_FRAME_LIMIT), Ok(()));
    assert_eq!(
        check_request_frame(SESSION_REQUEST_FRAME_LIMIT + 1),
        Err(SessionError::FrameTooLarge)
    );
    assert_eq!(check_response_frame(10, 10), Ok(()));
    assert_eq!(check_response_frame(11, 10), Err(SessionError::FrameTooLarge));
    assert_eq!(accept_stderr(0, 100), (100, false));
    assert_eq!(accept_stderr(SESSION_STDERR_LIMIT - 40, 100), (40, true));
    assert_eq!(accept_stderr(SESSION_STDERR_LIMIT, 1), (0, true));
}

#[test]
fn sessions_are_renewed_when_due() {
    assert!(!recycle_due(true, 127, 128, 29_999, 30_000));
    assert!(recycle_due(false, 0, 128, 0, 30_000));
    assert!(recycle_due(true, 128, 128, 0, 30_000));
    assert!(recycle_due(true, 0, 128, 30_000, 30_000));
}

#[test]
fn classify_requests_name_their_policy() {
    let request = build_classify_request("id".to_string(), "/w/a.pdf", "v", 8);
    assert_eq!(request.contract, "ai_daily_pdf_classifier");
    assert_eq!(request.protocol_version, 1);
    assert_eq!(request.request_id, "id");
    assert_eq!(request.file_path, "/w/a.pdf");
    assert_eq!(request.source_version, "v");
    assert_eq!(request.max_pages, 8);
    assert_eq!(request.policy_version, "pdf_text_presence_v1");
}

#[test]
fn profiles_set_the_life_of_sessions() {
    let mut profile = NormalizedScannerProfileV2 {
        execution: ExecutionProfile {
            max_workers: 4,
            max_file_size_bytes: 1,
            file_timeout_ms: 1,
            file_timeout_by_extension_ms: Vec::new(),
        },
        parse: ParseProfile {
            text: TextParseProfile { max_chars: 1 },
            pdf: PdfParseProfile { max_pages: 1 },
            office: OfficeParseProfile {
                primary_backend: "x".to_string(),
                fallback_after_timeout: false,
                fallback_order: Vec::new(),
            },
        },
        classifier_policy_version: "p".to_string(),
        pdf_classification_timeout_ms: 1,
        max_total_pdf_classification_pages: 1,
        session_concurrency: 0,
        max_requests_per_session: 9,
        session_idle_ttl_ms: 1_500,
        session_rss_limit_bytes: 77,
        total_deadline_ms: 1,
    };
    let params = SessionParams::from_profile_v2(&profile);
    assert_eq!(params.concurrency, 1);
    assert_eq!(params.max_requests_per_session, 9);
    assert_eq!(params.idle_ttl, Duration::from_millis(1_500));
    assert_eq!(params.rss_limit_bytes, 77);
    profile.session_concurrency = 99;
    assert_eq!(SessionParams::from_profile_v2(&profile).concurrency, 8);
    profile.session_concurrency = 5;
    assert_eq!(SessionParams::from_profile_v2(&profile).concurrency, 5);
}

#[test]
fn guards_prefer_what_the_platform_tells() {
    let hash = || Some("a".repeat(64));
    let platform = SourceGuardKind::UnixInodeCtimeV1;
    assert_eq!(form_guard(platform, hash(), None).unwrap().kind, platform);
    let content = form_guard(platform, None, hash()).unwrap();
    assert_eq!(content.kind, SourceGuardKind::ContentSha256V1);
    assert_eq!(content.guard_sha256, hash());
    let none = form_guard(platform, None, None).unwrap();
    assert_eq!(none.kind, SourceGuardKind::Unavailable);
    assert_eq!(none.guard_sha256, None);
    assert!(form_guard(platform, Some("short".to_string()), None).is_err());

    let mut observer = SourceGuardObserver::new();
    assert!(observer.compute("/a", Err("gone".to_string())).is_err());
    assert_eq!(observer.metrics().unavailable_file_count, 1);
}

#[test]
fn windows_files_are_told_apart() {
    let identity = |volume_serial: u32, first: u8, change_time: u64| WindowsIdentity {
        volume_serial,
        file_id: {
            let mut id = vec![0_u8; 16];
            id[0] = first;
            id
        },
        size: joined_size(1, 2),
        last_write_time: 5,
        change_time,
    };
    assert_eq!(joined_size(1, 2), 0x1_0000_0002);
    assert_eq!(epoch_ns(2, 3), 2_000_000_003);
    let one = windows_identity(&identity(7, 1, 9)).unwrap();
    assert_eq!(one.len(), 64);
    assert_ne!(Some(one), windows_identity(&identity(7, 1, 10)));
    assert_eq!(windows_identity(&identity(0, 1, 9)), None);
    assert_eq!(windows_identity(&identity(7, 0, 9)), None);
    assert_eq!(windows_identity(&identity(7, 1, 0)), None);
}

fn metrics() -> ExecutionMetricsV2 {
    ExecutionMetricsV2 {
        discovery_observed_file_count: 1,
        source_guard_content_hash_file_count: 0,
        source_guard_unavailable_count: 0,
        source_guard_bytes_read: 0,
        candidate_file_count: 0,
        admitted_file_count: 0,
        classification_slot_count: 0,
        confirmed_run_inspected_pages_total: 0,
        unobserved_classification_attempt_count: 0,
        nominal_charged_pages_total: 0,
        extraction_slot_count: 0,
        pdfplumber_invocations: 0,
        snapshot_hit: false,
        parse_cache_lookup_count: 0,
        classification_cache_lookup_count: 0,
        parse_cache_all_hit: None,
        classification_cache_all_hit: None,
        stage_deadline_exhausted_count: 0,
        session_restart_count: 0,
        session_fallback_count: 0,
        classify_attempt_count: 0,
        parse_attempt_count: 0,
        reserved_chars: 0,
        rendered_chars: 0,
        worker_handshake_ms: 0,
        discovery_ms: 0,
        snapshot_lookup_ms: 0,
        current_run_audit_write_ms: 0,
        terminal_precommit_ms: 0,
        deadline_precommit_elapsed_ms: 0,
        envelope_rebuild_ms: 0,
        terminal_rows_written: 0,
        peak_worker_rss_bytes: None,
    }
}

#[test]
fn the_end_of_a_run_is_bound_to_its_metrics() {
    let timings = TerminalAuditTimings {
        current_run_audit_write_ms: 1,
        terminal_precommit_ms: 2,
        envelope_rebuild_ms: 3,
        terminal_rows_written: 4,
    };
    let bound = timings.bind(&metrics());
    assert_eq!(bound.current_run_audit_write_ms, 1);
    assert_eq!(bound.terminal_precommit_ms, 2);
    assert_eq!(bound.envelope_rebuild_ms, 3);
    assert_eq!(bound.terminal_rows_written, 4);
    assert_eq!(bound.discovery_observed_file_count, 1);
    assert_eq!(check_execution_metrics(&bound), Ok(()));
    let mut large = bound;
    large.rendered_chars = u64::MAX;
    assert_eq!(
        check_execution_metrics(&large),
        Err(StoreError::InvalidRequest(
            "rendered_chars exceeds SQLite integer range".to_string()
        ))
    );
}

#[test]
fn used_classifications_are_noted() {
    let row = |identity: &str| ClassificationCacheRow {
        file_identity: identity.to_string(),
        source_version: "v".to_string(),
        source_guard_kind: "content_sha256_v1".to_string(),
        source_guard_sha256: "a".repeat(64),
        classifier_profile_hash: "b".repeat(64),
        classifier_build: "c".repeat(64),
        entry: ClassificationCacheEntry {
            status: "text_in_parse_window".to_string(),
            page_count: 1,
            result_examined_pages: 1,
        },
        cached_at_ms: 0,
        entry_size_bytes: 0,
        generation_rank: 1,
        last_accessed_bucket: "2026-01-01".to_string(),
    };
    let mut rows = vec![row("one"), row("two")];
    touch_classification_cache_access(&mut rows, &vec!["two".to_string()], "2026-01-02");
    assert_eq!(rows[0].last_accessed_bucket, "2026-01-01");
    assert_eq!(rows[1].last_accessed_bucket, "2026-01-02");
}
