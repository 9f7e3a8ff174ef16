//! Workers, plain texts, and the cache as a run asks it.
use scanner_core::contract::{
    CacheMissReason, Diagnostic, DiagnosticStage, DiscoveredFileOut, ErrorCode, ParseStatus,
    ParseTransport, ParserRoute, RouteKind,
};
use scanner_core::hash::sha256_hex;
use scanner_core::profile::{
    ExecutionProfile, NormalizedScannerProfileV1, OfficeParseProfile, ParseProfile,
    PdfParseProfile, TextParseProfile,
};
use scanner_core::scheduler::adapter::{
    light_text_after, light_text_before, lookup_classification, lookup_parse, map_store_error,
    office_execution_result, parser_route, pool_for_route, stored_run_id, worker_parse_result,
    AttemptFailure, LightText, LightTextFault, OfficeParseExecution, WorkerBackend, WorkerFailure,
    WorkerLane, WorkerOutcome, WorkerPoolKind, WorkerResponse, WorkerTransport,
};
use scanner_core::scheduler::records::{CachePortError, ParseRequest};
use scanner_core::store::cache::{
    CacheLookup, ClassificationCacheLookup, ClassificationCacheMissReason, RouteStackFingerprint,
    RouteStackFingerprints,
};
use scanner_core::store::run::StoreError;

fn file() -> DiscoveredFileOut {
    DiscoveredFileOut {
        file_identity: "id".to_string(),
        path: "/work/a.txt".to_string(),
        extension: ".txt".to_string(),
        modified_at: "2026-07-16T00:00:00+08:00".to_string(),
        size_bytes: 5,
        source_version: "mtime_ns=1:size=5".to_string(),
        source_guard_kind: Some("content_sha256_v1".to_string()),
        source_guard_sha256: Some("a".repeat(64)),
    }
}

fn request() -> ParseRequest {
    ParseRequest {
        file: file(),
        route: RouteKind::LightText,
        timeout_ms: 1_000,
    }
}

fn failure(timed_out: bool) -> AttemptFailure {
    AttemptFailure {
        diagnostic: Diagnostic {
            error_code: ErrorCode::ParserFailed,
            message: "broken".to_string(),
            retryable: true,
            stage: DiagnosticStage::Parse,
            file_path: None,
            backend: None,
        },
        failure_class: "deterministic".to_string(),
        timed_out,
    }
}

fn backend(name: &str, lane: WorkerLane) -> WorkerBackend {
    WorkerBackend {
        name: name.to_string(),
        lane,
    }
}

#[test]
fn routes_have_their_pools() {
    assert_eq!(parser_route(RouteKind::Pdf), ParserRoute::Pdf);
    assert_eq!(pool_for_route(RouteKind::LightText), WorkerPoolKind::InProcess);
    assert_eq!(pool_for_route(RouteKind::Pdf), WorkerPoolKind::Python);
    assert_eq!(pool_for_route(RouteKind::RustXlsx), WorkerPoolKind::Office);
}

#[test]
fn worker_answers_become_results() {
    let result = worker_parse_result(
        &request(),
        Ok(WorkerOutcome {
            response: WorkerResponse {
                content: "text".to_string(),
                parser_backend: backend("pdf_text_v2", WorkerLane::PythonDocumentProcessV2),
                truncated: true,
            },
            duration_ms: 12,
            transport: WorkerTransport::Session,
            attempt_count: 2,
        }),
        "pdf_text_v2",
        "python_document_process_v2",
    );
    assert_eq!(result.parse_status, ParseStatus::Success);
    assert_eq!(result.content_sha256, sha256_hex(b"text"));
    assert_eq!(result.parse_transport, ParseTransport::Session);
    assert_eq!(result.parse_attempt_count, 2);
    assert!(result.truncated);
}

#[test]
fn workers_that_were_not_reached_leave_no_trace() {
    let failed = |attempt_count: u64, timed_out: bool| {
        worker_parse_result(
            &request(),
            Err(WorkerFailure {
                failure: failure(timed_out),
                duration_ms: 12,
                transport: WorkerTransport::Session,
                attempt_count,
            }),
            "pdf_text_v2",
            "python_document_process_v2",
        )
    };
    let none = failed(0, false);
    assert_eq!(none.parser_backend, "not_parsed");
    assert_eq!(none.worker_lane, "not_parsed");
    assert_eq!(none.parse_duration_ms, 0);
    assert_eq!(none.parse_transport, ParseTransport::NotApplicable);
    let some = failed(1, true);
    assert_eq!(some.parse_status, ParseStatus::Timeout);
    assert_eq!(some.parser_backend, "pdf_text_v2");
    assert_eq!(some.parse_duration_ms, 12);
}

#[test]
fn texts_are_read_only_while_unchanged() {
    let version = Some("mtime_ns=1:size=5".to_string());
    assert!(light_text_before(&request(), &version).is_none());
    let gone = light_text_before(&request(), &None).expect("result");
    assert!(gone.error.expect("error").retryable);
    let changed =
        light_text_before(&request(), &Some("mtime_ns=2:size=5".to_string())).expect("result");
    assert_eq!(
        changed.error.expect("error").error_code,
        ErrorCode::SourceVersionChanged
    );

    let text = || LightText {
        content: "hello".to_string(),
        truncated: false,
    };
    let good = light_text_after(&request(), Ok(text()), &version, 4);
    assert_eq!(good.parse_status, ParseStatus::Success);
    assert_eq!(good.content, "hello");
    assert_eq!(good.parse_duration_ms, 4);
    let late = light_text_after(&request(), Ok(text()), &None, 4);
    assert_eq!(late.parse_status, ParseStatus::Error);
    assert_eq!(late.content, "");
    let large = light_text_after(
        &request(),
        Err((LightTextFault::FileTooLarge, "too large".to_string())),
        &version,
        4,
    );
    assert_eq!(large.error.expect("error").error_code, ErrorCode::FileTooLarge);
    assert_eq!(large.failure_class, "deterministic");
    let unread = light_text_after(
        &request(),
        Err((LightTextFault::ReadFailed, "io".to_string())),
        &version,
        4,
    );
    assert_eq!(unread.failure_class, "environment_unavailable");
}

#[test]
fn office_fallbacks_are_warned_about() {
    let execution = OfficeParseExecution {
        response: Some(WorkerResponse {
            content: "cells".to_string(),
            parser_backend: backend("python_office_v2", WorkerLane::PythonDocumentProcessV2),
            truncated: false,
        }),
        primary_failure: Some(failure(false)),
        final_failure: None,
        last_started_backend: Some(backend("python_office_v2", WorkerLane::PythonDocumentProcessV2)),
        fallback_backend: Some(backend("python_office_v2", WorkerLane::PythonDocumentProcessV2)),
        attempt_count: 2,
        primary_duration_ms: 3,
        fallback_duration_ms: 4,
    };
    let result = office_execution_result(execution, &request());
    assert_eq!(result.parse_status, ParseStatus::Success);
    assert_eq!(result.warnings.len(), 1);
    assert_eq!(result.fallback_backend, "python_office_v2");
    assert_eq!(result.fallback_reason_code, "PARSER_FAILED");
    assert_eq!(result.parse_duration_ms, 7);

    let failed = OfficeParseExecution {
        response: None,
        primary_failure: Some(failure(false)),
        final_failure: Some(failure(true)),
        last_started_backend: None,
        fallback_backend: None,
        attempt_count: 0,
        primary_duration_ms: u64::MAX,
        fallback_duration_ms: 1,
    };
    let result = office_execution_result(failed, &request());
    assert_eq!(result.parse_status, ParseStatus::Timeout);
    assert_eq!(result.parser_backend, "not_parsed");
    assert!(result.warnings.is_empty());
    assert_eq!(result.parse_duration_ms, u64::MAX);
}

fn stacks() -> RouteStackFingerprints {
    RouteStackFingerprints {
        text_like: RouteStackFingerprint::text("engine-build").unwrap(),
        modern_office: RouteStackFingerprint::modern_office("engine-build", "c", "office", None)
            .unwrap(),
        python_document: RouteStackFingerprint::python_document("engine-build", "c", "python")
            .unwrap(),
    }
}

fn profile() -> NormalizedScannerProfileV1 {
    NormalizedScannerProfileV1 {
        parser_profile_version: "v1".to_string(),
        execution: ExecutionProfile {
            max_workers: 1,
            max_file_size_bytes: 1,
            file_timeout_ms: 1,
            file_timeout_by_extension_ms: Vec::new(),
        },
        parse: ParseProfile {
            text: TextParseProfile { max_chars: 1 },
            pdf: PdfParseProfile { max_pages: 1 },
            office: OfficeParseProfile {
                primary_backend: "b".to_string(),
                fallback_after_timeout: false,
                fallback_order: Vec::new(),
            },
        },
    }
}

#[test]
fn lookups_need_a_guard_and_a_readable_cache() {
    let look = |file: &DiscoveredFileOut, rows: &Result<Vec<_>, StoreError>| {
        lookup_parse(file, RouteKind::LightText, &stacks(), &profile(), Ok(()), rows, false)
    };
    let found = look(&file(), &Ok(Vec::new())).expect("lookup");
    assert_eq!(found.parse_profile_hash.len(), 64);
    assert_eq!(found.lookup, CacheLookup::Miss(CacheMissReason::NewFile));
    let mut unguarded = file();
    unguarded.source_guard_sha256 = None;
    assert!(matches!(
        look(&unguarded, &Ok(Vec::new())),
        Err(CachePortError::InvalidKey { .. })
    ));
    assert!(matches!(
        look(&file(), &Err(StoreError::LeaseLost)),
        Err(CachePortError::Store { .. })
    ));
    assert_eq!(
        lookup_classification(&file(), &"b".repeat(64), &"c".repeat(64), &Ok(Vec::new()), true),
        Ok(ClassificationCacheLookup::Miss(
            ClassificationCacheMissReason::EntryAbsentOrEvicted
        ))
    );
}

#[test]
fn store_errors_are_passed_on() {
    assert_eq!(
        map_store_error(&StoreError::InvalidRequest("bad".to_string())),
        CachePortError::Store {
            detail: StoreError::InvalidRequest("bad".to_string()).message()
        }
    );
    assert!(matches!(
        map_store_error(&StoreError::CacheWrite { detail: "x".to_string() }),
        CachePortError::Store { .. }
    ));
    assert_eq!(stored_run_id(7), Ok(7));
    assert!(stored_run_id(u64::MAX).is_err());
}
