//! Warnings, waves and request identities of a run.
use scanner_core::contract::{
    AuditWorkerLane, Diagnostic, DiagnosticSeverity, DiagnosticStage, ErrorCode, RunDiagnosticRecord,
};
use scanner_core::scheduler::classify::dispatch_timeout_ms;
use scanner_core::scheduler::outcome::{ceiling_outcome, run_deadlines};
use scanner_core::scheduler::request_id::request_id;
use scanner_core::scheduler::results::parse_worker_lane;
use scanner_core::scheduler::warnings::project_warnings;

fn warning(error_code: ErrorCode, retryable: bool) -> RunDiagnosticRecord {
    RunDiagnosticRecord {
        severity: DiagnosticSeverity::Warning,
        diagnostic: Diagnostic {
            error_code,
            message: "synthetic".to_string(),
            retryable,
            stage: DiagnosticStage::Parse,
            file_path: Some("C:\\f\\a.md".to_string()),
            backend: None,
        },
    }
}

#[test]
fn project_warnings_folds_overflow_into_one_aggregate() {
    let mut diagnostics: Vec<RunDiagnosticRecord> = (0..300)
        .map(|index| {
            warning(
                if index % 2 == 0 {
                    ErrorCode::ParserFailed
                } else {
                    ErrorCode::ParserTimeout
                },
                index % 3 == 0,
            )
        })
        .collect();
    diagnostics.push(RunDiagnosticRecord {
        severity: DiagnosticSeverity::Error,
        diagnostic: Diagnostic {
            error_code: ErrorCode::InternalError,
            message: "primary".to_string(),
            retryable: false,
            stage: DiagnosticStage::Internal,
            file_path: None,
            backend: None,
        },
    });

    let projected = project_warnings(diagnostics);
    let warnings: Vec<_> = projected
        .iter()
        .filter(|record| record.severity == DiagnosticSeverity::Warning)
        .collect();
    let errors: Vec<_> = projected
        .iter()
        .filter(|record| record.severity == DiagnosticSeverity::Error)
        .collect();
    assert_eq!(warnings.len(), 257);
    assert_eq!(
        warnings
            .iter()
            .filter(|record| record.diagnostic.error_code == ErrorCode::DiagnosticsAggregated)
            .count(),
        1
    );
    let aggregate = warnings
        .iter()
        .find(|record| record.diagnostic.error_code == ErrorCode::DiagnosticsAggregated)
        .expect("aggregate");
    assert_eq!(aggregate.diagnostic.stage, DiagnosticStage::Internal);
    assert!(aggregate.diagnostic.retryable, "any folded retryable => true");
    assert!(aggregate.diagnostic.file_path.is_none());
    assert!(aggregate.diagnostic.backend.is_none());
    assert_eq!(errors.len(), 1, "error diagnostics pass through untouched");
}

#[test]
fn project_warnings_passes_through_few_warnings() {
    let diagnostics = vec![
        warning(ErrorCode::ParserFailed, false),
        warning(ErrorCode::ParserTimeout, true),
    ];
    let projected = project_warnings(diagnostics);
    assert_eq!(projected.len(), 2);
    assert!(!projected
        .iter()
        .any(|record| record.diagnostic.error_code == ErrorCode::DiagnosticsAggregated));
}

#[test]
fn warnings_at_the_bound_are_not_folded() {
    let diagnostics: Vec<RunDiagnosticRecord> =
        (0..256).map(|_| warning(ErrorCode::ParserFailed, false)).collect();
    let projected = project_warnings(diagnostics);
    assert_eq!(projected.len(), 256);
    assert!(projected
        .iter()
        .all(|record| record.diagnostic.error_code == ErrorCode::ParserFailed));
}

#[test]
fn request_ids_are_version_four_and_differ_by_counter() {
    let first = request_id(1_700_000_000_000_000_000, 42, 1);
    let second = request_id(1_700_000_000_000_000_000, 42, 2);
    assert_ne!(first, second);
    for id in [&first, &second] {
        assert_eq!(id.len(), 36);
        let parts: Vec<&str> = id.split('-').collect();
        assert_eq!(
            parts.iter().map(|part| part.len()).collect::<Vec<_>>(),
            vec![8, 4, 4, 4, 12]
        );
        assert!(parts[2].starts_with('4'));
        assert!(matches!(parts[3].chars().next(), Some('8' | '9' | 'a' | 'b')));
        assert!(id.chars().all(|c| c == '-' || c.is_ascii_hexdigit()));
    }
}

#[test]
fn dispatch_timeouts_end_with_the_work() {
    assert_eq!(dispatch_timeout_ms(5_000, 10_000, 2_000), 5_000);
    assert_eq!(dispatch_timeout_ms(5_000, 10_000, 8_000), 2_000);
}

#[test]
fn deadlines_overflow_is_refused() {
    assert!(run_deadlines(1_000, 60_000).is_ok());
    assert!(run_deadlines(u64::MAX, 60_000).is_err());
}

#[test]
fn too_many_files_end_the_run() {
    assert!(ceiling_outcome(7, 10, 1_000).is_none());
    assert!(ceiling_outcome(7, u64::MAX, 1_000).is_some());
}

#[test]
fn worker_lanes_are_read_in_both_forms() {
    for (text, lane) in [
        ("rust_core", AuditWorkerLane::RustCore),
        ("rust_office_process", AuditWorkerLane::RustOfficeProcess),
        ("rust_office_process_v2", AuditWorkerLane::RustOfficeProcess),
        ("python_document_process", AuditWorkerLane::PythonDocumentProcess),
        ("python_document_process_v2", AuditWorkerLane::PythonDocumentProcess),
        ("other", AuditWorkerLane::NotParsed),
    ] {
        assert_eq!(parse_worker_lane(text), lane);
    }
}
