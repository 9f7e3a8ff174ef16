//! Artifacts, snapshots, accesses and stored rows.
use scanner_core::contract::{
    ContextAction, ContextSummary, Diagnostic, DiagnosticSeverity, DiagnosticStage, ErrorCode,
    ParseStatus, PdfClassificationStatus, RunDiagnosticRecord,
};
use scanner_core::hash::{content_hash, sha256_hex};
use scanner_core::ordered::TextSet;
use scanner_core::store::artifact::{
    artifact_invariants_hold, artifact_size_bytes, check_loaded, check_semantic_summary,
    dedup_artifact, draft_eq, restore_file_row, store_file_row, ArtifactDecisionRow,
    ArtifactDraft, ArtifactFileRow, ExistingArtifact, PdfClassificationProvenanceV1,
    SemanticSummary, SnapshotKeyParts, StoredArtifact,
};
use scanner_core::store::cache::{write_success_cache, CacheWriteRecord};
use scanner_core::store::finalize::{SnapshotHit, TerminalAuditTimings};
use scanner_core::store::inventory::InventoryRecord;
use scanner_core::store::lookup::{
    current_time_millis, identities_known_before, restore_diagnostic, snapshot_lookup,
    store_diagnostic, touch_parse_cache_access, SnapshotCandidate,
};
use scanner_core::store::run::{
    checked_i64, form_owner_id, simplify_parts, PathPart, PersistedRunStatus, StoreError,
};

fn file_row() -> ArtifactFileRow {
    ArtifactFileRow {
        file_identity: "id".to_string(),
        relative_path: "a.pdf".to_string(),
        legacy_source_version: "mtime_ns=1:size=1".to_string(),
        source_guard_kind: Some("content_sha256_v1".to_string()),
        source_guard_sha256: Some("a".repeat(64)),
        parse_profile_hash: "b".repeat(64),
        parse_status: ParseStatus::Success,
        parser_backend: "pdf_text_v1".to_string(),
        worker_lane: "python_document_process".to_string(),
        truncated: true,
        content_sha256: "c".repeat(64),
        classifier: Some(PdfClassificationProvenanceV1 {
            status: PdfClassificationStatus::TextInParseWindow,
            page_count: Some(3),
            result_examined_pages: Some(1),
            nominal_charged_pages: 3,
            classifier_build: "d".repeat(64),
            classifier_profile_hash: "e".repeat(64),
        }),
    }
}

fn decision_row() -> ArtifactDecisionRow {
    ArtifactDecisionRow {
        file_identity: "id".to_string(),
        relative_path: "a.pdf".to_string(),
        action: ContextAction::Keep,
        reason: "kept".to_string(),
        priority: 1,
        input_chars: 2,
        output_chars: 3,
        truncated: false,
        error_code: String::new(),
    }
}

fn semantic() -> SemanticSummary {
    SemanticSummary {
        source_file_count: 1,
        success_count: 1,
        timeout_count: 0,
        included_file_count: 1,
        omitted_file_count: 0,
        error_file_count: 0,
        input_chars: 5,
        output_chars: 5,
        reserved_chars: 5,
        rendered_chars: 5,
    }
}

fn draft() -> ArtifactDraft {
    ArtifactDraft {
        snapshot_eligible: true,
        final_context: "hello".to_string(),
        context_sha256: content_hash("hello"),
        semantic_summary: semantic(),
        file_rows: vec![file_row()],
        decision_rows: vec![decision_row()],
    }
}

fn key() -> SnapshotKeyParts {
    SnapshotKeyParts {
        sha256: "f".repeat(64),
        canonical_json: "{}".to_string(),
    }
}

#[test]
fn file_rows_round_trip() {
    assert_eq!(restore_file_row(store_file_row(&file_row())), Ok(file_row()));
    let mut plain = file_row();
    plain.classifier = None;
    assert_eq!(restore_file_row(store_file_row(&plain)), Ok(plain.clone()));
    let mut columns = store_file_row(&file_row());
    columns.parse_status = "half".to_string();
    assert!(matches!(restore_file_row(columns), Err(StoreError::RunCorrupt(_))));
}

#[test]
fn only_the_same_artifact_is_reused() {
    assert_eq!(dedup_artifact(None, &draft(), &key()), Ok(None));
    let stored = |json: &str, draft: ArtifactDraft| ExistingArtifact {
        artifact_id: 9,
        snapshot_key_json: Some(json.to_string()),
        draft,
    };
    assert_eq!(
        dedup_artifact(Some(&stored("{}", draft())), &draft(), &key()),
        Ok(Some(9))
    );
    assert!(matches!(
        dedup_artifact(Some(&stored("{ }", draft())), &draft(), &key()),
        Err(StoreError::ArtifactMismatch(_))
    ));
    let mut other = draft();
    other.file_rows[0].truncated = false;
    assert!(!draft_eq(&other, &draft()));
    assert!(matches!(
        dedup_artifact(Some(&stored("{}", other)), &draft(), &key()),
        Err(StoreError::ArtifactMismatch(_))
    ));
}

#[test]
fn artifacts_are_measured_and_checked() {
    let empty: i64 = 8 + 5 + 64 + 2 + 8 + 10;
    assert_eq!(
        artifact_size_bytes("hello", &"a".repeat(64), "{}", None, &vec![], &vec![]),
        empty
    );
    assert_eq!(
        artifact_size_bytes("hello", &"a".repeat(64), "{}", Some(&key()), &vec![], &vec![]),
        empty + 64 + 2
    );
    assert!(check_loaded("hello", &content_hash("hello")).is_ok());
    assert!(matches!(
        check_loaded("hullo", &content_hash("hello")),
        Err(StoreError::RunCorrupt(_))
    ));
    let summary = |source_file_count: u64| ContextSummary {
        source_file_count,
        success_count: 1,
        timeout_count: 0,
        included_file_count: 1,
        omitted_file_count: 0,
        error_file_count: 0,
        input_chars: 5,
        output_chars: 5,
        total_duration_ms: 1,
        discovery_duration_ms: 1,
        parse_duration_ms: 1,
        compression_duration_ms: 1,
    };
    assert!(check_semantic_summary(&semantic(), &summary(1)).is_ok());
    assert!(check_semantic_summary(&semantic(), &summary(2)).is_err());
}

#[test]
fn stored_artifacts_have_all_or_nothing() {
    let stored = |eligible: bool, rows: u64| StoredArtifact {
        artifact_id: 1,
        snapshot_eligible: eligible,
        snapshot_key_sha256: if eligible { Some("f".repeat(64)) } else { None },
        snapshot_key_json: if eligible { Some("{}".to_string()) } else { None },
        final_context: "hello".to_string(),
        context_sha256: sha256_hex(b"hello"),
        file_row_count: rows,
        decision_row_count: rows,
    };
    assert!(artifact_invariants_hold(&vec![stored(true, 2), stored(false, 0)]));
    assert!(!artifact_invariants_hold(&vec![stored(true, 0)]));
    assert!(!artifact_invariants_hold(&vec![stored(false, 1)]));
    let mut forged = stored(false, 0);
    forged.final_context = "hullo".to_string();
    assert!(!artifact_invariants_hold(&vec![forged]));
}

#[test]
fn snapshots_are_answered_by_the_latest_success() {
    let candidate = |artifact_id: i64, context_run_id: i64, finished_at_ms: i64| SnapshotCandidate {
        artifact_id,
        context_run_id,
        snapshot_eligible: true,
        snapshot_key_sha256: Some("f".repeat(64)),
        snapshot_key_json: Some("{}".to_string()),
        context_succeeded: true,
        run_succeeded: true,
        finished_at_ms,
    };
    let mut partial = candidate(3, 30, 300);
    partial.run_succeeded = false;
    let mut other_key = candidate(4, 40, 400);
    other_key.snapshot_key_json = Some("{ }".to_string());
    let all = vec![candidate(1, 10, 100), candidate(2, 20, 200), partial, other_key];
    assert_eq!(
        snapshot_lookup(&all, &key()),
        Some(SnapshotHit {
            artifact_id: 2,
            source_context_run_id: 20
        })
    );
    assert_eq!(snapshot_lookup(&vec![], &key()), None);
}

#[test]
fn diagnostics_round_trip_and_bad_rows_are_refused() {
    let record = RunDiagnosticRecord {
        severity: DiagnosticSeverity::Warning,
        diagnostic: Diagnostic {
            error_code: ErrorCode::ParserFailed,
            message: "m".to_string(),
            retryable: true,
            stage: DiagnosticStage::Parse,
            file_path: Some("/a".to_string()),
            backend: None,
        },
    };
    assert_eq!(restore_diagnostic(store_diagnostic(&record), true), Ok(record));
    let record = RunDiagnosticRecord {
        severity: DiagnosticSeverity::Error,
        diagnostic: Diagnostic {
            error_code: ErrorCode::InternalError,
            message: "m".to_string(),
            retryable: false,
            stage: DiagnosticStage::Internal,
            file_path: None,
            backend: None,
        },
    };
    let mut row = store_diagnostic(&record);
    row.retryable = 2;
    assert!(restore_diagnostic(row, true).expect("record").diagnostic.retryable);
    let mut row = store_diagnostic(&record);
    row.severity = "loud".to_string();
    assert!(matches!(restore_diagnostic(row, true), Err(StoreError::RunCorrupt(_))));
    assert!(restore_diagnostic(store_diagnostic(&record), false).is_err());
}

#[test]
fn accesses_are_noted_for_hits_only() {
    let record = |identity: &str| CacheWriteRecord {
        file_identity: identity.to_string(),
        source_version: "mtime_ns=1:size=1".to_string(),
        source_guard_kind: "content_sha256_v1".to_string(),
        source_guard_sha256: "0".repeat(64),
        parse_profile_hash: "1".repeat(64),
        content: "x".to_string(),
        content_sha256: sha256_hex(b"x"),
        parser_backend: "light_text_v1".to_string(),
        worker_lane: "rust_core".to_string(),
        truncated: false,
        worker_contract_version: "c".to_string(),
        worker_version: "v".to_string(),
        worker_build: "b".to_string(),
    };
    let mut rows = Vec::new();
    write_success_cache(&mut rows, 0, &vec![record("a"), record("b")]).unwrap();
    touch_parse_cache_access(&mut rows, &vec!["b".to_string()], "2026-07-16");
    let buckets: Vec<(&str, &str)> = rows
        .iter()
        .map(|row| (row.file_identity.as_str(), row.last_accessed_bucket.as_str()))
        .collect();
    assert!(buckets.contains(&("a", "1970-01-01")));
    assert!(buckets.contains(&("b", "2026-07-16")));
}

#[test]
fn files_known_before_are_told() {
    let mut known = TextSet::new();
    known.insert("a".to_string());
    known.insert("z".to_string());
    let record = |identity: &str| InventoryRecord {
        file_identity: identity.to_string(),
        absolute_path: "/a".to_string(),
        relative_path: "a".to_string(),
        file_type: ".a".to_string(),
        source_version: "mtime_ns=1:size=1".to_string(),
        size_bytes: 1,
        mtime_ns: 1,
        source_guard_kind: None,
        source_guard_sha256: None,
    };
    let existed = identities_known_before(&known, &vec![record("a"), record("b")]);
    assert!(existed.contains("a"));
    assert!(!existed.contains("b"));
    assert!(!existed.contains("z"));
}

#[test]
fn times_and_numbers_must_fit() {
    assert_eq!(current_time_millis(Some(5)), Ok(5));
    assert!(current_time_millis(None).is_err());
    assert_eq!(current_time_millis(Some((1 << 64) + 7)), Ok(7));
    assert_eq!(checked_i64(5, "n"), Ok(5));
    assert!(checked_i64(u64::MAX, "n").is_err());
}

#[test]
fn owners_look_like_random_uuids() {
    assert_eq!(
        form_owner_id("0123456789abcdef0123456789abcdef"),
        Ok("01234567-89ab-4def-8123-456789abcdef".to_string())
    );
    assert!(form_owner_id("0123").is_err());
}

#[test]
fn runtime_paths_are_simplified() {
    let normal = |name: &str| PathPart::Normal(name.to_string());
    assert_eq!(
        simplify_parts(vec![
            PathPart::Root,
            normal("a"),
            PathPart::Current,
            normal("b"),
            PathPart::Parent,
            normal("c"),
        ]),
        vec![PathPart::Root, normal("a"), normal("c")]
    );
}

#[test]
fn stored_statuses_are_read_back() {
    for status in [
        PersistedRunStatus::Running,
        PersistedRunStatus::Success,
        PersistedRunStatus::Partial,
        PersistedRunStatus::Error,
        PersistedRunStatus::Abandoned,
    ] {
        assert_eq!(PersistedRunStatus::parse(status.text()), Ok(status));
    }
    assert!(PersistedRunStatus::parse("done").is_err());
}

#[test]
fn terminal_timings_default_to_nothing() {
    let timings = TerminalAuditTimings::default();
    assert_eq!(timings.terminal_rows_written, 0);
    assert_eq!(timings.envelope_rebuild_ms, 0);
}
