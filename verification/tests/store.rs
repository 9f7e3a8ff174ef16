//! Runs, leases, finalization and replay.
use rusqlite::Connection;
use scanner_core::contract::{
    AuditWorkerLane, CacheMissReason, CacheStatus, ContextAction, ContextDecision,
    ContextDecisionRecord, ContextRunRecord, ContextSummary, Diagnostic, DiagnosticSeverity,
    DiagnosticStage, DiscoveredFileOut, EngineStatus, ErrorCode, ExtensionMetric, ParseStatus,
    ParseTransport, ParserRoute, RunDiagnosticRecord, RunStatus, StageMetric, StageName,
};
use scanner_core::hash::sha256_hex;
use scanner_core::profile::{
    ExecutionProfile, NormalizedScannerProfileV1, OfficeParseProfile, ParseProfile,
    PdfParseProfile, TextParseProfile,
};
use scanner_core::store::artifact::{
    ArtifactDraft, ExistingArtifact, SemanticSummary, SnapshotKeyParts,
};
use scanner_core::store::cache::{
    parse_profile_hash, write_success_cache, CacheLookup, CacheWriteRecord, ParseCacheRow,
    RouteStackFingerprint, RouteStackFingerprints, CONTEXT_ARTIFACTS_MAX_BYTES,
};
use scanner_core::store::finalize::{
    check_rebuilt, compute_audit_size, compute_terminal_rows_written, file_execution_audit_size,
    finalization_steps, fingerprints_required, validate_finalization, FinalizationBatch,
    FinalizationVerdicts, FinalizeStep, SnapshotHitRef,
};
use scanner_core::store::inventory::{
    parse_source_version, FileResultRecord, InventoryRecord, PdfClassificationAuditV1,
};
use scanner_core::store::lookup::{
    attach_cache_evidence, checked_lookup_cache, load_diagnostics, store_diagnostics,
    PlannedAction, PlannedFile,
};
use scanner_core::store::placement::{place_artifact, Placement};
use scanner_core::store::replay::{
    accept_rebuilt, envelope_metadata, replay_envelope, EnvelopeMetadata, ReplayParts,
};
use scanner_core::store::request::{
    canonicalize_request, AdapterPaths, BuildContextRequest, ProfileSections,
};
use scanner_core::store::retention::{ArtifactSize, ContextRef, RoomRows};
use scanner_core::store::run::{
    check_replay, replay_metadata, stored_terminal_status, terminal_status_text,
    validate_database_path, ActiveRun, AttemptRuntime, BeginRunOutcome, CanonicalRequest,
    ContextEnvelope, EngineFingerprint, PersistedRunStatus, RunLedger, StoreError,
    WorkerFingerprint, LEASE_GRACE_MS,
};

const DB_PATH: &str = "/fixture/scan_index_v3.sqlite3";

/// What a store keeps of its runs, its files and its cache.
struct Harness {
    ledger: RunLedger,
    inventory: Vec<InventoryRecord>,
    file_results: Vec<FileResultRecord>,
    parse_cache: Vec<ParseCacheRow>,
    diagnostics: Vec<RunDiagnosticRecord>,
    artifact: Option<ArtifactDraft>,
    metadata: Option<EnvelopeMetadata>,
    owners: u32,
    request_id: String,
    canonical: CanonicalRequest,
    runtime: AttemptRuntime,
}

fn engine(build: &str) -> EngineFingerprint {
    EngineFingerprint {
        contract: "ai_daily_context".to_string(),
        protocol_version: 1,
        binary_name: "ai-daily-engine".to_string(),
        engine_version: "0.1.0".to_string(),
        engine_build: build.to_string(),
        target_triple: "x86_64-unknown-linux-gnu".to_string(),
    }
}

fn runtime(build: &str) -> AttemptRuntime {
    AttemptRuntime::from_request(
        &Ok(()),
        &engine(build),
        DB_PATH.to_string(),
        "/fixture/office-worker.exe".to_string(),
        "/fixture/python.exe".to_string(),
        "/fixture".to_string(),
        "src.workers.document_parser_worker".to_string(),
    )
    .unwrap()
}

fn context_request(request_id: &str) -> BuildContextRequest {
    BuildContextRequest {
        contract: "ai_daily_context".to_string(),
        protocol_version: 1,
        request_id: request_id.to_string(),
        work_dir: "/fixture".to_string(),
        scan_db_path: DB_PATH.to_string(),
        start_date: "2026-07-16".to_string(),
        end_date: "2026-07-16".to_string(),
        report_mode: "daily".to_string(),
        adapters: AdapterPaths {
            office_worker_path: "/fixture/office-worker.exe".to_string(),
            python_executable: "/fixture/python.exe".to_string(),
            python_module_root: "/fixture".to_string(),
            python_document_worker_module: "src.workers.document_parser_worker".to_string(),
        },
    }
}

fn sections() -> Result<ProfileSections, String> {
    Ok(ProfileSections {
        schema_version: "scanner_profile_v1".to_string(),
        discovery_json: "{\"extensions\":[\".txt\"]}".to_string(),
        execution_json: "{\"max_workers\":4}".to_string(),
        context_json: "{\"max_chars\":100}".to_string(),
    })
}

fn canonical_of(request: &BuildContextRequest) -> CanonicalRequest {
    canonicalize_request(
        request,
        &scanner_profile(),
        "daily",
        &Ok(()),
        &Ok(()),
        Some("/fixture"),
        &sections(),
    )
    .unwrap()
}

fn canonical_for(request_id: &str) -> CanonicalRequest {
    canonical_of(&context_request(request_id))
}

fn harness(request_id: &str) -> Harness {
    Harness {
        ledger: RunLedger {
            runs: Vec::new(),
            lease: None,
            attempts: Vec::new(),
            next_run_id: 1,
        },
        inventory: Vec::new(),
        file_results: Vec::new(),
        parse_cache: Vec::new(),
        diagnostics: Vec::new(),
        artifact: None,
        metadata: None,
        owners: 0,
        request_id: request_id.to_string(),
        canonical: canonical_for(request_id),
        runtime: runtime("engine-build"),
    }
}

impl Harness {
    fn begin(&mut self, now_ms: u64) -> Result<BeginRunOutcome, StoreError> {
        let (id, canonical, runtime) =
            (self.request_id.clone(), self.canonical.clone(), self.runtime.clone());
        self.begin_as(&id, &canonical, &runtime, now_ms)
    }

    fn begin_as(
        &mut self,
        request_id: &str,
        canonical: &CanonicalRequest,
        runtime: &AttemptRuntime,
        now_ms: u64,
    ) -> Result<BeginRunOutcome, StoreError> {
        self.owners += 1;
        let owner = format!("owner-{}", self.owners);
        self.ledger
            .begin_run(request_id, canonical, runtime, DB_PATH, &owner, 42, now_ms)
    }

    fn begin_other(&mut self, request_id: &str, now_ms: u64) -> Result<BeginRunOutcome, StoreError> {
        let canonical = canonical_for(request_id);
        let runtime = self.runtime.clone();
        self.begin_as(request_id, &canonical, &runtime, now_ms)
    }

    fn record_both_workers(&mut self, active: &ActiveRun, now_ms: u64) {
        self.ledger
            .record_worker_fingerprints(
                active,
                Some(&worker("office-build")),
                Some(&worker("python-build")),
                now_ms,
            )
            .unwrap();
    }

    fn finalize(
        &mut self,
        active: &ActiveRun,
        batch: &FinalizationBatch,
        envelope: &ContextEnvelope,
        now_ms: i64,
    ) -> Result<(), StoreError> {
        validate_finalization(active, batch, &verdicts(batch, envelope))?;
        let status = stored_terminal_status(batch.status)?;
        let metadata = envelope_metadata(envelope);
        self.ledger.finish_run(
            active,
            status,
            Some(&engine("engine-build")),
            envelope,
            fingerprints_required(batch),
            &format!("{metadata:?}"),
            compute_audit_size(batch),
            now_ms,
        )?;
        self.metadata = Some(metadata);
        self.artifact = batch.artifact.clone();
        for record in &batch.inventory {
            self.inventory.retain(|known| known.file_identity != record.file_identity);
            self.inventory.push(record.clone());
        }
        self.file_results.extend(batch.file_results.iter().cloned());
        self.diagnostics = batch.diagnostics.iter().map(clone_diagnostic).collect();
        write_success_cache(&mut self.parse_cache, now_ms, &batch.cache_writes)
            .map_err(|detail| StoreError::CacheWrite { detail })
    }

    fn lookup(&self, identity: &str, version: &str, guard: &str, profile: &str) -> CacheLookup {
        checked_lookup_cache(
            &self.parse_cache,
            identity,
            version,
            "content_sha256_v1",
            guard,
            profile,
            false,
        )
        .unwrap()
    }

    fn replay(&self, scan_run_id: i64) -> Result<ContextEnvelope, StoreError> {
        let run = self
            .ledger
            .runs
            .iter()
            .find(|run| run.scan_run_id == scan_run_id)
            .unwrap();
        replay_metadata(run)?;
        let metadata = self.metadata.clone().ok_or("gone".to_string());
        let envelope = replay_envelope(ReplayParts {
            json_read: true,
            has_summary: true,
            summary_read: true,
            artifact: Ok(self.artifact.clone()),
            metadata,
        })?;
        accept_rebuilt(true)?;
        check_replay(run, &run.request_id, &envelope)?;
        Ok(envelope)
    }
}

fn clone_diagnostic(record: &RunDiagnosticRecord) -> RunDiagnosticRecord {
    RunDiagnosticRecord {
        severity: record.severity,
        diagnostic: record.diagnostic.clone(),
    }
}

fn worker(build: &str) -> WorkerFingerprint {
    WorkerFingerprint {
        contract: "ai_daily_worker_v1".to_string(),
        version: "0.1.0".to_string(),
        build: build.to_string(),
    }
}

fn started(outcome: BeginRunOutcome) -> ActiveRun {
    match outcome {
        BeginRunOutcome::Started(active) => active,
        BeginRunOutcome::Stored(_) => panic!("expected a new active run"),
    }
}

fn verdicts(batch: &FinalizationBatch, envelope: &ContextEnvelope) -> FinalizationVerdicts {
    FinalizationVerdicts {
        file_audits: vec![true; batch.file_results.len()],
        file_errors: vec![true; batch.file_results.len()],
        diagnostics: vec![Ok(()); batch.diagnostics.len()],
        metrics: Ok(()),
        envelope: Some(envelope.clone()),
        envelope_verdict: Ok(()),
        canonical: true,
        summary: Ok(()),
        decisions: match &batch.context {
            Some(context) => vec![Ok(()); context.decisions.len()],
            None => Vec::new(),
        },
    }
}

fn empty_summary() -> ContextSummary {
    ContextSummary {
        source_file_count: 0,
        success_count: 0,
        timeout_count: 0,
        included_file_count: 0,
        omitted_file_count: 0,
        error_file_count: 0,
        input_chars: 0,
        output_chars: 0,
        total_duration_ms: 0,
        discovery_duration_ms: 0,
        parse_duration_ms: 0,
        compression_duration_ms: 0,
    }
}

fn run_error() -> Diagnostic {
    Diagnostic {
        error_code: ErrorCode::WorkerHandshakeFailed,
        message: "worker handshake failed".to_string(),
        retryable: false,
        stage: DiagnosticStage::Process,
        file_path: None,
        backend: None,
    }
}

fn error_batch(active: &ActiveRun) -> (FinalizationBatch, ContextEnvelope) {
    let envelope = ContextEnvelope {
        contract: "ai_daily_context".to_string(),
        protocol_version: 1,
        request_id: active.request_id().to_string(),
        engine_version: "0.1.0".to_string(),
        engine_build: "engine-build".to_string(),
        status: EngineStatus::Error,
        file_context: String::new(),
        summary: empty_summary(),
        scan_run_id: Some(active.scan_run_id()),
        context_run_id: None,
        warnings: Vec::new(),
        error: Some(run_error()),
    };
    let batch = FinalizationBatch {
        status: RunStatus::Error,
        envelope_json: format!("{envelope:?}"),
        inventory: Vec::new(),
        cache_writes: Vec::new(),
        file_results: Vec::new(),
        diagnostics: vec![RunDiagnosticRecord {
            severity: DiagnosticSeverity::Error,
            diagnostic: run_error(),
        }],
        stage_metrics: Vec::new(),
        extension_metrics: Vec::new(),
        context: None,
        artifact: None,
        snapshot_key: None,
        snapshot_hit: None,
        execution_metrics: None,
    };
    (batch, envelope)
}

fn inventory_record(identity: &str, source_version: &str) -> InventoryRecord {
    let (mtime_ns, size_bytes) = parse_source_version(source_version).unwrap();
    InventoryRecord {
        file_identity: identity.to_string(),
        absolute_path: "C:\\fixture\\evidence.txt".to_string(),
        relative_path: "evidence.txt".to_string(),
        file_type: ".txt".to_string(),
        source_version: source_version.to_string(),
        size_bytes,
        mtime_ns,
        source_guard_kind: None,
        source_guard_sha256: None,
    }
}

fn success_file_result(
    identity: &str,
    source_version: &str,
    profile_hash: &str,
    content: &str,
) -> FileResultRecord {
    FileResultRecord {
        file_identity: identity.to_string(),
        relative_path: "evidence.txt".to_string(),
        source_version: source_version.to_string(),
        parse_profile_hash: profile_hash.to_string(),
        cache_status: CacheStatus::Miss,
        cache_miss_reason: CacheMissReason::NewFile,
        parse_status: ParseStatus::Success,
        parser_backend: "light_text_v1".to_string(),
        worker_lane: AuditWorkerLane::RustCore,
        truncated: false,
        content_sha256: sha256_hex(content.as_bytes()),
        primary_duration_ms: 3,
        fallback_duration_ms: 0,
        parse_duration_ms: 3,
        failure_class: String::new(),
        fallback_backend: String::new(),
        fallback_reason_code: String::new(),
        parse_transport: ParseTransport::RustInProcess,
        parse_attempt_count: 1,
        pdf_classification: None,
        error: None,
    }
}

fn cache_record(
    identity: &str,
    source_version: &str,
    profile_hash: &str,
    content: &str,
) -> CacheWriteRecord {
    CacheWriteRecord {
        file_identity: identity.to_string(),
        source_version: source_version.to_string(),
        source_guard_kind: "content_sha256_v1".to_string(),
        source_guard_sha256: "0".repeat(64),
        parse_profile_hash: profile_hash.to_string(),
        content: content.to_string(),
        content_sha256: sha256_hex(content.as_bytes()),
        parser_backend: "light_text_v1".to_string(),
        worker_lane: "rust_core".to_string(),
        truncated: false,
        worker_contract_version: "ai_daily_context_v1".to_string(),
        worker_version: "0.1.0".to_string(),
        worker_build: "engine-build".to_string(),
    }
}

fn success_batch(
    active: &ActiveRun,
    identity: &str,
    source_version: &str,
    profile_hash: &str,
    content: &str,
) -> (FinalizationBatch, ContextEnvelope) {
    let chars = content.chars().count() as u64;
    let summary = ContextSummary {
        source_file_count: 1,
        success_count: 1,
        timeout_count: 0,
        included_file_count: 1,
        omitted_file_count: 0,
        error_file_count: 0,
        input_chars: chars,
        output_chars: chars,
        total_duration_ms: 8,
        discovery_duration_ms: 2,
        parse_duration_ms: 3,
        compression_duration_ms: 1,
    };
    let envelope = ContextEnvelope {
        contract: "ai_daily_context".to_string(),
        protocol_version: 1,
        request_id: active.request_id().to_string(),
        engine_version: "0.1.0".to_string(),
        engine_build: "engine-build".to_string(),
        status: EngineStatus::Complete,
        file_context: content.to_string(),
        summary: summary.clone(),
        scan_run_id: Some(active.scan_run_id()),
        context_run_id: Some(active.context_run_id()),
        warnings: Vec::new(),
        error: None,
    };
    let stage = |stage: StageName, duration_ms: u64| StageMetric {
        stage,
        item_count: 1,
        duration_ms,
    };
    let batch = FinalizationBatch {
        status: RunStatus::Success,
        envelope_json: format!("{envelope:?}"),
        inventory: vec![inventory_record(identity, source_version)],
        cache_writes: vec![cache_record(identity, source_version, profile_hash, content)],
        file_results: vec![success_file_result(
            identity,
            source_version,
            profile_hash,
            content,
        )],
        diagnostics: Vec::new(),
        stage_metrics: vec![
            stage(StageName::Discovery, 2),
            stage(StageName::Cache, 1),
            stage(StageName::Parse, 3),
            stage(StageName::Context, 1),
        ],
        extension_metrics: vec![ExtensionMetric {
            extension: ".txt".to_string(),
            file_count: 1,
            parse_duration_ms: 3,
            success_count: 1,
            error_count: 0,
            timeout_count: 0,
        }],
        context: Some(ContextRunRecord {
            context_profile_hash: "b".repeat(64),
            status: RunStatus::Success,
            final_context: content.to_string(),
            context_sha256: sha256_hex(content.as_bytes()),
            summary,
            decisions: vec![ContextDecisionRecord {
                file_identity: identity.to_string(),
                decision: ContextDecision {
                    relative_path: "evidence.txt".to_string(),
                    action: ContextAction::Keep,
                    reason: "fits budgets".to_string(),
                    priority: 1,
                    input_chars: chars,
                    output_chars: chars,
                    truncated: false,
                    error_code: String::new(),
                },
            }],
        }),
        artifact: Some(ArtifactDraft {
            snapshot_eligible: false,
            final_context: content.to_string(),
            context_sha256: sha256_hex(content.as_bytes()),
            semantic_summary: SemanticSummary {
                source_file_count: 1,
                success_count: 1,
                timeout_count: 0,
                included_file_count: 1,
                omitted_file_count: 0,
                error_file_count: 0,
                input_chars: chars,
                output_chars: chars,
                reserved_chars: chars,
                rendered_chars: chars,
            },
            file_rows: Vec::new(),
            decision_rows: Vec::new(),
        }),
        snapshot_key: None,
        snapshot_hit: None,
        execution_metrics: None,
    };
    (batch, envelope)
}

fn scanner_profile() -> NormalizedScannerProfileV1 {
    NormalizedScannerProfileV1 {
        parser_profile_version: "v1".to_string(),
        execution: ExecutionProfile {
            max_workers: 4,
            max_file_size_bytes: 1_048_576,
            file_timeout_ms: 30_000,
            file_timeout_by_extension_ms: Vec::new(),
        },
        parse: ParseProfile {
            text: TextParseProfile { max_chars: 20_000 },
            pdf: PdfParseProfile { max_pages: 20 },
            office: OfficeParseProfile {
                primary_backend: "rust_office_v1".to_string(),
                fallback_after_timeout: false,
                fallback_order: Vec::new(),
            },
        },
    }
}

#[test]
fn file_result_validation_rejects_impossible_execution_provenance() {
    let source = "mtime_ns=100:size=5";
    let profile_hash = "a".repeat(64);

    let mut fresh_with_execution = success_file_result("file-a", source, &profile_hash, "hello");
    fresh_with_execution.cache_status = CacheStatus::Fresh;
    fresh_with_execution.cache_miss_reason = CacheMissReason::NotMissed;
    fresh_with_execution.parse_transport = ParseTransport::OneShot;
    assert!(fresh_with_execution.validate(true, true).is_err());

    let mut miss_without_execution = success_file_result("file-a", source, &profile_hash, "hello");
    miss_without_execution.parse_transport = ParseTransport::NotApplicable;
    miss_without_execution.parse_attempt_count = 0;
    miss_without_execution.primary_duration_ms = 0;
    miss_without_execution.parse_duration_ms = 0;
    assert!(miss_without_execution.validate(true, true).is_err());

    assert!(success_file_result("file-a", source, &profile_hash, "hello")
        .validate(true, true)
        .is_ok());
}

#[test]
fn audit_size_counts_the_execution_child_payload() {
    let source = "mtime_ns=100:size=5";
    let profile_hash = "a".repeat(64);
    let active = ActiveRun::new(
        1,
        1,
        "owner".to_string(),
        "00000000-0000-4000-8000-000000000099".to_string(),
    );
    let (mut batch, _) = error_batch(&active);
    batch.file_results = vec![success_file_result("file-a", source, &profile_hash, "hello")];
    let parse_only_size = compute_audit_size(&batch);
    batch.file_results[0].pdf_classification = Some(PdfClassificationAuditV1 {
        status: "text_in_parse_window".to_string(),
        page_count: Some(2),
        classification_cache_status: "miss".to_string(),
        classification_cache_miss_reason: "classifier_identity_changed".to_string(),
        result_examined_pages: Some(1),
        run_inspected_pages: Some(1),
        nominal_charged_pages: 2,
        duration_ms: 3,
        transport: "session".to_string(),
        attempt_count: 1,
        classifier_build: "b".repeat(64),
        classifier_profile_hash: "c".repeat(64),
    });

    assert!(
        compute_audit_size(&batch) > parse_only_size,
        "classification execution child fields must contribute to audit_size_bytes"
    );
    let with = file_execution_audit_size(&batch.file_results[0], false);
    batch.file_results[0].pdf_classification = None;
    let without = file_execution_audit_size(&batch.file_results[0], false);
    assert_eq!(
        with - without,
        compute_audit_size_of_audit(
            &["text_in_parse_window", "miss", "classifier_identity_changed", "session"],
            64 + 64
        )
    );
}

/// The texts of a classification audit, eight bytes for each of its six numbers, less
/// the twelve markers that stand for a missing one.
fn compute_audit_size_of_audit(texts: &[&str], hashes: i64) -> i64 {
    texts.iter().map(|text| text.len() as i64).sum::<i64>() + hashes + 6 * 8 - 12
}

#[test]
fn audit_size_leaves_the_inventory_out() {
    let active = ActiveRun::new(1, 1, "owner".to_string(), "request".to_string());
    let (mut batch, _) = error_batch(&active);
    let without = compute_audit_size(&batch);
    batch.inventory = vec![inventory_record("file-a", "mtime_ns=100:size=5")];
    assert_eq!(compute_audit_size(&batch), without);
}

#[test]
fn canonical_request_excludes_ids_runtime_paths_and_builds() {
    let first = harness("00000000-0000-4000-8000-000000000001");
    let mut changed = context_request("00000000-0000-4000-8000-000000000001");
    changed.request_id = "00000000-0000-4000-8000-000000000002".to_string();
    changed.scan_db_path = "/fixture/other.sqlite3".to_string();
    changed.adapters.office_worker_path = "/fixture/changed-worker.exe".to_string();
    let equivalent = canonical_of(&changed);

    assert_eq!(equivalent.json(), first.canonical.json());
    assert_eq!(equivalent.hash(), first.canonical.hash());
    assert!(!first.canonical.json().contains("request_id"));
    assert!(!first.canonical.json().contains("scan_db_path"));
    assert!(!first.canonical.json().contains("adapters"));
    assert!(first.canonical.json().contains("context_profile"));
    assert_eq!(first.canonical.hash_algorithm(), "sha256-request-v1");
}

#[test]
fn canonical_requests_hold_the_logical_input() {
    let request = context_request("00000000-0000-4000-8000-000000000001");
    let canonical = canonical_of(&request);
    assert_eq!(
        canonical.json(),
        "{\"contract\":\"ai_daily_context\",\"protocol_version\":1,\"work_dir\":\"/fixture\",\
         \"start_date\":\"2026-07-16\",\"end_date\":\"2026-07-16\",\"report_mode\":\"daily\",\
         \"scanner_profile\":{\"schema_version\":\"scanner_profile_v1\",\
         \"parser_profile_version\":\"v1\",\"discovery\":{\"extensions\":[\".txt\"]},\
         \"execution\":{\"max_workers\":4},\"parse\":{\"text\":{\"max_chars\":20000},\
         \"pdf\":{\"max_pages\":20},\"office\":{\"primary_backend\":\"rust_office_v1\",\
         \"fallback_after_timeout\":false,\"fallback_order\":[]}}},\
         \"context_profile\":{\"max_chars\":100}}"
    );
    let mut hashes = vec![canonical.hash().to_string()];
    for change in 0..5 {
        let mut other = request.clone();
        match change {
            0 => other.contract = "other".to_string(),
            1 => other.protocol_version = 2,
            2 => other.start_date = "2026-07-15".to_string(),
            3 => other.end_date = "2026-07-17".to_string(),
            _ => other.contract = "quoted \"".to_string(),
        }
        hashes.push(canonical_of(&other).hash().to_string());
    }
    hashes.sort();
    hashes.dedup();
    assert_eq!(hashes.len(), 6);
}

#[test]
fn canonical_requests_hold_their_logical_input_alone() {
    let canonical = canonical_for("00000000-0000-4000-8000-000000000021");
    let json: serde_json::Value = serde_json::from_str(canonical.json()).unwrap();
    let mut keys: Vec<&String> = json.as_object().unwrap().keys().collect();
    keys.sort();
    assert_eq!(
        keys,
        vec![
            "context_profile",
            "contract",
            "end_date",
            "protocol_version",
            "report_mode",
            "scanner_profile",
            "start_date",
            "work_dir",
        ]
    );
    let mut sections: Vec<&String> =
        json["scanner_profile"].as_object().unwrap().keys().collect();
    sections.sort();
    assert_eq!(
        sections,
        vec!["discovery", "execution", "parse", "parser_profile_version", "schema_version"]
    );
    assert!(!canonical.json().contains("00000000-0000-4000-8000-000000000021"));
    assert!(!canonical.json().contains(DB_PATH));
}

#[test]
fn invalid_requests_have_no_canonical_form() {
    let request = context_request("id");
    let form = |accepted: Result<(), String>,
                profile: Result<(), String>,
                mode: &str,
                work_dir: Option<&str>,
                sections: &Result<ProfileSections, String>| {
        canonicalize_request(
            &request,
            &scanner_profile(),
            mode,
            &accepted,
            &profile,
            work_dir,
            sections,
        )
        .err()
    };
    let found = Some("/fixture");
    assert_eq!(
        form(Err("bad".to_string()), Ok(()), "daily", found, &sections()),
        Some(StoreError::InvalidRequest("bad".to_string()))
    );
    assert_eq!(
        form(Ok(()), Err("worse".to_string()), "daily", found, &sections()),
        Some(StoreError::InvalidRequest("worse".to_string()))
    );
    assert_eq!(
        form(Ok(()), Ok(()), "weekly", found, &sections()),
        Some(StoreError::InvalidRequest(
            "request and normalized report modes disagree".to_string()
        ))
    );
    assert_eq!(
        form(Ok(()), Ok(()), "daily", None, &sections()),
        Some(StoreError::InvalidRequest("work_dir is unavailable".to_string()))
    );
    assert_eq!(
        form(Ok(()), Ok(()), "daily", found, &Err("io".to_string())),
        Some(StoreError::InvalidRequest(
            "canonical request serialization failed: io".to_string()
        ))
    );
    assert_eq!(form(Ok(()), Ok(()), "daily", found, &sections()), None);
}

#[test]
fn worker_count_does_not_change_parse_profile_hash() {
    let profile = scanner_profile();
    let route = RouteStackFingerprint::text("build-a").unwrap();
    let original = parse_profile_hash(1, &route, &profile, Ok(())).unwrap();
    let mut changed = profile.clone();
    changed.execution.max_workers = 1;
    let changed = parse_profile_hash(1, &route, &changed, Ok(())).unwrap();
    assert_eq!(original, changed);
}

#[test]
fn cache_aware_plan_consumes_pure_planner_output_without_reclassification() {
    let harness = harness("00000000-0000-4000-8000-000000000019");
    let file = DiscoveredFileOut {
        file_identity: "file-a".to_string(),
        path: "C:\\fixture\\evidence.txt".to_string(),
        extension: ".txt".to_string(),
        modified_at: "2026-07-16T00:00:00+08:00".to_string(),
        size_bytes: 5,
        source_version: "mtime_ns=100:size=5".to_string(),
        source_guard_kind: None,
        source_guard_sha256: None,
    };
    let stacks = RouteStackFingerprints {
        text_like: RouteStackFingerprint::text("engine-build").unwrap(),
        modern_office: RouteStackFingerprint::modern_office(
            "engine-build",
            "ai_daily_worker_v1",
            "office-build",
            Some(("ai_daily_worker_v1", "python-build")),
        )
        .unwrap(),
        python_document: RouteStackFingerprint::python_document(
            "engine-build",
            "ai_daily_worker_v1",
            "python-build",
        )
        .unwrap(),
    };
    let entries = attach_cache_evidence(
        vec![
            PlannedFile {
                file: file.clone(),
                action: PlannedAction::Parse(ParserRoute::LightText),
            },
            PlannedFile {
                file,
                action: PlannedAction::Reject,
            },
        ],
        &harness.parse_cache,
        &stacks,
        &scanner_profile(),
        &Ok(()),
    )
    .unwrap();

    assert!(entries[0].parse_profile_hash.is_some());
    assert_eq!(
        entries[0].cache_lookup,
        Some(CacheLookup::Miss(CacheMissReason::NewFile))
    );
    assert_eq!(entries[1].planned.action, PlannedAction::Reject);
    assert!(entries[1].parse_profile_hash.is_none());
    assert!(entries[1].cache_lookup.is_none());
}

#[test]
fn live_lease_returns_structured_same_and_different_request_errors() {
    let mut first = harness("00000000-0000-4000-8000-000000000004");
    let active = started(first.begin(100_000).unwrap());

    assert_eq!(first.begin(100_001).unwrap_err(), StoreError::RequestInProgress);
    assert_eq!(
        first
            .begin_other("00000000-0000-4000-8000-000000000005", 100_001)
            .unwrap_err(),
        StoreError::ScanAlreadyRunning
    );
    let attempts = first
        .ledger
        .attempts
        .iter()
        .filter(|attempt| attempt.scan_run_id as u64 == active.scan_run_id())
        .count();
    assert_eq!(attempts, 1);
}

#[test]
fn heartbeat_prevents_reclaim_but_expired_lease_is_recovered() {
    let mut first = harness("00000000-0000-4000-8000-000000000006");
    let active = started(first.begin(100_000).unwrap());
    first.ledger.heartbeat(&active, 115_000).unwrap();
    assert_eq!(
        first
            .begin_other("00000000-0000-4000-8000-000000000007", 130_000)
            .unwrap_err(),
        StoreError::ScanAlreadyRunning
    );

    let recovered = started(
        first
            .begin_other("00000000-0000-4000-8000-000000000007", 135_001)
            .unwrap(),
    );
    assert_ne!(recovered.scan_run_id(), active.scan_run_id());
    assert_eq!(first.ledger.runs[0].status, PersistedRunStatus::Abandoned);
    assert_eq!(first.ledger.runs[0].status.text(), "abandoned");
}

#[test]
fn abandoned_same_request_reuses_row_appends_attempt_and_clears_lease_on_finish() {
    let mut first = harness("00000000-0000-4000-8000-000000000008");
    let active = started(first.begin(1_000).unwrap());
    let recovered = started(first.begin(1_000 + LEASE_GRACE_MS + 1).unwrap());
    assert_eq!(recovered.scan_run_id(), active.scan_run_id());
    assert_eq!(recovered.attempt_number(), 2);
    let (batch, envelope) = error_batch(&recovered);
    first.finalize(&recovered, &batch, &envelope, 30_000).unwrap();
    assert!(first.ledger.lease.is_none());
}

#[test]
fn commands_and_runs_keep_each_other_out() {
    let mut store = harness("request-1");
    let active = started(store.begin(1_000).unwrap());
    assert_eq!(
        store.ledger.acquire_upgrade_lease("command", 7, 2_000),
        Err(StoreError::ScanAlreadyRunning)
    );
    store.ledger.heartbeat(&active, 3_000).unwrap();

    // The run went silent: the command takes over and the run is given up.
    let later = 3_000 + LEASE_GRACE_MS as i64;
    store.ledger.acquire_upgrade_lease("command", 7, later).unwrap();
    let lease = store.ledger.lease.clone().unwrap();
    assert_eq!(lease.owner_id, "command");
    assert_eq!(lease.owner_pid, 7);
    assert_eq!(lease.acquired_at_ms, later);
    assert_eq!(lease.expires_at_ms, later + LEASE_GRACE_MS as i64);
    assert_eq!(store.ledger.runs[0].status, PersistedRunStatus::Abandoned);
    assert_eq!(store.ledger.attempts[0].status, PersistedRunStatus::Abandoned);
    assert_eq!(
        store.begin_other("request-2", later as u64 + 1),
        Err(StoreError::ScanAlreadyRunning)
    );

    store.ledger.release_upgrade_lease();
    assert!(store.ledger.lease.is_none());
    let again = started(store.begin(later as u64 + 2).unwrap());
    assert_eq!(again.scan_run_id(), active.scan_run_id());
    assert_eq!(again.attempt_number(), 2);
}

#[test]
fn commands_cannot_lease_beyond_the_end_of_time() {
    let mut store = harness("request-1");
    started(store.begin(1_000).unwrap());
    assert_eq!(
        store.ledger.acquire_upgrade_lease("command", 7, i64::MAX),
        Err(StoreError::InvalidRequest("lease timestamp overflows".to_string()))
    );
    assert!(store.ledger.lease.is_none());
    assert_eq!(store.ledger.runs[0].status, PersistedRunStatus::Abandoned);
}

#[test]
fn stale_runs_expire_under_maintenance() {
    let mut store = harness("request-1");
    started(store.begin(1_000).unwrap());
    store.ledger.expire_stale_running_runs(9_000);
    assert_eq!(store.ledger.runs[0].status, PersistedRunStatus::Abandoned);
    assert_eq!(store.ledger.runs[0].finished_at_ms, Some(9_000));
    assert_eq!(store.ledger.runs[0].updated_at_ms, 9_000);
    assert_eq!(terminal_status_text(RunStatus::Partial), Ok("partial"));
    assert!(terminal_status_text(RunStatus::Running).is_err());
}

#[test]
fn expired_owner_cannot_revive_its_own_stale_lease() {
    let mut harness = harness("00000000-0000-4000-8000-000000000018");
    let active = started(harness.begin(1_000).unwrap());
    assert_eq!(
        harness
            .ledger
            .heartbeat(&active, 1_000 + LEASE_GRACE_MS + 1)
            .unwrap_err(),
        StoreError::LeaseLost
    );
}

#[test]
fn terminal_retry_is_byte_identical_after_runtime_build_changes_and_conflicts_reject() {
    let mut harness = harness("00000000-0000-4000-8000-000000000009");
    let active = started(harness.begin(1).unwrap());
    let (batch, envelope) = error_batch(&active);
    let expected = batch.envelope_json.clone();
    harness.finalize(&active, &batch, &envelope, 2).unwrap();

    let request_id = harness.request_id.clone();
    let canonical = harness.canonical.clone();
    let changed_runtime = runtime("engine-build-that-did-not-exist-on-first-run");
    let stored = harness
        .begin_as(&request_id, &canonical, &changed_runtime, 3)
        .unwrap();
    let BeginRunOutcome::Stored(stored) = stored else {
        panic!("terminal retry must return stored bytes")
    };
    let replayed = harness.replay(stored).unwrap();
    assert_eq!(format!("{replayed:?}").as_bytes(), expected.as_bytes());

    let mut changed_request = context_request(&request_id);
    changed_request.end_date = "2099-12-31".to_string();
    let conflicting = canonical_of(&changed_request);
    assert_eq!(
        harness
            .begin_as(&request_id, &conflicting, &changed_runtime, 4)
            .unwrap_err(),
        StoreError::RequestIdConflict
    );
}

#[test]
fn replay_rebuilds_success_envelope_from_metadata_and_artifact() {
    let mut harness = harness("00000000-0000-4000-8000-000000000023");
    let active = started(harness.begin(1).unwrap());
    harness.record_both_workers(&active, 1);
    let (batch, envelope) =
        success_batch(&active, "file-a", "mtime_ns=100:size=5", &"a".repeat(64), "hello");
    let expected = batch.envelope_json.clone();
    assert!(expected.contains("hello"), "original envelope carries the body");
    harness.finalize(&active, &batch, &envelope, 2).unwrap();

    let stored_json = harness.ledger.runs[0]
        .final_envelope_metadata_json
        .clone()
        .unwrap();
    assert!(
        !stored_json.contains("hello"),
        "scan_runs JSON must not duplicate the body"
    );
    assert!(
        !stored_json.contains("file_context"),
        "body-free metadata must not carry file_context"
    );

    let stored = harness.begin(3).unwrap();
    let BeginRunOutcome::Stored(stored) = stored else {
        panic!("terminal retry must return stored bytes")
    };
    let replayed = harness.replay(stored).unwrap();
    assert_eq!(
        format!("{replayed:?}").as_bytes(),
        expected.as_bytes(),
        "rebuilt envelope must match the original byte-for-byte"
    );
    assert!(
        replayed.file_context.contains("hello"),
        "rebuilt envelope must recover the body from the artifact"
    );
}

#[test]
fn cache_miss_hit_source_profile_and_build_invalidation_are_explicit() {
    let mut harness = harness("00000000-0000-4000-8000-000000000010");
    let source = "mtime_ns=100:size=5";
    let route = RouteStackFingerprint::text("build-a").unwrap();
    let profile = scanner_profile();
    let profile_hash = parse_profile_hash(1, &route, &profile, Ok(())).unwrap();
    let guard = "0".repeat(64);
    assert_eq!(
        harness.lookup("file-a", source, &guard, &profile_hash),
        CacheLookup::Miss(CacheMissReason::NewFile)
    );
    let active = started(harness.begin(1).unwrap());
    harness.record_both_workers(&active, 1);
    let (batch, envelope) = success_batch(&active, "file-a", source, &profile_hash, "hello");
    harness.finalize(&active, &batch, &envelope, 2).unwrap();
    assert!(matches!(
        harness.lookup("file-a", source, &guard, &profile_hash),
        CacheLookup::Fresh(_)
    ));
    for changed in ["mtime_ns=101:size=6", "mtime_ns=100:size=6", "mtime_ns=101:size=5"] {
        assert_eq!(
            harness.lookup("file-a", changed, &guard, &profile_hash),
            CacheLookup::Miss(CacheMissReason::SourceVersionChanged)
        );
    }

    let changed_build = RouteStackFingerprint::text("build-b").unwrap();
    let changed_hash = parse_profile_hash(1, &changed_build, &profile, Ok(())).unwrap();
    assert_eq!(
        harness.lookup("file-a", source, &guard, &changed_hash),
        CacheLookup::Miss(CacheMissReason::ParserIdentityChanged)
    );
}

#[test]
fn parse_cache_key_is_source_guard_bound() {
    let mut harness = harness("00000000-0000-4000-8000-000000000099");
    let source = "mtime_ns=100:size=5";
    let profile_hash = "b".repeat(64);
    let active = started(harness.begin(1).unwrap());
    harness.record_both_workers(&active, 1);
    let (batch, envelope) = success_batch(&active, "file-a", source, &profile_hash, "hello");
    harness.finalize(&active, &batch, &envelope, 2).unwrap();
    assert!(matches!(
        harness.lookup("file-a", source, &"0".repeat(64), &profile_hash),
        CacheLookup::Fresh(_)
    ));
    assert_eq!(
        harness.lookup("file-a", source, &"1".repeat(64), &profile_hash),
        CacheLookup::Miss(CacheMissReason::SourceVersionChanged)
    );
    let mut second = cache_record("file-a", source, &profile_hash, "changed");
    second.source_guard_sha256 = "1".repeat(64);
    write_success_cache(&mut harness.parse_cache, 5, &vec![second]).unwrap();
    assert!(matches!(
        harness.lookup("file-a", source, &"1".repeat(64), &profile_hash),
        CacheLookup::Fresh(_)
    ));
}

#[test]
fn one_file_source_change_invalidates_exactly_one_cache_entry() {
    let mut harness = harness("00000000-0000-4000-8000-000000000011");
    let source = "mtime_ns=100:size=5";
    let profile_hash = "a".repeat(64);
    let guard = "0".repeat(64);
    let first = started(harness.begin(1).unwrap());
    harness.record_both_workers(&first, 1);
    let (batch, envelope) = success_batch(&first, "file-a", source, &profile_hash, "hello");
    harness.finalize(&first, &batch, &envelope, 2).unwrap();
    let second = started(
        harness
            .begin_other("00000000-0000-4000-8000-000000000016", 3)
            .unwrap(),
    );
    harness.record_both_workers(&second, 3);
    let (batch, envelope) = success_batch(&second, "file-b", source, &profile_hash, "world");
    harness.finalize(&second, &batch, &envelope, 4).unwrap();

    let lookups = [
        harness.lookup("file-a", "mtime_ns=101:size=6", &guard, &profile_hash),
        harness.lookup("file-b", source, &guard, &profile_hash),
    ];
    assert_eq!(
        lookups
            .iter()
            .filter(|lookup| matches!(lookup, CacheLookup::Miss(_)))
            .count(),
        1
    );
    assert_eq!(
        lookups
            .iter()
            .filter(|lookup| matches!(lookup, CacheLookup::Fresh(_)))
            .count(),
        1
    );
}

#[test]
fn error_results_are_never_success_cache_hits() {
    let mut harness = harness("00000000-0000-4000-8000-000000000012");
    let active = started(harness.begin(1).unwrap());
    harness.record_both_workers(&active, 1);
    let source = "mtime_ns=100:size=5";
    let profile_hash = "a".repeat(64);
    let (mut batch, envelope) = error_batch(&active);
    batch.inventory.push(inventory_record("file-a", source));
    let mut result = success_file_result("file-a", source, &profile_hash, "");
    result.parse_status = ParseStatus::Error;
    result.primary_duration_ms = 1;
    result.parse_duration_ms = 1;
    result.failure_class = "parser_failed".to_string();
    result.error = Some(Diagnostic {
        error_code: ErrorCode::ParserFailed,
        message: "parse failed".to_string(),
        retryable: false,
        stage: DiagnosticStage::Parse,
        file_path: Some("C:\\fixture\\evidence.txt".to_string()),
        backend: Some("light_text_v1".to_string()),
    });
    batch.file_results.push(result);
    harness.finalize(&active, &batch, &envelope, 2).unwrap();
    assert_eq!(
        harness.lookup("file-a", source, &"0".repeat(64), &profile_hash),
        CacheLookup::Miss(CacheMissReason::NewFile)
    );
}

#[test]
fn finalize_persists_inventory_source_guard_columns() {
    let mut harness = harness("00000000-0000-4000-8000-000000000021");
    let active = started(harness.begin(1).unwrap());
    harness.record_both_workers(&active, 1);
    let (mut batch, envelope) = error_batch(&active);
    let mut record = inventory_record("file-a", "mtime_ns=100:size=5");
    record.source_guard_kind = Some("content_sha256_v1".to_string());
    record.source_guard_sha256 = Some("a".repeat(64));
    batch.inventory = vec![record];
    harness.finalize(&active, &batch, &envelope, 2).unwrap();

    let stored = &harness.inventory[0];
    assert_eq!(stored.source_guard_kind.as_deref(), Some("content_sha256_v1"));
    assert_eq!(
        stored.source_guard_sha256.as_deref(),
        Some("a".repeat(64).as_str())
    );
}

#[test]
fn finalize_persists_unavailable_inventory_guard_with_null_hash() {
    let mut harness = harness("00000000-0000-4000-8000-000000000022");
    let active = started(harness.begin(1).unwrap());
    harness.record_both_workers(&active, 1);
    let (mut batch, envelope) = error_batch(&active);
    let mut record = inventory_record("file-b", "mtime_ns=100:size=5");
    record.source_guard_kind = Some("unavailable".to_string());
    record.source_guard_sha256 = None;
    batch.inventory = vec![record];
    harness.finalize(&active, &batch, &envelope, 2).unwrap();

    let stored = &harness.inventory[0];
    assert_eq!(stored.source_guard_kind.as_deref(), Some("unavailable"));
    assert_eq!(
        stored.source_guard_sha256, None,
        "unavailable guard must persist a null hash"
    );
}

#[test]
fn not_parsed_rows_write_not_applicable_with_empty_miss_reason() {
    let mut harness = harness("00000000-0000-4000-8000-000000000023");
    let active = started(harness.begin(1).unwrap());
    harness.record_both_workers(&active, 1);
    let source = "mtime_ns=100:size=5";
    let profile_hash = "a".repeat(64);
    let (mut batch, envelope) = error_batch(&active);
    batch.inventory.push(inventory_record("file-a", source));
    let mut result = success_file_result("file-a", source, &profile_hash, "");
    result.parse_status = ParseStatus::NotParsed;
    result.parser_backend = "not_parsed".to_string();
    result.worker_lane = AuditWorkerLane::NotParsed;
    result.primary_duration_ms = 0;
    result.parse_duration_ms = 0;
    result.parse_transport = ParseTransport::NotApplicable;
    result.parse_attempt_count = 0;
    batch.file_results.push(result);
    harness.finalize(&active, &batch, &envelope, 2).unwrap();

    let columns = harness.file_results[0].columns(false);
    assert_eq!(columns.parse_cache_status, "not_applicable");
    assert_eq!(
        columns.cache_miss_reason, "",
        "not_applicable rows must carry an empty miss reason"
    );
}

/// Ends a run in a database by the listed steps; where one fails, all are taken back.
fn end_in_database(connection: &Connection, steps: &[FinalizeStep]) -> Result<(), StoreError> {
    for step in steps {
        let sql = match step {
            FinalizeStep::Begin => "BEGIN IMMEDIATE",
            FinalizeStep::WriteInventory => "INSERT INTO file_inventory VALUES ('file-a')",
            FinalizeStep::WriteCache => "INSERT INTO parse_cache VALUES ('file-a')",
            FinalizeStep::WriteResults => "INSERT INTO scan_file_results VALUES ('file-a')",
            FinalizeStep::InsertContext => "INSERT INTO context_runs VALUES ('file-a')",
            FinalizeStep::EndRun => "UPDATE scan_runs SET status='success'",
            FinalizeStep::Commit => "COMMIT",
            _ => "",
        };
        if let Err(error) = connection.execute_batch(sql) {
            if !connection.is_autocommit() {
                connection.execute_batch("ROLLBACK").unwrap();
            }
            return Err(StoreError::CacheWrite {
                detail: error.to_string(),
            });
        }
    }
    Ok(())
}

#[test]
fn failed_final_transaction_leaves_no_cache_inventory_or_false_success() {
    let mut harness = harness("00000000-0000-4000-8000-000000000013");
    let active = started(harness.begin(1).unwrap());
    harness.record_both_workers(&active, 1);
    let (batch, _) =
        success_batch(&active, "file-a", "mtime_ns=100:size=5", &"a".repeat(64), "hello");
    let steps = finalization_steps(&batch);
    let connection = Connection::open_in_memory().unwrap();
    connection
        .execute_batch(
            "CREATE TABLE file_inventory(id TEXT);
             CREATE TABLE parse_cache(id TEXT);
             CREATE TABLE scan_file_results(id TEXT);
             CREATE TABLE context_runs(id TEXT);
             CREATE TABLE scan_runs(status TEXT);
             INSERT INTO scan_runs VALUES ('running');
             CREATE TRIGGER inject_finalization_failure
             BEFORE INSERT ON context_runs
             BEGIN
                SELECT RAISE(ABORT, 'injected finalization failure');
             END;",
        )
        .unwrap();

    assert!(matches!(
        end_in_database(&connection, &steps),
        Err(StoreError::CacheWrite { .. })
    ));
    for table in [
        "file_inventory",
        "parse_cache",
        "scan_file_results",
        "context_runs",
    ] {
        let count: i64 = connection
            .query_row(&format!("SELECT count(*) FROM {table}"), [], |row| row.get(0))
            .unwrap();
        assert_eq!(count, 0, "{table}");
    }
    let status: String = connection
        .query_row("SELECT status FROM scan_runs", [], |row| row.get(0))
        .unwrap();
    assert_eq!(status, "running");
    assert_eq!(harness.ledger.runs[0].status, PersistedRunStatus::Running);
    assert_eq!(harness.ledger.runs[0].status.text(), "running");

    connection
        .execute_batch("DROP TRIGGER inject_finalization_failure")
        .unwrap();
    end_in_database(&connection, &steps).unwrap();
    let status: String = connection
        .query_row("SELECT status FROM scan_runs", [], |row| row.get(0))
        .unwrap();
    assert_eq!(status, "success");
}

#[test]
fn successful_finalization_requires_both_preflight_fingerprints() {
    let mut harness = harness("00000000-0000-4000-8000-000000000017");
    let active = started(harness.begin(1).unwrap());
    let (batch, envelope) =
        success_batch(&active, "file-a", "mtime_ns=100:size=5", &"a".repeat(64), "hello");
    assert!(matches!(
        harness.finalize(&active, &batch, &envelope, 2),
        Err(StoreError::RunCorrupt(_))
    ));
}

#[test]
fn final_envelope_cannot_change_engine_identity_after_run_start() {
    let mut harness = harness("00000000-0000-4000-8000-000000000020");
    let active = started(harness.begin(1).unwrap());
    let (mut batch, mut envelope) = error_batch(&active);
    envelope.engine_build = "changed-after-start".to_string();
    batch.envelope_json = format!("{envelope:?}");
    assert!(matches!(
        harness.finalize(&active, &batch, &envelope, 2),
        Err(StoreError::RunCorrupt(_))
    ));
}

#[test]
fn database_lock_maps_to_a_structured_retryable_error() {
    let mut harness = harness("00000000-0000-4000-8000-000000000014");
    let active = started(harness.begin(1).unwrap());
    let (batch, _) = error_batch(&active);
    let shared = "file:locked_scanner_database?mode=memory&cache=shared";
    let first = Connection::open(shared).unwrap();
    let second = Connection::open(shared).unwrap();
    first
        .execute_batch("CREATE TABLE scan_runs(status TEXT); BEGIN IMMEDIATE")
        .unwrap();
    let error = end_in_database(&second, &finalization_steps(&batch)).unwrap_err();
    first.execute_batch("ROLLBACK").unwrap();

    assert!(matches!(error, StoreError::CacheWrite { .. }));
    assert_eq!(error.error_code(), ErrorCode::CacheWriteFailed);
    assert!(error.retryable());
}

#[test]
fn worker_fingerprints_and_run_diagnostics_round_trip() {
    let mut harness = harness("00000000-0000-4000-8000-000000000015");
    let active = started(harness.begin(1).unwrap());
    harness
        .ledger
        .record_worker_fingerprints(&active, Some(&worker("office-build")), None, 2)
        .unwrap();
    let (batch, envelope) = error_batch(&active);
    let expected: Vec<_> = batch.diagnostics.iter().map(clone_diagnostic).collect();
    harness.finalize(&active, &batch, &envelope, 3).unwrap();

    let attempt = &harness.ledger.attempts[0];
    assert_eq!(
        attempt.office_worker.as_ref().map(|worker| worker.build.as_str()),
        Some("office-build")
    );
    assert!(attempt.python_worker.is_none());
    let rows = store_diagnostics(&harness.diagnostics);
    let accepted = vec![true; rows.len()];
    assert_eq!(load_diagnostics(true, rows, &accepted), Ok(expected));
    assert_eq!(
        load_diagnostics(false, Vec::new(), &Vec::new()),
        Err(StoreError::RunNotFound)
    );
    assert_eq!(format!("{:?}", harness.replay(1).unwrap()), batch.envelope_json);
}

#[test]
fn run_diagnostics_keep_their_order() {
    let mut records = Vec::new();
    for (severity, message) in [
        (DiagnosticSeverity::Warning, "first"),
        (DiagnosticSeverity::Error, "second"),
        (DiagnosticSeverity::Warning, "third"),
    ] {
        let mut diagnostic = run_error();
        diagnostic.message = message.to_string();
        records.push(RunDiagnosticRecord {
            severity,
            diagnostic,
        });
    }
    let mut rows = store_diagnostics(&records);
    assert_eq!(
        load_diagnostics(true, store_diagnostics(&records), &vec![true; 3]),
        Ok(records)
    );
    rows[1].severity = "loud".to_string();
    assert!(matches!(
        load_diagnostics(true, rows, &vec![true; 3]),
        Err(StoreError::RunCorrupt(_))
    ));
}

#[test]
fn db_filename_guard_never_opens_the_legacy_database() {
    assert!(matches!(
        validate_database_path(true, Some("scan_index.sqlite3"), true),
        Err(StoreError::InvalidRequest(_))
    ));
    assert!(validate_database_path(true, Some("scan_index_v3.sqlite3"), true).is_ok());
    assert!(validate_database_path(false, Some("scan_index_v3.sqlite3"), true).is_err());
    assert!(validate_database_path(true, Some("scan_index_v3.sqlite3"), false).is_err());
    assert!(validate_database_path(true, None, true).is_err());
}

fn refusal(change: impl Fn(&mut FinalizationBatch, &mut ContextEnvelope)) -> StoreError {
    let active = ActiveRun::new(1, 1, "owner".to_string(), "request".to_string());
    let (mut batch, mut envelope) =
        success_batch(&active, "file-a", "mtime_ns=100:size=5", &"a".repeat(64), "hello");
    assert_eq!(
        validate_finalization(&active, &batch, &verdicts(&batch, &envelope)),
        Ok(())
    );
    change(&mut batch, &mut envelope);
    validate_finalization(&active, &batch, &verdicts(&batch, &envelope)).unwrap_err()
}

#[test]
fn batches_that_do_not_fit_together_are_refused() {
    let message = |error: StoreError| error.message();
    let refusals = [
        message(refusal(|batch, _| batch.inventory.push(inventory_record("file-a", "mtime_ns=1:size=1")))),
        message(refusal(|batch, _| batch.inventory.clear())),
        message(refusal(|batch, _| batch.cache_writes[0].source_version = "mtime_ns=9:size=9".to_string())),
        message(refusal(|batch, _| {
            let again = batch.cache_writes[0].clone();
            batch.cache_writes.push(again);
        })),
        message(refusal(|batch, _| batch.file_results.clear())),
        message(refusal(|batch, _| {
            let again = batch.file_results[0].clone();
            batch.file_results.push(again);
        })),
        message(refusal(|batch, _| batch.stage_metrics.clear())),
        message(refusal(|batch, _| batch.extension_metrics.clear())),
        message(refusal(|batch, _| batch.context = None)),
        message(refusal(|batch, _| batch.status = RunStatus::Running)),
        message(refusal(|_, envelope| envelope.request_id = "other".to_string())),
        message(refusal(|_, envelope| envelope.scan_run_id = Some(2))),
        message(refusal(|_, envelope| envelope.status = EngineStatus::Error)),
        message(refusal(|_, envelope| envelope.warnings.push(run_error()))),
        message(refusal(|_, envelope| envelope.file_context = "bye".to_string())),
    ];
    for text in refusals {
        assert!(!text.is_empty());
    }
}

fn room() -> RoomRows {
    RoomRows {
        artifacts: Vec::new(),
        contexts: Vec::new(),
        runs: Vec::new(),
    }
}

#[test]
fn artifacts_are_placed_once() {
    let mut store = harness("request-1");
    let active = started(store.begin(1_000).unwrap());
    let (mut batch, _) = success_batch(&active, "id", "mtime_ns=1:size=1", &"a".repeat(64), "text");

    // 8 + 4 + 64 + 2 + 8 + 10 bytes.
    match place_artifact(&batch, None, "{}", &mut room()).unwrap() {
        Placement::New { size, room } => {
            assert_eq!(size, 96);
            assert!(room.artifacts.is_empty() && room.runs.is_empty());
        }
        _ => panic!("a new artifact is stored"),
    }

    // Old artifacts that nothing refers to make room, the first created of them.
    let mut full = room();
    full.artifacts = vec![
        ArtifactSize {
            artifact_id: 2,
            created_at_ms: 5,
            artifact_size_bytes: CONTEXT_ARTIFACTS_MAX_BYTES - 95,
        },
        ArtifactSize {
            artifact_id: 1,
            created_at_ms: 9,
            artifact_size_bytes: 0,
        },
    ];
    match place_artifact(&batch, None, "{}", &mut full).unwrap() {
        Placement::New { room, .. } => assert_eq!(room.artifacts, vec![2, 1]),
        _ => panic!("a new artifact is stored"),
    }

    // One that is referred to by a run that is under way stays, and nothing fits.
    let mut pinned = room();
    pinned.artifacts = vec![ArtifactSize {
        artifact_id: 2,
        created_at_ms: 5,
        artifact_size_bytes: CONTEXT_ARTIFACTS_MAX_BYTES,
    }];
    pinned.contexts = vec![ContextRef {
        scan_run_id: 7,
        artifact_id: Some(2),
    }];
    assert_eq!(
        place_artifact(&batch, None, "{}", &mut pinned).err(),
        Some(StoreError::RunCorrupt(
            "context artifact retention could not make room for the current artifact".to_string()
        ))
    );

    // An artifact with the same key is taken, and a different one is not replaced.
    let key = SnapshotKeyParts {
        sha256: "f".repeat(64),
        canonical_json: "{}".to_string(),
    };
    batch.snapshot_key = Some(key);
    assert_eq!(
        place_artifact(&batch, None, "{}", &mut room()).err(),
        Some(StoreError::RunCorrupt(
            "artifact eligibility disagrees with the snapshot key".to_string()
        ))
    );
    let mut draft = batch.artifact.clone().unwrap();
    draft.snapshot_eligible = true;
    batch.artifact = Some(draft.clone());
    let mut existing = ExistingArtifact {
        artifact_id: 9,
        snapshot_key_json: Some("{}".to_string()),
        draft,
    };
    assert!(matches!(
        place_artifact(&batch, Some(&existing), "{}", &mut room()),
        Ok(Placement::Existing(9))
    ));
    existing.draft.final_context = "other".to_string();
    assert!(matches!(
        place_artifact(&batch, Some(&existing), "{}", &mut room()),
        Err(StoreError::ArtifactMismatch(_))
    ));

    // What is taken over from an earlier run is not stored again, and an error has none.
    batch.snapshot_hit = Some(SnapshotHitRef {
        artifact_id: 4,
        reused_from_context_run_id: 3,
    });
    assert!(matches!(
        place_artifact(&batch, Some(&existing), "{}", &mut room()),
        Ok(Placement::Existing(4))
    ));
    batch.status = RunStatus::Error;
    assert!(matches!(
        place_artifact(&batch, Some(&existing), "{}", &mut room()),
        Ok(Placement::Nothing)
    ));
}

#[test]
fn rebuilt_answers_must_be_the_accepted_ones() {
    assert!(check_rebuilt(&Ok("{}".to_string()), "{}").is_ok());
    assert!(check_rebuilt(&Ok("{ }".to_string()), "{}").is_err());
    assert!(check_rebuilt(&Err("gone".to_string()), "{}").is_err());
}

#[test]
fn terminal_rows_are_counted() {
    let active = ActiveRun::new(1, 1, "owner".to_string(), "request".to_string());
    let (error, _) = error_batch(&active);
    let (mut batch, _) =
        success_batch(&active, "file-a", "mtime_ns=100:size=5", &"a".repeat(64), "hello");
    assert_eq!(compute_terminal_rows_written(&error), 4);
    assert_eq!(compute_terminal_rows_written(&batch), 15);
    batch.artifact = None;
    batch.cache_writes = Vec::new();
    batch.diagnostics = error.diagnostics;
    assert_eq!(compute_terminal_rows_written(&batch), 14);
}

#[test]
fn finished_runs_are_not_finished_again() {
    let mut harness = harness("00000000-0000-4000-8000-000000000030");
    let active = started(harness.begin(1).unwrap());
    let (batch, envelope) = error_batch(&active);
    harness.finalize(&active, &batch, &envelope, 2).unwrap();
    assert_eq!(
        harness.finalize(&active, &batch, &envelope, 3),
        Err(StoreError::LeaseLost)
    );
    assert_eq!(harness.ledger.heartbeat(&active, 3), Err(StoreError::LeaseLost));
}

#[test]
fn lookups_with_malformed_keys_are_refused() {
    let rows = Vec::new();
    let sha = "a".repeat(64);
    let look = |kind: &str, guard: &str, profile: &str| {
        checked_lookup_cache(&rows, "id", "mtime_ns=1:size=1", kind, guard, profile, false)
    };
    assert!(look("content_sha256_v1", &sha, &sha).is_ok());
    assert!(matches!(
        look("unavailable", &sha, &sha),
        Err(StoreError::InvalidRequest(_))
    ));
    assert!(matches!(
        look("content_sha256_v1", "short", &sha),
        Err(StoreError::InvalidRequest(_))
    ));
    assert!(matches!(
        look("content_sha256_v1", &sha, "short"),
        Err(StoreError::InvalidRequest(_))
    ));
}
