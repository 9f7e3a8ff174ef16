//! Whole runs, with what they work with played by hand.
use scanner_core::contract::{
    AuditWorkerLane, CacheMissReason, CacheStatus, ContextAction, ContextDecision,
    ContextDecisionRecord, DiagnosticSeverity, DiscoveredFileOut, DiscoveryIssue, ErrorCode,
    ExtensionMetric, ParseStatus, ParseTransport, PdfClassificationStatus, RouteKind, RunStatus,
    StageName,
};
use scanner_core::hash::sha256_hex;
use scanner_core::ordered::{TextMap, TextSet};
use scanner_core::profile::{
    ExecutionProfile, NormalizedScannerProfileV2, OfficeParseProfile, ParseProfile,
    PdfParseProfile, TextParseProfile,
};
use scanner_core::scheduler::execute::BudgetedContextScheduler;
use scanner_core::scheduler::outcome::{BudgetedScanOutcome, RenderedContext, ScheduledRunInput};
use scanner_core::scheduler::plan::{
    AdmissionDecision, ClassifiedPlan, PdfClassificationPlan, PdfClassificationResult, PlanAction,
    PlanCandidate,
};
use scanner_core::scheduler::ports::{
    CachePort, ClassifyCall, Clock, ContextPort, GuardVerifier, ParserPort, PdfClassifierPort,
    RequestIds,
};
use scanner_core::scheduler::records::{
    CachePortError, ContextFileEvidence, ParseLookupOutcome, ParseRequest, ParseResult,
    SchedulerFailure, TerminalIntent, WorkerIdentities,
};
use scanner_core::session::{
    ParseFailure, PdfClassifierResultStatus, PdfClassifierResultV1, SessionError,
};
use scanner_core::source_guard::SourceGuardV2;
use scanner_core::store::cache::{
    CacheEntry, CacheLookup, CacheWriteRecord, ClassificationCacheEntry,
    ClassificationCacheLookup, ClassificationCacheMissReason, ClassificationCacheWriteRecord,
};
use scanner_core::store::inventory::{FileResultRecord, InventoryRecord};
use std::cell::RefCell;
use std::collections::HashMap;
use std::rc::Rc;

/// What the surroundings of a run do, and what they were asked.
#[derive(Default)]
struct World {
    now_ms: u64,
    tick_ms: u64,
    changed: Vec<String>,
    changed_after_parse: Vec<String>,
    cached: HashMap<String, CacheEntry>,
    classified: HashMap<String, ClassificationCacheEntry>,
    lookup_fails: bool,
    write_fails: bool,
    render_fails: bool,
    budget_fails: bool,
    parse_fails: bool,
    known: Vec<String>,
    prepared: Vec<(u64, u64, Vec<String>)>,
    lookups: Vec<(String, bool)>,
    no_text: Vec<String>,
    classify_times_out: bool,
    parsed: Vec<String>,
    waves: Vec<usize>,
    timeouts: Vec<u64>,
    classify_calls: Vec<String>,
    parse_writes: Vec<CacheWriteRecord>,
    classification_writes: Vec<ClassificationCacheWriteRecord>,
    touched: Vec<(Vec<String>, Vec<String>)>,
    error_lines: Vec<String>,
}

#[derive(Clone)]
struct Port(Rc<RefCell<World>>);

impl Clock for Port {
    fn now_ms(&self) -> u64 {
        let mut world = self.0.borrow_mut();
        world.now_ms += world.tick_ms;
        world.now_ms
    }
}

impl GuardVerifier for Port {
    fn verify(&self, path: &str, _expected: &SourceGuardV2) -> bool {
        let world = self.0.borrow();
        let path = path.to_string();
        !world.changed.contains(&path)
            && !(world.changed_after_parse.contains(&path) && world.parsed.contains(&path))
    }
}

impl CachePort for Port {
    fn prepare_inventory(
        &self,
        scan_run_id: u64,
        now_ms: u64,
        records: &Vec<InventoryRecord>,
    ) -> Result<TextSet, CachePortError> {
        let mut world = self.0.borrow_mut();
        let identities = records.iter().map(|row| row.file_identity.clone()).collect();
        world.prepared.push((scan_run_id, now_ms, identities));
        let mut known = TextSet::new();
        for identity in &world.known {
            known.insert(identity.clone());
        }
        Ok(known)
    }

    fn lookup_parse(
        &self,
        file: &DiscoveredFileOut,
        _route: RouteKind,
        existed: bool,
    ) -> Result<ParseLookupOutcome, CachePortError> {
        let mut world = self.0.borrow_mut();
        world.lookups.push((file.file_identity.clone(), existed));
        if world.lookup_fails {
            return Err(CachePortError::Store {
                detail: "database is locked".to_string(),
            });
        }
        Ok(ParseLookupOutcome {
            parse_profile_hash: "a".repeat(64),
            lookup: match world.cached.get(&file.file_identity) {
                Some(entry) => CacheLookup::Fresh(entry.clone()),
                None => CacheLookup::Miss(CacheMissReason::NewFile),
            },
        })
    }

    fn lookup_classification(
        &self,
        file: &DiscoveredFileOut,
        _hash: &str,
        _build: &str,
        _existed: bool,
    ) -> Result<ClassificationCacheLookup, CachePortError> {
        let world = self.0.borrow();
        if world.lookup_fails {
            return Err(CachePortError::InvalidKey {
                detail: "bad key".to_string(),
            });
        }
        Ok(match world.classified.get(&file.file_identity) {
            Some(entry) => ClassificationCacheLookup::Fresh(entry.clone()),
            None => ClassificationCacheLookup::Miss(ClassificationCacheMissReason::NewFile),
        })
    }

    fn write_parse(
        &self,
        _now_ms: u64,
        records: &Vec<CacheWriteRecord>,
    ) -> Result<(), CachePortError> {
        let mut world = self.0.borrow_mut();
        if world.write_fails {
            return Err(CachePortError::Store {
                detail: "disk full".to_string(),
            });
        }
        world.parse_writes.extend(records.iter().cloned());
        Ok(())
    }

    fn write_classification(
        &self,
        _now_ms: u64,
        records: &Vec<ClassificationCacheWriteRecord>,
    ) -> Result<(), CachePortError> {
        let mut world = self.0.borrow_mut();
        if world.write_fails {
            return Err(CachePortError::Store {
                detail: "disk full".to_string(),
            });
        }
        world.classification_writes.extend(records.iter().cloned());
        Ok(())
    }

    fn touch_access(
        &self,
        _now_ms: u64,
        parse_hits: &Vec<String>,
        classification_hits: &Vec<String>,
    ) -> Result<(), CachePortError> {
        self.0
            .borrow_mut()
            .touched
            .push((parse_hits.clone(), classification_hits.clone()));
        Ok(())
    }
}

impl PdfClassifierPort for Port {
    fn classify_pdfs(
        &self,
        calls: &Vec<ClassifyCall>,
    ) -> Vec<Result<PdfClassifierResultV1, ParseFailure>> {
        let mut world = self.0.borrow_mut();
        world.waves.push(calls.len());
        calls
            .iter()
            .map(|call| {
                world.classify_calls.push(call.request.file_path.clone());
                world.timeouts.push(call.timeout_ms);
                if world.classify_times_out {
                    return Err(SessionError::Timeout.diagnostic(None));
                }
                let no_text = world.no_text.contains(&call.request.file_path);
                Ok(PdfClassifierResultV1 {
                    status: if no_text {
                        PdfClassifierResultStatus::NoTextInParseWindow
                    } else {
                        PdfClassifierResultStatus::TextInParseWindow
                    },
                    page_count: Some(4),
                    result_examined_pages: Some(2),
                    diagnostic: None,
                })
            })
            .collect()
    }
}

impl ParserPort for Port {
    fn parse(&self, requests: &Vec<ParseRequest>) -> Vec<ParseResult> {
        let mut world = self.0.borrow_mut();
        world.waves.push(requests.len());
        requests
            .iter()
            .map(|request| {
                world.parsed.push(request.file.path.clone());
                world.timeouts.push(request.timeout_ms);
                let failed = world.parse_fails;
                let content = if failed {
                    String::new()
                } else {
                    format!("content of {}", request.file.path)
                };
                ParseResult {
                    file_identity: request.file.file_identity.clone(),
                    content_sha256: sha256_hex(content.as_bytes()),
                    content,
                    parser_backend: "light_text_v1".to_string(),
                    worker_lane: "rust_core".to_string(),
                    truncated: false,
                    parse_status: if failed { ParseStatus::Error } else { ParseStatus::Success },
                    error: None,
                    warnings: Vec::new(),
                    failure_class: String::new(),
                    fallback_backend: String::new(),
                    fallback_reason_code: String::new(),
                    parse_transport: ParseTransport::RustInProcess,
                    parse_attempt_count: 1,
                    primary_duration_ms: 5,
                    fallback_duration_ms: 0,
                    parse_duration_ms: 5,
                }
            })
            .collect()
    }

    fn backend(&self, _route: RouteKind) -> String {
        "light_text_v1".to_string()
    }
}

impl RequestIds for Port {
    fn next_request_id(&self) -> String {
        "11111111-1111-4111-8111-111111111111".to_string()
    }
}

impl ContextPort for Port {
    fn is_absolute(&self, path: &str) -> bool {
        path.starts_with('/')
    }

    fn relative_path(&self, path: &str) -> Result<String, String> {
        path.strip_prefix("/work/")
            .map(str::to_string)
            .ok_or("path is outside the working directory".to_string())
    }

    fn accept_profile(&self) -> Result<(), String> {
        Ok(())
    }

    fn plan(&self, candidates: Vec<PlanCandidate>, _max_pages: u64) -> Vec<ClassifiedPlan> {
        candidates
            .into_iter()
            .map(|candidate| {
                let pdf = candidate.extension == ".pdf";
                ClassifiedPlan {
                    file_identity: candidate.file_identity,
                    relative_path: candidate.relative_path,
                    action: PlanAction::Admit {
                        route: if pdf { RouteKind::Pdf } else { RouteKind::LightText },
                    },
                    pdf_classification: if pdf {
                        PdfClassificationPlan::Classify { charged_pages: 3 }
                    } else {
                        PdfClassificationPlan::NotCandidate
                    },
                }
            })
            .collect()
    }

    fn budget(&self, _source_file_count: u64, error_lines: &Vec<String>) -> Result<u64, String> {
        let mut world = self.0.borrow_mut();
        world.error_lines = error_lines.clone();
        if world.budget_fails {
            return Err("fixed sections take 200 of 100 characters".to_string());
        }
        Ok(100)
    }

    fn decide_admission(
        &self,
        plans: &Vec<ClassifiedPlan>,
        classifications: &TextMap<PdfClassificationResult>,
    ) -> Vec<AdmissionDecision> {
        plans
            .iter()
            .map(|plan| AdmissionDecision {
                file_identity: plan.file_identity.clone(),
                relative_path: plan.relative_path.clone(),
                action: match classifications.get(&plan.file_identity) {
                    Some(result)
                        if result.status == PdfClassificationStatus::Unknown
                            || result.status == PdfClassificationStatus::Error =>
                    {
                        PlanAction::ClassifierFailed { status: result.status }
                    }
                    _ => plan.action.clone(),
                },
                reserved_chars: 50,
            })
            .collect()
    }

    fn render(&self, evidence: Vec<ContextFileEvidence>) -> Result<RenderedContext, String> {
        if self.0.borrow().render_fails {
            return Err("sections do not add up".to_string());
        }
        let mut content = String::new();
        let mut lengths = TextMap::new();
        let mut decisions = Vec::new();
        let (mut success, mut errors, mut timeouts, mut included) = (0, 0, 0, 0);
        for item in &evidence {
            content.push_str(&item.content);
            lengths.insert(item.file_identity.clone(), item.content.chars().count() as u64);
            match item.parse_status {
                ParseStatus::Success => success += 1,
                ParseStatus::Error => errors += 1,
                ParseStatus::Timeout => timeouts += 1,
                ParseStatus::NotParsed => {}
            }
            if !item.content.is_empty() {
                included += 1;
            }
            decisions.push(ContextDecisionRecord {
                file_identity: item.file_identity.clone(),
                decision: ContextDecision {
                    relative_path: item.relative_path.clone(),
                    action: ContextAction::Keep,
                    reason: "kept".to_string(),
                    priority: 1,
                    input_chars: 1,
                    output_chars: 1,
                    truncated: false,
                    error_code: String::new(),
                },
            });
        }
        Ok(RenderedContext {
            content,
            rendered_by_identity: lengths,
            decisions,
            source_file_count: evidence.len() as u64,
            success_count: success,
            timeout_count: timeouts,
            included_file_count: included,
            omitted_file_count: evidence.len() as u64 - included,
            error_file_count: errors,
            input_chars: 1,
            output_chars: 1,
        })
    }

    fn extension_metrics(
        &self,
        _inventory: &Vec<InventoryRecord>,
        _results: &Vec<FileResultRecord>,
    ) -> Result<Vec<ExtensionMetric>, String> {
        Ok(Vec::new())
    }
}

fn file(name: &str) -> DiscoveredFileOut {
    DiscoveredFileOut {
        file_identity: name.to_string(),
        path: format!("/work/{name}"),
        extension: name[name.find('.').unwrap()..].to_string(),
        modified_at: "2026-07-16T00:00:00+08:00".to_string(),
        size_bytes: 5,
        source_version: "mtime_ns=100:size=5".to_string(),
        source_guard_kind: Some("content_sha256_v1".to_string()),
        source_guard_sha256: Some("c".repeat(64)),
    }
}

fn profile(concurrency: u64) -> NormalizedScannerProfileV2 {
    NormalizedScannerProfileV2 {
        execution: ExecutionProfile {
            max_workers: 4,
            max_file_size_bytes: 1_048_576,
            file_timeout_ms: 30_000,
            file_timeout_by_extension_ms: Vec::new(),
        },
        parse: ParseProfile {
            text: TextParseProfile { max_chars: 20_000 },
            pdf: PdfParseProfile { max_pages: 20 },
            office: OfficeParseProfile {
                primary_backend: "rust_office_v1".to_string(),
                fallback_after_timeout: false,
                fallback_order: Vec::new(),
            },
        },
        classifier_policy_version: "pdf_text_policy_v1".to_string(),
        pdf_classification_timeout_ms: 5_000,
        max_total_pdf_classification_pages: 1_000,
        session_concurrency: concurrency,
        max_requests_per_session: 128,
        session_idle_ttl_ms: 30_000,
        session_rss_limit_bytes: 536_870_912,
        total_deadline_ms: 60_000,
    }
}

fn run(
    world: World,
    files: Vec<DiscoveredFileOut>,
    change: impl Fn(&mut ScheduledRunInput),
) -> (Result<BudgetedScanOutcome, SchedulerFailure>, World) {
    let mut input = ScheduledRunInput::new(
        7,
        1_000,
        "/work".to_string(),
        files,
        Vec::new(),
        profile(2),
        WorkerIdentities {
            office_contract: None,
            office_version: None,
            office_build: None,
            python_contract: None,
            python_version: None,
            python_build: None,
            classifier_build: Some("d".repeat(64)),
        },
        "0.1.0".to_string(),
        "engine-build".to_string(),
        "e".repeat(64),
        "f".repeat(64),
        3,
        world.now_ms,
    )
    .expect("input");
    change(&mut input);
    let shared = Rc::new(RefCell::new(world));
    let port = || Port(shared.clone());
    let scheduler =
        BudgetedContextScheduler::new(port(), port(), port(), port(), port(), port(), port());
    let outcome = scheduler.execute(input);
    let world = shared.take();
    (outcome, world)
}

#[test]
fn texts_are_parsed_and_cached() {
    let (outcome, world) = run(
        World::default(),
        vec![file("a.txt"), file("b.txt"), file("c.txt")],
        |_| {},
    );
    let outcome = outcome.expect("outcome");
    assert_eq!(outcome.terminal_intent, TerminalIntent::Success);
    assert_eq!(outcome.inventory.len(), 3);
    assert_eq!(outcome.file_results.len(), 3);
    assert_eq!(outcome.file_results[0].parse_status, ParseStatus::Success);
    assert_eq!(outcome.file_results[0].worker_lane, AuditWorkerLane::RustCore);
    assert_eq!(outcome.file_results[0].cache_status, CacheStatus::Miss);
    assert_eq!(world.waves, vec![2, 1], "at most two parses at a time");
    assert_eq!(world.timeouts, vec![30_000, 30_000, 30_000]);
    assert_eq!(outcome.parse_cache_receipts.len(), 3);
    assert_eq!(world.parse_writes, outcome.parse_cache_receipts);
    assert_eq!(outcome.parse_cache_receipts[0].worker_build, "engine-build");
    assert!(outcome.parse_cache_receipts[0].validate().is_ok());
    let context = outcome.context.expect("context");
    assert_eq!(context.status, RunStatus::Success);
    assert_eq!(
        context.final_context,
        "content of /work/a.txtcontent of /work/b.txtcontent of /work/c.txt"
    );
    assert_eq!(context.context_sha256, sha256_hex(context.final_context.as_bytes()));
    let metrics = outcome.execution_metrics;
    assert_eq!(metrics.parse_attempt_count, 3);
    assert_eq!(metrics.parse_cache_all_hit, Some(false));
    assert_eq!(metrics.classification_cache_all_hit, None);
    assert_eq!(metrics.admitted_file_count, 3);
    assert_eq!(metrics.reserved_chars, 100 + 3 * 50);
    assert_eq!(metrics.rendered_chars, 66);
    assert_eq!(metrics.source_guard_bytes_read, 15);
    assert_eq!(outcome.stage_metrics[0].stage, StageName::Discovery);
    assert_eq!(outcome.stage_metrics[2].item_count, 3);
}

#[test]
fn cached_texts_are_not_parsed() {
    let mut world = World::default();
    world.cached.insert(
        "a.txt".to_string(),
        CacheEntry {
            content: "from the cache".to_string(),
            content_sha256: sha256_hex(b"from the cache"),
            parser_backend: "light_text_v1".to_string(),
            worker_lane: "rust_core".to_string(),
            truncated: false,
            worker_contract_version: "c".to_string(),
            worker_version: "v".to_string(),
            worker_build: "b".to_string(),
        },
    );
    let (outcome, world) = run(world, vec![file("a.txt")], |_| {});
    let outcome = outcome.expect("outcome");
    assert!(world.parsed.is_empty());
    assert_eq!(outcome.file_results[0].cache_status, CacheStatus::Fresh);
    assert_eq!(outcome.file_results[0].parse_transport, ParseTransport::NotApplicable);
    assert_eq!(outcome.context.expect("context").final_context, "from the cache");
    assert_eq!(outcome.execution_metrics.parse_cache_all_hit, Some(true));
    assert_eq!(world.touched, vec![(vec!["a.txt".to_string()], Vec::new())]);
}

#[test]
fn changed_files_are_not_used() {
    let mut world = World::default();
    world.changed.push("/work/a.txt".to_string());
    world.changed_after_parse.push("/work/b.txt".to_string());
    let (outcome, world) = run(world, vec![file("a.txt"), file("b.txt"), file("c.txt")], |_| {});
    let outcome = outcome.expect("outcome");
    assert_eq!(world.parsed, vec!["/work/b.txt", "/work/c.txt"]);
    for at in 0..2 {
        let result = &outcome.file_results[at];
        assert_eq!(result.parse_status, ParseStatus::Error);
        assert_eq!(
            result.error.as_ref().map(|error| error.error_code),
            Some(ErrorCode::SourceVersionChanged)
        );
    }
    assert_eq!(outcome.terminal_intent, TerminalIntent::Partial);
    assert_eq!(outcome.parse_cache_receipts.len(), 1);
}

#[test]
fn the_deadline_stops_new_waves() {
    let mut world = World::default();
    world.tick_ms = 6_000;
    let (outcome, world) = run(
        world,
        vec![file("a.txt"), file("b.txt"), file("c.txt"), file("d.txt")],
        |_| {},
    );
    let outcome = outcome.expect("outcome");
    assert!(world.parsed.len() < 4);
    assert_eq!(outcome.execution_metrics.stage_deadline_exhausted_count, 1);
    assert_ne!(outcome.terminal_intent, TerminalIntent::Success);
    assert!(outcome
        .diagnostics
        .iter()
        .any(|record| record.diagnostic.error_code == ErrorCode::StageDeadlineExhausted));
    assert_eq!(outcome.file_results.len(), 4);
}

#[test]
fn runs_that_come_too_late_do_not_start() {
    let (outcome, _) = run(World::default(), vec![file("a.txt")], |input| {
        input.absolute_deadline_ms = 0
    });
    let failure = outcome.err().expect("failure");
    assert_eq!(failure.diagnostic.error_code, ErrorCode::InternalError);
    assert_eq!(
        failure.diagnostic.message,
        "absolute deadline already exhausted before execution"
    );
}

#[test]
fn a_cache_that_cannot_be_asked_ends_the_run() {
    let mut world = World::default();
    world.lookup_fails = true;
    let (outcome, world) = run(world, vec![file("a.txt")], |_| {});
    let failure = outcome.err().expect("failure");
    assert_eq!(failure.diagnostic.error_code, ErrorCode::CacheWriteFailed);
    assert!(failure.diagnostic.retryable);
    assert!(world.parsed.is_empty());

    let mut world = World::default();
    world.lookup_fails = true;
    let (outcome, _) = run(world, vec![file("a.pdf")], |_| {});
    assert_eq!(
        outcome.err().expect("failure").diagnostic.error_code,
        ErrorCode::InvalidRequest
    );
}

#[test]
fn skipped_cache_writes_are_warned_about() {
    let mut world = World::default();
    world.write_fails = true;
    let (outcome, _) = run(world, vec![file("a.txt")], |_| {});
    let outcome = outcome.expect("outcome");
    assert_eq!(outcome.terminal_intent, TerminalIntent::Partial);
    assert!(outcome.parse_cache_receipts.is_empty());
    assert_eq!(outcome.diagnostics.len(), 1);
    assert_eq!(outcome.diagnostics[0].severity, DiagnosticSeverity::Warning);
    assert_eq!(
        outcome.diagnostics[0].diagnostic.message,
        "parse cache write skipped: disk full"
    );
    assert_eq!(outcome.file_results[0].parse_status, ParseStatus::Success);
}

#[test]
fn contexts_that_cannot_be_rendered_end_in_an_error() {
    let mut world = World::default();
    world.render_fails = true;
    let (outcome, _) = run(world, vec![file("a.txt")], |_| {});
    let outcome = outcome.expect("outcome");
    assert_eq!(outcome.terminal_intent, TerminalIntent::Error);
    assert!(outcome.context.is_none());
    assert_eq!(outcome.parse_cache_receipts.len(), 1);
    let last = outcome.diagnostics.last().expect("diagnostic");
    assert_eq!(last.diagnostic.error_code, ErrorCode::BudgetModelMismatch);
    assert_eq!(last.diagnostic.message, "sections do not add up");
}

#[test]
fn failed_runs_report_an_error_even_where_no_file_does() {
    let mut world = World::default();
    world.parse_fails = true;
    let (outcome, _) = run(world, vec![file("a.txt")], |_| {});
    let outcome = outcome.expect("outcome");
    assert_eq!(outcome.file_results[0].parse_status, ParseStatus::Error);
    assert!(outcome.file_results[0].error.is_none());
    assert_eq!(outcome.terminal_intent, TerminalIntent::Error);
    let last = outcome.diagnostics.last().expect("diagnostic");
    assert_eq!(last.severity, DiagnosticSeverity::Error);
    assert_eq!(last.diagnostic.error_code, ErrorCode::InternalError);
    assert_eq!(
        last.diagnostic.message,
        "no file could be included and no failed file carries a diagnostic"
    );
}

#[test]
fn unreadable_entries_make_a_run_partial() {
    let (outcome, _) = run(World::default(), vec![file("a.txt")], |input| {
        input.discovery_issues = vec![
            DiscoveryIssue {
                path: Some("/work/locked".to_string()),
                message: "denied".to_string(),
            },
            DiscoveryIssue {
                path: Some("relative".to_string()),
                message: "denied".to_string(),
            },
        ]
    });
    let outcome = outcome.expect("outcome");
    assert_eq!(outcome.terminal_intent, TerminalIntent::Partial);
    assert_eq!(
        outcome.diagnostics[0].diagnostic.file_path.as_deref(),
        Some("/work/locked")
    );
    assert_eq!(outcome.diagnostics[1].diagnostic.file_path, None);
}

#[test]
fn pdfs_are_classified_before_they_are_parsed() {
    let mut world = World::default();
    world.no_text.push("/work/b.pdf".to_string());
    world.classified.insert(
        "c.pdf".to_string(),
        ClassificationCacheEntry {
            status: "text_in_parse_window".to_string(),
            page_count: 9,
            result_examined_pages: 1,
        },
    );
    let (outcome, world) = run(world, vec![file("a.pdf"), file("b.pdf"), file("c.pdf")], |_| {});
    let outcome = outcome.expect("outcome");
    assert_eq!(world.classify_calls, vec!["/work/a.pdf", "/work/b.pdf"]);
    assert_eq!(world.parsed, vec!["/work/a.pdf", "/work/c.pdf"]);
    assert_eq!(world.classification_writes.len(), 2);
    assert!(world.classification_writes[0].validate().is_ok());
    assert_eq!(
        outcome.classifications.get("b.pdf").map(|result| result.status),
        Some(PdfClassificationStatus::NoTextInParseWindow)
    );
    let metrics = outcome.execution_metrics;
    assert_eq!(metrics.classification_slot_count, 3);
    assert_eq!(metrics.nominal_charged_pages_total, 9);
    assert_eq!(metrics.classify_attempt_count, 2);
    assert_eq!(metrics.confirmed_run_inspected_pages_total, 4);
    assert_eq!(metrics.extraction_slot_count, 2);
    assert_eq!(metrics.pdfplumber_invocations, 2);
    assert_eq!(metrics.classification_cache_all_hit, Some(false));
}

#[test]
fn classifications_that_time_out_are_told() {
    let mut world = World::default();
    world.classify_times_out = true;
    let (outcome, world) = run(world, vec![file("a.pdf")], |_| {});
    let outcome = outcome.expect("outcome");
    assert_eq!(
        world.error_lines,
        vec!["- /work/a.pdf | reason=parse_error | error=PARSER_TIMEOUT"]
    );
    assert_eq!(outcome.file_results[0].parse_status, ParseStatus::Timeout);
    assert_eq!(outcome.terminal_intent, TerminalIntent::Error);
    assert_eq!(
        outcome.diagnostics.last().map(|record| record.severity),
        Some(DiagnosticSeverity::Error)
    );
    assert!(world.classification_writes.is_empty());
    assert_eq!(outcome.execution_metrics.unobserved_classification_attempt_count, 1);
}

#[test]
fn classifying_needs_a_known_classifier() {
    let (outcome, _) = run(World::default(), vec![file("a.pdf")], |input| {
        input.workers.classifier_build = None
    });
    assert_eq!(
        outcome.err().expect("failure").diagnostic.error_code,
        ErrorCode::WorkerHandshakeFailed
    );
    let (outcome, _) = run(World::default(), vec![file("a.txt")], |input| {
        input.workers.classifier_build = None
    });
    assert!(outcome.is_ok());
}

#[test]
fn ports_are_asked_for_the_run_at_hand() {
    let world = World {
        known: vec!["b.txt".to_string()],
        ..World::default()
    };
    let (outcome, world) = run(world, vec![file("a.txt"), file("b.txt")], |_| {});
    outcome.expect("outcome");
    assert_eq!(
        world.prepared,
        vec![(7, 1_000, vec!["a.txt".to_string(), "b.txt".to_string()])]
    );
    assert_eq!(
        world.lookups,
        vec![("a.txt".to_string(), false), ("b.txt".to_string(), true)]
    );
}

#[test]
fn committed_classifications_have_receipts() {
    let (outcome, world) = run(World::default(), vec![file("a.pdf"), file("b.pdf")], |_| {});
    let outcome = outcome.expect("outcome");
    assert_eq!(world.classification_writes.len(), 2);
    assert_eq!(outcome.classification_cache_receipts, world.classification_writes);

    let world = World {
        write_fails: true,
        ..World::default()
    };
    let (outcome, world) = run(world, vec![file("a.pdf")], |_| {});
    assert!(world.classification_writes.is_empty());
    assert!(outcome.expect("outcome").classification_cache_receipts.is_empty());
}

#[test]
fn fixed_sections_over_budget_end_in_an_error() {
    let world = World {
        budget_fails: true,
        ..World::default()
    };
    let (outcome, world) = run(world, vec![file("a.pdf"), file("b.txt")], |input| {
        input.discovery_issues = vec![DiscoveryIssue {
            path: Some("/work/locked".to_string()),
            message: "denied".to_string(),
        }];
    });
    let outcome = outcome.expect("a defined end is an outcome");
    assert_eq!(outcome.terminal_intent, TerminalIntent::Error);
    assert!(outcome.context.is_none());
    assert!(outcome.file_results.is_empty());
    assert_eq!(outcome.diagnostics.len(), 2);
    assert_eq!(outcome.diagnostics[0].severity, DiagnosticSeverity::Warning);
    assert_eq!(outcome.diagnostics[1].severity, DiagnosticSeverity::Error);
    assert_eq!(
        outcome.diagnostics[1].diagnostic.error_code,
        ErrorCode::ContextFixedSectionsOverBudget
    );
    assert_eq!(
        outcome.diagnostics[1].diagnostic.message,
        "fixed sections take 200 of 100 characters"
    );
    assert_eq!(outcome.classification_cache_receipts, world.classification_writes);
    assert_eq!(outcome.classification_cache_receipts.len(), 1);
    assert!(world.parsed.is_empty());
}
