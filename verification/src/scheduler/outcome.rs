//! The input and the outcome of a run.
use crate::contract::{
    clone_all, opt_view, views, ContextDecisionRecord, ContextDecisionRecordView, ContextRunRecord,
    ContextRunRecordView, ContextSummary, Diagnostic, DiagnosticSeverity, DiagnosticStage,
    DiagnosticView, DiscoveredFileOut, DiscoveredFileOutView, DiscoveryIssue, DiscoveryIssueView,
    ErrorCode, ExtensionMetric, ExtensionMetricView, RunDiagnosticRecord, RunDiagnosticRecordView,
    RunStatus, StageMetric, StageName,
};
use crate::hash::{content_hash, content_sha256};
use crate::ordered::TextMap;
use crate::profile::{NormalizedScannerProfileV2, NormalizedScannerProfileV2View};
use crate::scheduler::plan::{
    claimed_kind, is_admitted, map_views, reserved_total, AdmissionDecision, AdmissionDecisionView,
    PdfClassificationResult, PdfClassificationResultView, PlanAction,
};
use crate::scheduler::records::{
    internal_failure, no_metrics, ExecutionMetrics, ParseOutputs, ParseOutputsView,
    SchedulerFailure, TerminalIntent, WorkerIdentities, WorkerIdentitiesView,
    FINALIZATION_RESERVE_MS, MAX_MESSAGE_CHARS, MAX_SOURCE_FILES_PER_RUN,
};
use crate::scheduler::results::path_views;
use crate::scheduler::warnings::{
    law_projection_reports_what_was_recorded, project_warnings, projected, with_severity,
    MAX_DETAIL_WARNINGS,
};
use crate::source_guard::{
    kind_text, law_kind_text_round_trip, saturated_sum, source_guard_kind_from_text,
    SourceGuardKind,
};
use crate::store::cache::{
    CacheWriteRecord, CacheWriteRecordView, ClassificationCacheWriteRecord,
    ClassificationCacheWriteRecordView,
};
use crate::store::inventory::{
    FileResultRecord, FileResultRecordView, InventoryRecord, InventoryRecordView,
};
use crate::text::{capped, decimal, take_chars, u64_text};
use vstd::prelude::*;
use vstd::string::StringExecFns;

verus! {

/// What a run is given. Deadlines and the clock of the run count the same milliseconds.
#[derive(Debug, PartialEq, Eq)]
pub struct ScheduledRunInput {
    pub scan_run_id: u64,
    pub started_at_ms: u64,
    pub work_dir: String,
    pub discovery: Vec<DiscoveredFileOut>,
    pub discovery_issues: Vec<DiscoveryIssue>,
    pub profile: NormalizedScannerProfileV2,
    pub workers: WorkerIdentities,
    pub engine_version: String,
    pub engine_build: String,
    pub context_profile_hash: String,
    pub rejected_profile_hash: String,
    pub discovery_duration_ms: u64,
    /// All heavy work stops here.
    pub work_deadline_ms: u64,
    /// No terminal write begins after this.
    pub absolute_deadline_ms: u64,
}

/// What a [`ScheduledRunInput`] says.
#[verifier::ext_equal]
pub struct ScheduledRunInputView {
    pub scan_run_id: u64,
    pub started_at_ms: u64,
    pub work_dir: Seq<char>,
    pub discovery: Seq<DiscoveredFileOutView>,
    pub discovery_issues: Seq<DiscoveryIssueView>,
    pub profile: NormalizedScannerProfileV2View,
    pub workers: WorkerIdentitiesView,
    pub engine_version: Seq<char>,
    pub engine_build: Seq<char>,
    pub context_profile_hash: Seq<char>,
    pub rejected_profile_hash: Seq<char>,
    pub discovery_duration_ms: u64,
    pub work_deadline_ms: u64,
    pub absolute_deadline_ms: u64,
}

impl View for ScheduledRunInput {
    type V = ScheduledRunInputView;

    open spec fn view(&self) -> ScheduledRunInputView {
        ScheduledRunInputView {
            scan_run_id: self.scan_run_id,
            started_at_ms: self.started_at_ms,
            work_dir: self.work_dir@,
            discovery: views(self.discovery@),
            discovery_issues: views(self.discovery_issues@),
            profile: self.profile@,
            workers: self.workers@,
            engine_version: self.engine_version@,
            engine_build: self.engine_build@,
            context_profile_hash: self.context_profile_hash@,
            rejected_profile_hash: self.rejected_profile_hash@,
            discovery_duration_ms: self.discovery_duration_ms,
            work_deadline_ms: self.work_deadline_ms,
            absolute_deadline_ms: self.absolute_deadline_ms,
        }
    }
}

impl Clone for ScheduledRunInput {
    fn clone(&self) -> (copy: Self)
        ensures
            copy@ == self@,
    {
        ScheduledRunInput {
            scan_run_id: self.scan_run_id,
            started_at_ms: self.started_at_ms,
            work_dir: self.work_dir.clone(),
            discovery: clone_all(&self.discovery),
            discovery_issues: clone_all(&self.discovery_issues),
            profile: self.profile.clone(),
            workers: self.workers.clone(),
            engine_version: self.engine_version.clone(),
            engine_build: self.engine_build.clone(),
            context_profile_hash: self.context_profile_hash.clone(),
            rejected_profile_hash: self.rejected_profile_hash.clone(),
            discovery_duration_ms: self.discovery_duration_ms,
            work_deadline_ms: self.work_deadline_ms,
            absolute_deadline_ms: self.absolute_deadline_ms,
        }
    }
}

/// The deadlines of a run that starts now: the work deadline, which comes the
/// finalization reserve before the absolute one, and the absolute deadline.
pub open spec fn deadlines_of(now_ms: u64, total_deadline_ms: u64) -> Result<
    (u64, u64),
    Seq<char>,
> {
    let absolute = now_ms + total_deadline_ms;
    if absolute > u64::MAX {
        Err("deadline arithmetic overflowed"@)
    } else if absolute < FINALIZATION_RESERVE_MS {
        Err("work deadline underflowed"@)
    } else {
        Ok(((absolute - FINALIZATION_RESERVE_MS) as u64, absolute as u64))
    }
}

/// Computes the deadlines of a run that starts now.
pub fn run_deadlines(now_ms: u64, total_deadline_ms: u64) -> (deadlines: Result<
    (u64, u64),
    SchedulerFailure,
>)
    ensures
        match deadlines {
            Ok(pair) => deadlines_of(now_ms, total_deadline_ms) == Ok::<(u64, u64), Seq<char>>(
                pair,
            ),
            Err(failure) => deadlines_of(now_ms, total_deadline_ms) is Err
                && failure.diagnostic@ == internal_failure(
                deadlines_of(now_ms, total_deadline_ms)->Err_0,
            ),
        },
{
    match now_ms.checked_add(total_deadline_ms) {
        None => Err(SchedulerFailure::internal("deadline arithmetic overflowed")),
        Some(absolute) => {
            if absolute < FINALIZATION_RESERVE_MS {
                Err(SchedulerFailure::internal("work deadline underflowed"))
            } else {
                Ok((absolute - FINALIZATION_RESERVE_MS, absolute))
            }
        },
    }
}

/// Heavy work stops exactly the finalization reserve before the absolute deadline,
/// and never later than that.
pub proof fn law_work_stops_before_the_absolute_deadline(now_ms: u64, total_deadline_ms: u64)
    ensures
        deadlines_of(now_ms, total_deadline_ms) matches Ok((work, absolute)) ==> work
            + FINALIZATION_RESERVE_MS == absolute && work < absolute && absolute == now_ms
            + total_deadline_ms,
{
}

impl ScheduledRunInput {
    /// The input of a run that starts at `now_ms`.
    pub fn new(
        scan_run_id: u64,
        started_at_ms: u64,
        work_dir: String,
        discovery: Vec<DiscoveredFileOut>,
        discovery_issues: Vec<DiscoveryIssue>,
        profile: NormalizedScannerProfileV2,
        workers: WorkerIdentities,
        engine_version: String,
        engine_build: String,
        context_profile_hash: String,
        rejected_profile_hash: String,
        discovery_duration_ms: u64,
        now_ms: u64,
    ) -> (input: Result<Self, SchedulerFailure>)
        ensures
            match deadlines_of(now_ms, profile.total_deadline_ms) {
                Ok((work, absolute)) => input is Ok && input->Ok_0@ == (ScheduledRunInputView {
                    scan_run_id,
                    started_at_ms,
                    work_dir: work_dir@,
                    discovery: views(discovery@),
                    discovery_issues: views(discovery_issues@),
                    profile: profile@,
                    workers: workers@,
                    engine_version: engine_version@,
                    engine_build: engine_build@,
                    context_profile_hash: context_profile_hash@,
                    rejected_profile_hash: rejected_profile_hash@,
                    discovery_duration_ms,
                    work_deadline_ms: work,
                    absolute_deadline_ms: absolute,
                }),
                Err(message) => input is Err && input->Err_0.diagnostic@ == internal_failure(
                    message,
                ),
            },
    {
        match run_deadlines(now_ms, profile.total_deadline_ms) {
            Err(failure) => Err(failure),
            Ok((work_deadline_ms, absolute_deadline_ms)) => Ok(
                ScheduledRunInput {
                    scan_run_id,
                    started_at_ms,
                    work_dir,
                    discovery,
                    discovery_issues,
                    profile,
                    workers,
                    engine_version,
                    engine_build,
                    context_profile_hash,
                    rejected_profile_hash,
                    discovery_duration_ms,
                    work_deadline_ms,
                    absolute_deadline_ms,
                },
            ),
        }
    }
}

/// What a run brought forth. Whoever commits it decides nothing anew.
pub struct BudgetedScanOutcome {
    pub scan_run_id: u64,
    pub terminal_intent: TerminalIntent,
    pub inventory: Vec<InventoryRecord>,
    pub file_results: Vec<FileResultRecord>,
    pub parse_cache_receipts: Vec<CacheWriteRecord>,
    pub classification_cache_receipts: Vec<ClassificationCacheWriteRecord>,
    /// The classification of each PDF that reached the classifier.
    pub classifications: TextMap<PdfClassificationResult>,
    pub diagnostics: Vec<RunDiagnosticRecord>,
    pub stage_metrics: Vec<StageMetric>,
    pub extension_metrics: Vec<ExtensionMetric>,
    pub context: Option<ContextRunRecord>,
    pub execution_metrics: ExecutionMetrics,
}

/// What a run brought forth.
#[verifier::ext_equal]
pub struct BudgetedScanOutcomeView {
    pub scan_run_id: u64,
    pub terminal_intent: TerminalIntent,
    pub inventory: Seq<InventoryRecordView>,
    pub file_results: Seq<FileResultRecordView>,
    pub parse_cache_receipts: Seq<CacheWriteRecordView>,
    pub classification_cache_receipts: Seq<ClassificationCacheWriteRecordView>,
    pub classifications: Map<Seq<char>, PdfClassificationResultView>,
    pub diagnostics: Seq<RunDiagnosticRecordView>,
    pub stage_metrics: Seq<StageMetric>,
    pub extension_metrics: Seq<ExtensionMetricView>,
    pub context: Option<ContextRunRecordView>,
    pub execution_metrics: ExecutionMetrics,
}

impl View for BudgetedScanOutcome {
    type V = BudgetedScanOutcomeView;

    open spec fn view(&self) -> BudgetedScanOutcomeView {
        BudgetedScanOutcomeView {
            scan_run_id: self.scan_run_id,
            terminal_intent: self.terminal_intent,
            inventory: views(self.inventory@),
            file_results: views(self.file_results@),
            parse_cache_receipts: views(self.parse_cache_receipts@),
            classification_cache_receipts: views(self.classification_cache_receipts@),
            classifications: map_views(self.classifications@),
            diagnostics: views(self.diagnostics@),
            stage_metrics: self.stage_metrics@,
            extension_metrics: views(self.extension_metrics@),
            context: opt_view(self.context),
            execution_metrics: self.execution_metrics,
        }
    }
}

/// How long the stages of a run took, in milliseconds.
#[derive(Clone, Copy, Debug, PartialEq, Eq)]
pub struct StageDurations {
    pub discovery_ms: u64,
    pub cache_ms: u64,
    pub parse_ms: u64,
    pub compression_ms: u64,
}

/// One row per stage, in stage order.
pub open spec fn stage_rows(
    discovered: u64,
    cached: u64,
    parsed: u64,
    rendered: u64,
    durations: StageDurations,
) -> Seq<StageMetric> {
    seq![
        StageMetric {
            stage: StageName::Discovery,
            item_count: discovered,
            duration_ms: durations.discovery_ms,
        },
        StageMetric {
            stage: StageName::Cache,
            item_count: cached,
            duration_ms: durations.cache_ms,
        },
        StageMetric {
            stage: StageName::Parse,
            item_count: parsed,
            duration_ms: durations.parse_ms,
        },
        StageMetric {
            stage: StageName::Context,
            item_count: rendered,
            duration_ms: durations.compression_ms,
        },
    ]
}

/// Builds the stage rows of a run.
pub fn build_stage_metrics(
    source_file_count: u64,
    context_item_count: u64,
    cache_item_count: u64,
    parse_item_count: u64,
    durations: StageDurations,
) -> (metrics: Vec<StageMetric>)
    ensures
        metrics@ == stage_rows(
            source_file_count,
            cache_item_count,
            parse_item_count,
            context_item_count,
            durations,
        ),
{
    vec![
        StageMetric {
            stage: StageName::Discovery,
            item_count: source_file_count,
            duration_ms: durations.discovery_ms,
        },
        StageMetric {
            stage: StageName::Cache,
            item_count: cache_item_count,
            duration_ms: durations.cache_ms,
        },
        StageMetric {
            stage: StageName::Parse,
            item_count: parse_item_count,
            duration_ms: durations.parse_ms,
        },
        StageMetric {
            stage: StageName::Context,
            item_count: context_item_count,
            duration_ms: durations.compression_ms,
        },
    ]
}

/// Durations of stages that did not run.
pub open spec fn no_durations() -> StageDurations {
    StageDurations { discovery_ms: 0, cache_ms: 0, parse_ms: 0, compression_ms: 0 }
}

/// The stage rows of a run that worked on no file: all four, and all of them zero.
pub fn zero_stage_metrics() -> (metrics: Vec<StageMetric>)
    ensures
        metrics@ == stage_rows(0, 0, 0, 0, no_durations()),
{
    build_stage_metrics(
        0,
        0,
        0,
        0,
        StageDurations { discovery_ms: 0, cache_ms: 0, parse_ms: 0, compression_ms: 0 },
    )
}

/// The error of a run with too many source files.
pub open spec fn too_many_files(count: u64) -> DiagnosticView {
    DiagnosticView {
        error_code: ErrorCode::SourceFileLimitExceeded,
        message: "discovery observed "@ + decimal(count as nat)
            + " source files, exceeding the engine ceiling of "@ + decimal(
            MAX_SOURCE_FILES_PER_RUN as nat,
        ),
        retryable: false,
        stage: DiagnosticStage::Discovery,
        file_path: None,
        backend: None,
    }
}

/// An outcome that reports an error and no file.
pub open spec fn error_outcome(
    scan_run_id: u64,
    diagnostics: Seq<RunDiagnosticRecordView>,
    outputs: ParseOutputsView,
    metrics: ExecutionMetrics,
) -> BudgetedScanOutcomeView {
    BudgetedScanOutcomeView {
        scan_run_id,
        terminal_intent: TerminalIntent::Error,
        inventory: Seq::empty(),
        file_results: Seq::empty(),
        parse_cache_receipts: outputs.parse_cache_receipts,
        classification_cache_receipts: outputs.classification_cache_receipts,
        classifications: Map::empty(),
        diagnostics,
        stage_metrics: stage_rows(0, 0, 0, 0, no_durations()),
        extension_metrics: Seq::empty(),
        context: None,
        execution_metrics: metrics,
    }
}

fn form_error_outcome(
    scan_run_id: u64,
    diagnostics: Vec<RunDiagnosticRecord>,
    outputs: ParseOutputs,
    metrics: ExecutionMetrics,
) -> (outcome: BudgetedScanOutcome)
    ensures
        outcome@ == error_outcome(scan_run_id, views(diagnostics@), outputs@, metrics),
{
    let ParseOutputs { parse_cache_receipts, classification_cache_receipts, .. } = outputs;
    let outcome = BudgetedScanOutcome {
        scan_run_id,
        terminal_intent: TerminalIntent::Error,
        inventory: Vec::new(),
        file_results: Vec::new(),
        parse_cache_receipts,
        classification_cache_receipts,
        classifications: TextMap::new(),
        diagnostics,
        stage_metrics: zero_stage_metrics(),
        extension_metrics: Vec::new(),
        context: None,
        execution_metrics: metrics,
    };
    assert(outcome@ =~= error_outcome(scan_run_id, views(diagnostics@), outputs@, metrics));
    outcome
}

/// The outcome of a run that discovered more files than a run may hold; `None`
/// where it did not.
pub fn ceiling_outcome(scan_run_id: u64, discovered: u64, now_ms: u64) -> (outcome: Option<
    BudgetedScanOutcome,
>)
    ensures
        (outcome is Some) == (discovered > MAX_SOURCE_FILES_PER_RUN),
        outcome matches Some(formed) ==> formed@ == error_outcome(
            scan_run_id,
            seq![with_severity(DiagnosticSeverity::Error, too_many_files(discovered))],
            crate::scheduler::records::no_outputs(),
            ExecutionMetrics {
                discovery_observed_file_count: (MAX_SOURCE_FILES_PER_RUN + 1) as u64,
                deadline_precommit_elapsed_ms: now_ms,
                ..no_metrics()
            },
        ),
{
    if discovered <= MAX_SOURCE_FILES_PER_RUN {
        return None;
    }
    let mut metrics: ExecutionMetrics = ExecutionMetrics::default();
    metrics.discovery_observed_file_count = MAX_SOURCE_FILES_PER_RUN + 1;
    metrics.deadline_precommit_elapsed_ms = now_ms;
    let mut message: String = "discovery observed ".to_string();
    message.append(u64_text(discovered).as_str());
    message.append(" source files, exceeding the engine ceiling of ");
    message.append(u64_text(MAX_SOURCE_FILES_PER_RUN).as_str());
    let record = RunDiagnosticRecord {
        severity: DiagnosticSeverity::Error,
        diagnostic: Diagnostic {
            error_code: ErrorCode::SourceFileLimitExceeded,
            message,
            retryable: false,
            stage: DiagnosticStage::Discovery,
            file_path: None,
            backend: None,
        },
    };
    let mut diagnostics: Vec<RunDiagnosticRecord> = Vec::new();
    diagnostics.push(record);
    assert(views(diagnostics@) =~= seq![record@]);
    Some(form_error_outcome(scan_run_id, diagnostics, ParseOutputs::new(), metrics))
}

/// The error of a run whose context could not be formed.
pub open spec fn context_error(error_code: ErrorCode, message: Seq<char>) -> DiagnosticView {
    DiagnosticView {
        error_code,
        message: capped(message, MAX_MESSAGE_CHARS as int),
        retryable: false,
        stage: DiagnosticStage::Context,
        file_path: None,
        backend: None,
    }
}

/// The outcome of a run whose context could not be formed. What was cached by then
/// stays reported.
pub fn internal_error_outcome(
    scan_run_id: u64,
    metrics: ExecutionMetrics,
    diagnostics: Vec<RunDiagnosticRecord>,
    parse_outputs: ParseOutputs,
    error_code: ErrorCode,
    message: String,
) -> (outcome: BudgetedScanOutcome)
    ensures
        outcome@ == error_outcome(
            scan_run_id,
            projected(views(diagnostics@)).push(
                with_severity(DiagnosticSeverity::Error, context_error(error_code, message@)),
            ),
            parse_outputs@,
            metrics,
        ),
{
    let mut reported: Vec<RunDiagnosticRecord> = project_warnings(diagnostics);
    let ghost before = views(reported@);
    let record = RunDiagnosticRecord {
        severity: DiagnosticSeverity::Error,
        diagnostic: Diagnostic {
            error_code,
            message: take_chars(message.as_str(), MAX_MESSAGE_CHARS),
            retryable: false,
            stage: DiagnosticStage::Context,
            file_path: None,
            backend: None,
        },
    };
    reported.push(record);
    assert(views(reported@) =~= before.push(record@));
    form_error_outcome(scan_run_id, reported, parse_outputs, metrics)
}

/// The warning about an entry that discovery could not read. Only an absolute path
/// is reported.
pub open spec fn issue_warning(
    issue: DiscoveryIssueView,
    is_absolute: bool,
) -> RunDiagnosticRecordView {
    with_severity(
        DiagnosticSeverity::Warning,
        DiagnosticView {
            error_code: ErrorCode::DiscoveryEntryUnreadable,
            message: capped(issue.message, MAX_MESSAGE_CHARS as int),
            retryable: true,
            stage: DiagnosticStage::Discovery,
            file_path: if is_absolute {
                issue.path
            } else {
                None
            },
            backend: None,
        },
    )
}

/// Warns about an entry that discovery could not read; `is_absolute` says whether
/// the platform takes its path for an absolute one.
pub fn discovery_issue_warning(issue: &DiscoveryIssue, is_absolute: bool) -> (record:
    RunDiagnosticRecord)
    ensures
        record@ == issue_warning(issue@, is_absolute),
{
    let file_path: Option<String> = if is_absolute {
        issue.path.clone()
    } else {
        None
    };
    RunDiagnosticRecord {
        severity: DiagnosticSeverity::Warning,
        diagnostic: Diagnostic {
            error_code: ErrorCode::DiscoveryEntryUnreadable,
            message: take_chars(issue.message.as_str(), MAX_MESSAGE_CHARS),
            retryable: true,
            stage: DiagnosticStage::Discovery,
            file_path,
            backend: None,
        },
    }
}

/// Warns about all entries that discovery could not read, in order.
pub fn discovery_warnings(issues: &Vec<DiscoveryIssue>, absolute: &Vec<bool>) -> (records: Vec<
    RunDiagnosticRecord,
>)
    requires
        absolute@.len() == issues@.len(),
    ensures
        views(records@) == Seq::new(
            issues@.len(),
            |i: int| issue_warning(issues@[i]@, absolute@[i]),
        ),
{
    let mut records: Vec<RunDiagnosticRecord> = Vec::new();
    let mut i: usize = 0;
    while i < issues.len()
        invariant
            i <= issues.len(),
            absolute@.len() == issues@.len(),
            views(records@) == Seq::new(
                i as nat,
                |j: int| issue_warning(issues@[j]@, absolute@[j]),
            ),
        decreases issues.len() - i,
    {
        let ghost before = views(records@);
        let record: RunDiagnosticRecord = discovery_issue_warning(&issues[i], absolute[i]);
        records.push(record);
        assert(views(records@) =~= before.push(record@));
        i = i + 1;
        assert(views(records@) =~= Seq::new(
            i as nat,
            |j: int| issue_warning(issues@[j]@, absolute@[j]),
        ));
    }
    records
}

/// The inventory row of a file, or the failure that there is none.
pub open spec fn inventory_row(
    file: DiscoveredFileOutView,
    path: Result<Seq<char>, Seq<char>>,
) -> Result<InventoryRecordView, Seq<char>> {
    match path {
        Err(message) => Err(message),
        Ok(text) => InventoryRecord::of_discovered(file, text),
    }
}

/// The first message, counted from `from`, that keeps an inventory from being
/// formed.
pub open spec fn inventory_fault(
    files: Seq<DiscoveredFileOutView>,
    paths: Seq<Result<Seq<char>, Seq<char>>>,
    from: int,
) -> Option<Seq<char>>
    decreases files.len() - from,
{
    if from < 0 || from >= files.len() {
        None
    } else {
        match inventory_row(files[from], paths[from]) {
            Err(message) => Some(message),
            Ok(_) => inventory_fault(files, paths, from + 1),
        }
    }
}

/// Builds the inventory of a run. `relative_paths` holds, for each file, its path
/// relative to the working directory or why it has none.
pub fn build_inventory(
    discovery: &Vec<DiscoveredFileOut>,
    relative_paths: &Vec<Result<String, String>>,
) -> (inventory: Result<Vec<InventoryRecord>, SchedulerFailure>)
    requires
        relative_paths@.len() == discovery@.len(),
    ensures
        match inventory {
            Ok(rows) => inventory_fault(views(discovery@), path_views(relative_paths@), 0) is None
                && views(rows@) == Seq::new(
                discovery@.len(),
                |i: int|
                    inventory_row(discovery@[i]@, path_views(relative_paths@)[i])->Ok_0,
            ),
            Err(failure) => inventory_fault(views(discovery@), path_views(relative_paths@), 0)
                is Some && failure.diagnostic@ == internal_failure(
                inventory_fault(views(discovery@), path_views(relative_paths@), 0)->0,
            ),
        },
{
    let ghost files = views(discovery@);
    let ghost paths = path_views(relative_paths@);
    let mut rows: Vec<InventoryRecord> = Vec::new();
    let mut i: usize = 0;
    while i < discovery.len()
        invariant
            i <= discovery.len(),
            relative_paths@.len() == discovery@.len(),
            files == views(discovery@),
            paths == path_views(relative_paths@),
            inventory_fault(files, paths, 0) == inventory_fault(files, paths, i as int),
            views(rows@) == Seq::new(
                i as nat,
                |j: int| inventory_row(discovery@[j]@, paths[j])->Ok_0,
            ),
        decreases discovery.len() - i,
    {
        let ghost before = views(rows@);
        assert(files[i as int] == discovery@[i as int]@);
        let relative_path: String = match &relative_paths[i] {
            Ok(path) => path.clone(),
            Err(message) => {
                return Err(SchedulerFailure::internal(message.as_str()));
            },
        };
        match InventoryRecord::from_discovered(&discovery[i], relative_path) {
            Err(message) => {
                return Err(SchedulerFailure::internal(message.as_str()));
            },
            Ok(row) => {
                rows.push(row);
                assert(views(rows@) =~= before.push(row@));
            },
        }
        i = i + 1;
        assert(views(rows@) =~= Seq::new(
            i as nat,
            |j: int| inventory_row(discovery@[j]@, paths[j])->Ok_0,
        ));
    }
    Ok(rows)
}

/// What discovery tells about the guards of the first `count` files: how many have
/// none, how many were hashed, and how many bytes that took.
pub open spec fn guard_tally(files: Seq<DiscoveredFileOutView>, count: nat) -> (int, int, u64)
    decreases count,
{
    if count == 0 {
        (0, 0, 0)
    } else {
        let (unavailable, hashed, bytes) = guard_tally(files, (count - 1) as nat);
        let file = files[count - 1];
        match claimed_kind(file) {
            Some(SourceGuardKind::Unavailable) => (unavailable + 1, hashed, bytes),
            Some(SourceGuardKind::ContentSha256V1) => (
                unavailable,
                hashed + 1,
                saturated_sum(bytes as int, file.size_bytes as int),
            ),
            _ => (unavailable, hashed, bytes),
        }
    }
}

/// The metrics that discovery gives a run to start with.
pub fn source_guard_metrics(discovery: &Vec<DiscoveredFileOut>) -> (metrics: ExecutionMetrics)
    ensures
        ({
            let tally = guard_tally(views(discovery@), discovery@.len());
            metrics == (ExecutionMetrics {
                discovery_observed_file_count: discovery@.len() as u64,
                source_guard_unavailable_count: tally.0 as u64,
                source_guard_content_hash_file_count: tally.1 as u64,
                source_guard_bytes_read: tally.2,
                ..no_metrics()
            })
        }),
{
    let ghost files = views(discovery@);
    let mut unavailable: u64 = 0;
    let mut hashed: u64 = 0;
    let mut bytes: u64 = 0;
    let mut i: usize = 0;
    while i < discovery.len()
        invariant
            i <= discovery.len(),
            files == views(discovery@),
            unavailable <= i,
            hashed <= i,
            (unavailable as int, hashed as int, bytes) == guard_tally(files, i as nat),
        decreases discovery.len() - i,
    {
        assert(files[i as int] == discovery@[i as int]@);
        let kind: Option<SourceGuardKind> = match &discovery[i].source_guard_kind {
            Some(text) => source_guard_kind_from_text(text.as_str()),
            None => None,
        };
        match kind {
            Some(SourceGuardKind::Unavailable) => {
                unavailable = unavailable + 1;
            },
            Some(SourceGuardKind::ContentSha256V1) => {
                hashed = hashed + 1;
                bytes = bytes.saturating_add(discovery[i].size_bytes);
            },
            _ => {},
        }
        i = i + 1;
    }
    let mut metrics: ExecutionMetrics = ExecutionMetrics::default();
    metrics.discovery_observed_file_count = discovery.len() as u64;
    metrics.source_guard_unavailable_count = unavailable;
    metrics.source_guard_content_hash_file_count = hashed;
    metrics.source_guard_bytes_read = bytes;
    metrics
}

/// A run may still start.
pub fn check_start(now_ms: u64, absolute_deadline_ms: u64) -> (verdict: Result<
    (),
    SchedulerFailure,
>)
    ensures
        (verdict is Ok) == (now_ms < absolute_deadline_ms),
        verdict matches Err(failure) ==> failure.diagnostic@ == internal_failure(
            "absolute deadline already exhausted before execution"@,
        ),
{
    if now_ms >= absolute_deadline_ms {
        Err(SchedulerFailure::internal("absolute deadline already exhausted before execution"))
    } else {
        Ok(())
    }
}

/// The text `text`, `times` times over.
pub open spec fn repeated(c: char, times: nat) -> Seq<char> {
    Seq::new(times, |i: int| c)
}

/// The build of the classifier, which has to be known when PDFs are classified and
/// is all zeros when none are and none is known.
pub fn resolve_classifier_build(known: &Option<String>, needs_classifier: bool) -> (build: Result<
    String,
    SchedulerFailure,
>)
    ensures
        match known {
            Some(text) => build is Ok && build->Ok_0@ == text@,
            None => if needs_classifier {
                build is Err && build->Err_0.diagnostic@ == (DiagnosticView {
                    error_code: ErrorCode::WorkerHandshakeFailed,
                    message: capped(
                        "classifier build is required when PDFs are classified"@,
                        MAX_MESSAGE_CHARS as int,
                    ),
                    retryable: false,
                    stage: DiagnosticStage::Process,
                    file_path: None,
                    backend: None,
                })
            } else {
                build is Ok && build->Ok_0@ == repeated('0', 64)
            },
        },
{
    match known {
        Some(text) => Ok(text.clone()),
        None => {
            if needs_classifier {
                Err(
                    SchedulerFailure::new(
                        ErrorCode::WorkerHandshakeFailed,
                        "classifier build is required when PDFs are classified".to_string(),
                        false,
                        DiagnosticStage::Process,
                    ),
                )
            } else {
                let mut zeros: String = String::new();
                let mut i: usize = 0;
                while i < 64
                    invariant
                        i <= 64,
                        zeros@ == repeated('0', i as nat),
                    decreases 64 - i,
                {
                    zeros.push('0');
                    i = i + 1;
                    assert(zeros@ =~= repeated('0', i as nat));
                }
                Ok(zeros)
            }
        },
    }
}

/// The first admitted file, counted from `from`, whose rendered section is longer
/// than what was reserved for it.
pub open spec fn overrun(
    decisions: Seq<AdmissionDecisionView>,
    rendered: Map<Seq<char>, u64>,
    from: int,
) -> Option<Seq<char>>
    decreases decisions.len() - from,
{
    if from < 0 || from >= decisions.len() {
        None
    } else {
        let decision = decisions[from];
        if is_admitted(decision.action) && rendered.contains_key(decision.file_identity)
            && rendered[decision.file_identity] > decision.reserved_chars {
            Some(decision.relative_path)
        } else {
            overrun(decisions, rendered, from + 1)
        }
    }
}

/// The failure of a run whose rendered section is longer than reserved.
pub open spec fn overrun_failure(relative_path: Seq<char>) -> DiagnosticView {
    DiagnosticView {
        error_code: ErrorCode::BudgetModelMismatch,
        message: capped(
            "rendered section for "@ + relative_path + " exceeded its reserved budget"@,
            MAX_MESSAGE_CHARS as int,
        ),
        retryable: false,
        stage: DiagnosticStage::Context,
        file_path: None,
        backend: None,
    }
}

/// Checks that no admitted file was rendered beyond what was reserved for it.
pub fn enforce_rendered_within_reserved(
    rendered_by_identity: &TextMap<u64>,
    admission: &Vec<AdmissionDecision>,
) -> (verdict: Result<(), SchedulerFailure>)
    ensures
        match overrun(views(admission@), rendered_by_identity@, 0) {
            None => verdict is Ok,
            Some(path) => verdict is Err && verdict->Err_0.diagnostic@ == overrun_failure(path),
        },
{
    let ghost decisions = views(admission@);
    let mut i: usize = 0;
    while i < admission.len()
        invariant
            i <= admission.len(),
            decisions == views(admission@),
            overrun(decisions, rendered_by_identity@, 0) == overrun(
                decisions,
                rendered_by_identity@,
                i as int,
            ),
        decreases admission.len() - i,
    {
        let decision: &AdmissionDecision = &admission[i];
        assert(decisions[i as int] == decision@);
        let admitted: bool = match &decision.action {
            PlanAction::Admit { route: _ } => true,
            _ => false,
        };
        if admitted {
            if let Some(chars) = rendered_by_identity.get(decision.file_identity.as_str()) {
                if *chars > decision.reserved_chars {
                    let mut message: String = "rendered section for ".to_string();
                    message.append(decision.relative_path.as_str());
                    message.append(" exceeded its reserved budget");
                    return Err(
                        SchedulerFailure::new(
                            ErrorCode::BudgetModelMismatch,
                            message,
                            false,
                            DiagnosticStage::Context,
                        ),
                    );
                }
            }
        }
        i = i + 1;
    }
    Ok(())
}

/// The characters that a run reserved: those of the fixed sections and those of all
/// decisions.
pub fn reserved_chars(base_chars: u64, admission: &Vec<AdmissionDecision>) -> (total: u64)
    requires
        reserved_total(views(admission@), admission@.len()) <= u64::MAX,
    ensures
        total == saturated_sum(
            base_chars as int,
            reserved_total(views(admission@), admission@.len()),
        ),
{
    let ghost decisions = views(admission@);
    let mut sum: u64 = 0;
    let mut i: usize = 0;
    while i < admission.len()
        invariant
            i <= admission.len(),
            decisions == views(admission@),
            sum == reserved_total(decisions, i as nat),
            reserved_total(decisions, admission@.len()) <= u64::MAX,
        decreases admission.len() - i,
    {
        assert(decisions[i as int] == admission@[i as int]@);
        proof {
            lemma_reserved_grows(decisions, (i + 1) as nat, decisions.len());
        }
        sum = sum + admission[i].reserved_chars;
        i = i + 1;
    }
    base_chars.saturating_add(sum)
}

/// Whether the characters that all decisions reserve can be counted.
pub fn reserved_fits(admission: &Vec<AdmissionDecision>) -> (fits: bool)
    ensures
        fits == (reserved_total(views(admission@), admission@.len()) <= u64::MAX),
{
    let ghost decisions = views(admission@);
    let mut sum: u64 = 0;
    let mut i: usize = 0;
    while i < admission.len()
        invariant
            i <= admission.len(),
            decisions == views(admission@),
            sum == reserved_total(decisions, i as nat),
        decreases admission.len() - i,
    {
        assert(decisions[i as int] == admission@[i as int]@);
        proof {
            lemma_reserved_grows(decisions, (i + 1) as nat, decisions.len());
        }
        match sum.checked_add(admission[i].reserved_chars) {
            Some(more) => {
                sum = more;
            },
            None => {
                return false;
            },
        }
        i = i + 1;
    }
    true
}

proof fn lemma_reserved_grows(decisions: Seq<AdmissionDecisionView>, low: nat, high: nat)
    requires
        low <= high <= decisions.len(),
    ensures
        reserved_total(decisions, low) <= reserved_total(decisions, high),
    decreases high,
{
    if low < high {
        lemma_reserved_grows(decisions, low, (high - 1) as nat);
    }
}

/// A context as it was rendered.
pub struct RenderedContext {
    pub content: String,
    /// The length of each file's section.
    pub rendered_by_identity: TextMap<u64>,
    pub decisions: Vec<ContextDecisionRecord>,
    pub source_file_count: u64,
    pub success_count: u64,
    pub timeout_count: u64,
    pub included_file_count: u64,
    pub omitted_file_count: u64,
    pub error_file_count: u64,
    pub input_chars: u64,
    pub output_chars: u64,
}

/// A context as it was rendered.
#[verifier::ext_equal]
pub struct RenderedContextView {
    pub content: Seq<char>,
    pub rendered_by_identity: Map<Seq<char>, u64>,
    pub decisions: Seq<ContextDecisionRecordView>,
    pub source_file_count: u64,
    pub success_count: u64,
    pub timeout_count: u64,
    pub included_file_count: u64,
    pub omitted_file_count: u64,
    pub error_file_count: u64,
    pub input_chars: u64,
    pub output_chars: u64,
}

impl View for RenderedContext {
    type V = RenderedContextView;

    open spec fn view(&self) -> RenderedContextView {
        RenderedContextView {
            content: self.content@,
            rendered_by_identity: self.rendered_by_identity@,
            decisions: views(self.decisions@),
            source_file_count: self.source_file_count,
            success_count: self.success_count,
            timeout_count: self.timeout_count,
            included_file_count: self.included_file_count,
            omitted_file_count: self.omitted_file_count,
            error_file_count: self.error_file_count,
            input_chars: self.input_chars,
            output_chars: self.output_chars,
        }
    }
}

/// The diagnostics as warnings, in order.
pub open spec fn as_warnings(diagnostics: Seq<DiagnosticView>) -> Seq<RunDiagnosticRecordView> {
    diagnostics.map_values(
        |diagnostic: DiagnosticView| with_severity(DiagnosticSeverity::Warning, diagnostic),
    )
}

fn warnings_from(diagnostics: &Vec<Diagnostic>) -> (records: Vec<RunDiagnosticRecord>)
    ensures
        views(records@) == as_warnings(views(diagnostics@)),
{
    let mut records: Vec<RunDiagnosticRecord> = Vec::new();
    let mut i: usize = 0;
    while i < diagnostics.len()
        invariant
            i <= diagnostics.len(),
            views(records@) == as_warnings(views(diagnostics@)).take(i as int),
        decreases diagnostics.len() - i,
    {
        let ghost before = views(records@);
        let record = RunDiagnosticRecord {
            severity: DiagnosticSeverity::Warning,
            diagnostic: diagnostics[i].clone(),
        };
        records.push(record);
        assert(views(records@) =~= before.push(record@));
        i = i + 1;
        assert(views(records@) =~= as_warnings(views(diagnostics@)).take(i as int));
    }
    assert(as_warnings(views(diagnostics@)).take(i as int) =~= as_warnings(views(diagnostics@)));
    records
}

/// All diagnostics of a run, projected: those about discovery, about cache writes,
/// about parsers and about the end of the run.
pub open spec fn run_diagnostics(
    discovery: Seq<RunDiagnosticRecordView>,
    outputs: ParseOutputsView,
    terminal: Seq<RunDiagnosticRecordView>,
) -> Seq<RunDiagnosticRecordView> {
    projected(
        discovery + as_warnings(outputs.cache_write_warnings) + as_warnings(outputs.parse_warnings)
            + terminal,
    )
}

/// Some diagnostic is a warning.
pub open spec fn has_warning(records: Seq<RunDiagnosticRecordView>) -> bool {
    exists|i: int|
        0 <= i < records.len() && (#[trigger] records[i]).severity == DiagnosticSeverity::Warning
}

/// How a run ends, given its reported diagnostics: a run with a warning is not a
/// full success.
pub open spec fn settled_intent(
    intent: TerminalIntent,
    records: Seq<RunDiagnosticRecordView>,
) -> TerminalIntent {
    if intent == TerminalIntent::Success && has_warning(records) {
        TerminalIntent::Partial
    } else {
        intent
    }
}

/// Collects the diagnostics of a run and settles how it ends.
pub fn settle_run(
    discovery: Vec<RunDiagnosticRecord>,
    parse_outputs: &ParseOutputs,
    terminal: Vec<RunDiagnosticRecord>,
    intent: TerminalIntent,
) -> (settled: (TerminalIntent, Vec<RunDiagnosticRecord>))
    ensures
        ({
            let records = run_diagnostics(views(discovery@), parse_outputs@, views(terminal@));
            &&& views(settled.1@) == records
            &&& settled.0 == settled_intent(intent, records)
        }),
{
    let mut all: Vec<RunDiagnosticRecord> = discovery;
    let mut terminal: Vec<RunDiagnosticRecord> = terminal;
    let ghost first = all@;
    let ghost last = terminal@;
    let mut cache: Vec<RunDiagnosticRecord> = warnings_from(&parse_outputs.cache_write_warnings);
    let mut parse: Vec<RunDiagnosticRecord> = warnings_from(&parse_outputs.parse_warnings);
    let ghost second = cache@;
    let ghost third = parse@;
    all.append(&mut cache);
    all.append(&mut parse);
    all.append(&mut terminal);
    assert(views(first + second + third + last) =~= views(first) + views(second) + views(third)
        + views(last));
    let records: Vec<RunDiagnosticRecord> = project_warnings(all);
    let ghost projection = views(records@);
    let mut warned: bool = false;
    let mut i: usize = 0;
    while i < records.len()
        invariant
            i <= records.len(),
            projection == views(records@),
            warned == exists|j: int|
                0 <= j < i && (#[trigger] projection[j]).severity == DiagnosticSeverity::Warning,
        decreases records.len() - i,
    {
        assert(projection[i as int] == records@[i as int]@);
        if records[i].severity == DiagnosticSeverity::Warning {
            warned = true;
        }
        i = i + 1;
    }
    let settled: TerminalIntent = if intent == TerminalIntent::Success && warned {
        TerminalIntent::Partial
    } else {
        intent
    };
    (settled, records)
}

/// A run with a warning never ends as a full success.
pub proof fn law_warned_runs_are_not_successes(
    intent: TerminalIntent,
    records: Seq<RunDiagnosticRecordView>,
)
    requires
        has_warning(records),
    ensures
        settled_intent(intent, records) != TerminalIntent::Success,
{
}

/// Milliseconds that all stages of a run took together.
pub open spec fn total_duration(durations: StageDurations) -> u64 {
    saturated_sum(
        saturated_sum(
            saturated_sum(durations.discovery_ms as int, durations.cache_ms as int) as int,
            durations.parse_ms as int,
        ) as int,
        durations.compression_ms as int,
    )
}

/// The status that a context is committed with.
pub open spec fn context_status(intent: TerminalIntent) -> RunStatus {
    match intent {
        TerminalIntent::Success => RunStatus::Success,
        TerminalIntent::Partial => RunStatus::Partial,
        TerminalIntent::Error => RunStatus::Error,
    }
}

/// The context that a run commits: none when it ends with an error or when nothing
/// was rendered.
pub open spec fn committed_context(
    intent: TerminalIntent,
    rendered: RenderedContextView,
    profile_hash: Seq<char>,
    durations: StageDurations,
) -> Option<ContextRunRecordView> {
    if intent == TerminalIntent::Error || rendered.content.len() == 0 {
        None
    } else {
        Some(
            ContextRunRecordView {
                context_profile_hash: profile_hash,
                status: context_status(intent),
                final_context: rendered.content,
                context_sha256: content_sha256(rendered.content),
                summary: ContextSummary {
                    source_file_count: rendered.source_file_count,
                    success_count: rendered.success_count,
                    timeout_count: rendered.timeout_count,
                    included_file_count: rendered.included_file_count,
                    omitted_file_count: rendered.omitted_file_count,
                    error_file_count: rendered.error_file_count,
                    input_chars: rendered.input_chars,
                    output_chars: rendered.output_chars,
                    total_duration_ms: total_duration(durations),
                    discovery_duration_ms: durations.discovery_ms,
                    parse_duration_ms: durations.parse_ms,
                    compression_duration_ms: durations.compression_ms,
                },
                decisions: rendered.decisions,
            },
        )
    }
}

/// Forms the context that a run commits.
pub fn form_context(
    intent: TerminalIntent,
    rendered: RenderedContext,
    context_profile_hash: String,
    durations: StageDurations,
) -> (context: Option<ContextRunRecord>)
    ensures
        opt_view(context) == committed_context(
            intent,
            rendered@,
            context_profile_hash@,
            durations,
        ),
{
    let status: RunStatus = match intent {
        TerminalIntent::Success => RunStatus::Success,
        TerminalIntent::Partial => RunStatus::Partial,
        TerminalIntent::Error => {
            return None;
        },
    };
    if rendered.content.as_str().is_empty() {
        return None;
    }
    let total_duration_ms: u64 = durations.discovery_ms.saturating_add(
        durations.cache_ms,
    ).saturating_add(durations.parse_ms).saturating_add(durations.compression_ms);
    let context_sha256: String = content_hash(rendered.content.as_str());
    Some(
        ContextRunRecord {
            context_profile_hash,
            status,
            final_context: rendered.content,
            context_sha256,
            summary: ContextSummary {
                source_file_count: rendered.source_file_count,
                success_count: rendered.success_count,
                timeout_count: rendered.timeout_count,
                included_file_count: rendered.included_file_count,
                omitted_file_count: rendered.omitted_file_count,
                error_file_count: rendered.error_file_count,
                input_chars: rendered.input_chars,
                output_chars: rendered.output_chars,
                total_duration_ms,
                discovery_duration_ms: durations.discovery_ms,
                parse_duration_ms: durations.parse_ms,
                compression_duration_ms: durations.compression_ms,
            },
            decisions: rendered.decisions,
        },
    )
}

/// Puts the outcome of a run together. `metrics` is complete but for the time of
/// the outcome, the parse attempts are those it counted, and every discovered file
/// was prepared for the cache.
pub fn form_outcome(
    scan_run_id: u64,
    settled: (TerminalIntent, Vec<RunDiagnosticRecord>),
    inventory: Vec<InventoryRecord>,
    file_results: Vec<FileResultRecord>,
    parse_outputs: ParseOutputs,
    classifications: TextMap<PdfClassificationResult>,
    extension_metrics: Vec<ExtensionMetric>,
    rendered: RenderedContext,
    context_profile_hash: String,
    durations: StageDurations,
    metrics: ExecutionMetrics,
    now_ms: u64,
) -> (outcome: BudgetedScanOutcome)
    ensures
        outcome@ == (BudgetedScanOutcomeView {
            scan_run_id,
            terminal_intent: settled.0,
            inventory: views(inventory@),
            file_results: views(file_results@),
            parse_cache_receipts: parse_outputs@.parse_cache_receipts,
            classification_cache_receipts: parse_outputs@.classification_cache_receipts,
            classifications: map_views(classifications@),
            diagnostics: views(settled.1@),
            stage_metrics: stage_rows(
                metrics.discovery_observed_file_count,
                metrics.discovery_observed_file_count,
                metrics.parse_attempt_count,
                rendered@.decisions.len() as u64,
                durations,
            ),
            extension_metrics: views(extension_metrics@),
            context: committed_context(
                settled.0,
                rendered@,
                context_profile_hash@,
                durations,
            ),
            execution_metrics: ExecutionMetrics { deadline_precommit_elapsed_ms: now_ms, ..metrics },
        }),
{
    let (terminal_intent, diagnostics): (TerminalIntent, Vec<RunDiagnosticRecord>) = settled;
    let stage_metrics: Vec<StageMetric> = build_stage_metrics(
        metrics.discovery_observed_file_count,
        rendered.decisions.len() as u64,
        metrics.discovery_observed_file_count,
        metrics.parse_attempt_count,
        durations,
    );
    let context: Option<ContextRunRecord> = form_context(
        terminal_intent,
        rendered,
        context_profile_hash,
        durations,
    );
    let mut execution_metrics: ExecutionMetrics = metrics;
    execution_metrics.deadline_precommit_elapsed_ms = now_ms;
    let ParseOutputs { parse_cache_receipts, classification_cache_receipts, .. } = parse_outputs;
    BudgetedScanOutcome {
        scan_run_id,
        terminal_intent,
        inventory,
        file_results,
        parse_cache_receipts,
        classification_cache_receipts,
        classifications,
        diagnostics,
        stage_metrics,
        extension_metrics,
        context,
        execution_metrics,
    }
}

/// A run that ends with an error commits no context; one that does not, and that
/// rendered something, commits what it rendered under its hash.
pub proof fn law_error_runs_commit_no_context(
    intent: TerminalIntent,
    rendered: RenderedContextView,
    profile_hash: Seq<char>,
    durations: StageDurations,
)
    ensures
        intent == TerminalIntent::Error ==> committed_context(
            intent,
            rendered,
            profile_hash,
            durations,
        ) is None,
        committed_context(intent, rendered, profile_hash, durations) matches Some(context)
            ==> context.final_context == rendered.content && context.context_sha256
            == content_sha256(rendered.content) && context.status != RunStatus::Error,
{
}

/// A run has deadlines exactly where its whole time can be counted and leaves room for the
/// reserve of its end.
pub proof fn law_deadlines_are_given_where_there_is_time(now_ms: u64, total_deadline_ms: u64)
    ensures
        deadlines_of(now_ms, total_deadline_ms) is Ok <==> FINALIZATION_RESERVE_MS <= now_ms
            + total_deadline_ms <= u64::MAX,
{
}

/// Each stage of a run is told once, in the order of the stages, with what it worked on and
/// how long.
pub proof fn law_stages_are_told_in_order(
    discovered: u64,
    cached: u64,
    parsed: u64,
    rendered: u64,
    durations: StageDurations,
)
    ensures
        ({
            let rows = stage_rows(discovered, cached, parsed, rendered, durations);
            &&& rows.len() == 4
            &&& rows[0].stage == StageName::Discovery && rows[0].item_count == discovered
                && rows[0].duration_ms == durations.discovery_ms
            &&& rows[1].stage == StageName::Cache && rows[1].item_count == cached
                && rows[1].duration_ms == durations.cache_ms
            &&& rows[2].stage == StageName::Parse && rows[2].item_count == parsed
                && rows[2].duration_ms == durations.parse_ms
            &&& rows[3].stage == StageName::Context && rows[3].item_count == rendered
                && rows[3].duration_ms == durations.compression_ms
        }),
{
}

/// An entry that could not be read is a warning with its message that may be tried again;
/// its path is told where it is absolute.
pub proof fn law_unreadable_entries_are_warnings(issue: DiscoveryIssueView, is_absolute: bool)
    ensures
        ({
            let record = issue_warning(issue, is_absolute);
            &&& record.severity == DiagnosticSeverity::Warning
            &&& record.diagnostic.error_code == ErrorCode::DiscoveryEntryUnreadable
            &&& record.diagnostic.stage == DiagnosticStage::Discovery
            &&& record.diagnostic.retryable
            &&& issue.message.len() <= MAX_MESSAGE_CHARS ==> record.diagnostic.message
                == issue.message
            &&& is_absolute ==> record.diagnostic.file_path == issue.path
            &&& !is_absolute ==> record.diagnostic.file_path is None
        }),
{
}

proof fn lemma_tally_of_prefix(
    left: Seq<DiscoveredFileOutView>,
    right: Seq<DiscoveredFileOutView>,
    count: nat,
)
    requires
        count <= left.len(),
        count <= right.len(),
        forall|i: int| 0 <= i < count ==> left[i] == right[i],
    ensures
        guard_tally(left, count) == guard_tally(right, count),
    decreases count,
{
    if count > 0 {
        lemma_tally_of_prefix(left, right, (count - 1) as nat);
    }
}

/// The guards of the discovered files are counted by their kind: a file without a guard
/// counts as unavailable, one guarded by its content counts as hashed with its bytes, and
/// any other counts as neither.
pub proof fn law_guards_are_counted_by_kind(
    files: Seq<DiscoveredFileOutView>,
    file: DiscoveredFileOutView,
)
    ensures
        ({
            let before = guard_tally(files, files.len());
            let after = guard_tally(files.push(file), files.len() + 1);
            let unavailable = file.source_guard_kind == Some(
                kind_text(SourceGuardKind::Unavailable),
            );
            let hashed = file.source_guard_kind == Some(
                kind_text(SourceGuardKind::ContentSha256V1),
            );
            &&& after.0 == before.0 + if unavailable {
                1int
            } else {
                0
            }
            &&& after.1 == before.1 + if hashed {
                1int
            } else {
                0
            }
            &&& !hashed ==> after.2 == before.2
            &&& hashed && before.2 + file.size_bytes <= u64::MAX ==> after.2 == before.2
                + file.size_bytes
        }),
        guard_tally(Seq::empty(), 0) == (0int, 0int, 0u64),
{
    lemma_tally_of_prefix(files, files.push(file), files.len());
    assert(files.push(file)[files.len() as int] == file);
    if let Some(text) = file.source_guard_kind {
        law_kind_text_round_trip(SourceGuardKind::Unavailable, text);
        law_kind_text_round_trip(SourceGuardKind::ContentSha256V1, text);
    }
}

proof fn lemma_overrun(
    decisions: Seq<AdmissionDecisionView>,
    rendered: Map<Seq<char>, u64>,
    from: int,
)
    requires
        0 <= from <= decisions.len(),
    ensures
        overrun(decisions, rendered, from) is None <==> forall|i: int|
            from <= i < decisions.len() && (#[trigger] decisions[i]).action is Admit
                && rendered.contains_key(decisions[i].file_identity)
                ==> rendered[decisions[i].file_identity] <= decisions[i].reserved_chars,
        overrun(decisions, rendered, from) matches Some(path) ==> exists|i: int|
            from <= i < decisions.len() && (#[trigger] decisions[i]).relative_path == path
                && decisions[i].action is Admit && rendered.contains_key(
                decisions[i].file_identity,
            ) && rendered[decisions[i].file_identity] > decisions[i].reserved_chars,
    decreases decisions.len() - from,
{
    if from < decisions.len() {
        lemma_overrun(decisions, rendered, from + 1);
        let decision = decisions[from];
        assert(decision == decisions[from]);
    }
}

/// A context is refused exactly where an admitted file was rendered with more characters
/// than were reserved for it, and then names such a file.
pub proof fn law_sections_stay_within_their_budget(
    decisions: Seq<AdmissionDecisionView>,
    rendered: Map<Seq<char>, u64>,
)
    ensures
        overrun(decisions, rendered, 0) is None <==> forall|i: int|
            0 <= i < decisions.len() && (#[trigger] decisions[i]).action is Admit
                && rendered.contains_key(decisions[i].file_identity)
                ==> rendered[decisions[i].file_identity] <= decisions[i].reserved_chars,
        overrun(decisions, rendered, 0) matches Some(path) ==> exists|i: int|
            0 <= i < decisions.len() && (#[trigger] decisions[i]).relative_path == path
                && decisions[i].action is Admit && rendered.contains_key(
                decisions[i].file_identity,
            ) && rendered[decisions[i].file_identity] > decisions[i].reserved_chars,
{
    lemma_overrun(decisions, rendered, 0);
}

/// Only a success is taken back, and only for a warning; it becomes partial.
pub proof fn law_only_warned_successes_are_taken_back(
    intent: TerminalIntent,
    records: Seq<RunDiagnosticRecordView>,
)
    ensures
        ({
            let settled = settled_intent(intent, records);
            let warned = exists|i: int|
                0 <= i < records.len() && (#[trigger] records[i]).severity
                    == DiagnosticSeverity::Warning;
            &&& settled == TerminalIntent::Success <==> intent == TerminalIntent::Success
                && !warned
            &&& settled == TerminalIntent::Error <==> intent == TerminalIntent::Error
            &&& settled == TerminalIntent::Partial <==> intent == TerminalIntent::Partial || (
            intent == TerminalIntent::Success && warned)
        }),
{
}

/// The context that a run commits is the one that was rendered, with its hash, its counts
/// and its decisions, and it has the status that the run ends with; there is one exactly
/// where the run does not fail and something was rendered.
pub proof fn law_committed_contexts_are_the_rendered_ones(
    intent: TerminalIntent,
    rendered: RenderedContextView,
    profile_hash: Seq<char>,
    durations: StageDurations,
)
    ensures
        ({
            let committed = committed_context(intent, rendered, profile_hash, durations);
            &&& committed is Some <==> intent != TerminalIntent::Error && rendered.content.len()
                > 0
            &&& committed matches Some(context) ==> {
                &&& context.final_context == rendered.content
                &&& context.context_sha256 == content_sha256(context.final_context)
                &&& context.context_profile_hash == profile_hash
                &&& context.decisions == rendered.decisions
                &&& context.status == RunStatus::Success <==> intent == TerminalIntent::Success
                &&& context.status == RunStatus::Partial <==> intent == TerminalIntent::Partial
                &&& context.summary.source_file_count == rendered.source_file_count
                &&& context.summary.success_count == rendered.success_count
                &&& context.summary.timeout_count == rendered.timeout_count
                &&& context.summary.error_file_count == rendered.error_file_count
                &&& context.summary.included_file_count == rendered.included_file_count
                &&& context.summary.omitted_file_count == rendered.omitted_file_count
                &&& context.summary.input_chars == rendered.input_chars
                &&& context.summary.output_chars == rendered.output_chars
                &&& context.summary.discovery_duration_ms == durations.discovery_ms
                &&& context.summary.parse_duration_ms == durations.parse_ms
                &&& context.summary.compression_duration_ms == durations.compression_ms
                &&& durations.discovery_ms + durations.cache_ms + durations.parse_ms
                    + durations.compression_ms <= u64::MAX ==> context.summary.total_duration_ms
                    == durations.discovery_ms + durations.cache_ms + durations.parse_ms
                    + durations.compression_ms
            }
        }),
{
}

/// What the stages warned about is told as warnings, after what the discovery warned about,
/// as long as there is room for all.
pub proof fn law_warnings_of_the_stages_are_told(
    discovery: Seq<RunDiagnosticRecordView>,
    outputs: ParseOutputsView,
    terminal: Seq<RunDiagnosticRecordView>,
    warning: DiagnosticView,
)
    requires
        outputs.cache_write_warnings.contains(warning) || outputs.parse_warnings.contains(warning),
        discovery.len() + outputs.cache_write_warnings.len() + outputs.parse_warnings.len()
            + terminal.len() <= MAX_DETAIL_WARNINGS,
    ensures
        run_diagnostics(discovery, outputs, terminal).contains(
            RunDiagnosticRecordView {
                severity: DiagnosticSeverity::Warning,
                diagnostic: warning,
            },
        ),
{
    let all = discovery + as_warnings(outputs.cache_write_warnings) + as_warnings(
        outputs.parse_warnings,
    ) + terminal;
    let record = RunDiagnosticRecordView {
        severity: DiagnosticSeverity::Warning,
        diagnostic: warning,
    };
    if outputs.cache_write_warnings.contains(warning) {
        let i = choose|i: int|
            0 <= i < outputs.cache_write_warnings.len() && outputs.cache_write_warnings[i]
                == warning;
        let at = discovery.len() + i;
        assert(all[at] == record);
        law_projection_reports_what_was_recorded(all, at);
    } else {
        let i = choose|i: int|
            0 <= i < outputs.parse_warnings.len() && outputs.parse_warnings[i] == warning;
        let at = discovery.len() + outputs.cache_write_warnings.len() + i;
        assert(all[at] == record);
        law_projection_reports_what_was_recorded(all, at);
    }
}

/// A run that failed as a whole reports an error and no file, but keeps what it has
/// committed to the caches.
pub proof fn law_failed_outcomes_keep_their_receipts(
    scan_run_id: u64,
    diagnostics: Seq<RunDiagnosticRecordView>,
    outputs: ParseOutputsView,
    metrics: ExecutionMetrics,
)
    ensures
        ({
            let outcome = error_outcome(scan_run_id, diagnostics, outputs, metrics);
            &&& outcome.scan_run_id == scan_run_id
            &&& outcome.terminal_intent == TerminalIntent::Error
            &&& outcome.parse_cache_receipts == outputs.parse_cache_receipts
            &&& outcome.classification_cache_receipts == outputs.classification_cache_receipts
            &&& outcome.diagnostics == diagnostics
            &&& outcome.execution_metrics == metrics
            &&& outcome.context is None && outcome.file_results.len() == 0
                && outcome.inventory.len() == 0
        }),
{
}

/// What is told as warnings is each diagnostic, in order, as a warning.
pub proof fn law_warnings_are_told_in_order(diagnostics: Seq<DiagnosticView>, at: int)
    requires
        0 <= at < diagnostics.len(),
    ensures
        as_warnings(diagnostics).len() == diagnostics.len(),
        as_warnings(diagnostics)[at].diagnostic == diagnostics[at],
        as_warnings(diagnostics)[at].severity == DiagnosticSeverity::Warning,
{
}

} // verus!
