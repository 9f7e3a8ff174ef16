//! The course of a whole run.
use crate::contract::{
    clone_all, views, DiagnosticSeverity, DiagnosticStage, DiagnosticView, DiscoveredFileOut,
    DiscoveredFileOutView, DiscoveryIssue, DiscoveryIssueView, ErrorCode, ExtensionMetric,
    ExtensionMetricView, ParseStatus, RunDiagnosticRecord, RunDiagnosticRecordView, RunStatus,
};
use crate::ordered::TextSet;
use crate::profile::{NormalizedScannerProfileV2, NormalizedScannerProfileV2View};
use crate::scheduler::classify::{ClassificationRun, ClassificationRunView};
use crate::scheduler::outcome::{
    as_warnings, build_inventory, ceiling_outcome, check_start, committed_context, context_error,
    discovery_warnings, enforce_rendered_within_reserved, error_outcome, form_outcome, guard_tally,
    has_warning, internal_error_outcome, inventory_fault, inventory_row, issue_warning, overrun,
    overrun_failure, repeated, reserved_chars, reserved_fits, resolve_classifier_build,
    run_diagnostics, settle_run, settled_intent, source_guard_metrics, stage_rows, too_many_files,
    BudgetedScanOutcome, BudgetedScanOutcomeView, RenderedContext, RenderedContextView,
    ScheduledRunInput, ScheduledRunInputView, StageDurations,
};
use crate::scheduler::parse::{EngineIdentity, EngineIdentityView, ParseRun, ParseRunView};
use crate::scheduler::plan::{
    candidate_count, candidate_of, charged_pages_total, classification_count,
    classifier_error_lines, count_admissions, count_plans, error_lines, file_of, final_action,
    goes_to_admission, is_admitted, is_classified, is_extraction, law_decisions_settle_the_action,
    plan_candidates, plans_for_admission, reserved_total, AdmissionCounts, AdmissionDecision,
    AdmissionDecisionView, ClassifiedPlan, ClassifiedPlanView, FileSnapshot,
    PdfClassificationResultView, PlanCandidate, PlanCounts,
};
use crate::scheduler::ports::{
    absolute_told, admission_told, budget_told, budget_view, extensions_told, extensions_view,
    inventory_told, known_view, path_view, plans_told, profile_told, relative_path_told,
    render_told, rendered_view, time_told, touch_told, CachePort, Clock, ContextPort, GuardVerifier,
    ParserPort, PdfClassifierPort, RequestIds,
};
use crate::scheduler::records::{
    internal_failure, no_metrics, no_outputs, CachePortError, ContextFileEvidence, ExecutionMetrics,
    ParseOutputs, ParseOutputsView, SchedulerFailure, TerminalIntent, MAX_MESSAGE_CHARS,
    MAX_SOURCE_FILES_PER_RUN,
};
use crate::scheduler::results::{
    all_evidence, all_results, build_evidence, build_file_results,
    law_parsed_files_are_reported_as_parsed, law_reports_are_in_plan_order,
    law_reports_name_their_file, missing_file, path_views, result_of,
};
use crate::scheduler::stage::{
    decided_once, law_parse_receipts_agree_with_the_results, parse_stage_view, run_classifications,
    run_parses, same_parse_counts, stage_classified, stage_parsed, stage_view, ClassificationTerms,
    ParseTerms, Surroundings,
};
use crate::scheduler::warnings::{
    law_error_runs_report_an_error, law_projection_begins_with_the_warnings,
    law_projection_ends_with_the_errors, intent_of, projected, run_has_failure,
    terminal_diagnostics, terminal_state, with_severity, RenderedCounts,
};
use crate::source_guard::saturated_sum;
use crate::store::cache::{classifier_profile_digest, classifier_profile_hash};
use crate::store::inventory::{FileResultRecord, InventoryRecord, InventoryRecordView};
use crate::text::{capped, char_count};
use vstd::prelude::*;

verus! {

/// Milliseconds from one time to another.
pub open spec fn elapsed(start_ms: u64, end_ms: u64) -> u64 {
    if end_ms >= start_ms {
        (end_ms - start_ms) as u64
    } else {
        0
    }
}

/// What a run has when all its files are parsed.
#[verifier::ext_equal]
pub struct ParsedRun {
    pub files: Seq<DiscoveredFileOutView>,
    /// The warnings about discovery.
    pub told: Seq<RunDiagnosticRecordView>,
    pub inventory: Seq<InventoryRecordView>,
    pub plans: Seq<ClassifiedPlanView>,
    pub admission: Seq<AdmissionDecisionView>,
    /// The characters of the fixed sections.
    pub base_chars: u64,
    pub classification: ClassificationRunView,
    pub parse: ParseRunView,
    pub cache_ms: u64,
    pub parse_ms: u64,
}

/// What is heard at the end of a run: the path of each planned file, the context and how
/// long it took, the results by extension, and the time.
#[verifier::ext_equal]
pub struct EndHeard {
    pub paths: Seq<Result<Seq<char>, Seq<char>>>,
    pub render_start_ms: u64,
    pub rendered: Result<RenderedContextView, Seq<char>>,
    pub render_end_ms: u64,
    pub extensions: Result<Seq<ExtensionMetricView>, Seq<char>>,
    /// The time at which the use of cache entries was noted.
    pub touch_ms: u64,
    pub end_ms: u64,
}

/// What is heard at the end of a run was told: the path of each planned file, the context
/// rendered from the evidence, the results by extension, and the times, each as far as the
/// end comes to it. The use of the cache entries that were hit was noted.
pub open spec fn end_told<X: ContextPort, S: CachePort, K: Clock>(
    context: &X,
    cache: &S,
    clock: &K,
    input: ScheduledRunInputView,
    run: ParsedRun,
    heard: EndHeard,
) -> bool {
    &&& plan_paths_told(context, run.plans, run.files, heard.paths)
    &&& missing_file(run.plans, run.files, heard.paths, 0) is None ==> {
        &&& time_told(clock, heard.render_start_ms)
        &&& render_told(
            context,
            all_evidence(
                run.plans,
                run.files,
                heard.paths,
                run.admission,
                run.classification.results,
                run.classification.runtime_not_parsed,
                run.parse.outputs,
            ),
            heard.rendered,
        )
        &&& heard.rendered matches Ok(rendered) ==> {
            &&& time_told(clock, heard.render_end_ms)
            &&& overrun(run.admission, rendered.rendered_by_identity, 0) is None
                && reserved_total(run.admission, run.admission.len()) <= u64::MAX ==> {
                &&& extensions_told(
                    context,
                    run.inventory,
                    all_results(
                        run.plans,
                        run.files,
                        heard.paths,
                        run.admission,
                        run.classification.results,
                        run.classification.runtime_not_parsed,
                        run.parse.outputs,
                        input.rejected_profile_hash,
                    ),
                    heard.extensions,
                )
                &&& heard.extensions is Ok ==> {
                    &&& time_told(clock, heard.touch_ms)
                    &&& touch_told(
                        cache,
                        heard.touch_ms,
                        run.parse.outputs.parse_fresh_hits,
                        run.classification.fresh_hits,
                    )
                    &&& time_told(clock, heard.end_ms)
                }
            }
        }
    }
}

/// The path of each planned file was told; a file that was not discovered has an empty one.
pub open spec fn plan_paths_told<X: ContextPort>(
    context: &X,
    plans: Seq<ClassifiedPlanView>,
    files: Seq<DiscoveredFileOutView>,
    paths: Seq<Result<Seq<char>, Seq<char>>>,
) -> bool {
    &&& paths.len() == plans.len()
    &&& forall|i: int|
        0 <= i < paths.len() ==> match file_of(files, plans[i].file_identity) {
            Some(file) => relative_path_told(context, file.path, #[trigger] paths[i]),
            None => paths[i] == Ok::<Seq<char>, Seq<char>>(Seq::empty()),
        }
}

/// The counts of a context that decide how a run ends.
pub open spec fn counts_of(rendered: RenderedContextView) -> RenderedCounts {
    RenderedCounts {
        error_file_count: rendered.error_file_count,
        timeout_count: rendered.timeout_count,
        included_file_count: rendered.included_file_count,
    }
}

/// The outcome of a run whose context could not be formed.
pub open spec fn context_failed(
    input: ScheduledRunInputView,
    run: ParsedRun,
    error_code: ErrorCode,
    message: Seq<char>,
) -> BudgetedScanOutcomeView {
    error_outcome(
        input.scan_run_id,
        projected(run.told).push(
            with_severity(DiagnosticSeverity::Error, context_error(error_code, message)),
        ),
        run.parse.outputs,
        run.parse.metrics,
    )
}

/// The outcome of a run whose context was formed.
pub open spec fn context_formed(
    input: ScheduledRunInputView,
    run: ParsedRun,
    rendered: RenderedContextView,
    extensions: Seq<ExtensionMetricView>,
    heard: EndHeard,
) -> BudgetedScanOutcomeView {
    let metrics = ExecutionMetrics {
        reserved_chars: saturated_sum(
            run.base_chars as int,
            reserved_total(run.admission, run.admission.len()),
        ),
        rendered_chars: rendered.content.len() as u64,
        ..run.parse.metrics
    };
    let results = all_results(
        run.plans,
        run.files,
        heard.paths,
        run.admission,
        run.classification.results,
        run.classification.runtime_not_parsed,
        run.parse.outputs,
        input.rejected_profile_hash,
    );
    let has_failure = run_has_failure(
        counts_of(rendered),
        run.classification.runtime_not_parsed,
        run.parse.outputs.runtime_not_parsed,
        metrics.stage_deadline_exhausted_count,
    );
    let records = run_diagnostics(
        run.told,
        run.parse.outputs,
        terminal_diagnostics(
            counts_of(rendered),
            results,
            has_failure,
            metrics.stage_deadline_exhausted_count,
        ),
    );
    let intent = settled_intent(intent_of(has_failure, counts_of(rendered)), records);
    let durations = StageDurations {
        discovery_ms: input.discovery_duration_ms,
        cache_ms: run.cache_ms,
        parse_ms: run.parse_ms,
        compression_ms: elapsed(heard.render_start_ms, heard.render_end_ms),
    };
    BudgetedScanOutcomeView {
        scan_run_id: input.scan_run_id,
        terminal_intent: intent,
        inventory: run.inventory,
        file_results: results,
        parse_cache_receipts: run.parse.outputs.parse_cache_receipts,
        classification_cache_receipts: run.parse.outputs.classification_cache_receipts,
        classifications: run.classification.results,
        diagnostics: records,
        stage_metrics: stage_rows(
            metrics.discovery_observed_file_count,
            metrics.discovery_observed_file_count,
            metrics.parse_attempt_count,
            rendered.decisions.len() as u64,
            durations,
        ),
        extension_metrics: extensions,
        context: committed_context(intent, rendered, input.context_profile_hash, durations),
        execution_metrics: ExecutionMetrics {
            deadline_precommit_elapsed_ms: heard.end_ms,
            ..metrics
        },
    }
}

/// How a run ends whose files are parsed.
pub open spec fn concluded(
    input: ScheduledRunInputView,
    run: ParsedRun,
    heard: EndHeard,
) -> Result<BudgetedScanOutcomeView, DiagnosticView> {
    if missing_file(run.plans, run.files, heard.paths, 0) is Some {
        Err(missing_file(run.plans, run.files, heard.paths, 0)->0)
    } else {
        match heard.rendered {
            Err(message) => Ok(
                context_failed(input, run, ErrorCode::BudgetModelMismatch, message),
            ),
            Ok(rendered) => match overrun(run.admission, rendered.rendered_by_identity, 0) {
                Some(path) => Ok(
                    context_failed(
                        input,
                        run,
                        overrun_failure(path).error_code,
                        overrun_failure(path).message,
                    ),
                ),
                None => if reserved_total(run.admission, run.admission.len()) > u64::MAX {
                    Err(internal_failure("reserved characters cannot be counted"@))
                } else {
                    match heard.extensions {
                        Err(message) => Err(internal_failure(message)),
                        Ok(extensions) => Ok(
                            context_formed(input, run, rendered, extensions, heard),
                        ),
                    }
                },
            },
        }
    }
}

/// What an outcome or a failure says.
pub open spec fn run_view(outcome: Result<BudgetedScanOutcome, SchedulerFailure>) -> Result<
    BudgetedScanOutcomeView,
    DiagnosticView,
> {
    match outcome {
        Ok(formed) => Ok(formed@),
        Err(failure) => Err(failure.diagnostic@),
    }
}

fn ask_plan_paths<X: ContextPort>(
    classified: &Vec<ClassifiedPlan>,
    snapshot: &FileSnapshot<'_>,
    context: &X,
) -> (paths: Vec<Result<String, String>>)
    ensures
        paths@.len() == classified@.len(),
        plan_paths_told(
            context,
            views(classified@),
            snapshot.files(),
            path_views(paths@),
        ),
{
    let mut paths: Vec<Result<String, String>> = Vec::new();
    let ghost plans = views(classified@);
    let mut i: usize = 0;
    while i < classified.len()
        invariant
            i <= classified.len(),
            plans == views(classified@),
            paths@.len() == i,
            forall|j: int|
                0 <= j < i ==> match file_of(snapshot.files(), plans[j].file_identity) {
                    Some(file) => relative_path_told(
                        context,
                        file.path,
                        path_view(#[trigger] paths@[j]),
                    ),
                    None => path_view(paths@[j]) == Ok::<Seq<char>, Seq<char>>(Seq::empty()),
                },
        decreases classified.len() - i,
    {
        assert(plans[i as int] == classified@[i as int]@);
        let ghost so_far = paths@;
        let path: Result<String, String> = match snapshot.get(
            classified[i].file_identity.as_str(),
        ) {
            Some(file) => {
                let answer: Result<String, String> = context.relative_path(file.path.as_str());
                assert(relative_path_told(context, file@.path, path_view(answer)));
                answer
            },
            None => Ok(String::new()),
        };
        paths.push(path);
        assert forall|j: int| 0 <= j < i + 1 implies match file_of(
            snapshot.files(),
            plans[j].file_identity,
        ) {
            Some(file) => relative_path_told(context, file.path, path_view(#[trigger] paths@[j])),
            None => path_view(paths@[j]) == Ok::<Seq<char>, Seq<char>>(Seq::empty()),
        } by {
            if j < i {
                assert(paths@[j] == so_far[j]);
            }
        }
        i = i + 1;
    }
    proof {
        let told = path_views(paths@);
        assert forall|j: int| 0 <= j < told.len() implies match file_of(
            snapshot.files(),
            plans[j].file_identity,
        ) {
            Some(file) => relative_path_told(context, file.path, #[trigger] told[j]),
            None => told[j] == Ok::<Seq<char>, Seq<char>>(Seq::empty()),
        } by {
            assert(told[j] == path_view(paths@[j]));
        }
    }
    paths
}

/// Ends a run whose files are parsed: renders its context, holds it against what was
/// reserved, records how every file fared, and settles how the run ends.
fn conclude<X: ContextPort, S: CachePort, K: Clock>(
    input: &ScheduledRunInput,
    snapshot: &FileSnapshot<'_>,
    diagnostics: Vec<RunDiagnosticRecord>,
    inventory: Vec<InventoryRecord>,
    classified: &Vec<ClassifiedPlan>,
    admission: &Vec<AdmissionDecision>,
    base_chars: u64,
    classification: ClassificationRun,
    parse: ParseRun,
    cache_ms: u64,
    parse_ms: u64,
    context: &X,
    cache: &S,
    clock: &K,
) -> (ended: (Result<BudgetedScanOutcome, SchedulerFailure>, Ghost<EndHeard>))
    ensures
        ({
            let run = ParsedRun {
                files: snapshot.files(),
                told: views(diagnostics@),
                inventory: views(inventory@),
                plans: views(classified@),
                admission: views(admission@),
                base_chars,
                classification: classification@,
                parse: parse@,
                cache_ms,
                parse_ms,
            };
            &&& end_told(context, cache, clock, input@, run, ended.1@)
            &&& run_view(ended.0) == concluded(input@, run, ended.1@)
        }),
{
    let ghost run = ParsedRun {
        files: snapshot.files(),
        told: views(diagnostics@),
        inventory: views(inventory@),
        plans: views(classified@),
        admission: views(admission@),
        base_chars,
        classification: classification@,
        parse: parse@,
        cache_ms,
        parse_ms,
    };
    let paths: Vec<Result<String, String>> = ask_plan_paths(classified, snapshot, context);
    let ghost mut heard = EndHeard {
        paths: path_views(paths@),
        render_start_ms: 0,
        rendered: Err(Seq::empty()),
        render_end_ms: 0,
        extensions: Err(Seq::empty()),
        touch_ms: 0,
        end_ms: 0,
    };
    let evidence: Vec<ContextFileEvidence> = match build_evidence(
        classified,
        snapshot,
        &paths,
        admission,
        &classification.results,
        &classification.runtime_not_parsed,
        &parse.outputs,
    ) {
        Err(failure) => {
            return (Err(failure), Ghost(heard));
        },
        Ok(evidence) => evidence,
    };
    let render_start_ms: u64 = clock.now_ms();
    let ghost items = views(evidence@);
    let answer: Result<RenderedContext, String> = context.render(evidence);
    assert(render_told(context, items, rendered_view(answer)));
    let rendered: RenderedContext = match answer {
        Err(message) => {
            proof {
                heard = EndHeard { render_start_ms, rendered: Err(message@), ..heard };
            }
            return (
                Ok(
                    internal_error_outcome(
                        input.scan_run_id,
                        parse.metrics,
                        diagnostics,
                        parse.outputs,
                        ErrorCode::BudgetModelMismatch,
                        message,
                    ),
                ),
                Ghost(heard),
            );
        },
        Ok(rendered) => rendered,
    };
    let render_end_ms: u64 = clock.now_ms();
    proof {
        heard = EndHeard { render_start_ms, rendered: Ok(rendered@), render_end_ms, ..heard };
    }
    if let Err(failure) = enforce_rendered_within_reserved(
        &rendered.rendered_by_identity,
        admission,
    ) {
        return (
            Ok(
                internal_error_outcome(
                    input.scan_run_id,
                    parse.metrics,
                    diagnostics,
                    parse.outputs,
                    failure.diagnostic.error_code,
                    failure.diagnostic.message,
                ),
            ),
            Ghost(heard),
        );
    }
    if !reserved_fits(admission) {
        return (
            Err(SchedulerFailure::internal("reserved characters cannot be counted")),
            Ghost(heard),
        );
    }
    let mut metrics: ExecutionMetrics = parse.metrics;
    metrics.reserved_chars = reserved_chars(base_chars, admission);
    metrics.rendered_chars = char_count(rendered.content.as_str()) as u64;
    let file_results: Vec<FileResultRecord> = match build_file_results(
        classified,
        snapshot,
        &paths,
        admission,
        &classification.results,
        &parse.outputs,
        &classification.runtime_not_parsed,
        input.rejected_profile_hash.as_str(),
    ) {
        Err(failure) => {
            return (Err(failure), Ghost(heard));
        },
        Ok(records) => records,
    };
    let (intent, terminal): (TerminalIntent, Vec<RunDiagnosticRecord>) = terminal_state(
        RenderedCounts {
            error_file_count: rendered.error_file_count,
            timeout_count: rendered.timeout_count,
            included_file_count: rendered.included_file_count,
        },
        &file_results,
        &classification.runtime_not_parsed,
        &parse.outputs.runtime_not_parsed,
        metrics.stage_deadline_exhausted_count,
    );
    let settled: (TerminalIntent, Vec<RunDiagnosticRecord>) = settle_run(
        diagnostics,
        &parse.outputs,
        terminal,
        intent,
    );
    let summed: Result<Vec<ExtensionMetric>, String> = context.extension_metrics(
        &inventory,
        &file_results,
    );
    assert(extensions_told(
        context,
        views(inventory@),
        views(file_results@),
        extensions_view(summed),
    ));
    let extension_metrics: Vec<ExtensionMetric> = match summed {
        Err(message) => {
            proof {
                heard = EndHeard { extensions: Err(message@), ..heard };
            }
            return (Err(SchedulerFailure::internal(message.as_str())), Ghost(heard));
        },
        Ok(rows) => rows,
    };
    let touch_ms: u64 = clock.now_ms();
    let _touched: Result<(), CachePortError> = cache.touch_access(
        touch_ms,
        &parse.outputs.parse_fresh_hits,
        &classification.fresh_hits,
    );
    assert(touch_told(
        cache,
        touch_ms,
        run.parse.outputs.parse_fresh_hits,
        run.classification.fresh_hits,
    ));
    let end_ms: u64 = clock.now_ms();
    proof {
        heard = EndHeard {
            extensions: Ok(views(extension_metrics@)),
            touch_ms,
            end_ms,
            ..heard
        };
    }
    let outcome: BudgetedScanOutcome = form_outcome(
        input.scan_run_id,
        settled,
        inventory,
        file_results,
        parse.outputs,
        classification.results,
        extension_metrics,
        rendered,
        input.context_profile_hash.clone(),
        StageDurations {
            discovery_ms: input.discovery_duration_ms,
            cache_ms,
            parse_ms,
            compression_ms: render_end_ms.saturating_sub(render_start_ms),
        },
        metrics,
        end_ms,
    );
    (Ok(outcome), Ghost(heard))
}

/// What is heard in the course of a run, up to its end.
#[verifier::ext_equal]
pub struct RunHeard {
    pub start_ms: u64,
    pub ceiling_ms: u64,
    /// Whether the path of each entry that could not be read is absolute.
    pub absolute: Seq<bool>,
    /// The relative path of each discovered file.
    pub paths: Seq<Result<Seq<char>, Seq<char>>>,
    pub cache_start_ms: u64,
    pub known: Result<Set<Seq<char>>, CachePortError>,
    pub cache_end_ms: u64,
    pub plans: Seq<ClassifiedPlanView>,
    pub accepted: Result<(), String>,
    pub classified: Result<ClassificationRunView, DiagnosticView>,
    pub budget: Result<u64, Seq<char>>,
    pub admission: Seq<AdmissionDecisionView>,
    pub parse_start_ms: u64,
    pub parsed: Result<ParseRunView, DiagnosticView>,
    pub parse_end_ms: u64,
    pub end: EndHeard,
}

/// The warnings about the entries that could not be read.
pub open spec fn warnings_told(
    issues: Seq<DiscoveryIssueView>,
    absolute: Seq<bool>,
) -> Seq<RunDiagnosticRecordView> {
    Seq::new(issues.len(), |i: int| issue_warning(issues[i], absolute[i]))
}

/// The inventory of a run.
pub open spec fn inventory_rows(
    files: Seq<DiscoveredFileOutView>,
    paths: Seq<Result<Seq<char>, Seq<char>>>,
) -> Seq<InventoryRecordView> {
    Seq::new(files.len(), |i: int| inventory_row(files[i], paths[i])->Ok_0)
}

/// The counts of a run whose files are planned.
pub open spec fn planned_metrics(
    files: Seq<DiscoveredFileOutView>,
    plans: Seq<ClassifiedPlanView>,
) -> ExecutionMetrics {
    let tally = guard_tally(files, files.len());
    ExecutionMetrics {
        discovery_observed_file_count: files.len() as u64,
        source_guard_unavailable_count: tally.0 as u64,
        source_guard_content_hash_file_count: tally.1 as u64,
        source_guard_bytes_read: tally.2,
        candidate_file_count: candidate_count(plans) as u64,
        classification_slot_count: classification_count(plans) as u64,
        nominal_charged_pages_total: charged_pages_total(plans, plans.len()),
        ..no_metrics()
    }
}

/// The counts of a run whose files are admitted.
pub open spec fn admitted_metrics(
    classification: ClassificationRunView,
    admission: Seq<AdmissionDecisionView>,
) -> ExecutionMetrics {
    ExecutionMetrics {
        admitted_file_count: admission.filter(
            |decision: AdmissionDecisionView| is_admitted(decision.action),
        ).len() as u64,
        extraction_slot_count: admission.filter(
            |decision: AdmissionDecisionView| is_extraction(decision, classification.results),
        ).len() as u64,
        ..classification.metrics
    }
}

/// The sessions that work at the same time: at least one.
pub open spec fn concurrency_of(profile: NormalizedScannerProfileV2View) -> int {
    if profile.session_concurrency < 1 {
        1
    } else if profile.session_concurrency > usize::MAX {
        usize::MAX as int
    } else {
        profile.session_concurrency as int
    }
}

/// What the classifications of a run are taken up with.
pub open spec fn classification_terms(
    input: ScheduledRunInputView,
    known: Set<Seq<char>>,
    build: Seq<char>,
) -> ClassificationTerms {
    ClassificationTerms {
        files: input.discovery,
        known,
        profile: input.profile,
        profile_hash: classifier_profile_digest(input.profile),
        build,
        concurrency: concurrency_of(input.profile),
        work_deadline_ms: input.work_deadline_ms,
    }
}

/// What the parses of a run are taken up with.
pub open spec fn parse_terms(
    input: ScheduledRunInputView,
    known: Set<Seq<char>>,
    classification: ClassificationRunView,
) -> ParseTerms {
    ParseTerms {
        files: input.discovery,
        known,
        cut_off: classification.runtime_not_parsed,
        classifications: classification.results,
        execution: input.profile.execution,
        workers: input.workers,
        engine: EngineIdentityView { version: input.engine_version, build: input.engine_build },
        concurrency: concurrency_of(input.profile),
        work_deadline_ms: input.work_deadline_ms,
    }
}

/// The build of the classifier; none where it has to be known and is not.
pub open spec fn build_of(input: ScheduledRunInputView, plans: Seq<ClassifiedPlanView>) -> Option<
    Seq<char>,
> {
    match input.workers.classifier_build {
        Some(build) => Some(build),
        None => if classification_count(plans) > 0 {
            None
        } else {
            Some(repeated('0', 64))
        },
    }
}

/// The failure of a run that has to classify and does not know its classifier.
pub open spec fn classifier_unknown() -> DiagnosticView {
    DiagnosticView {
        error_code: ErrorCode::WorkerHandshakeFailed,
        message: capped(
            "classifier build is required when PDFs are classified"@,
            MAX_MESSAGE_CHARS as int,
        ),
        retryable: false,
        stage: DiagnosticStage::Process,
        file_path: None,
        backend: None,
    }
}

/// What a run has to report of its cache when its files are classified: the entries of
/// classifications that were committed.
pub open spec fn classified_outputs(classification: ClassificationRunView) -> ParseOutputsView {
    ParseOutputsView { classification_cache_receipts: classification.receipts, ..no_outputs() }
}

/// The parses of a run, with the committed cache entries of its classifications.
pub open spec fn with_receipts(
    parse: ParseRunView,
    classification: ClassificationRunView,
) -> ParseRunView {
    ParseRunView {
        outputs: ParseOutputsView {
            classification_cache_receipts: classification.receipts,
            ..parse.outputs
        },
        ..parse
    }
}

/// The outcome of a run whose fixed sections do not fit. What was cached by then stays
/// reported.
pub open spec fn fixed_sections_failed(
    input: ScheduledRunInputView,
    classification: ClassificationRunView,
    told: Seq<RunDiagnosticRecordView>,
    message: Seq<char>,
) -> BudgetedScanOutcomeView {
    error_outcome(
        input.scan_run_id,
        projected(told).push(
            with_severity(
                DiagnosticSeverity::Error,
                context_error(ErrorCode::ContextFixedSectionsOverBudget, message),
            ),
        ),
        classified_outputs(classification),
        classification.metrics,
    )
}

/// The outcome of a run with too many files.
pub open spec fn over_ceiling(input: ScheduledRunInputView, now_ms: u64) -> BudgetedScanOutcomeView {
    error_outcome(
        input.scan_run_id,
        seq![
            with_severity(
                DiagnosticSeverity::Error,
                too_many_files(input.discovery.len() as u64),
            ),
        ],
        no_outputs(),
        ExecutionMetrics {
            discovery_observed_file_count: (MAX_SOURCE_FILES_PER_RUN + 1) as u64,
            deadline_precommit_elapsed_ms: now_ms,
            ..no_metrics()
        },
    )
}

/// What a run has when all its files are parsed.
pub open spec fn parsed_run(
    input: ScheduledRunInputView,
    heard: RunHeard,
    base_chars: u64,
    classification: ClassificationRunView,
    parse: ParseRunView,
) -> ParsedRun {
    ParsedRun {
        files: input.discovery,
        told: warnings_told(input.discovery_issues, heard.absolute),
        inventory: inventory_rows(input.discovery, heard.paths),
        plans: heard.plans,
        admission: heard.admission,
        base_chars,
        classification,
        parse: with_receipts(parse, classification),
        cache_ms: elapsed(heard.cache_start_ms, heard.cache_end_ms),
        parse_ms: elapsed(heard.parse_start_ms, heard.parse_end_ms),
    }
}

/// The course of a run whose files are classified.
pub open spec fn course_of_admission(
    input: ScheduledRunInputView,
    classification: ClassificationRunView,
    heard: RunHeard,
) -> Result<BudgetedScanOutcomeView, DiagnosticView> {
    match heard.budget {
        Err(message) => Ok(
            fixed_sections_failed(
                input,
                classification,
                warnings_told(input.discovery_issues, heard.absolute),
                message,
            ),
        ),
        Ok(base_chars) => match heard.parsed {
            Err(failure) => Err(failure),
            Ok(parse) => concluded(
                input,
                parsed_run(input, heard, base_chars, classification, parse),
                heard.end,
            ),
        },
    }
}

/// The course of a run whose files are planned.
pub open spec fn course_of_plans(input: ScheduledRunInputView, heard: RunHeard) -> Result<
    BudgetedScanOutcomeView,
    DiagnosticView,
> {
    match heard.accepted {
        Err(message) => Err(internal_failure(message@)),
        Ok(_) => if build_of(input, heard.plans) is None {
            Err(classifier_unknown())
        } else {
            match heard.classified {
                Err(failure) => Err(failure),
                Ok(classification) => course_of_admission(input, classification, heard),
            }
        },
    }
}

/// The whole course of a run.
pub open spec fn course(input: ScheduledRunInputView, heard: RunHeard) -> Result<
    BudgetedScanOutcomeView,
    DiagnosticView,
> {
    if heard.start_ms >= input.absolute_deadline_ms {
        Err(internal_failure("absolute deadline already exhausted before execution"@))
    } else if input.discovery.len() > MAX_SOURCE_FILES_PER_RUN {
        Ok(over_ceiling(input, heard.ceiling_ms))
    } else {
        match inventory_fault(input.discovery, heard.paths, 0) {
            Some(message) => Err(internal_failure(message)),
            None => match heard.known {
                Err(error) => Err(error.diagnostic_view(DiagnosticStage::Cache)),
                Ok(_) => course_of_plans(input, heard),
            },
        }
    }
}

/// The classifications of the run are reached.
pub open spec fn comes_to_classify(input: ScheduledRunInputView, heard: RunHeard) -> bool {
    &&& heard.start_ms < input.absolute_deadline_ms
    &&& input.discovery.len() <= MAX_SOURCE_FILES_PER_RUN
    &&& inventory_fault(input.discovery, heard.paths, 0) is None
    &&& heard.known is Ok
    &&& heard.accepted is Ok
    &&& build_of(input, heard.plans) is Some
}

/// The parses of the run are reached.
pub open spec fn comes_to_parse(input: ScheduledRunInputView, heard: RunHeard) -> bool {
    &&& comes_to_classify(input, heard)
    &&& heard.classified is Ok
    &&& heard.budget is Ok
}

/// Whether the path of each entry that could not be read is absolute was told.
pub open spec fn entries_told<X: ContextPort>(
    context: &X,
    issues: Seq<DiscoveryIssueView>,
    absolute: Seq<bool>,
) -> bool {
    &&& absolute.len() == issues.len()
    &&& forall|i: int|
        0 <= i < absolute.len() ==> absolute_told(context, issues[i].path, #[trigger] absolute[i])
}

/// The relative path of each discovered file was told.
pub open spec fn paths_told<X: ContextPort>(
    context: &X,
    files: Seq<DiscoveredFileOutView>,
    paths: Seq<Result<Seq<char>, Seq<char>>>,
) -> bool {
    &&& paths.len() == files.len()
    &&& forall|i: int|
        0 <= i < paths.len() ==> relative_path_told(context, files[i].path, #[trigger] paths[i])
}

fn ask_absolute<X: ContextPort>(issues: &Vec<DiscoveryIssue>, context: &X) -> (absolute: Vec<bool>)
    ensures
        absolute@.len() == issues@.len(),
        entries_told(context, views(issues@), absolute@),
{
    let mut absolute: Vec<bool> = Vec::new();
    let ghost entries = views(issues@);
    let mut i: usize = 0;
    while i < issues.len()
        invariant
            i <= issues.len(),
            entries == views(issues@),
            absolute@.len() == i,
            forall|j: int|
                0 <= j < i ==> absolute_told(context, entries[j].path, #[trigger] absolute@[j]),
        decreases issues.len() - i,
    {
        let ghost so_far = absolute@;
        assert(entries[i as int] == issues@[i as int]@);
        let yes: bool = match &issues[i].path {
            Some(path) => context.is_absolute(path.as_str()),
            None => false,
        };
        assert(absolute_told(context, entries[i as int].path, yes));
        absolute.push(yes);
        assert forall|j: int| 0 <= j < i + 1 implies absolute_told(
            context,
            entries[j].path,
            #[trigger] absolute@[j],
        ) by {
            if j < i {
                assert(absolute@[j] == so_far[j]);
            }
        }
        i = i + 1;
    }
    absolute
}

fn ask_paths<X: ContextPort>(files: &Vec<DiscoveredFileOut>, context: &X) -> (paths: Vec<
    Result<String, String>,
>)
    ensures
        paths@.len() == files@.len(),
        paths_told(context, views(files@), path_views(paths@)),
{
    let mut paths: Vec<Result<String, String>> = Vec::new();
    let ghost discovered = views(files@);
    let mut i: usize = 0;
    while i < files.len()
        invariant
            i <= files.len(),
            discovered == views(files@),
            paths@.len() == i,
            forall|j: int|
                0 <= j < i ==> relative_path_told(
                    context,
                    discovered[j].path,
                    path_view(#[trigger] paths@[j]),
                ),
        decreases files.len() - i,
    {
        let ghost so_far = paths@;
        assert(discovered[i as int] == files@[i as int]@);
        let path: Result<String, String> = context.relative_path(files[i].path.as_str());
        assert(relative_path_told(context, discovered[i as int].path, path_view(path)));
        paths.push(path);
        assert forall|j: int| 0 <= j < i + 1 implies relative_path_told(
            context,
            discovered[j].path,
            path_view(#[trigger] paths@[j]),
        ) by {
            if j < i {
                assert(paths@[j] == so_far[j]);
            }
        }
        i = i + 1;
    }
    proof {
        let told = path_views(paths@);
        assert forall|j: int| 0 <= j < told.len() implies relative_path_told(
            context,
            discovered[j].path,
            #[trigger] told[j],
        ) by {
            assert(told[j] == path_view(paths@[j]));
        }
    }
    paths
}

fn session_count(profile: &NormalizedScannerProfileV2) -> (count: usize)
    ensures
        count == concurrency_of(profile@),
        count > 0,
{
    if profile.session_concurrency < 1 {
        1
    } else if profile.session_concurrency > usize::MAX as u64 {
        usize::MAX
    } else {
        profile.session_concurrency as usize
    }
}

/// A scheduler. It ranks the files of a run, freezes what is classified and what is
/// admitted, works through both, and forms the outcome; what it works with is given to it.
pub struct BudgetedContextScheduler<C, P, S, K, G, R, X> {
    pub classifier: C,
    pub parser: P,
    pub cache: S,
    pub clock: K,
    pub guard: G,
    pub ids: R,
    pub context: X,
}

impl<
    C: PdfClassifierPort,
    P: ParserPort,
    S: CachePort,
    K: Clock,
    G: GuardVerifier,
    R: RequestIds,
    X: ContextPort,
> BudgetedContextScheduler<C, P, S, K, G, R, X> {
    /// What both stages of the run ask.
    pub open spec fn around(&self) -> Surroundings<'_, S, K, G> {
        Surroundings { cache: &self.cache, clock: &self.clock, guards: &self.guard }
    }

    /// What is heard before the files of a run are classified was told: the times, the
    /// paths, the identities that were known before its inventory was stored, the plans of
    /// its candidates, and the verdict on its profile, each as far as the run comes to it.
    pub open spec fn start_told(&self, input: ScheduledRunInputView, heard: RunHeard) -> bool {
        &&& time_told(&self.clock, heard.start_ms)
        &&& heard.start_ms < input.absolute_deadline_ms ==> if input.discovery.len()
            > MAX_SOURCE_FILES_PER_RUN {
            time_told(&self.clock, heard.ceiling_ms)
        } else {
            &&& entries_told(&self.context, input.discovery_issues, heard.absolute)
            &&& paths_told(&self.context, input.discovery, heard.paths)
            &&& inventory_fault(input.discovery, heard.paths, 0) is None ==> {
                &&& time_told(&self.clock, heard.cache_start_ms)
                &&& inventory_told(
                    &self.cache,
                    input.scan_run_id,
                    input.started_at_ms,
                    inventory_rows(input.discovery, heard.paths),
                    heard.known,
                )
                &&& heard.known is Ok ==> {
                    &&& time_told(&self.clock, heard.cache_end_ms)
                    &&& plans_told(
                        &self.context,
                        input.discovery.map_values(
                            |file: DiscoveredFileOutView| candidate_of(file),
                        ),
                        input.profile.max_total_pdf_classification_pages,
                        heard.plans,
                    )
                    &&& profile_told(&self.context, heard.accepted)
                }
            }
        }
    }

    /// What is heard of the classifications is what their stage made of what it was told.
    pub open spec fn classifications_heard(
        &self,
        input: ScheduledRunInputView,
        heard: RunHeard,
    ) -> bool {
        comes_to_classify(input, heard) ==> stage_classified(
            &self.classifier,
            self.around(),
            &self.ids,
            planned_metrics(input.discovery, heard.plans),
            heard.plans,
            classification_terms(input, heard.known->Ok_0, build_of(input, heard.plans)->0),
            heard.classified,
        )
    }

    /// What is heard once the files are classified was told: what the fixed sections take,
    /// how the files are admitted, the times, what the stage of the parses made of what it
    /// was told, and the end, each as far as the run comes to it.
    pub open spec fn rest_told(&self, input: ScheduledRunInputView, heard: RunHeard) -> bool {
        &&& comes_to_classify(input, heard) && heard.classified is Ok ==> {
            let classification = heard.classified->Ok_0;
            &&& budget_told(
                &self.context,
                input.discovery.len() as u64,
                error_lines(
                    heard.plans,
                    classification.results,
                    classification.runtime_not_parsed,
                    heard.plans.len(),
                ),
                heard.budget,
            )
            &&& heard.budget is Ok ==> admission_told(
                &self.context,
                heard.plans.filter(
                    |plan: ClassifiedPlanView|
                        goes_to_admission(plan, classification.runtime_not_parsed),
                ),
                classification.results,
                heard.admission,
            )
        }
        &&& comes_to_parse(input, heard) ==> {
            let classification = heard.classified->Ok_0;
            &&& time_told(&self.clock, heard.parse_start_ms)
            &&& stage_parsed(
                &self.parser,
                self.around(),
                admitted_metrics(classification, heard.admission),
                heard.admission,
                parse_terms(input, heard.known->Ok_0, classification),
                heard.parsed,
            )
            &&& heard.parsed matches Ok(parse) ==> {
                &&& time_told(&self.clock, heard.parse_end_ms)
                &&& end_told(
                    &self.context,
                    &self.cache,
                    &self.clock,
                    input,
                    parsed_run(input, heard, heard.budget->Ok_0, classification, parse),
                    heard.end,
                )
            }
        }
    }

    /// Everything that is heard in the course of a run, as far as the run comes to it, is
    /// what its clock, its caches, its guards, its planner and its workers told when they
    /// were asked.
    pub open spec fn told(&self, input: ScheduledRunInputView, heard: RunHeard) -> bool {
        &&& self.start_told(input, heard)
        &&& self.classifications_heard(input, heard)
        &&& self.rest_told(input, heard)
    }

    /// A scheduler that works with what is given.
    pub fn new(classifier: C, parser: P, cache: S, clock: K, guard: G, ids: R, context: X) -> (
    scheduler: Self)
        ensures
            scheduler == (BudgetedContextScheduler {
                classifier,
                parser,
                cache,
                clock,
                guard,
                ids,
                context,
            }),
    {
        BudgetedContextScheduler { classifier, parser, cache, clock, guard, ids, context }
    }

    /// Admits what is classified, parses what is admitted, and ends the run.
    fn admit_and_parse(
        &self,
        input: &ScheduledRunInput,
        snapshot: &FileSnapshot<'_>,
        diagnostics: Vec<RunDiagnosticRecord>,
        inventory: Vec<InventoryRecord>,
        known: &TextSet,
        classified: &Vec<ClassifiedPlan>,
        classification: ClassificationRun,
        cache_ms: u64,
        Ghost(before): Ghost<RunHeard>,
    ) -> (ended: (Result<BudgetedScanOutcome, SchedulerFailure>, Ghost<RunHeard>))
        requires
            snapshot.files() == input@.discovery,
            comes_to_classify(input@, before),
            before.classified == Ok::<ClassificationRunView, DiagnosticView>(classification@),
            before.plans == views(classified@),
            before.known == Ok::<Set<Seq<char>>, CachePortError>(known@),
            before.paths.len() == input.discovery@.len(),
            views(diagnostics@) == warnings_told(input@.discovery_issues, before.absolute),
            views(inventory@) == inventory_rows(input@.discovery, before.paths),
            cache_ms == elapsed(before.cache_start_ms, before.cache_end_ms),
            self.start_told(input@, before),
            self.classifications_heard(input@, before),
            same_parse_counts(no_metrics(), classification.metrics),
        ensures
            self.told(input@, ended.1@),
            run_view(ended.0) == course(input@, ended.1@),
    {
        let ghost mut heard = before;
        let lines: Vec<String> = classifier_error_lines(
            classified,
            &classification.results,
            &classification.runtime_not_parsed,
        );
        let budget: Result<u64, String> = self.context.budget(
            input.discovery.len() as u64,
            &lines,
        );
        assert(budget_told(
            &self.context,
            input@.discovery.len() as u64,
            views(lines@),
            budget_view(budget),
        ));
        let base_chars: u64 = match budget {
            Err(message) => {
                proof {
                    heard = RunHeard { budget: Err(message@), ..heard };
                }
                let mut outputs: ParseOutputs = ParseOutputs::new();
                outputs.classification_cache_receipts = classification.receipts;
                assert(outputs@ =~= classified_outputs(classification@));
                let outcome: BudgetedScanOutcome = internal_error_outcome(
                    input.scan_run_id,
                    classification.metrics,
                    diagnostics,
                    outputs,
                    ErrorCode::ContextFixedSectionsOverBudget,
                    message,
                );
                return (Ok(outcome), Ghost(heard));
            },
            Ok(base_chars) => base_chars,
        };
        let filtered: Vec<ClassifiedPlan> = plans_for_admission(
            classified,
            &classification.runtime_not_parsed,
        );
        let admission: Vec<AdmissionDecision> = self.context.decide_admission(
            &filtered,
            &classification.results,
        );
        assert(admission_told(
            &self.context,
            views(filtered@),
            classification@.results,
            views(admission@),
        ));
        proof {
            heard = RunHeard { budget: Ok(base_chars), admission: views(admission@), ..heard };
        }
        let counts: AdmissionCounts = count_admissions(&admission, &classification.results);
        let mut metrics: ExecutionMetrics = classification.metrics;
        metrics.admitted_file_count = counts.admitted_file_count;
        metrics.extraction_slot_count = counts.extraction_slot_count;
        assert(metrics == admitted_metrics(classification@, views(admission@)));
        let engine = EngineIdentity {
            version: input.engine_version.clone(),
            build: input.engine_build.clone(),
        };
        let parse_start_ms: u64 = self.clock.now_ms();
        assert(admission@.len() == admission.len());
        let stage: Result<ParseRun, SchedulerFailure> = run_parses(
            &admission,
            snapshot,
            &classification.results,
            &input.profile.execution,
            known,
            &classification.runtime_not_parsed,
            metrics,
            session_count(&input.profile),
            input.work_deadline_ms,
            &input.workers,
            &engine,
            &self.parser,
            &self.cache,
            &self.clock,
            &self.guard,
        );
        proof {
            heard = RunHeard { parse_start_ms, parsed: parse_stage_view(stage), ..heard };
        }
        let mut parse: ParseRun = match stage {
            Err(failure) => {
                return (Err(failure), Ghost(heard));
            },
            Ok(parse) => parse,
        };
        let parse_end_ms: u64 = self.clock.now_ms();
        let ghost parsed = parse@;
        parse.outputs.classification_cache_receipts = clone_all(&classification.receipts);
        assert(parse@ =~= with_receipts(parsed, classification@));
        let (outcome, Ghost(told)): (
            Result<BudgetedScanOutcome, SchedulerFailure>,
            Ghost<EndHeard>,
        ) = conclude(
            input,
            snapshot,
            diagnostics,
            inventory,
            classified,
            &admission,
            base_chars,
            classification,
            parse,
            cache_ms,
            parse_end_ms.saturating_sub(parse_start_ms),
            &self.context,
            &self.cache,
            &self.clock,
        );
        proof {
            heard = RunHeard { parse_end_ms, end: told, ..heard };
            assert(self.rest_told(input@, heard));
        }
        (outcome, Ghost(heard))
    }

    /// Executes a run. It takes the course that follows from what its clock, its caches,
    /// its guards, its planner and its workers tell when they are asked.
    #[verifier::rlimit(40)]
    pub fn execute(self, input: ScheduledRunInput) -> (outcome: Result<
        BudgetedScanOutcome,
        SchedulerFailure,
    >)
        ensures
            exists|heard: RunHeard|
                self.told(input@, heard) && run_view(outcome) == #[trigger] course(input@, heard),
    {
        let ghost mut heard: RunHeard = arbitrary();
        let start_ms: u64 = self.clock.now_ms();
        proof {
            heard = RunHeard { start_ms, ..heard };
        }
        if let Err(failure) = check_start(start_ms, input.absolute_deadline_ms) {
            assert(self.told(input@, heard));
            assert(Err::<BudgetedScanOutcomeView, DiagnosticView>(failure.diagnostic@) == course(
                input@,
                heard,
            ));
            return Err(failure);
        }
        let discovered: u64 = input.discovery.len() as u64;
        if discovered > MAX_SOURCE_FILES_PER_RUN {
            let ceiling_ms: u64 = self.clock.now_ms();
            proof {
                heard = RunHeard { ceiling_ms, ..heard };
            }
            if let Some(outcome) = ceiling_outcome(input.scan_run_id, discovered, ceiling_ms) {
                assert(self.told(input@, heard));
                assert(Ok::<BudgetedScanOutcomeView, DiagnosticView>(outcome@) == course(
                    input@,
                    heard,
                ));
                return Ok(outcome);
            }
        }
        let absolute: Vec<bool> = ask_absolute(&input.discovery_issues, &self.context);
        let diagnostics: Vec<RunDiagnosticRecord> = discovery_warnings(
            &input.discovery_issues,
            &absolute,
        );
        let paths: Vec<Result<String, String>> = ask_paths(&input.discovery, &self.context);
        proof {
            heard = RunHeard { absolute: absolute@, paths: path_views(paths@), ..heard };
            assert(views(diagnostics@) =~= warnings_told(input@.discovery_issues, absolute@));
        }
        let inventory: Vec<InventoryRecord> = match build_inventory(&input.discovery, &paths) {
            Err(failure) => {
                assert(self.told(input@, heard));
                assert(Err::<BudgetedScanOutcomeView, DiagnosticView>(failure.diagnostic@)
                    == course(input@, heard));
                return Err(failure);
            },
            Ok(rows) => rows,
        };
        assert(views(inventory@) =~= inventory_rows(input@.discovery, heard.paths));
        let cache_start_ms: u64 = self.clock.now_ms();
        let stored: Result<TextSet, CachePortError> = self.cache.prepare_inventory(
            input.scan_run_id,
            input.started_at_ms,
            &inventory,
        );
        assert(inventory_told(
            &self.cache,
            input@.scan_run_id,
            input@.started_at_ms,
            views(inventory@),
            known_view(stored),
        ));
        let known: TextSet = match stored {
            Err(error) => {
                proof {
                    heard = RunHeard { cache_start_ms, known: Err(error), ..heard };
                }
                let failure = SchedulerFailure {
                    diagnostic: error.diagnostic(DiagnosticStage::Cache),
                };
                assert(self.told(input@, heard));
                assert(Err::<BudgetedScanOutcomeView, DiagnosticView>(failure.diagnostic@)
                    == course(input@, heard));
                return Err(failure);
            },
            Ok(known) => known,
        };
        let cache_end_ms: u64 = self.clock.now_ms();
        let mut metrics: ExecutionMetrics = source_guard_metrics(&input.discovery);
        let candidates: Vec<PlanCandidate> = plan_candidates(&input.discovery);
        let ghost wanted = views(candidates@);
        let classified: Vec<ClassifiedPlan> = self.context.plan(
            candidates,
            input.profile.max_total_pdf_classification_pages,
        );
        assert(plans_told(
            &self.context,
            wanted,
            input@.profile.max_total_pdf_classification_pages,
            views(classified@),
        ));
        proof {
            heard = RunHeard {
                cache_start_ms,
                known: Ok(known@),
                cache_end_ms,
                plans: views(classified@),
                ..heard
            };
        }
        let counts: PlanCounts = count_plans(&classified);
        metrics.candidate_file_count = counts.candidate_file_count;
        metrics.classification_slot_count = counts.classification_slot_count;
        metrics.nominal_charged_pages_total = counts.nominal_charged_pages_total;
        assert(metrics == planned_metrics(input@.discovery, heard.plans));
        let accepted: Result<(), String> = self.context.accept_profile();
        proof {
            heard = RunHeard { accepted, ..heard };
        }
        let profile_hash: String = match classifier_profile_hash(&input.profile, accepted) {
            Err(message) => {
                let failure: SchedulerFailure = SchedulerFailure::internal(message.as_str());
                assert(self.told(input@, heard));
                assert(Err::<BudgetedScanOutcomeView, DiagnosticView>(failure.diagnostic@)
                    == course(input@, heard));
                return Err(failure);
            },
            Ok(hash) => hash,
        };
        let build: String = match resolve_classifier_build(
            &input.workers.classifier_build,
            counts.classification_slot_count > 0,
        ) {
            Err(failure) => {
                assert(self.told(input@, heard));
                assert(Err::<BudgetedScanOutcomeView, DiagnosticView>(failure.diagnostic@)
                    == course(input@, heard));
                return Err(failure);
            },
            Ok(build) => build,
        };
        let snapshot: FileSnapshot<'_> = FileSnapshot::new(&input.discovery);
        assert(classified@.len() == classified.len());
        let stage: Result<ClassificationRun, SchedulerFailure> = run_classifications(
            &classified,
            &snapshot,
            &input.profile,
            profile_hash.as_str(),
            build.as_str(),
            &known,
            metrics,
            session_count(&input.profile),
            input.work_deadline_ms,
            &self.classifier,
            &self.cache,
            &self.clock,
            &self.guard,
            &self.ids,
        );
        proof {
            heard = RunHeard { classified: stage_view(stage), ..heard };
        }
        match stage {
            Err(failure) => {
                assert(self.told(input@, heard));
                assert(Err::<BudgetedScanOutcomeView, DiagnosticView>(failure.diagnostic@)
                    == course(input@, heard));
                Err(failure)
            },
            Ok(classification) => {
                let (outcome, Ghost(told)): (
                    Result<BudgetedScanOutcome, SchedulerFailure>,
                    Ghost<RunHeard>,
                ) = self.admit_and_parse(
                    &input,
                    &snapshot,
                    diagnostics,
                    inventory,
                    &known,
                    &classified,
                    classification,
                    cache_end_ms.saturating_sub(cache_start_ms),
                    Ghost(heard),
                );
                assert(self.told(input@, told) && run_view(outcome) == course(input@, told));
                outcome
            },
        }
    }
}

/// A run that ends with an error commits no context, whatever it heard.
pub proof fn law_failed_runs_commit_no_context(input: ScheduledRunInputView, heard: RunHeard)
    ensures
        course(input, heard) matches Ok(outcome) ==> outcome.terminal_intent
            == TerminalIntent::Error ==> outcome.context is None,
{
}

/// A run is a full success only where it reports no warning, whatever it heard.
pub proof fn law_successful_runs_report_no_warning(input: ScheduledRunInputView, heard: RunHeard)
    ensures
        course(input, heard) matches Ok(outcome) ==> outcome.terminal_intent
            == TerminalIntent::Success ==> !has_warning(outcome.diagnostics),
{
}

/// A run reports every file that was planned, or none.
pub proof fn law_all_planned_files_are_reported(input: ScheduledRunInputView, heard: RunHeard)
    ensures
        course(input, heard) matches Ok(outcome) ==> outcome.file_results.len() == 0
            || outcome.file_results.len() == heard.plans.len(),
{
}

/// A run with too many files works on none of them: it reports one error, no file and no
/// cache entry.
pub proof fn law_too_many_files_are_not_touched(input: ScheduledRunInputView, heard: RunHeard)
    requires
        input.discovery.len() > MAX_SOURCE_FILES_PER_RUN,
        heard.start_ms < input.absolute_deadline_ms,
    ensures
        course(input, heard) matches Ok(outcome) && outcome.terminal_intent
            == TerminalIntent::Error && outcome.inventory.len() == 0 && outcome.file_results.len()
            == 0 && outcome.parse_cache_receipts.len() == 0 && outcome.diagnostics.len() == 1
            && outcome.execution_metrics.discovery_observed_file_count == MAX_SOURCE_FILES_PER_RUN
            + 1,
{
}

/// A run whose deadline cut any work off is no full success.
pub proof fn law_cut_off_runs_are_no_successes(
    input: ScheduledRunInputView,
    run: ParsedRun,
    heard: EndHeard,
)
    requires
        run.parse.metrics.stage_deadline_exhausted_count > 0,
    ensures
        concluded(input, run, heard) matches Ok(outcome) ==> outcome.terminal_intent
            != TerminalIntent::Success,
{
}

/// An outcome reports the committed cache entries of the classifications that the run came
/// to: all of them, and no others.
pub proof fn law_classification_receipts_are_reported(
    input: ScheduledRunInputView,
    heard: RunHeard,
)
    ensures
        course(input, heard) matches Ok(outcome) ==> if comes_to_classify(input, heard) {
            heard.classified is Ok && outcome.classification_cache_receipts == (
            heard.classified->Ok_0).receipts
        } else {
            outcome.classification_cache_receipts.len() == 0
        },
{
}

/// A run whose fixed sections do not fit ends with an error that says so; it is an outcome
/// and no failure, and it commits no context.
pub proof fn law_fixed_sections_over_budget_are_an_outcome(
    input: ScheduledRunInputView,
    heard: RunHeard,
)
    requires
        comes_to_classify(input, heard),
        heard.classified is Ok,
        heard.budget is Err,
    ensures
        course(input, heard) matches Ok(outcome) && outcome.terminal_intent
            == TerminalIntent::Error && outcome.context is None && outcome.diagnostics.len() > 0
            && outcome.diagnostics.last().severity == DiagnosticSeverity::Error
            && outcome.diagnostics.last().diagnostic.error_code
            == ErrorCode::ContextFixedSectionsOverBudget,
{
}

/// A run that ends with an error reports an error, whatever it heard: it is the last of its
/// diagnostics.
pub proof fn law_failed_runs_report_an_error(input: ScheduledRunInputView, heard: RunHeard)
    ensures
        course(input, heard) matches Ok(outcome) ==> outcome.terminal_intent
            == TerminalIntent::Error ==> outcome.diagnostics.len() > 0
            && outcome.diagnostics.last().severity == DiagnosticSeverity::Error,
{
    if comes_to_parse(input, heard) && heard.parsed is Ok {
        let classification = heard.classified->Ok_0;
        let run = parsed_run(
            input,
            heard,
            heard.budget->Ok_0,
            classification,
            heard.parsed->Ok_0,
        );
        if heard.end.rendered is Ok {
            lemma_formed_runs_report_an_error(
                input,
                run,
                heard.end.rendered->Ok_0,
                heard.end.extensions->Ok_0,
                heard.end,
            );
        }
    }
}

proof fn lemma_formed_runs_report_an_error(
    input: ScheduledRunInputView,
    run: ParsedRun,
    rendered: RenderedContextView,
    extensions: Seq<ExtensionMetricView>,
    heard: EndHeard,
)
    ensures
        ({
            let outcome = context_formed(input, run, rendered, extensions, heard);
            outcome.terminal_intent == TerminalIntent::Error ==> outcome.diagnostics.len() > 0
                && outcome.diagnostics.last().severity == DiagnosticSeverity::Error
        }),
{
    let results = all_results(
        run.plans,
        run.files,
        heard.paths,
        run.admission,
        run.classification.results,
        run.classification.runtime_not_parsed,
        run.parse.outputs,
        input.rejected_profile_hash,
    );
    let exhausted = run.parse.metrics.stage_deadline_exhausted_count;
    law_error_runs_report_an_error(
        counts_of(rendered),
        results,
        run.classification.runtime_not_parsed,
        run.parse.outputs.runtime_not_parsed,
        exhausted,
    );
    let has_failure = run_has_failure(
        counts_of(rendered),
        run.classification.runtime_not_parsed,
        run.parse.outputs.runtime_not_parsed,
        exhausted,
    );
    let terminal = terminal_diagnostics(counts_of(rendered), results, has_failure, exhausted);
    if intent_of(has_failure, counts_of(rendered)) == TerminalIntent::Error {
        let earlier = run.told + as_warnings(run.parse.outputs.cache_write_warnings) + as_warnings(
            run.parse.outputs.parse_warnings,
        );
        assert(earlier + terminal =~= (earlier + terminal.drop_last()).push(terminal.last()));
        law_projection_ends_with_the_errors(earlier + terminal.drop_last(), terminal.last());
    }
}

/// Entries that could not be read keep a run from full success, whatever it heard.
pub proof fn law_unreadable_entries_keep_a_run_from_success(
    input: ScheduledRunInputView,
    heard: RunHeard,
)
    requires
        input.discovery_issues.len() > 0,
    ensures
        course(input, heard) matches Ok(outcome) ==> outcome.terminal_intent
            != TerminalIntent::Success,
{
    if comes_to_parse(input, heard) && heard.parsed is Ok && heard.end.rendered is Ok {
        let classification = heard.classified->Ok_0;
        let run = parsed_run(
            input,
            heard,
            heard.budget->Ok_0,
            classification,
            heard.parsed->Ok_0,
        );
        let rendered = heard.end.rendered->Ok_0;
        let outcome = context_formed(input, run, rendered, heard.end.extensions->Ok_0, heard.end);
        let results = outcome.file_results;
        let exhausted = run.parse.metrics.stage_deadline_exhausted_count;
        let has_failure = run_has_failure(
            counts_of(rendered),
            run.classification.runtime_not_parsed,
            run.parse.outputs.runtime_not_parsed,
            exhausted,
        );
        let terminal = terminal_diagnostics(counts_of(rendered), results, has_failure, exhausted);
        let all = run.told + as_warnings(run.parse.outputs.cache_write_warnings) + as_warnings(
            run.parse.outputs.parse_warnings,
        ) + terminal;
        assert(all =~= seq![run.told[0]] + all.skip(1));
        law_projection_begins_with_the_warnings(run.told[0], all.skip(1));
        assert(outcome.diagnostics[0].severity == DiagnosticSeverity::Warning);
        assert(has_warning(outcome.diagnostics));
    }
}

/// What a run has committed to the parse cache is what it reports: where a file is decided
/// on once, its file result is a success with the hash, the backend and the truncation mark
/// of the receipt.
pub proof fn law_receipts_agree_with_the_file_results<
    P: ParserPort,
    S: CachePort,
    K: Clock,
    G: GuardVerifier,
>(
    parser: &P,
    around: Surroundings<'_, S, K, G>,
    input: ScheduledRunInputView,
    heard: RunHeard,
    receipt: int,
    at: int,
)
    requires
        comes_to_parse(input, heard),
        heard.parsed is Ok,
        stage_parsed(
            parser,
            around,
            admitted_metrics(heard.classified->Ok_0, heard.admission),
            heard.admission,
            parse_terms(input, heard.known->Ok_0, heard.classified->Ok_0),
            heard.parsed,
        ),
        decided_once(heard.admission),
        heard.admission.len() <= usize::MAX,
        course(input, heard) is Ok,
        ({
            let outcome = course(input, heard)->Ok_0;
            &&& 0 <= receipt < outcome.parse_cache_receipts.len()
            &&& 0 <= at < outcome.file_results.len()
            &&& outcome.file_results[at].file_identity
                == outcome.parse_cache_receipts[receipt].file_identity
        }),
    ensures
        ({
            let outcome = course(input, heard)->Ok_0;
            let result = outcome.file_results[at];
            let record = outcome.parse_cache_receipts[receipt];
            &&& result.content_sha256 == record.content_sha256
            &&& result.parse_status == ParseStatus::Success
            &&& result.parser_backend == record.parser_backend
            &&& result.truncated == record.truncated
        }),
{
    let classification = heard.classified->Ok_0;
    let parse = heard.parsed->Ok_0;
    let terms = parse_terms(input, heard.known->Ok_0, classification);
    let outcome = course(input, heard)->Ok_0;
    let record = outcome.parse_cache_receipts[receipt];
    assert(outcome.parse_cache_receipts == parse.outputs.parse_cache_receipts);
    law_parse_receipts_agree_with_the_results(
        parser,
        around,
        admitted_metrics(classification, heard.admission),
        heard.admission,
        terms,
        parse,
        receipt,
    );
    let plan = heard.plans[at];
    let run = parsed_run(input, heard, heard.budget->Ok_0, classification, parse);
    law_reports_are_in_plan_order(
        run.plans,
        run.files,
        heard.end.paths,
        run.admission,
        classification.results,
        classification.runtime_not_parsed,
        run.parse.outputs,
        input.rejected_profile_hash,
        at,
    );
    assert(plan.file_identity == record.file_identity);
    let i = choose|i: int|
        0 <= i < heard.admission.len() && (#[trigger] heard.admission[i]).file_identity
            == record.file_identity && heard.admission[i].action is Admit;
    assert forall|j: int| 0 <= j < i implies (#[trigger] heard.admission[j]).file_identity
        != plan.file_identity by {
        assert(heard.admission[j].file_identity != heard.admission[i].file_identity);
    }
    law_decisions_settle_the_action(plan, heard.admission, i);
    let file = file_of(run.files, plan.file_identity)->0;
    let action = final_action(plan, heard.admission, 0);
    assert(outcome.file_results[at] == result_of(
        file,
        heard.end.paths[at]->Ok_0,
        action,
        classification.results,
        classification.runtime_not_parsed,
        run.parse.outputs,
        input.rejected_profile_hash,
    ));
    law_reports_name_their_file(
        file,
        heard.end.paths[at]->Ok_0,
        action,
        classification.results,
        classification.runtime_not_parsed,
        run.parse.outputs,
        input.rejected_profile_hash,
    );
    law_parsed_files_are_reported_as_parsed(
        file,
        heard.end.paths[at]->Ok_0,
        action->route,
        classification.results,
        classification.runtime_not_parsed,
        run.parse.outputs,
        input.rejected_profile_hash,
    );
}

/// A run that came to its context carries what it found: the inventory of its files, the
/// classifications, what was committed to the caches and what was counted.
pub proof fn law_outcomes_carry_what_the_run_found(input: ScheduledRunInputView, heard: RunHeard)
    requires
        comes_to_parse(input, heard),
        heard.parsed is Ok,
        heard.end.rendered is Ok,
        course(input, heard) is Ok,
        course(input, heard)->Ok_0.terminal_intent != TerminalIntent::Error,
    ensures
        ({
            let outcome = course(input, heard)->Ok_0;
            let parse = heard.parsed->Ok_0;
            let rendered = heard.end.rendered->Ok_0;
            let metrics = outcome.execution_metrics;
            &&& outcome.scan_run_id == input.scan_run_id
            &&& outcome.inventory.len() == input.discovery.len()
            &&& outcome.file_results.len() == heard.plans.len()
            &&& outcome.classifications == (heard.classified->Ok_0).results
            &&& outcome.classification_cache_receipts == (heard.classified->Ok_0).receipts
            &&& outcome.parse_cache_receipts == parse.outputs.parse_cache_receipts
            &&& Ok::<Seq<ExtensionMetricView>, Seq<char>>(outcome.extension_metrics)
                == heard.end.extensions
            &&& metrics.parse_attempt_count == parse.metrics.parse_attempt_count
            &&& metrics.parse_cache_lookup_count == parse.metrics.parse_cache_lookup_count
            &&& metrics.classify_attempt_count == parse.metrics.classify_attempt_count
            &&& metrics.discovery_observed_file_count
                == parse.metrics.discovery_observed_file_count
            &&& metrics.stage_deadline_exhausted_count
                == parse.metrics.stage_deadline_exhausted_count
            &&& metrics.deadline_precommit_elapsed_ms == heard.end.end_ms
            &&& rendered.content.len() <= u64::MAX ==> metrics.rendered_chars
                == rendered.content.len()
            &&& ({
                let reserved = heard.budget->Ok_0 + reserved_total(
                    heard.admission,
                    heard.admission.len(),
                );
                reserved <= u64::MAX ==> metrics.reserved_chars == reserved
            })
            &&& outcome.context matches Some(context) ==> {
                &&& context.final_context == rendered.content
                &&& context.context_profile_hash == input.context_profile_hash
                &&& context.status == RunStatus::Success <==> outcome.terminal_intent
                    == TerminalIntent::Success
                &&& context.status == RunStatus::Partial <==> outcome.terminal_intent
                    == TerminalIntent::Partial
            }
            &&& outcome.context is Some <==> rendered.content.len() > 0
        }),
{
    lemma_reserved_not_negative(heard.admission, heard.admission.len());
}

proof fn lemma_reserved_not_negative(decisions: Seq<AdmissionDecisionView>, count: nat)
    ensures
        reserved_total(decisions, count) >= 0,
    decreases count,
{
    if count > 0 {
        lemma_reserved_not_negative(decisions, (count - 1) as nat);
    }
}

proof fn lemma_inventory_row_at(
    files: Seq<DiscoveredFileOutView>,
    paths: Seq<Result<Seq<char>, Seq<char>>>,
    from: int,
    at: int,
)
    requires
        0 <= from <= at < files.len(),
        inventory_fault(files, paths, from) is None,
    ensures
        inventory_row(files[at], paths[at]) is Ok,
    decreases at - from,
{
    if from < at {
        lemma_inventory_row_at(files, paths, from + 1, at);
    }
}

/// The inventory of a run is of its discovered files, in their order and as they were
/// discovered.
pub proof fn law_inventories_are_of_the_discovery(
    files: Seq<DiscoveredFileOutView>,
    paths: Seq<Result<Seq<char>, Seq<char>>>,
    at: int,
)
    requires
        inventory_fault(files, paths, 0) is None,
        0 <= at < files.len(),
    ensures
        ({
            let row = inventory_rows(files, paths)[at];
            &&& inventory_rows(files, paths).len() == files.len()
            &&& row.file_identity == files[at].file_identity
            &&& row.absolute_path == files[at].path
            &&& paths[at] == Ok::<Seq<char>, Seq<char>>(row.relative_path)
            &&& row.file_type == files[at].extension
            &&& row.source_version == files[at].source_version
            &&& row.size_bytes == files[at].size_bytes
            &&& row.source_guard_kind == files[at].source_guard_kind
            &&& row.source_guard_sha256 == files[at].source_guard_sha256
        }),
{
    lemma_inventory_row_at(files, paths, 0, at);
}

/// Both stages of a run work on its discovered files, under its profile and until its work
/// deadline; the parses know what was classified and what was cut off before.
pub proof fn law_stages_work_under_the_terms_of_the_run(
    input: ScheduledRunInputView,
    known: Set<Seq<char>>,
    build: Seq<char>,
    classification: ClassificationRunView,
)
    ensures
        ({
            let terms = classification_terms(input, known, build);
            &&& terms.files == input.discovery && terms.known == known
            &&& terms.profile == input.profile && terms.build == build
            &&& terms.profile_hash == classifier_profile_digest(input.profile)
            &&& terms.work_deadline_ms == input.work_deadline_ms
            &&& terms.concurrency >= 1
        }),
        ({
            let terms = parse_terms(input, known, classification);
            &&& terms.files == input.discovery && terms.known == known
            &&& terms.cut_off == classification.runtime_not_parsed
            &&& terms.classifications == classification.results
            &&& terms.execution == input.profile.execution
            &&& terms.workers == input.workers
            &&& terms.engine.version == input.engine_version && terms.engine.build
                == input.engine_build
            &&& terms.work_deadline_ms == input.work_deadline_ms
            &&& terms.concurrency >= 1
            &&& 1 <= input.profile.session_concurrency <= usize::MAX ==> terms.concurrency
                == input.profile.session_concurrency
        }),
{
}

/// A run that classifies PDFs needs a known classifier; one that does not runs without.
pub proof fn law_classifiers_are_known_where_they_are_needed(
    input: ScheduledRunInputView,
    plans: Seq<ClassifiedPlanView>,
)
    ensures
        input.workers.classifier_build is Some ==> build_of(input, plans)
            == input.workers.classifier_build,
        build_of(input, plans) is None <==> input.workers.classifier_build is None && exists|i: int|
            0 <= i < plans.len() && (#[trigger] plans[i]).pdf_classification is Classify,
{
    let wanted = |plan: ClassifiedPlanView| is_classified(plan);
    if classification_count(plans) > 0 {
        plans.lemma_filter_pred(wanted, 0);
        let plan = plans.filter(wanted)[0];
        assert(plans.filter(wanted).contains(plan));
        plans.lemma_filter_contains_rev(wanted, plan);
        let i = choose|i: int| 0 <= i < plans.len() && plans[i] == plan;
        assert(plans[i].pdf_classification is Classify);
    }
    if exists|i: int|
        0 <= i < plans.len() && (#[trigger] plans[i]).pdf_classification is Classify {
        let i = choose|i: int|
            0 <= i < plans.len() && (#[trigger] plans[i]).pdf_classification is Classify;
        plans.lemma_filter_contains(wanted, i);
    }
}

/// A run that starts at or after its absolute deadline is refused, and so is one whose
/// files cannot be put into an inventory, whose inventory cannot be written or whose
/// profile is not accepted.
pub proof fn law_runs_are_refused_before_any_work(input: ScheduledRunInputView, heard: RunHeard)
    ensures
        heard.start_ms >= input.absolute_deadline_ms ==> course(input, heard) is Err,
        heard.start_ms < input.absolute_deadline_ms && input.discovery.len()
            <= MAX_SOURCE_FILES_PER_RUN ==> {
            &&& inventory_fault(input.discovery, heard.paths, 0) is Some ==> course(input, heard)
                is Err
            &&& inventory_fault(input.discovery, heard.paths, 0) is None ==> {
                &&& heard.known is Err ==> course(input, heard) is Err && (course(
                    input,
                    heard,
                )->Err_0).stage == DiagnosticStage::Cache
                &&& heard.known is Ok && heard.accepted is Err ==> course(input, heard) is Err
            }
        },
{
}

/// What is counted before and between the stages is what was planned and decided: the
/// files that were discovered, the plans that admit or classify, the decisions that admit
/// and those that take an extraction, which are never more.
pub proof fn law_plans_and_decisions_are_counted(
    files: Seq<DiscoveredFileOutView>,
    plans: Seq<ClassifiedPlanView>,
    classification: ClassificationRunView,
    admission: Seq<AdmissionDecisionView>,
)
    requires
        files.len() <= u64::MAX,
        plans.len() <= u64::MAX,
        admission.len() <= u64::MAX,
    ensures
        ({
            let metrics = planned_metrics(files, plans);
            &&& metrics.discovery_observed_file_count == files.len()
            &&& metrics.candidate_file_count == plans.filter(
                |plan: ClassifiedPlanView| plan.action is Admit,
            ).len()
            &&& metrics.classification_slot_count == plans.filter(
                |plan: ClassifiedPlanView| plan.pdf_classification is Classify,
            ).len()
            &&& metrics.nominal_charged_pages_total == charged_pages_total(plans, plans.len())
            &&& metrics.source_guard_unavailable_count == guard_tally(files, files.len()).0
            &&& metrics.source_guard_content_hash_file_count == guard_tally(files, files.len()).1
            &&& metrics.source_guard_bytes_read == guard_tally(files, files.len()).2
            &&& metrics.parse_attempt_count == 0 && metrics.classify_attempt_count == 0
                && metrics.stage_deadline_exhausted_count == 0
        }),
        ({
            let metrics = admitted_metrics(classification, admission);
            &&& metrics.admitted_file_count == admission.filter(
                |decision: AdmissionDecisionView| decision.action is Admit,
            ).len()
            &&& metrics.extraction_slot_count <= metrics.admitted_file_count
            &&& metrics.classify_attempt_count == classification.metrics.classify_attempt_count
            &&& metrics.stage_deadline_exhausted_count
                == classification.metrics.stage_deadline_exhausted_count
        }),
{
    let admits = |plan: ClassifiedPlanView| is_admitted(plan.action);
    let classifies = |plan: ClassifiedPlanView| is_classified(plan);
    let admitted = |decision: AdmissionDecisionView| is_admitted(decision.action);
    let extracted = |decision: AdmissionDecisionView|
        is_extraction(decision, classification.results);
    assert(admits =~= |plan: ClassifiedPlanView| plan.action is Admit);
    assert(classifies =~= |plan: ClassifiedPlanView| plan.pdf_classification is Classify);
    assert(admitted =~= |decision: AdmissionDecisionView| decision.action is Admit);
    plans.lemma_filter_len(admits);
    plans.lemma_filter_len(classifies);
    admission.lemma_filter_len(admitted);
    lemma_fewer_extractions(admission, classification.results);
    lemma_tally_within(files, files.len());
}

proof fn lemma_tally_within(files: Seq<DiscoveredFileOutView>, count: nat)
    ensures
        0 <= guard_tally(files, count).0 <= count,
        0 <= guard_tally(files, count).1 <= count,
    decreases count,
{
    if count > 0 {
        lemma_tally_within(files, (count - 1) as nat);
    }
}

proof fn lemma_fewer_extractions(
    admission: Seq<AdmissionDecisionView>,
    classifications: Map<Seq<char>, PdfClassificationResultView>,
)
    ensures
        admission.filter(
            |decision: AdmissionDecisionView| is_extraction(decision, classifications),
        ).len() <= admission.filter(
            |decision: AdmissionDecisionView| is_admitted(decision.action),
        ).len(),
    decreases admission.len(),
{
    reveal(Seq::filter);
    if admission.len() > 0 {
        lemma_fewer_extractions(admission.drop_last(), classifications);
    }
}

/// A run takes as many sessions as its profile says, but at least one.
pub proof fn law_runs_take_the_sessions_of_their_profile(profile: NormalizedScannerProfileV2View)
    ensures
        concurrency_of(profile) >= 1,
        1 <= profile.session_concurrency <= usize::MAX ==> concurrency_of(profile)
            == profile.session_concurrency,
        concurrency_of(profile) <= usize::MAX,
{
}

} // verus!
