//! The stages of a run: all classifications, and all parses.
//!
//! What a stage hears while it runs is told apart from what it makes of it. Every stage
//! states what it did for some course of answers, and that each of them is what the clock,
//! the guards, the caches or the workers said when they were asked. How often they were
//! asked, and that they were not asked for more, is not stated: asking leaves nothing behind
//! that could be spoken of.
use crate::contract::{
    views, DiagnosticStage, DiagnosticView, DiscoveredFileOut, DiscoveredFileOutView, ParseStatus,
    RouteKind,
};
use crate::ordered::{TextMap, TextSet};
use crate::profile::{
    ExecutionProfile, ExecutionProfileView, NormalizedScannerProfileV2,
    NormalizedScannerProfileV2View,
};
use crate::scheduler::classify::{
    dispatch_timeout_ms, law_abandoned_classifications_are_cut_off, next_wave, remaining_ms,
    smaller, wave_step, ClassificationRun, ClassificationRunView, ClassificationTask,
    ClassificationTaskView, WaveStep,
};
use crate::scheduler::parse::{
    guard_to_check, law_answers_are_the_results_of_their_file, lookup_route, EngineIdentity,
    EngineIdentityView, ParseRun, ParseRunView, ParseTask, ParseTaskView,
};
use crate::scheduler::plan::{
    expected_guard, file_of, guard_of, is_classified, law_files_are_found_by_identity, map_views,
    AdmissionDecision, AdmissionDecisionView, ClassifiedPlan, ClassifiedPlanView, FileSnapshot,
    PdfClassificationPlan, PdfClassificationResult, PdfClassificationResultView,
};
use crate::scheduler::ports::{
    backend_told, classification_lookup_told, classification_write_told, classifications_told,
    file_guard_told, guard_told, parse_lookup_told, parse_write_told, parses_told, request_id_told,
    time_told, CachePort, ClassifyCall, ClassifyCallView, Clock, GuardVerifier, ParserPort,
    PdfClassifierPort, RequestIds,
};
use crate::scheduler::records::{
    no_outputs, CachePortError, ExecutionMetrics, ParseLookupOutcome, ParseLookupOutcomeView,
    ParseOutputsView, ParseRequest, ParseRequestView, ParseResult, ParseResultView,
    SchedulerFailure, WorkerIdentities, WorkerIdentitiesView,
};
use crate::session::{ParseFailure, PdfClassifierResultV1};
use crate::source_guard::SourceGuardV2;
use crate::store::cache::{
    CacheLookup, CacheWriteRecord, CacheWriteRecordView, ClassificationCacheLookup,
    ClassificationCacheLookupView, ClassificationCacheWriteRecord,
    ClassificationCacheWriteRecordView,
};
use vstd::prelude::*;

verus! {

/// What both stages ask.
pub struct Surroundings<'a, S, K, G> {
    pub cache: &'a S,
    pub clock: &'a K,
    pub guards: &'a G,
}

// ---------------------------------------------------------------------------
// Classifications
// ---------------------------------------------------------------------------

/// What is heard while a plan is taken up: the time, whether the file is still the
/// discovered one, what the cache holds, the time after that, and the identity of a
/// request. What is not asked may be anything.
#[verifier::ext_equal]
pub struct PlanHeard {
    pub now_ms: u64,
    pub verified: bool,
    pub lookup: Result<ClassificationCacheLookupView, CachePortError>,
    pub later_ms: u64,
    pub request_id: Seq<char>,
}

/// What the plans of a stage are taken up with.
#[verifier::ext_equal]
pub struct ClassificationTerms {
    pub files: Seq<DiscoveredFileOutView>,
    /// The identities that were known before the run.
    pub known: Set<Seq<char>>,
    pub profile: NormalizedScannerProfileV2View,
    pub profile_hash: Seq<char>,
    pub build: Seq<char>,
    pub concurrency: int,
    pub work_deadline_ms: u64,
}

/// What is heard when a task is over: what the classifier said, whether the file is still
/// the discovered one, the time, and what became of its cache entry at what time.
#[verifier::ext_equal]
pub struct ClassifiedHeard {
    pub outcome: Result<PdfClassifierResultV1, ParseFailure>,
    pub verified: bool,
    pub ended_ms: u64,
    pub write_ms: u64,
    pub written: Result<(), CachePortError>,
}

/// What is heard of a wave: the time at which it began, the time at which its calls were
/// made, and its tasks.
#[verifier::ext_equal]
pub struct ClassificationWave {
    pub start_ms: u64,
    pub later_ms: u64,
    pub tasks: Seq<ClassifiedHeard>,
}

/// What is heard while a plan is taken up was told: the time, whether the guard of the
/// file holds, what the cache has of it, and the identity of its request, each as far as
/// it is needed.
pub open spec fn plan_told<S: CachePort, K: Clock, G: GuardVerifier, R: RequestIds>(
    around: Surroundings<'_, S, K, G>,
    ids: &R,
    plan: ClassifiedPlanView,
    heard: PlanHeard,
    terms: ClassificationTerms,
) -> bool {
    let found = file_of(terms.files, plan.file_identity);
    is_classified(plan) && found is Some ==> {
        let file = found->0;
        &&& time_told(around.clock, heard.now_ms)
        &&& heard.now_ms < terms.work_deadline_ms && guard_of(file) is Some ==> {
            &&& guard_told(around.guards, file.path, guard_of(file)->0, heard.verified)
            &&& heard.verified ==> classification_lookup_told(
                around.cache,
                file,
                terms.profile_hash,
                terms.build,
                terms.known.contains(plan.file_identity),
                heard.lookup,
            )
            &&& heard.verified && heard.lookup is Ok && heard.lookup->Ok_0 is Miss ==> {
                &&& time_told(around.clock, heard.later_ms)
                &&& heard.later_ms < terms.work_deadline_ms ==> request_id_told(
                    ids,
                    heard.request_id,
                )
            }
        }
    }
}

/// What is heard of a task that was run was told: whether the guard of its file holds,
/// the time, and what became of its cache entry.
pub open spec fn classified_told<S: CachePort, K: Clock, G: GuardVerifier>(
    around: Surroundings<'_, S, K, G>,
    task: ClassificationTaskView,
    heard: ClassifiedHeard,
    terms: ClassificationTerms,
) -> bool {
    &&& guard_told(around.guards, task.file.path, task.guard, heard.verified)
    &&& heard.verified ==> time_told(around.clock, heard.ended_ms)
    &&& ClassificationRunView::entry_left(
        task,
        heard.outcome,
        heard.verified,
        heard.ended_ms,
        terms.work_deadline_ms,
    ) matches Some(record) ==> {
        &&& time_told(around.clock, heard.write_ms)
        &&& classification_write_told(around.cache, heard.write_ms, record, heard.written)
    }
}

/// The calls of a wave of `count` tasks, the first of which is that at `index`.
pub open spec fn wave_calls(
    tasks: Seq<ClassificationTaskView>,
    index: int,
    count: nat,
    now_ms: u64,
    work_deadline_ms: u64,
) -> Seq<ClassifyCallView> {
    Seq::new(
        count,
        |i: int|
            ClassifyCallView {
                request: tasks[index + i].request,
                timeout_ms: smaller(
                    tasks[index + i].own_timeout_ms,
                    remaining_ms(work_deadline_ms, now_ms),
                ),
            },
    )
}

/// What is heard of a wave was told: the times, what came of each call, and what is heard
/// of each task.
pub open spec fn classification_wave_told<
    C: PdfClassifierPort,
    S: CachePort,
    K: Clock,
    G: GuardVerifier,
>(
    classifier: &C,
    around: Surroundings<'_, S, K, G>,
    tasks: Seq<ClassificationTaskView>,
    index: int,
    wave: ClassificationWave,
    terms: ClassificationTerms,
) -> bool {
    &&& time_told(around.clock, wave.later_ms)
    &&& classifications_told(
        classifier,
        wave_calls(tasks, index, wave.tasks.len(), wave.later_ms, terms.work_deadline_ms),
        wave.tasks.map_values(|heard: ClassifiedHeard| heard.outcome),
    )
    &&& forall|i: int|
        0 <= i < wave.tasks.len() ==> classified_told(
            around,
            tasks[index + i],
            #[trigger] wave.tasks[i],
            terms,
        )
}

/// What is heard of each wave was told.
pub open spec fn classification_waves_told<
    C: PdfClassifierPort,
    S: CachePort,
    K: Clock,
    G: GuardVerifier,
>(
    classifier: &C,
    around: Surroundings<'_, S, K, G>,
    state: ClassificationRunView,
    waves: Seq<ClassificationWave>,
    terms: ClassificationTerms,
) -> bool
    decreases waves.len(),
{
    waves.len() > 0 ==> {
        &&& classification_waves_told(classifier, around, state, waves.drop_last(), terms)
        &&& time_told(around.clock, waves.last().start_ms)
        &&& classification_waves(state, waves.drop_last(), terms) matches Some((_, index))
            ==> classification_wave_told(
            classifier,
            around,
            state.tasks,
            index,
            waves.last(),
            terms,
        )
    }
}

/// The stage after a plan. A cache that fails ends it.
pub open spec fn plan_heard(
    state: ClassificationRunView,
    plan: ClassifiedPlanView,
    heard: PlanHeard,
    terms: ClassificationTerms,
) -> Result<ClassificationRunView, CachePortError> {
    let file = file_of(terms.files, plan.file_identity);
    let (taken, guard) = state.taken_up(plan, file, heard.now_ms, terms.work_deadline_ms);
    if guard is None {
        Ok(taken)
    } else if !heard.verified {
        Ok(taken.guarded(plan.file_identity, false))
    } else {
        match heard.lookup {
            Err(error) => Err(error),
            Ok(lookup) => Ok(
                taken.guarded(plan.file_identity, true).looked_up(
                    file->0,
                    guard->0,
                    lookup,
                    heard.later_ms,
                    terms.work_deadline_ms,
                    terms.profile,
                    heard.request_id,
                    terms.profile_hash,
                    terms.build,
                ),
            ),
        }
    }
}

/// The stage after as many plans as were heard of, in plan order.
pub open spec fn plans_heard(
    state: ClassificationRunView,
    plans: Seq<ClassifiedPlanView>,
    heard: Seq<PlanHeard>,
    terms: ClassificationTerms,
) -> Result<ClassificationRunView, CachePortError>
    decreases heard.len(),
{
    if heard.len() == 0 {
        Ok(state)
    } else {
        match plans_heard(state, plans, heard.drop_last(), terms) {
            Err(error) => Err(error),
            Ok(before) => plan_heard(before, plans[heard.len() - 1], heard.last(), terms),
        }
    }
}

/// The stage after a task that was run.
pub open spec fn task_classified(
    state: ClassificationRunView,
    task: ClassificationTaskView,
    heard: ClassifiedHeard,
    work_deadline_ms: u64,
) -> ClassificationRunView {
    let next = state.merged(task, heard.outcome, heard.verified);
    match ClassificationRunView::entry_left(
        task,
        heard.outcome,
        heard.verified,
        heard.ended_ms,
        work_deadline_ms,
    ) {
        None => next,
        Some(record) => next.written(record, heard.written),
    }
}

/// The stage after as many tasks of a wave as were heard of, the first of which is that
/// at `index`.
pub open spec fn classified_wave(
    state: ClassificationRunView,
    index: int,
    heard: Seq<ClassifiedHeard>,
    work_deadline_ms: u64,
) -> ClassificationRunView
    decreases heard.len(),
{
    if heard.len() == 0 {
        state
    } else {
        task_classified(
            classified_wave(state, index, heard.drop_last(), work_deadline_ms),
            state.tasks[index + heard.len() - 1],
            heard.last(),
            work_deadline_ms,
        )
    }
}

/// The stage after the given waves, and the first task that is not in them. No wave is
/// begun once the deadline has come.
pub open spec fn classification_waves(
    state: ClassificationRunView,
    waves: Seq<ClassificationWave>,
    terms: ClassificationTerms,
) -> Option<(ClassificationRunView, int)>
    decreases waves.len(),
{
    if waves.len() == 0 {
        Some((state, 0))
    } else {
        match classification_waves(state, waves.drop_last(), terms) {
            None => None,
            Some((before, index)) => match wave_step(
                index,
                state.tasks.len() as int,
                terms.concurrency,
                waves.last().start_ms,
                terms.work_deadline_ms,
            ) {
                WaveStep::Run(end) => if waves.last().tasks.len() == end - index {
                    Some(
                        (
                            classified_wave(
                                before,
                                index,
                                waves.last().tasks,
                                terms.work_deadline_ms,
                            ),
                            end as int,
                        ),
                    )
                } else {
                    None
                },
                _ => None,
            },
        }
    }
}

/// `run` is the whole stage, for what it was told of its plans and its waves. Where tasks
/// are left, the clock told that the deadline had come at `end_ms`.
pub open spec fn classified_as<
    C: PdfClassifierPort,
    S: CachePort,
    K: Clock,
    G: GuardVerifier,
    R: RequestIds,
>(
    classifier: &C,
    around: Surroundings<'_, S, K, G>,
    ids: &R,
    start: ClassificationRunView,
    plans: Seq<ClassifiedPlanView>,
    heard: Seq<PlanHeard>,
    waves: Seq<ClassificationWave>,
    end_ms: u64,
    terms: ClassificationTerms,
    run: ClassificationRunView,
) -> bool {
    &&& heard.len() == plans.len()
    &&& plan_answers_told(around, ids, plans, heard, terms)
    &&& plans_heard(start, plans, heard, terms) matches Ok(planned)
    &&& classification_waves_told(classifier, around, planned, waves, terms)
    &&& classification_waves(planned, waves, terms) matches Some((ran, index))
    &&& if index >= planned.tasks.len() {
        run == ran.finished()
    } else {
        time_told(around.clock, end_ms) && end_ms >= terms.work_deadline_ms && run
            == ran.abandoned(index).finished()
    }
}

/// What is heard of each plan was told.
pub open spec fn plan_answers_told<S: CachePort, K: Clock, G: GuardVerifier, R: RequestIds>(
    around: Surroundings<'_, S, K, G>,
    ids: &R,
    plans: Seq<ClassifiedPlanView>,
    heard: Seq<PlanHeard>,
    terms: ClassificationTerms,
) -> bool {
    forall|i: int|
        0 <= i < heard.len() ==> plan_told(around, ids, plans[i], #[trigger] heard[i], terms)
}

/// `outcome` is what a stage made of what it was told: the whole stage, or the failure of
/// the cache that ended it.
pub open spec fn stage_classified<
    C: PdfClassifierPort,
    S: CachePort,
    K: Clock,
    G: GuardVerifier,
    R: RequestIds,
>(
    classifier: &C,
    around: Surroundings<'_, S, K, G>,
    ids: &R,
    metrics: ExecutionMetrics,
    plans: Seq<ClassifiedPlanView>,
    terms: ClassificationTerms,
    outcome: Result<ClassificationRunView, DiagnosticView>,
) -> bool {
    let start = no_classifications(metrics);
    match outcome {
        Ok(run) => run.consistent() && exists|
            heard: Seq<PlanHeard>,
            waves: Seq<ClassificationWave>,
            end_ms: u64,
        |
            #[trigger] classified_as(
                classifier,
                around,
                ids,
                start,
                plans,
                heard,
                waves,
                end_ms,
                terms,
                run,
            ),
        Err(failure) => exists|heard: Seq<PlanHeard>, error: CachePortError|
            heard.len() <= plans.len() && plan_answers_told(around, ids, plans, heard, terms)
                && #[trigger] plans_heard(start, plans, heard, terms)
                == Err::<ClassificationRunView, CachePortError>(error) && failure
                == #[trigger] error.diagnostic_view(DiagnosticStage::Cache),
    }
}

/// What a stage or a failure says.
pub open spec fn stage_view(stage: Result<ClassificationRun, SchedulerFailure>) -> Result<
    ClassificationRunView,
    DiagnosticView,
> {
    match stage {
        Ok(run) => Ok(run@),
        Err(failure) => Err(failure.diagnostic@),
    }
}

/// The counts of parses are the same.
pub open spec fn same_parse_counts(before: ExecutionMetrics, after: ExecutionMetrics) -> bool {
    &&& after.parse_cache_lookup_count == before.parse_cache_lookup_count
    &&& after.parse_attempt_count == before.parse_attempt_count
    &&& after.pdfplumber_invocations == before.pdfplumber_invocations
}

/// The stage that has done nothing.
pub open spec fn no_classifications(metrics: ExecutionMetrics) -> ClassificationRunView {
    ClassificationRunView {
        results: Map::empty(),
        runtime_not_parsed: Set::empty(),
        fresh_hits: Seq::empty(),
        tasks: Seq::empty(),
        receipts: Seq::empty(),
        any_lookup: false,
        any_miss: false,
        metrics,
    }
}

/// Giving tasks up counts no parse.
proof fn lemma_abandoned_keeps_parse_counts(state: ClassificationRunView, index: int)
    ensures
        same_parse_counts(state.metrics, state.abandoned(index).metrics),
    decreases state.tasks.len() - index,
{
    if 0 <= index < state.tasks.len() {
        lemma_abandoned_keeps_parse_counts(state, index + 1);
    }
}

fn is_to_be_classified(plan: &ClassifiedPlan) -> (yes: bool)
    ensures
        yes == is_classified(plan@),
{
    match plan.pdf_classification {
        PdfClassificationPlan::Classify { charged_pages: _ } => true,
        _ => false,
    }
}

fn cache_failure(error: &CachePortError) -> (failure: SchedulerFailure)
    ensures
        failure.diagnostic@ == error.diagnostic_view(DiagnosticStage::Cache),
{
    SchedulerFailure { diagnostic: error.diagnostic(DiagnosticStage::Cache) }
}

/// The counts that a stage may add to can take `more` of each.
pub open spec fn classifications_can_grow(metrics: ExecutionMetrics, more: int) -> bool {
    &&& metrics.classification_cache_lookup_count + more <= u64::MAX
    &&& metrics.classify_attempt_count + more <= u64::MAX
    &&& metrics.unobserved_classification_attempt_count + more <= u64::MAX
}

/// Takes one plan up: asks for the time, for the guard of its file and for its cache
/// entry, each only where it is needed.
fn take_up_plan<S: CachePort, K: Clock, G: GuardVerifier, R: RequestIds>(
    run: &mut ClassificationRun,
    plan: &ClassifiedPlan,
    snapshot: &FileSnapshot<'_>,
    profile: &NormalizedScannerProfileV2,
    classifier_profile_hash: &str,
    classifier_build: &str,
    existed_before: &TextSet,
    work_deadline_ms: u64,
    cache: &S,
    clock: &K,
    guards: &G,
    ids: &R,
) -> (taken: (Result<(), SchedulerFailure>, Ghost<PlanHeard>))
    requires
        old(run)@.consistent(),
        classifications_can_grow(old(run)@.metrics, 1),
    ensures
        ({
            let terms = ClassificationTerms {
                files: snapshot.files(),
                known: existed_before@,
                profile: profile@,
                profile_hash: classifier_profile_hash@,
                build: classifier_build@,
                concurrency: 0,
                work_deadline_ms,
            };
            &&& plan_told(Surroundings { cache, clock, guards }, ids, plan@, taken.1@, terms)
            &&& match plan_heard(old(run)@, plan@, taken.1@, terms) {
                Ok(next) => taken.0 is Ok && final(run)@ == next && next.consistent(),
                Err(error) => taken.0 is Err && (taken.0->Err_0).diagnostic@
                    == error.diagnostic_view(DiagnosticStage::Cache),
            }
        }),
        taken.0 is Ok ==> final(run)@.tasks.len() <= old(run)@.tasks.len() + 1,
        taken.0 is Ok ==> grown_by(old(run)@.metrics, final(run)@.metrics, 1),
        taken.0 is Ok ==> same_parse_counts(old(run)@.metrics, final(run)@.metrics),
{
    let ghost before = run@;
    let ghost mut heard = PlanHeard {
        now_ms: 0,
        verified: false,
        lookup: Err(CachePortError::Store { detail: arbitrary() }),
        later_ms: 0,
        request_id: Seq::empty(),
    };
    let file: Option<&DiscoveredFileOut> = snapshot.get(plan.file_identity.as_str());
    let wanted: bool = is_to_be_classified(plan) && file.is_some();
    let now_ms: u64 = if wanted {
        clock.now_ms()
    } else {
        0
    };
    proof {
        heard = PlanHeard { now_ms, ..heard };
    }
    let guard: Option<SourceGuardV2> = run.take_up(plan, file, now_ms, work_deadline_ms);
    let ghost taken = run@;
    let guard: SourceGuardV2 = match guard {
        None => {
            return (Ok(()), Ghost(heard));
        },
        Some(guard) => guard,
    };
    let file: &DiscoveredFileOut = match file {
        None => {
            return (Ok(()), Ghost(heard));
        },
        Some(file) => file,
    };
    let verified: bool = guards.verify(file.path.as_str(), &guard);
    proof {
        heard = PlanHeard { verified, ..heard };
    }
    run.guard_checked(plan.file_identity.as_str(), verified);
    if !verified {
        return (Ok(()), Ghost(heard));
    }
    let known: bool = existed_before.contains(plan.file_identity.as_str());
    let answer: Result<ClassificationCacheLookup, CachePortError> = cache.lookup_classification(
        file,
        classifier_profile_hash,
        classifier_build,
        known,
    );
    let lookup: ClassificationCacheLookup = match answer {
        Err(error) => {
            proof {
                heard = PlanHeard { lookup: Err(error), ..heard };
            }
            return (Err(cache_failure(&error)), Ghost(heard));
        },
        Ok(lookup) => lookup,
    };
    let missed: bool = match &lookup {
        ClassificationCacheLookup::Fresh(_) => false,
        ClassificationCacheLookup::Miss(_) => true,
    };
    let later_ms: u64 = if missed {
        clock.now_ms()
    } else {
        0
    };
    let request_id: String = if missed && later_ms < work_deadline_ms {
        ids.next_request_id()
    } else {
        String::new()
    };
    proof {
        heard = PlanHeard {
            lookup: Ok(lookup@),
            later_ms,
            request_id: request_id@,
            ..heard
        };
    }
    run.lookup_answered(
        file,
        guard,
        lookup,
        later_ms,
        work_deadline_ms,
        profile,
        request_id,
        classifier_profile_hash,
        classifier_build,
    );
    (Ok(()), Ghost(heard))
}

/// Plans added at most `more` lookups and attempts, and no attempt without pages.
pub open spec fn grown_by(
    before: ExecutionMetrics,
    after: ExecutionMetrics,
    more: int,
) -> bool {
    &&& after.classification_cache_lookup_count <= before.classification_cache_lookup_count + more
    &&& after.classify_attempt_count <= before.classify_attempt_count + more
    &&& after.unobserved_classification_attempt_count
        == before.unobserved_classification_attempt_count
}

/// Tasks added at most `more` attempts without pages.
pub open spec fn unobserved_by(
    before: ExecutionMetrics,
    after: ExecutionMetrics,
    more: int,
) -> bool {
    after.unobserved_classification_attempt_count
        <= before.unobserved_classification_attempt_count + more
}

/// Runs one wave of tasks, from `index` to before `end`, and merges what came of them in
/// their order. A classification that may be cached is written at once; a write that
/// fails changes nothing.
fn execute_classification_wave<C: PdfClassifierPort, S: CachePort, K: Clock, G: GuardVerifier>(
    run: &mut ClassificationRun,
    index: usize,
    end: usize,
    work_deadline_ms: u64,
    classifier: &C,
    cache: &S,
    clock: &K,
    guards: &G,
) -> (heard: Ghost<ClassificationWave>)
    requires
        index <= end <= old(run).tasks@.len(),
        old(run)@.consistent(),
        old(run)@.metrics.unobserved_classification_attempt_count + (end - index) <= u64::MAX,
    ensures
        heard@.tasks.len() == end - index,
        final(run)@ == classified_wave(
            old(run)@,
            index as int,
            heard@.tasks,
            work_deadline_ms,
        ),
        forall|terms: ClassificationTerms|
            terms.work_deadline_ms == work_deadline_ms ==> #[trigger] classification_wave_told(
                classifier,
                Surroundings { cache, clock, guards },
                old(run)@.tasks,
                index as int,
                heard@,
                terms,
            ),
        final(run)@.tasks == old(run)@.tasks,
        final(run)@.consistent(),
        unobserved_by(old(run)@.metrics, final(run)@.metrics, end - index),
        same_parse_counts(old(run)@.metrics, final(run)@.metrics),
{
    let ghost start = run@;
    let now_ms: u64 = clock.now_ms();
    let mut calls: Vec<ClassifyCall> = Vec::new();
    let mut i: usize = index;
    assert(views(calls@) =~= wave_calls(start.tasks, index as int, 0, now_ms, work_deadline_ms));
    while i < end
        invariant
            index <= i <= end <= run.tasks@.len(),
            run@ == start,
            views(calls@) == wave_calls(
                start.tasks,
                index as int,
                (i - index) as nat,
                now_ms,
                work_deadline_ms,
            ),
        decreases end - i,
    {
        assert(start.tasks[i as int] == run.tasks@[i as int]@);
        let ghost so_far = views(calls@);
        let call = ClassifyCall {
            request: run.tasks[i].request.clone(),
            timeout_ms: dispatch_timeout_ms(
                run.tasks[i].own_timeout_ms,
                work_deadline_ms,
                now_ms,
            ),
        };
        calls.push(call);
        proof {
            assert(views(calls@) =~= so_far.push(call@));
            assert(so_far.push(call@) =~= wave_calls(
                start.tasks,
                index as int,
                (i + 1 - index) as nat,
                now_ms,
                work_deadline_ms,
            ));
        }
        i = i + 1;
    }
    let outcomes: Vec<Result<PdfClassifierResultV1, ParseFailure>> = classifier.classify_pdfs(
        &calls,
    );
    let ghost mut heard: Seq<ClassifiedHeard> = Seq::empty();
    let mut k: usize = 0;
    let ghost around = Surroundings { cache, clock, guards };
    assert(views(calls@).len() == calls@.len());
    while k < end - index
        invariant
            index <= end <= run.tasks@.len(),
            k <= end - index,
            end - index == outcomes@.len(),
            start.tasks.len() == run.tasks@.len(),
            around == (Surroundings { cache, clock, guards }),
            heard.len() == k,
            run@ == classified_wave(start, index as int, heard, work_deadline_ms),
            forall|i: int| 0 <= i < k ==> (#[trigger] heard[i]).outcome == outcomes@[i],
            forall|i: int, terms: ClassificationTerms|
                0 <= i < k && terms.work_deadline_ms == work_deadline_ms
                    ==> #[trigger] classified_told(
                    around,
                    start.tasks[index + i],
                    heard[i],
                    terms,
                ),
            run@.tasks == start.tasks,
            run@.consistent(),
            start.metrics.unobserved_classification_attempt_count + (end - index) <= u64::MAX,
            unobserved_by(start.metrics, run@.metrics, k as int),
            same_parse_counts(start.metrics, run@.metrics),
        decreases end - index - k,
    {
        let ghost before = run@;
        let ghost so_far = heard;
        let task: ClassificationTask = run.tasks[index + k].clone();
        assert(run@.tasks[index + k] == run.tasks@[index + k]@);
        let verified: bool = guards.verify(task.file.path.as_str(), &task.guard);
        let ended_ms: u64 = if verified {
            clock.now_ms()
        } else {
            0
        };
        let record: Option<ClassificationCacheWriteRecord> = run.merge(
            &task,
            &outcomes[k],
            verified,
            ended_ms,
            work_deadline_ms,
        );
        let ghost mut told = ClassifiedHeard {
            outcome: outcomes@[k as int],
            verified,
            ended_ms,
            write_ms: 0,
            written: Ok(()),
        };
        assert(guard_told(guards, task@.file.path, task@.guard, verified));
        if let Some(entry) = record {
            let entries: Vec<ClassificationCacheWriteRecord> = vec![entry.clone()];
            let write_ms: u64 = clock.now_ms();
            let written: Result<(), CachePortError> = cache.write_classification(
                write_ms,
                &entries,
            );
            run.write_done(entry, &written);
            proof {
                told = ClassifiedHeard { write_ms, written, ..told };
                assert(views(entries@) =~= seq![entry@]);
                assert(classification_write_told(cache, write_ms, entry@, written));
            }
        }
        proof {
            heard = heard.push(told);
            assert(heard.drop_last() =~= so_far);
            assert(run@ == task_classified(before, task@, told, work_deadline_ms));
            assert forall|i: int, terms: ClassificationTerms|
                0 <= i < k + 1 && terms.work_deadline_ms
                    == work_deadline_ms implies #[trigger] classified_told(
                around,
                start.tasks[index + i],
                heard[i],
                terms,
            ) by {
                if i < k {
                    assert(heard[i] == so_far[i]);
                    assert(classified_told(around, start.tasks[index + i], so_far[i], terms));
                }
            }
        }
        k = k + 1;
    }
    let ghost wave = ClassificationWave { start_ms: 0, later_ms: now_ms, tasks: heard };
    proof {
        assert(heard.map_values(|told: ClassifiedHeard| told.outcome) =~= outcomes@);
        assert(classifications_told(
            classifier,
            wave_calls(start.tasks, index as int, heard.len(), now_ms, work_deadline_ms),
            heard.map_values(|told: ClassifiedHeard| told.outcome),
        ));
        assert forall|terms: ClassificationTerms|
            terms.work_deadline_ms == work_deadline_ms implies #[trigger] classification_wave_told(
            classifier,
            around,
            start.tasks,
            index as int,
            wave,
            terms,
        ) by {
            assert forall|i: int| 0 <= i < wave.tasks.len() implies classified_told(
                around,
                start.tasks[index + i],
                #[trigger] wave.tasks[i],
                terms,
            ) by {
                assert(classified_told(around, start.tasks[index + i], heard[i], terms));
            }
        }
    }
    Ghost(wave)
}

/// Classifies what is planned. First every plan is taken up, in plan order; then the
/// tasks are run in waves of at most `concurrency`, each begun only while time is left.
/// A cache that cannot be asked ends the run.
pub fn run_classifications<
    C: PdfClassifierPort,
    S: CachePort,
    K: Clock,
    G: GuardVerifier,
    R: RequestIds,
>(
    classified: &Vec<ClassifiedPlan>,
    snapshot: &FileSnapshot<'_>,
    profile: &NormalizedScannerProfileV2,
    classifier_profile_hash: &str,
    classifier_build: &str,
    existed_before: &TextSet,
    metrics: ExecutionMetrics,
    concurrency: usize,
    work_deadline_ms: u64,
    classifier: &C,
    cache: &S,
    clock: &K,
    guards: &G,
    ids: &R,
) -> (stage: Result<ClassificationRun, SchedulerFailure>)
    requires
        concurrency > 0,
        classifications_can_grow(metrics, classified@.len() as int),
    ensures
        ({
            let terms = ClassificationTerms {
                files: snapshot.files(),
                known: existed_before@,
                profile: profile@,
                profile_hash: classifier_profile_hash@,
                build: classifier_build@,
                concurrency: concurrency as int,
                work_deadline_ms,
            };
            stage_classified(
                classifier,
                Surroundings { cache, clock, guards },
                ids,
                metrics,
                views(classified@),
                terms,
                stage_view(stage),
            )
        }),
        stage matches Ok(run) ==> same_parse_counts(metrics, run.metrics),
{
    let ghost terms = ClassificationTerms {
        files: snapshot.files(),
        known: existed_before@,
        profile: profile@,
        profile_hash: classifier_profile_hash@,
        build: classifier_build@,
        concurrency: concurrency as int,
        work_deadline_ms,
    };
    let ghost plans = views(classified@);
    let ghost around = Surroundings { cache, clock, guards };
    let mut run: ClassificationRun = ClassificationRun::new(metrics);
    let ghost start = run@;
    assert(start =~= no_classifications(metrics));
    let ghost mut heard: Seq<PlanHeard> = Seq::empty();
    let mut i: usize = 0;
    while i < classified.len()
        invariant
            i <= classified.len(),
            start == no_classifications(metrics),
            plans == views(classified@),
            terms == (ClassificationTerms {
                files: snapshot.files(),
                known: existed_before@,
                profile: profile@,
                profile_hash: classifier_profile_hash@,
                build: classifier_build@,
                concurrency: concurrency as int,
                work_deadline_ms,
            }),
            around == (Surroundings { cache, clock, guards }),
            heard.len() == i,
            plan_answers_told(around, ids, plans, heard, terms),
            plans_heard(start, plans, heard, terms) == Ok::<ClassificationRunView, CachePortError>(
                run@,
            ),
            run@.consistent(),
            run@.tasks.len() <= i,
            classifications_can_grow(metrics, classified@.len() as int),
            grown_by(metrics, run@.metrics, i as int),
            same_parse_counts(metrics, run@.metrics),
        decreases classified.len() - i,
    {
        let ghost so_far = heard;
        assert(plans[i as int] == classified@[i as int]@);
        let (taken, Ghost(told)): (Result<(), SchedulerFailure>, Ghost<PlanHeard>) = take_up_plan(
            &mut run,
            &classified[i],
            snapshot,
            profile,
            classifier_profile_hash,
            classifier_build,
            existed_before,
            work_deadline_ms,
            cache,
            clock,
            guards,
            ids,
        );
        proof {
            heard = heard.push(told);
            assert(heard.drop_last() =~= so_far);
            assert(plan_told(around, ids, plans[i as int], told, terms));
            assert(plan_answers_told(around, ids, plans, heard, terms)) by {
                assert forall|j: int| 0 <= j < heard.len() implies plan_told(
                    around,
                    ids,
                    plans[j],
                    #[trigger] heard[j],
                    terms,
                ) by {
                    if j < i {
                        assert(heard[j] == so_far[j]);
                    }
                }
            }
        }
        if let Err(failure) = taken {
            proof {
                let error = plans_heard(start, plans, heard, terms)->Err_0;
                assert(failure.diagnostic@ == error.diagnostic_view(DiagnosticStage::Cache));
            }
            return Err(failure);
        }
        i = i + 1;
    }
    let ghost planned = run@;
    let ghost mut waves: Seq<ClassificationWave> = Seq::empty();
    let count: usize = run.tasks.len();
    let mut index: usize = 0;
    let mut now_ms: u64 = 0;
    let mut cut: bool = false;
    while index < count && !cut
        invariant
            index <= count,
            concurrency > 0,
            terms.concurrency == concurrency,
            terms.work_deadline_ms == work_deadline_ms,
            count == planned.tasks.len(),
            count == run.tasks@.len(),
            count <= classified@.len(),
            run@.tasks == planned.tasks,
            around == (Surroundings { cache, clock, guards }),
            classification_waves_told(classifier, around, planned, waves, terms),
            cut ==> time_told(clock, now_ms),
            !cut ==> classification_waves(planned, waves, terms) == Some((run@, index as int)),
            cut ==> classification_waves(planned, waves, terms) is Some,
            cut ==> ({
                let (ran, at) = classification_waves(planned, waves, terms)->0;
                at == index && index < count && run@ == ran.abandoned(at) && now_ms
                    >= work_deadline_ms
            }),
            run@.consistent(),
            classifications_can_grow(metrics, classified@.len() as int),
            !cut ==> unobserved_by(metrics, run@.metrics, index as int),
            same_parse_counts(metrics, run@.metrics),
        decreases count - index, (if cut { 0int } else { 1int }),
    {
        now_ms = clock.now_ms();
        match next_wave(index, count, concurrency, now_ms, work_deadline_ms) {
            WaveStep::Run(end) => {
                let ghost before = run@;
                let ghost so_far = waves;
                let Ghost(told): Ghost<ClassificationWave> = execute_classification_wave(
                    &mut run,
                    index,
                    end,
                    work_deadline_ms,
                    classifier,
                    cache,
                    clock,
                    guards,
                );
                proof {
                    let wave = ClassificationWave { start_ms: now_ms, ..told };
                    assert(classification_wave_told(
                        classifier,
                        around,
                        planned.tasks,
                        index as int,
                        told,
                        terms,
                    ));
                    waves = waves.push(wave);
                    assert(waves.drop_last() =~= so_far);
                }
                index = end;
            },
            _ => {
                proof {
                    law_abandoned_classifications_are_cut_off(run@, index as int);
                    lemma_abandoned_keeps_parse_counts(run@, index as int);
                }
                run.abandon(index);
                cut = true;
            },
        }
    }
    let ghost ran = run@;
    run.finish();
    proof {
        assert(ran.finished().consistent());
        assert(classified_as(
            classifier,
            around,
            ids,
            start,
            plans,
            heard,
            waves,
            now_ms,
            terms,
            run@,
        ));
    }
    Ok(run)
}

// ---------------------------------------------------------------------------
// Parses
// ---------------------------------------------------------------------------

/// What is heard while an admission decision is taken up: what the cache holds, whether
/// the file is still the discovered one, and the time, read twice. What is not asked may
/// be anything.
#[verifier::ext_equal]
pub struct DecisionHeard {
    pub lookup: Result<ParseLookupOutcomeView, CachePortError>,
    pub verified: bool,
    pub now_ms: u64,
    pub later_ms: u64,
}

/// What the decisions of a stage are taken up with.
#[verifier::ext_equal]
pub struct ParseTerms {
    pub files: Seq<DiscoveredFileOutView>,
    /// The identities that were known before the run.
    pub known: Set<Seq<char>>,
    pub cut_off: Set<Seq<char>>,
    pub classifications: Map<Seq<char>, PdfClassificationResultView>,
    pub execution: ExecutionProfileView,
    pub workers: WorkerIdentitiesView,
    pub engine: EngineIdentityView,
    pub concurrency: int,
    pub work_deadline_ms: u64,
}

/// What is heard when a parse is over: its result, whether the file is still the
/// discovered one, the time, what became of its cache entry at what time, and the name of
/// its backend.
#[verifier::ext_equal]
pub struct ParsedHeard {
    pub result: ParseResultView,
    pub verified: bool,
    pub now_ms: u64,
    pub write_ms: u64,
    pub written: Result<(), CachePortError>,
    pub backend: Seq<char>,
}

/// What is heard of a wave: the time at which it began, the time at which its tasks were
/// prepared, whether the file of each of them was still the discovered one, and what came
/// of those that were run.
#[verifier::ext_equal]
pub struct ParseWave {
    pub start_ms: u64,
    pub later_ms: u64,
    pub verified: Seq<bool>,
    pub tasks: Seq<ParsedHeard>,
}

/// What is heard while a decision is taken up was told: what the cache has of the file,
/// whether the guard of a cached file holds, and the time, each as far as it is needed.
pub open spec fn decision_told<S: CachePort, K: Clock, G: GuardVerifier>(
    around: Surroundings<'_, S, K, G>,
    decision: AdmissionDecisionView,
    heard: DecisionHeard,
    terms: ParseTerms,
) -> bool {
    let found = file_of(terms.files, decision.file_identity);
    lookup_route(decision, found, terms.cut_off, terms.classifications) matches Some(route) ==> {
        &&& parse_lookup_told(
            around.cache,
            found->0,
            route,
            terms.known.contains(decision.file_identity),
            heard.lookup,
        )
        &&& heard.lookup matches Ok(outcome) ==> if outcome.lookup is Fresh {
            file_guard_told(around.guards, found->0, heard.verified)
        } else {
            &&& time_told(around.clock, heard.now_ms)
            &&& heard.now_ms < terms.work_deadline_ms ==> time_told(around.clock, heard.later_ms)
        }
    }
}

/// What is heard of each decision was told.
pub open spec fn decision_answers_told<S: CachePort, K: Clock, G: GuardVerifier>(
    around: Surroundings<'_, S, K, G>,
    decisions: Seq<AdmissionDecisionView>,
    heard: Seq<DecisionHeard>,
    terms: ParseTerms,
) -> bool {
    forall|i: int|
        0 <= i < heard.len() ==> decision_told(around, decisions[i], #[trigger] heard[i], terms)
}

/// What is heard of a task that was run was told: whether the guard of the file of a
/// success holds, the time, and what became of its cache entry.
pub open spec fn parsed_told<P: ParserPort, S: CachePort, K: Clock, G: GuardVerifier>(
    parser: &P,
    around: Surroundings<'_, S, K, G>,
    task: ParseTaskView,
    heard: ParsedHeard,
    terms: ParseTerms,
) -> bool {
    &&& if heard.result.parse_status == ParseStatus::Success {
        file_guard_told(around.guards, task.file, heard.verified)
    } else {
        !heard.verified
    }
    &&& heard.verified ==> time_told(around.clock, heard.now_ms)
    &&& ParseRunView::entry_left(
        task,
        heard.result,
        heard.verified,
        heard.now_ms,
        terms.work_deadline_ms,
        terms.workers,
        terms.engine,
    ) matches Some(record) ==> {
        &&& time_told(around.clock, heard.write_ms)
        &&& parse_write_told(around.cache, heard.write_ms, record, heard.written)
        &&& backend_told(parser, task.route, heard.backend)
    }
}

/// The request for a task that is run with so much time left.
pub open spec fn request_of(task: ParseTaskView, remaining: u64) -> ParseRequestView {
    ParseRequestView {
        file: task.file,
        route: task.route,
        timeout_ms: smaller(task.own_timeout_ms, remaining),
    }
}

/// The requests for the tasks that are run.
pub open spec fn requests_of(tasks: Seq<ParseTaskView>, remaining: u64) -> Seq<ParseRequestView> {
    tasks.map_values(|task: ParseTaskView| request_of(task, remaining))
}

/// What is heard of a wave was told: the time, whether the guard of each file holds, the
/// result of each request, and what is heard of each task that was run.
pub open spec fn parse_wave_told<P: ParserPort, S: CachePort, K: Clock, G: GuardVerifier>(
    parser: &P,
    around: Surroundings<'_, S, K, G>,
    state: ParseRunView,
    index: int,
    wave: ParseWave,
    terms: ParseTerms,
) -> bool {
    let remaining = remaining_ms(terms.work_deadline_ms, wave.later_ms);
    let chosen = prepared_wave(state, index, wave.verified, remaining).1;
    &&& time_told(around.clock, wave.later_ms)
    &&& forall|i: int|
        0 <= i < wave.verified.len() ==> file_guard_told(
            around.guards,
            state.tasks[index + i].file,
            #[trigger] wave.verified[i],
        )
    &&& parses_told(
        parser,
        requests_of(chosen, remaining),
        wave.tasks.map_values(|heard: ParsedHeard| heard.result),
    )
    &&& forall|i: int|
        0 <= i < wave.tasks.len() ==> parsed_told(
            parser,
            around,
            chosen[i],
            #[trigger] wave.tasks[i],
            terms,
        )
}

/// What is heard of each wave was told.
pub open spec fn parse_waves_told<P: ParserPort, S: CachePort, K: Clock, G: GuardVerifier>(
    parser: &P,
    around: Surroundings<'_, S, K, G>,
    state: ParseRunView,
    waves: Seq<ParseWave>,
    terms: ParseTerms,
) -> bool
    decreases waves.len(),
{
    waves.len() > 0 ==> {
        &&& parse_waves_told(parser, around, state, waves.drop_last(), terms)
        &&& time_told(around.clock, waves.last().start_ms)
        &&& parse_waves(state, waves.drop_last(), terms) matches Some((before, index))
            ==> parse_wave_told(parser, around, before, index, waves.last(), terms)
    }
}

/// The stage after a decision. A cache that fails ends it.
pub open spec fn decision_heard(
    state: ParseRunView,
    decision: AdmissionDecisionView,
    heard: DecisionHeard,
    terms: ParseTerms,
) -> Result<ParseRunView, CachePortError> {
    let file = file_of(terms.files, decision.file_identity);
    let taken = state.taken_up(decision, file, terms.cut_off, terms.classifications);
    match lookup_route(decision, file, terms.cut_off, terms.classifications) {
        None => Ok(taken),
        Some(route) => match heard.lookup {
            Err(error) => Err(error),
            Ok(outcome) => Ok(
                taken.answered(
                    file->0,
                    route,
                    outcome,
                    heard.verified,
                    heard.now_ms,
                    heard.later_ms,
                    terms.work_deadline_ms,
                    terms.execution,
                ),
            ),
        },
    }
}

/// The stage after as many decisions as were heard of, in their order.
pub open spec fn decisions_heard(
    state: ParseRunView,
    decisions: Seq<AdmissionDecisionView>,
    heard: Seq<DecisionHeard>,
    terms: ParseTerms,
) -> Result<ParseRunView, CachePortError>
    decreases heard.len(),
{
    if heard.len() == 0 {
        Ok(state)
    } else {
        match decisions_heard(state, decisions, heard.drop_last(), terms) {
            Err(error) => Err(error),
            Ok(before) => decision_heard(
                before,
                decisions[heard.len() - 1],
                heard.last(),
                terms,
            ),
        }
    }
}

/// The stage after as many tasks of a wave were prepared as were heard of, the first of
/// which is that at `index`, and those of them that are run.
pub open spec fn prepared_wave(
    state: ParseRunView,
    index: int,
    verified: Seq<bool>,
    remaining: u64,
) -> (ParseRunView, Seq<ParseTaskView>)
    decreases verified.len(),
{
    if verified.len() == 0 {
        (state, Seq::empty())
    } else {
        let (before, chosen) = prepared_wave(state, index, verified.drop_last(), remaining);
        let task = state.tasks[index + verified.len() - 1];
        let (next, request) = before.dispatched(task, verified.last(), remaining);
        (
            next,
            if request is Some {
                chosen.push(task)
            } else {
                chosen
            },
        )
    }
}

/// The stage after a task that was run.
pub open spec fn task_parsed(
    state: ParseRunView,
    task: ParseTaskView,
    heard: ParsedHeard,
    terms: ParseTerms,
) -> ParseRunView {
    let next = state.parsed(task, heard.result, heard.verified);
    match ParseRunView::entry_left(
        task,
        heard.result,
        heard.verified,
        heard.now_ms,
        terms.work_deadline_ms,
        terms.workers,
        terms.engine,
    ) {
        None => next,
        Some(record) => next.written(record, heard.written, task.file.path, heard.backend),
    }
}

/// The stage after as many of the chosen tasks as were heard of.
pub open spec fn parsed_wave(
    state: ParseRunView,
    chosen: Seq<ParseTaskView>,
    heard: Seq<ParsedHeard>,
    terms: ParseTerms,
) -> ParseRunView
    decreases heard.len(),
{
    if heard.len() == 0 {
        state
    } else {
        task_parsed(
            parsed_wave(state, chosen, heard.drop_last(), terms),
            chosen[heard.len() - 1],
            heard.last(),
            terms,
        )
    }
}

/// The stage after the given waves, and the first task that is not in them. No wave is
/// begun once the deadline has come.
pub open spec fn parse_waves(state: ParseRunView, waves: Seq<ParseWave>, terms: ParseTerms) -> Option<
    (ParseRunView, int),
>
    decreases waves.len(),
{
    if waves.len() == 0 {
        Some((state, 0))
    } else {
        match parse_waves(state, waves.drop_last(), terms) {
            None => None,
            Some((before, index)) => match wave_step(
                index,
                state.tasks.len() as int,
                terms.concurrency,
                waves.last().start_ms,
                terms.work_deadline_ms,
            ) {
                WaveStep::Run(end) => {
                    let (prepared, chosen) = prepared_wave(
                        before,
                        index,
                        waves.last().verified,
                        remaining_ms(terms.work_deadline_ms, waves.last().later_ms),
                    );
                    if waves.last().verified.len() == end - index && waves.last().tasks.len()
                        == chosen.len() {
                        Some(
                            (parsed_wave(prepared, chosen, waves.last().tasks, terms), end as int),
                        )
                    } else {
                        None
                    }
                },
                _ => None,
            },
        }
    }
}

/// `run` is the whole stage, for what it was told of its decisions and its waves. Where
/// tasks are left, the clock told that the deadline had come at `end_ms`.
pub open spec fn parsed_as<P: ParserPort, S: CachePort, K: Clock, G: GuardVerifier>(
    parser: &P,
    around: Surroundings<'_, S, K, G>,
    start: ParseRunView,
    decisions: Seq<AdmissionDecisionView>,
    heard: Seq<DecisionHeard>,
    waves: Seq<ParseWave>,
    end_ms: u64,
    terms: ParseTerms,
    run: ParseRunView,
) -> bool {
    &&& heard.len() == decisions.len()
    &&& decision_answers_told(around, decisions, heard, terms)
    &&& decisions_heard(start, decisions, heard, terms) matches Ok(planned)
    &&& parse_waves_told(parser, around, planned, waves, terms)
    &&& parse_waves(planned, waves, terms) matches Some((ran, index))
    &&& if index >= planned.tasks.len() {
        run == ran.finished()
    } else {
        time_told(around.clock, end_ms) && end_ms >= terms.work_deadline_ms && run
            == ran.abandoned(index).finished()
    }
}

/// `outcome` is what a stage made of what it was told: the whole stage, or the failure of
/// the cache that ended it.
pub open spec fn stage_parsed<P: ParserPort, S: CachePort, K: Clock, G: GuardVerifier>(
    parser: &P,
    around: Surroundings<'_, S, K, G>,
    metrics: ExecutionMetrics,
    decisions: Seq<AdmissionDecisionView>,
    terms: ParseTerms,
    outcome: Result<ParseRunView, DiagnosticView>,
) -> bool {
    let start = no_parses(metrics);
    match outcome {
        Ok(run) => exists|heard: Seq<DecisionHeard>, waves: Seq<ParseWave>, end_ms: u64|
            #[trigger] parsed_as(
                parser,
                around,
                start,
                decisions,
                heard,
                waves,
                end_ms,
                terms,
                run,
            ),
        Err(failure) => exists|heard: Seq<DecisionHeard>, error: CachePortError|
            heard.len() <= decisions.len() && decision_answers_told(
                around,
                decisions,
                heard,
                terms,
            ) && #[trigger] decisions_heard(
                start,
                decisions,
                heard,
                terms,
            ) == Err::<ParseRunView, CachePortError>(error) && failure
                == #[trigger] error.diagnostic_view(DiagnosticStage::Cache),
    }
}

/// What a stage or a failure says.
pub open spec fn parse_stage_view(stage: Result<ParseRun, SchedulerFailure>) -> Result<
    ParseRunView,
    DiagnosticView,
> {
    match stage {
        Ok(run) => Ok(run@),
        Err(failure) => Err(failure.diagnostic@),
    }
}

/// The stage that has done nothing.
pub open spec fn no_parses(metrics: ExecutionMetrics) -> ParseRunView {
    ParseRunView {
        outputs: no_outputs(),
        tasks: Seq::empty(),
        any_lookup: false,
        any_miss: false,
        metrics,
    }
}

/// The counts that a stage may add to can take `more` of each.
pub open spec fn parses_can_grow(metrics: ExecutionMetrics, more: int) -> bool {
    &&& metrics.parse_cache_lookup_count + more <= u64::MAX
    &&& metrics.parse_attempt_count + more <= u64::MAX
    &&& metrics.pdfplumber_invocations + more <= u64::MAX
}

/// No count grew by more than `more`.
pub open spec fn parses_grown_by(
    before: ExecutionMetrics,
    after: ExecutionMetrics,
    more: int,
) -> bool {
    &&& after.parse_cache_lookup_count <= before.parse_cache_lookup_count + more
    &&& after.parse_attempt_count <= before.parse_attempt_count + more
    &&& after.pdfplumber_invocations <= before.pdfplumber_invocations + more
}

/// Takes one decision up: asks for the cache entry of its file, for the guard of a file
/// that is cached, and for the time where one is not.
fn take_up_decision<S: CachePort, K: Clock, G: GuardVerifier>(
    run: &mut ParseRun,
    decision: &AdmissionDecision,
    snapshot: &FileSnapshot<'_>,
    cut_off: &TextSet,
    classifications: &TextMap<PdfClassificationResult>,
    execution: &ExecutionProfile,
    existed_before: &TextSet,
    work_deadline_ms: u64,
    cache: &S,
    clock: &K,
    guards: &G,
    Ghost(terms): Ghost<ParseTerms>,
) -> (taken: (Result<(), SchedulerFailure>, Ghost<DecisionHeard>))
    requires
        parses_can_grow(old(run)@.metrics, 1),
        terms.files == snapshot.files(),
        terms.known == existed_before@,
        terms.cut_off == cut_off@,
        terms.classifications == map_views(classifications@),
        terms.execution == execution@,
        terms.work_deadline_ms == work_deadline_ms,
    ensures
        decision_told(Surroundings { cache, clock, guards }, decision@, taken.1@, terms),
        match decision_heard(old(run)@, decision@, taken.1@, terms) {
            Ok(next) => taken.0 is Ok && final(run)@ == next,
            Err(error) => taken.0 is Err && (taken.0->Err_0).diagnostic@ == error.diagnostic_view(
                DiagnosticStage::Cache,
            ),
        },
        taken.0 is Ok ==> final(run)@.tasks.len() <= old(run)@.tasks.len() + 1,
        taken.0 is Ok ==> parses_grown_by(old(run)@.metrics, final(run)@.metrics, 1),
{
    let ghost mut heard = DecisionHeard {
        lookup: Err(CachePortError::Store { detail: arbitrary() }),
        verified: false,
        now_ms: 0,
        later_ms: 0,
    };
    let file: Option<&DiscoveredFileOut> = snapshot.get(decision.file_identity.as_str());
    let route: Option<RouteKind> = run.take_up(decision, file, cut_off, classifications);
    let route: RouteKind = match route {
        None => {
            return (Ok(()), Ghost(heard));
        },
        Some(route) => route,
    };
    let file: &DiscoveredFileOut = match file {
        None => {
            return (Ok(()), Ghost(heard));
        },
        Some(file) => file,
    };
    let known: bool = existed_before.contains(decision.file_identity.as_str());
    let outcome: ParseLookupOutcome = match cache.lookup_parse(file, route, known) {
        Err(error) => {
            proof {
                heard = DecisionHeard { lookup: Err(error), ..heard };
            }
            return (Err(cache_failure(&error)), Ghost(heard));
        },
        Ok(outcome) => outcome,
    };
    let verified: bool = match guard_to_check(file, &outcome.lookup) {
        None => false,
        Some(guard) => guards.verify(file.path.as_str(), &guard),
    };
    let missed: bool = match &outcome.lookup {
        CacheLookup::Fresh(_) => false,
        CacheLookup::Miss(_) => true,
    };
    let now_ms: u64 = if missed {
        clock.now_ms()
    } else {
        0
    };
    let later_ms: u64 = if missed && now_ms < work_deadline_ms {
        clock.now_ms()
    } else {
        0
    };
    proof {
        heard = DecisionHeard { lookup: Ok(outcome@), verified, now_ms, later_ms };
    }
    run.lookup_answered(
        file,
        route,
        outcome,
        verified,
        now_ms,
        later_ms,
        work_deadline_ms,
        execution,
    );
    (Ok(()), Ghost(heard))
}

/// Merges what came of one task that was run, and writes its cache entry where it leaves
/// one.
fn merge_parse<P: ParserPort, S: CachePort, K: Clock, G: GuardVerifier>(
    run: &mut ParseRun,
    task: &ParseTask,
    result: ParseResult,
    workers: &WorkerIdentities,
    engine: &EngineIdentity,
    work_deadline_ms: u64,
    parser: &P,
    cache: &S,
    clock: &K,
    guards: &G,
    Ghost(terms): Ghost<ParseTerms>,
) -> (heard: Ghost<ParsedHeard>)
    requires
        terms.workers == workers@,
        terms.engine == engine@,
        terms.work_deadline_ms == work_deadline_ms,
    ensures
        heard@.result == result@,
        parsed_told(parser, Surroundings { cache, clock, guards }, task@, heard@, terms),
        final(run)@ == task_parsed(old(run)@, task@, heard@, terms),
        final(run)@.tasks == old(run)@.tasks,
        final(run)@.metrics == old(run)@.metrics,
{
    let succeeded: bool = result.parse_status == ParseStatus::Success;
    let verified: bool = if succeeded {
        match expected_guard(&task.file) {
            None => false,
            Some(guard) => guards.verify(task.file.path.as_str(), &guard),
        }
    } else {
        false
    };
    let now_ms: u64 = if verified {
        clock.now_ms()
    } else {
        0
    };
    let ghost told = result@;
    let record: Option<CacheWriteRecord> = run.merge(
        task,
        result,
        verified,
        now_ms,
        work_deadline_ms,
        workers,
        engine,
    );
    match record {
        None => Ghost(
            ParsedHeard {
                result: told,
                verified,
                now_ms,
                write_ms: 0,
                written: Ok(()),
                backend: Seq::empty(),
            },
        ),
        Some(entry) => {
            let entries: Vec<CacheWriteRecord> = vec![entry.clone()];
            let write_ms: u64 = clock.now_ms();
            let written: Result<(), CachePortError> = cache.write_parse(write_ms, &entries);
            let backend: String = parser.backend(task.route);
            run.write_done(entry, &written, task.file.path.as_str(), backend.as_str());
            proof {
                assert(views(entries@) =~= seq![entry@]);
                assert(parse_write_told(cache, write_ms, entry@, written));
                assert(backend_told(parser, task@.route, backend@));
            }
            Ghost(
                ParsedHeard {
                    result: told,
                    verified,
                    now_ms,
                    write_ms,
                    written,
                    backend: backend@,
                },
            )
        },
    }
}

/// Runs one wave of tasks, from `index` to before `end`: prepares each of them, has those
/// parsed whose files are still the discovered ones, and merges what came of them in their
/// order.
fn execute_parse_wave<P: ParserPort, S: CachePort, K: Clock, G: GuardVerifier>(
    run: &mut ParseRun,
    index: usize,
    end: usize,
    workers: &WorkerIdentities,
    engine: &EngineIdentity,
    work_deadline_ms: u64,
    parser: &P,
    cache: &S,
    clock: &K,
    guards: &G,
    Ghost(terms): Ghost<ParseTerms>,
) -> (heard: Ghost<ParseWave>)
    requires
        index <= end <= old(run).tasks@.len(),
        terms.workers == workers@,
        terms.engine == engine@,
        terms.work_deadline_ms == work_deadline_ms,
    ensures
        heard@.verified.len() == end - index,
        ({
            let (prepared, chosen) = prepared_wave(
                old(run)@,
                index as int,
                heard@.verified,
                remaining_ms(work_deadline_ms, heard@.later_ms),
            );
            heard@.tasks.len() == chosen.len() && final(run)@ == parsed_wave(
                prepared,
                chosen,
                heard@.tasks,
                terms,
            )
        }),
        parse_wave_told(
            parser,
            Surroundings { cache, clock, guards },
            old(run)@,
            index as int,
            heard@,
            terms,
        ),
        final(run)@.tasks == old(run)@.tasks,
        final(run)@.metrics == old(run)@.metrics,
{
    let ghost start = run@;
    let later_ms: u64 = clock.now_ms();
    let remaining: u64 = work_deadline_ms.saturating_sub(later_ms);
    let mut chosen: Vec<ParseTask> = Vec::new();
    let mut requests: Vec<ParseRequest> = Vec::new();
    let ghost mut verified: Seq<bool> = Seq::empty();
    let mut i: usize = index;
    assert(views(chosen@) =~= Seq::<ParseTaskView>::empty());
    assert(views(requests@) =~= requests_of(views(chosen@), remaining));
    while i < end
        invariant
            index <= i <= end <= run.tasks@.len(),
            start.tasks.len() == run.tasks@.len(),
            run@.tasks == start.tasks,
            run@.metrics == start.metrics,
            verified.len() == i - index,
            requests@.len() == chosen@.len(),
            views(requests@) == requests_of(views(chosen@), remaining),
            forall|j: int|
                0 <= j < verified.len() ==> file_guard_told(
                    guards,
                    start.tasks[index + j].file,
                    #[trigger] verified[j],
                ),
            (run@, views(chosen@)) == prepared_wave(start, index as int, verified, remaining),
        decreases end - i,
    {
        let ghost so_far = verified;
        let ghost before = views(chosen@);
        let task: ParseTask = run.tasks[i].clone();
        assert(run@.tasks[i as int] == run.tasks@[i as int]@);
        let holds: bool = match expected_guard(&task.file) {
            None => false,
            Some(guard) => guards.verify(task.file.path.as_str(), &guard),
        };
        let request: Option<ParseRequest> = run.dispatch(&task, holds, remaining);
        proof {
            verified = verified.push(holds);
            assert(verified.drop_last() =~= so_far);
        }
        assert(file_guard_told(guards, start.tasks[i as int].file, holds));
        if let Some(wanted) = request {
            let ghost asked = views(requests@);
            requests.push(wanted);
            chosen.push(task);
            proof {
                assert(views(chosen@) =~= before.push(task@));
                assert(views(requests@) =~= asked.push(wanted@));
                assert(asked.push(wanted@) =~= requests_of(before.push(task@), remaining));
            }
        }
        i = i + 1;
    }
    let ghost prepared = run@;
    let ghost picked = views(chosen@);
    let mut results: Vec<ParseResult> = parser.parse(&requests);
    let ghost mut heard: Seq<ParsedHeard> = Seq::empty();
    let ghost told = views(results@);
    let ghost around = Surroundings { cache, clock, guards };
    assert(parses_told(parser, requests_of(picked, remaining), told));
    let mut k: usize = 0;
    let count: usize = chosen.len();
    while k < count
        invariant
            k <= count,
            count == chosen@.len(),
            results@.len() == count - k,
            told.len() == count,
            views(results@) == told.skip(k as int),
            picked == views(chosen@),
            around == (Surroundings { cache, clock, guards }),
            forall|j: int| 0 <= j < k ==> (#[trigger] heard[j]).result == told[j],
            forall|j: int|
                0 <= j < k ==> parsed_told(parser, around, picked[j], #[trigger] heard[j], terms),
            heard.len() == k,
            terms.workers == workers@,
            terms.engine == engine@,
            terms.work_deadline_ms == work_deadline_ms,
            run@ == parsed_wave(prepared, picked, heard, terms),
            run@.tasks == start.tasks,
            run@.metrics == start.metrics,
        decreases count - k,
    {
        let ghost so_far = heard;
        assert(picked[k as int] == chosen@[k as int]@);
        assert(views(results@)[0] == results@[0]@);
        let ghost left = views(results@);
        let result: ParseResult = results.remove(0);
        assert(views(results@) =~= left.skip(1));
        assert(left.skip(1) =~= told.skip(k + 1));
        let Ghost(answer): Ghost<ParsedHeard> = merge_parse(
            run,
            &chosen[k],
            result,
            workers,
            engine,
            work_deadline_ms,
            parser,
            cache,
            clock,
            guards,
            Ghost(terms),
        );
        proof {
            heard = heard.push(answer);
            assert(heard.drop_last() =~= so_far);
        }
        k = k + 1;
    }
    let ghost wave = ParseWave { start_ms: 0, later_ms, verified, tasks: heard };
    proof {
        assert(heard.map_values(|answer: ParsedHeard| answer.result) =~= told);
        assert(prepared_wave(start, index as int, verified, remaining).1 == picked);
        assert(parse_wave_told(parser, around, start, index as int, wave, terms));
    }
    Ghost(wave)
}

/// Parses what was admitted. First every decision is taken up, in admission order; then
/// the tasks are run in waves of at most `concurrency`, each begun only while time is
/// left. A cache that cannot be asked ends the run.
pub fn run_parses<P: ParserPort, S: CachePort, K: Clock, G: GuardVerifier>(
    admission: &Vec<AdmissionDecision>,
    snapshot: &FileSnapshot<'_>,
    classifications: &TextMap<PdfClassificationResult>,
    execution: &ExecutionProfile,
    existed_before: &TextSet,
    runtime_classification: &TextSet,
    metrics: ExecutionMetrics,
    concurrency: usize,
    work_deadline_ms: u64,
    workers: &WorkerIdentities,
    engine: &EngineIdentity,
    parser: &P,
    cache: &S,
    clock: &K,
    guards: &G,
) -> (stage: Result<ParseRun, SchedulerFailure>)
    requires
        concurrency > 0,
        parses_can_grow(metrics, admission@.len() as int),
    ensures
        ({
            let terms = ParseTerms {
                files: snapshot.files(),
                known: existed_before@,
                cut_off: runtime_classification@,
                classifications: map_views(classifications@),
                execution: execution@,
                workers: workers@,
                engine: engine@,
                concurrency: concurrency as int,
                work_deadline_ms,
            };
            stage_parsed(
                parser,
                Surroundings { cache, clock, guards },
                metrics,
                views(admission@),
                terms,
                parse_stage_view(stage),
            )
        }),
{
    let ghost terms = ParseTerms {
        files: snapshot.files(),
        known: existed_before@,
        cut_off: runtime_classification@,
        classifications: map_views(classifications@),
        execution: execution@,
        workers: workers@,
        engine: engine@,
        concurrency: concurrency as int,
        work_deadline_ms,
    };
    let ghost decisions = views(admission@);
    let ghost around = Surroundings { cache, clock, guards };
    let mut run: ParseRun = ParseRun::new(metrics);
    let ghost start = run@;
    assert(start =~= no_parses(metrics));
    let ghost mut heard: Seq<DecisionHeard> = Seq::empty();
    let mut i: usize = 0;
    while i < admission.len()
        invariant
            i <= admission.len(),
            start == no_parses(metrics),
            decisions == views(admission@),
            terms == (ParseTerms {
                files: snapshot.files(),
                known: existed_before@,
                cut_off: runtime_classification@,
                classifications: map_views(classifications@),
                execution: execution@,
                workers: workers@,
                engine: engine@,
                concurrency: concurrency as int,
                work_deadline_ms,
            }),
            around == (Surroundings { cache, clock, guards }),
            heard.len() == i,
            decision_answers_told(around, decisions, heard, terms),
            decisions_heard(start, decisions, heard, terms) == Ok::<ParseRunView, CachePortError>(
                run@,
            ),
            run@.tasks.len() <= i,
            parses_can_grow(metrics, admission@.len() as int),
            parses_grown_by(metrics, run@.metrics, i as int),
        decreases admission.len() - i,
    {
        let ghost so_far = heard;
        assert(decisions[i as int] == admission@[i as int]@);
        let (taken, Ghost(told)): (Result<(), SchedulerFailure>, Ghost<DecisionHeard>) =
            take_up_decision(
            &mut run,
            &admission[i],
            snapshot,
            runtime_classification,
            classifications,
            execution,
            existed_before,
            work_deadline_ms,
            cache,
            clock,
            guards,
            Ghost(terms),
        );
        proof {
            heard = heard.push(told);
            assert(heard.drop_last() =~= so_far);
            assert(decision_told(around, decisions[i as int], told, terms));
            assert forall|j: int| 0 <= j < heard.len() implies decision_told(
                around,
                decisions[j],
                #[trigger] heard[j],
                terms,
            ) by {
                if j < i {
                    assert(heard[j] == so_far[j]);
                }
            }
        }
        if let Err(failure) = taken {
            proof {
                let error = decisions_heard(start, decisions, heard, terms)->Err_0;
                assert(failure.diagnostic@ == error.diagnostic_view(DiagnosticStage::Cache));
            }
            return Err(failure);
        }
        i = i + 1;
    }
    let ghost planned = run@;
    let ghost mut waves: Seq<ParseWave> = Seq::empty();
    let count: usize = run.tasks.len();
    let mut index: usize = 0;
    let mut now_ms: u64 = 0;
    let mut cut: bool = false;
    while index < count && !cut
        invariant
            index <= count,
            concurrency > 0,
            terms.concurrency == concurrency,
            terms.work_deadline_ms == work_deadline_ms,
            terms.workers == workers@,
            terms.engine == engine@,
            count == planned.tasks.len(),
            count == run.tasks@.len(),
            run@.tasks == planned.tasks,
            around == (Surroundings { cache, clock, guards }),
            parse_waves_told(parser, around, planned, waves, terms),
            cut ==> time_told(clock, now_ms),
            !cut ==> parse_waves(planned, waves, terms) == Some((run@, index as int)),
            cut ==> parse_waves(planned, waves, terms) is Some,
            cut ==> ({
                let (ran, at) = parse_waves(planned, waves, terms)->0;
                at == index && index < count && run@ == ran.abandoned(at) && now_ms
                    >= work_deadline_ms
            }),
        decreases count - index, (if cut { 0int } else { 1int }),
    {
        now_ms = clock.now_ms();
        match next_wave(index, count, concurrency, now_ms, work_deadline_ms) {
            WaveStep::Run(end) => {
                let ghost before = run@;
                let ghost so_far = waves;
                let Ghost(told): Ghost<ParseWave> = execute_parse_wave(
                    &mut run,
                    index,
                    end,
                    workers,
                    engine,
                    work_deadline_ms,
                    parser,
                    cache,
                    clock,
                    guards,
                    Ghost(terms),
                );
                proof {
                    let wave = ParseWave { start_ms: now_ms, ..told };
                    assert(parse_wave_told(parser, around, before, index as int, wave, terms));
                    waves = waves.push(wave);
                    assert(waves.drop_last() =~= so_far);
                }
                index = end;
            },
            _ => {
                proof {
                    lemma_abandoned_keeps_tasks(run@, index as int);
                }
                run.abandon(index);
                cut = true;
            },
        }
    }
    run.finish();
    assert(parsed_as(
        parser,
        around,
        start,
        decisions,
        heard,
        waves,
        now_ms,
        terms,
        run@,
    ));
    Ok(run)
}

/// Giving tasks up keeps them in the stage.
proof fn lemma_abandoned_keeps_tasks(state: ParseRunView, index: int)
    ensures
        state.abandoned(index).tasks == state.tasks,
    decreases state.tasks.len() - index,
{
    if 0 <= index < state.tasks.len() {
        lemma_abandoned_keeps_tasks(state, index + 1);
    }
}

/// No wave of classifications is begun once the deadline has come.
pub proof fn law_classification_waves_begin_in_time(
    state: ClassificationRunView,
    waves: Seq<ClassificationWave>,
    terms: ClassificationTerms,
    at: int,
)
    requires
        classification_waves(state, waves, terms) is Some,
        0 <= at < waves.len(),
    ensures
        waves[at].start_ms < terms.work_deadline_ms,
    decreases waves.len(),
{
    if at < waves.len() - 1 {
        law_classification_waves_begin_in_time(state, waves.drop_last(), terms, at);
        assert(waves.drop_last()[at] == waves[at]);
    }
}

/// No wave of parses is begun once the deadline has come.
pub proof fn law_parse_waves_begin_in_time(
    state: ParseRunView,
    waves: Seq<ParseWave>,
    terms: ParseTerms,
    at: int,
)
    requires
        parse_waves(state, waves, terms) is Some,
        0 <= at < waves.len(),
    ensures
        waves[at].start_ms < terms.work_deadline_ms,
    decreases waves.len(),
{
    if at < waves.len() - 1 {
        law_parse_waves_begin_in_time(state, waves.drop_last(), terms, at);
        assert(waves.drop_last()[at] == waves[at]);
    }
}

/// The file of a decision was looked up, and the cache did not hold it.
pub open spec fn was_missed(
    decision: AdmissionDecisionView,
    heard: DecisionHeard,
    terms: ParseTerms,
) -> bool {
    let found = file_of(terms.files, decision.file_identity);
    &&& lookup_route(decision, found, terms.cut_off, terms.classifications) is Some
    &&& heard.lookup matches Ok(outcome) && outcome.lookup is Miss
}

/// No two decisions are on the same file.
pub open spec fn decided_once(decisions: Seq<AdmissionDecisionView>) -> bool {
    forall|i: int, j: int|
        0 <= i < j < decisions.len() ==> (#[trigger] decisions[i]).file_identity != (
        #[trigger] decisions[j]).file_identity
}

/// The deadline has come whenever the clock is asked.
pub open spec fn always_late<K: Clock>(clock: &K, work_deadline_ms: u64) -> bool {
    forall|now_ms: u64| #[trigger] time_told(clock, now_ms) ==> now_ms >= work_deadline_ms
}

proof fn lemma_late_decisions<S: CachePort, K: Clock, G: GuardVerifier>(
    around: Surroundings<'_, S, K, G>,
    metrics: ExecutionMetrics,
    decisions: Seq<AdmissionDecisionView>,
    heard: Seq<DecisionHeard>,
    terms: ParseTerms,
)
    requires
        terms.files.len() <= usize::MAX,
        heard.len() <= decisions.len(),
        decided_once(decisions),
        always_late(around.clock, terms.work_deadline_ms),
        decision_answers_told(around, decisions, heard, terms),
        decisions_heard(no_parses(metrics), decisions, heard, terms) is Ok,
    ensures
        ({
            let state = decisions_heard(no_parses(metrics), decisions, heard, terms)->Ok_0;
            &&& state.tasks.len() == 0
            &&& state.outputs.parse_cache_receipts.len() == 0
            &&& forall|id: Seq<char>| #[trigger]
                state.outputs.results.contains_key(id) ==> exists|i: int|
                    0 <= i < heard.len() && (#[trigger] decisions[i]).file_identity == id
            &&& forall|i: int|
                0 <= i < heard.len() && was_missed(decisions[i], #[trigger] heard[i], terms) ==> {
                    &&& state.outputs.runtime_not_parsed.contains(decisions[i].file_identity)
                    &&& !state.outputs.results.contains_key(decisions[i].file_identity)
                    &&& state.metrics.stage_deadline_exhausted_count == 1
                }
        }),
    decreases heard.len(),
{
    if heard.len() > 0 {
        let last = heard.len() - 1;
        let earlier = heard.drop_last();
        assert forall|i: int| 0 <= i < earlier.len() implies decision_told(
            around,
            decisions[i],
            #[trigger] earlier[i],
            terms,
        ) by {
            assert(earlier[i] == heard[i]);
        }
        lemma_late_decisions(around, metrics, decisions, earlier, terms);
        let before = decisions_heard(no_parses(metrics), decisions, earlier, terms)->Ok_0;
        let state = decisions_heard(no_parses(metrics), decisions, heard, terms)->Ok_0;
        let decision = decisions[last];
        let found = file_of(terms.files, decision.file_identity);
        assert(decision_told(around, decision, heard[last], terms));
        if found is Some {
            assert(terms.files.len() > 0);
            law_files_are_found_by_identity(terms.files, decision.file_identity, 0);
        }
        assert forall|id: Seq<char>| #[trigger]
            state.outputs.results.contains_key(id) implies exists|i: int|
            0 <= i < heard.len() && (#[trigger] decisions[i]).file_identity == id by {
            if id == decision.file_identity {
                assert(decisions[last].file_identity == id);
            } else {
                assert(before.outputs.results.contains_key(id));
            }
        }
        assert forall|i: int|
            0 <= i < heard.len() && was_missed(decisions[i], #[trigger] heard[i], terms) implies {
            &&& state.outputs.runtime_not_parsed.contains(decisions[i].file_identity)
            &&& !state.outputs.results.contains_key(decisions[i].file_identity)
            &&& state.metrics.stage_deadline_exhausted_count == 1
        } by {
            if i < last {
                assert(earlier[i] == heard[i]);
                assert(decisions[i].file_identity != decision.file_identity);
            } else if before.outputs.results.contains_key(decision.file_identity) {
                let j = choose|j: int|
                    0 <= j < earlier.len() && (#[trigger] decisions[j]).file_identity
                        == decision.file_identity;
                assert(decisions[j].file_identity != decisions[last].file_identity);
            }
        }
    }
}

/// Where the deadline has come whenever the clock is asked, nothing is parsed and nothing
/// is cached: each file that the cache does not hold is cut off and has no result, and the
/// deadline is noted as exhausted.
pub proof fn law_late_stages_parse_nothing<
    P: ParserPort,
    S: CachePort,
    K: Clock,
    G: GuardVerifier,
>(
    parser: &P,
    around: Surroundings<'_, S, K, G>,
    metrics: ExecutionMetrics,
    decisions: Seq<AdmissionDecisionView>,
    terms: ParseTerms,
    run: ParseRunView,
)
    requires
        terms.files.len() <= usize::MAX,
        decided_once(decisions),
        always_late(around.clock, terms.work_deadline_ms),
        stage_parsed(
            parser,
            around,
            metrics,
            decisions,
            terms,
            Ok::<ParseRunView, DiagnosticView>(run),
        ),
    ensures
        run.tasks.len() == 0,
        run.outputs.parse_cache_receipts.len() == 0,
        exists|heard: Seq<DecisionHeard>|
            heard.len() == decisions.len() && #[trigger] decision_answers_told(
                around,
                decisions,
                heard,
                terms,
            ) && forall|i: int|
                0 <= i < heard.len() && was_missed(decisions[i], #[trigger] heard[i], terms) ==> {
                    &&& run.outputs.runtime_not_parsed.contains(decisions[i].file_identity)
                    &&& !run.outputs.results.contains_key(decisions[i].file_identity)
                    &&& run.metrics.stage_deadline_exhausted_count == 1
                },
{
    let start = no_parses(metrics);
    let (heard, waves, end_ms) = choose|
        heard: Seq<DecisionHeard>,
        waves: Seq<ParseWave>,
        end_ms: u64,
    |
        #[trigger] parsed_as(parser, around, start, decisions, heard, waves, end_ms, terms, run);
    lemma_late_decisions(around, metrics, decisions, heard, terms);
    let planned = decisions_heard(start, decisions, heard, terms)->Ok_0;
    if waves.len() > 0 {
        lemma_waves_reach(planned, waves.drop_last(), terms);
    }
    assert(decision_answers_told(around, decisions, heard, terms));
}

/// The first task that is not in the waves comes no earlier than the first of all.
proof fn lemma_waves_reach(state: ParseRunView, waves: Seq<ParseWave>, terms: ParseTerms)
    ensures
        parse_waves(state, waves, terms) matches Some((_, index)) ==> index >= 0,
    decreases waves.len(),
{
    if waves.len() > 0 {
        lemma_waves_reach(state, waves.drop_last(), terms);
    }
}

/// The write of the entry was told to have been accepted.
pub open spec fn classification_committed<S: CachePort, K: Clock, G: GuardVerifier>(
    around: Surroundings<'_, S, K, G>,
    record: ClassificationCacheWriteRecordView,
) -> bool {
    exists|write_ms: u64, written: Result<(), CachePortError>|
        time_told(around.clock, write_ms) && written is Ok && #[trigger] classification_write_told(
            around.cache,
            write_ms,
            record,
            written,
        )
}

/// Each receipt of the stage is of an entry whose write was told to have been accepted.
pub open spec fn classifications_committed<S: CachePort, K: Clock, G: GuardVerifier>(
    around: Surroundings<'_, S, K, G>,
    receipts: Seq<ClassificationCacheWriteRecordView>,
) -> bool {
    forall|i: int|
        0 <= i < receipts.len() ==> classification_committed(around, #[trigger] receipts[i])
}

proof fn lemma_plans_leave_no_receipt(
    state: ClassificationRunView,
    plans: Seq<ClassifiedPlanView>,
    heard: Seq<PlanHeard>,
    terms: ClassificationTerms,
)
    ensures
        plans_heard(state, plans, heard, terms) matches Ok(planned) ==> planned.receipts
            == state.receipts,
    decreases heard.len(),
{
    if heard.len() > 0 {
        lemma_plans_leave_no_receipt(state, plans, heard.drop_last(), terms);
    }
}

proof fn lemma_wave_receipts<S: CachePort, K: Clock, G: GuardVerifier>(
    around: Surroundings<'_, S, K, G>,
    state: ClassificationRunView,
    index: int,
    heard: Seq<ClassifiedHeard>,
    terms: ClassificationTerms,
)
    requires
        classifications_committed(around, state.receipts),
        forall|i: int|
            0 <= i < heard.len() ==> classified_told(
                around,
                state.tasks[index + i],
                #[trigger] heard[i],
                terms,
            ),
    ensures
        classifications_committed(
            around,
            classified_wave(state, index, heard, terms.work_deadline_ms).receipts,
        ),
        classified_wave(state, index, heard, terms.work_deadline_ms).tasks == state.tasks,
    decreases heard.len(),
{
    if heard.len() > 0 {
        let earlier = heard.drop_last();
        assert forall|i: int| 0 <= i < earlier.len() implies classified_told(
            around,
            state.tasks[index + i],
            #[trigger] earlier[i],
            terms,
        ) by {
            assert(earlier[i] == heard[i]);
        }
        lemma_wave_receipts(around, state, index, earlier, terms);
        let before = classified_wave(state, index, earlier, terms.work_deadline_ms);
        let after = classified_wave(state, index, heard, terms.work_deadline_ms);
        let last = heard.len() - 1;
        assert(classified_told(around, state.tasks[index + last], heard[last], terms));
        assert forall|i: int| 0 <= i < after.receipts.len() implies classification_committed(
            around,
            #[trigger] after.receipts[i],
        ) by {
            if i < before.receipts.len() {
                assert(after.receipts[i] == before.receipts[i]);
            } else {
                assert(classification_write_told(
                    around.cache,
                    heard[last].write_ms,
                    after.receipts[i],
                    heard[last].written,
                ));
            }
        }
    }
}

proof fn lemma_waves_receipts<C: PdfClassifierPort, S: CachePort, K: Clock, G: GuardVerifier>(
    classifier: &C,
    around: Surroundings<'_, S, K, G>,
    state: ClassificationRunView,
    waves: Seq<ClassificationWave>,
    terms: ClassificationTerms,
)
    requires
        classifications_committed(around, state.receipts),
        classification_waves_told(classifier, around, state, waves, terms),
    ensures
        classification_waves(state, waves, terms) matches Some((ran, _))
            ==> classifications_committed(around, ran.receipts) && ran.tasks == state.tasks,
    decreases waves.len(),
{
    if waves.len() > 0 {
        lemma_waves_receipts(classifier, around, state, waves.drop_last(), terms);
        if classification_waves(state, waves, terms) is Some {
            let (before, index) = classification_waves(state, waves.drop_last(), terms)->0;
            lemma_wave_receipts(around, before, index, waves.last().tasks, terms);
        }
    }
}

proof fn lemma_abandoned_keeps_receipts(state: ClassificationRunView, index: int)
    ensures
        state.abandoned(index).receipts == state.receipts,
    decreases state.tasks.len() - index,
{
    if 0 <= index < state.tasks.len() {
        lemma_abandoned_keeps_receipts(state, index + 1);
    }
}

/// A stage reports a receipt only for a classification whose cache entry the cache said
/// to have committed.
pub proof fn law_classification_receipts_were_committed<
    C: PdfClassifierPort,
    S: CachePort,
    K: Clock,
    G: GuardVerifier,
    R: RequestIds,
>(
    classifier: &C,
    around: Surroundings<'_, S, K, G>,
    ids: &R,
    metrics: ExecutionMetrics,
    plans: Seq<ClassifiedPlanView>,
    terms: ClassificationTerms,
    run: ClassificationRunView,
)
    requires
        stage_classified(
            classifier,
            around,
            ids,
            metrics,
            plans,
            terms,
            Ok::<ClassificationRunView, DiagnosticView>(run),
        ),
    ensures
        classifications_committed(around, run.receipts),
{
    let start = no_classifications(metrics);
    let (heard, waves, end_ms) = choose|
        heard: Seq<PlanHeard>,
        waves: Seq<ClassificationWave>,
        end_ms: u64,
    |
        #[trigger] classified_as(
            classifier,
            around,
            ids,
            start,
            plans,
            heard,
            waves,
            end_ms,
            terms,
            run,
        );
    let planned = plans_heard(start, plans, heard, terms)->Ok_0;
    lemma_plans_leave_no_receipt(start, plans, heard, terms);
    lemma_waves_receipts(classifier, around, planned, waves, terms);
    let (ran, index) = classification_waves(planned, waves, terms)->0;
    lemma_abandoned_keeps_receipts(ran, index);
}

/// The write of the entry was told to have been accepted.
pub open spec fn parse_committed<S: CachePort, K: Clock, G: GuardVerifier>(
    around: Surroundings<'_, S, K, G>,
    record: CacheWriteRecordView,
) -> bool {
    exists|write_ms: u64, written: Result<(), CachePortError>|
        time_told(around.clock, write_ms) && written is Ok && #[trigger] parse_write_told(
            around.cache,
            write_ms,
            record,
            written,
        )
}

/// Each receipt of the stage is of an entry whose write was told to have been accepted.
pub open spec fn parses_committed<S: CachePort, K: Clock, G: GuardVerifier>(
    around: Surroundings<'_, S, K, G>,
    receipts: Seq<CacheWriteRecordView>,
) -> bool {
    forall|i: int| 0 <= i < receipts.len() ==> parse_committed(around, #[trigger] receipts[i])
}

proof fn lemma_decisions_leave_no_receipt(
    state: ParseRunView,
    decisions: Seq<AdmissionDecisionView>,
    heard: Seq<DecisionHeard>,
    terms: ParseTerms,
)
    ensures
        decisions_heard(state, decisions, heard, terms) matches Ok(planned)
            ==> planned.outputs.parse_cache_receipts == state.outputs.parse_cache_receipts,
    decreases heard.len(),
{
    if heard.len() > 0 {
        lemma_decisions_leave_no_receipt(state, decisions, heard.drop_last(), terms);
    }
}

proof fn lemma_prepared_keeps_receipts(
    state: ParseRunView,
    index: int,
    verified: Seq<bool>,
    remaining: u64,
)
    ensures
        prepared_wave(state, index, verified, remaining).0.outputs.parse_cache_receipts
            == state.outputs.parse_cache_receipts,
    decreases verified.len(),
{
    if verified.len() > 0 {
        lemma_prepared_keeps_receipts(state, index, verified.drop_last(), remaining);
    }
}

proof fn lemma_parsed_wave_receipts<P: ParserPort, S: CachePort, K: Clock, G: GuardVerifier>(
    parser: &P,
    around: Surroundings<'_, S, K, G>,
    state: ParseRunView,
    chosen: Seq<ParseTaskView>,
    heard: Seq<ParsedHeard>,
    terms: ParseTerms,
)
    requires
        parses_committed(around, state.outputs.parse_cache_receipts),
        forall|i: int|
            0 <= i < heard.len() ==> parsed_told(
                parser,
                around,
                chosen[i],
                #[trigger] heard[i],
                terms,
            ),
    ensures
        parses_committed(
            around,
            parsed_wave(state, chosen, heard, terms).outputs.parse_cache_receipts,
        ),
    decreases heard.len(),
{
    if heard.len() > 0 {
        let earlier = heard.drop_last();
        assert forall|i: int| 0 <= i < earlier.len() implies parsed_told(
            parser,
            around,
            chosen[i],
            #[trigger] earlier[i],
            terms,
        ) by {
            assert(earlier[i] == heard[i]);
        }
        lemma_parsed_wave_receipts(parser, around, state, chosen, earlier, terms);
        let before = parsed_wave(state, chosen, earlier, terms).outputs.parse_cache_receipts;
        let after = parsed_wave(state, chosen, heard, terms).outputs.parse_cache_receipts;
        let last = heard.len() - 1;
        assert(parsed_told(parser, around, chosen[last], heard[last], terms));
        assert forall|i: int| 0 <= i < after.len() implies parse_committed(
            around,
            #[trigger] after[i],
        ) by {
            if i < before.len() {
                assert(after[i] == before[i]);
            } else {
                assert(parse_write_told(
                    around.cache,
                    heard[last].write_ms,
                    after[i],
                    heard[last].written,
                ));
            }
        }
    }
}

proof fn lemma_parse_waves_receipts<P: ParserPort, S: CachePort, K: Clock, G: GuardVerifier>(
    parser: &P,
    around: Surroundings<'_, S, K, G>,
    state: ParseRunView,
    waves: Seq<ParseWave>,
    terms: ParseTerms,
)
    requires
        parses_committed(around, state.outputs.parse_cache_receipts),
        parse_waves_told(parser, around, state, waves, terms),
    ensures
        parse_waves(state, waves, terms) matches Some((ran, _)) ==> parses_committed(
            around,
            ran.outputs.parse_cache_receipts,
        ),
    decreases waves.len(),
{
    if waves.len() > 0 {
        lemma_parse_waves_receipts(parser, around, state, waves.drop_last(), terms);
        if parse_waves(state, waves, terms) is Some {
            let (before, index) = parse_waves(state, waves.drop_last(), terms)->0;
            let remaining = remaining_ms(terms.work_deadline_ms, waves.last().later_ms);
            let (prepared, chosen) = prepared_wave(
                before,
                index,
                waves.last().verified,
                remaining,
            );
            lemma_prepared_keeps_receipts(before, index, waves.last().verified, remaining);
            lemma_parsed_wave_receipts(
                parser,
                around,
                prepared,
                chosen,
                waves.last().tasks,
                terms,
            );
        }
    }
}

proof fn lemma_abandoned_keeps_parse_receipts(state: ParseRunView, index: int)
    ensures
        state.abandoned(index).outputs.parse_cache_receipts == state.outputs.parse_cache_receipts,
    decreases state.tasks.len() - index,
{
    if 0 <= index < state.tasks.len() {
        lemma_abandoned_keeps_parse_receipts(state, index + 1);
    }
}

/// A stage reports a receipt only for a parse whose cache entry the cache said to have
/// committed.
pub proof fn law_parse_receipts_were_committed<
    P: ParserPort,
    S: CachePort,
    K: Clock,
    G: GuardVerifier,
>(
    parser: &P,
    around: Surroundings<'_, S, K, G>,
    metrics: ExecutionMetrics,
    decisions: Seq<AdmissionDecisionView>,
    terms: ParseTerms,
    run: ParseRunView,
)
    requires
        stage_parsed(
            parser,
            around,
            metrics,
            decisions,
            terms,
            Ok::<ParseRunView, DiagnosticView>(run),
        ),
    ensures
        parses_committed(around, run.outputs.parse_cache_receipts),
{
    let start = no_parses(metrics);
    let (heard, waves, end_ms) = choose|
        heard: Seq<DecisionHeard>,
        waves: Seq<ParseWave>,
        end_ms: u64,
    |
        #[trigger] parsed_as(parser, around, start, decisions, heard, waves, end_ms, terms, run);
    let planned = decisions_heard(start, decisions, heard, terms)->Ok_0;
    lemma_decisions_leave_no_receipt(start, decisions, heard, terms);
    lemma_parse_waves_receipts(parser, around, planned, waves, terms);
    let (ran, index) = parse_waves(planned, waves, terms)->0;
    lemma_abandoned_keeps_parse_receipts(ran, index);
}

/// No two tasks are on the same file.
spec fn tasked_once(tasks: Seq<ParseTaskView>) -> bool {
    forall|i: int, j: int|
        0 <= i < j < tasks.len() ==> (#[trigger] tasks[i]).file.file_identity != (
        #[trigger] tasks[j]).file.file_identity
}

/// The file is that of one of the tasks from `from` on and before `to`.
spec fn is_tasked(tasks: Seq<ParseTaskView>, from: int, to: int, id: Seq<char>) -> bool {
    exists|k: int| from <= k < to && (#[trigger] tasks[k]).file.file_identity == id
}

/// The result of the file of a cache entry is a success with what the entry holds.
pub open spec fn result_agrees(outputs: ParseOutputsView, record: CacheWriteRecordView) -> bool {
    let result = outputs.results[record.file_identity];
    &&& outputs.results.contains_key(record.file_identity)
    &&& result.parse_status == ParseStatus::Success
    &&& result.content == record.content
    &&& result.content_sha256 == record.content_sha256
    &&& result.parser_backend == record.parser_backend
    &&& result.worker_lane == record.worker_lane
    &&& result.truncated == record.truncated
}

/// One of the decisions admits the file, which was not cut off before.
pub open spec fn was_admitted(
    decisions: Seq<AdmissionDecisionView>,
    terms: ParseTerms,
    id: Seq<char>,
) -> bool {
    &&& !terms.cut_off.contains(id)
    &&& exists|i: int|
        0 <= i < decisions.len() && (#[trigger] decisions[i]).file_identity == id
            && decisions[i].action is Admit
}

proof fn lemma_decided_tasks(
    metrics: ExecutionMetrics,
    decisions: Seq<AdmissionDecisionView>,
    heard: Seq<DecisionHeard>,
    terms: ParseTerms,
)
    requires
        terms.files.len() <= usize::MAX,
        heard.len() <= decisions.len(),
        decided_once(decisions),
        decisions_heard(no_parses(metrics), decisions, heard, terms) is Ok,
    ensures
        ({
            let state = decisions_heard(no_parses(metrics), decisions, heard, terms)->Ok_0;
            &&& tasked_once(state.tasks)
            &&& state.tasks.len() <= heard.len()
            &&& state.outputs.parse_cache_receipts.len() == 0
            &&& forall|k: int|
                0 <= k < state.tasks.len() ==> {
                    let id = (#[trigger] state.tasks[k]).file.file_identity;
                    &&& was_admitted(decisions, terms, id)
                    &&& exists|i: int|
                        0 <= i < heard.len() && (#[trigger] decisions[i]).file_identity == id
                    &&& !state.outputs.runtime_not_parsed.contains(id)
                }
            &&& forall|id: Seq<char>| #[trigger]
                state.outputs.runtime_not_parsed.contains(id) ==> exists|i: int|
                    0 <= i < heard.len() && (#[trigger] decisions[i]).file_identity == id
        }),
    decreases heard.len(),
{
    if heard.len() > 0 {
        let last = heard.len() - 1;
        let earlier = heard.drop_last();
        lemma_decided_tasks(metrics, decisions, earlier, terms);
        let before = decisions_heard(no_parses(metrics), decisions, earlier, terms)->Ok_0;
        let state = decisions_heard(no_parses(metrics), decisions, heard, terms)->Ok_0;
        let decision = decisions[last];
        let found = file_of(terms.files, decision.file_identity);
        if found is Some {
            assert(terms.files.len() > 0);
            law_files_are_found_by_identity(terms.files, decision.file_identity, 0);
        }
        assert forall|k: int| 0 <= k < state.tasks.len() implies {
            let id = (#[trigger] state.tasks[k]).file.file_identity;
            &&& was_admitted(decisions, terms, id)
            &&& exists|i: int|
                0 <= i < heard.len() && (#[trigger] decisions[i]).file_identity == id
            &&& !state.outputs.runtime_not_parsed.contains(id)
        } by {
            let id = state.tasks[k].file.file_identity;
            if k < before.tasks.len() {
                assert(state.tasks[k] == before.tasks[k]);
                let i = choose|i: int|
                    0 <= i < earlier.len() && (#[trigger] decisions[i]).file_identity == id;
                assert(decisions[i].file_identity != decisions[last].file_identity);
            } else {
                assert(decisions[last].file_identity == id);
                if before.outputs.runtime_not_parsed.contains(id) {
                    let i = choose|i: int|
                        0 <= i < earlier.len() && (#[trigger] decisions[i]).file_identity == id;
                    assert(decisions[i].file_identity != decisions[last].file_identity);
                }
            }
        }
        assert forall|i: int, j: int| 0 <= i < j < state.tasks.len() implies (
        #[trigger] state.tasks[i]).file.file_identity != (
        #[trigger] state.tasks[j]).file.file_identity by {
            assert(state.tasks[i] == before.tasks[i]);
            if j < before.tasks.len() {
                assert(state.tasks[j] == before.tasks[j]);
            } else {
                let id = before.tasks[i].file.file_identity;
                let at = choose|at: int|
                    0 <= at < earlier.len() && (#[trigger] decisions[at]).file_identity == id;
                assert(decisions[at].file_identity != decisions[last].file_identity);
            }
        }
        assert forall|id: Seq<char>| #[trigger]
            state.outputs.runtime_not_parsed.contains(id) implies exists|i: int|
            0 <= i < heard.len() && (#[trigger] decisions[i]).file_identity == id by {
            if before.outputs.runtime_not_parsed.contains(id) {
                let i = choose|i: int|
                    0 <= i < earlier.len() && (#[trigger] decisions[i]).file_identity == id;
                assert(decisions[i].file_identity == id);
            } else {
                assert(decisions[last].file_identity == id);
            }
        }
    }
}

proof fn lemma_prepared_wave(
    state: ParseRunView,
    index: int,
    verified: Seq<bool>,
    remaining: u64,
)
    requires
        tasked_once(state.tasks),
        0 <= index,
        index + verified.len() <= state.tasks.len(),
    ensures
        ({
            let (next, chosen) = prepared_wave(state, index, verified, remaining);
            let end = index + verified.len();
            &&& next.tasks == state.tasks
            &&& next.outputs.parse_cache_receipts == state.outputs.parse_cache_receipts
            &&& next.outputs.runtime_not_parsed == state.outputs.runtime_not_parsed
            &&& forall|id: Seq<char>|
                !is_tasked(state.tasks, index, end, id) ==> {
                    &&& #[trigger] next.outputs.results.contains_key(id)
                        == state.outputs.results.contains_key(id)
                    &&& next.outputs.results[id] == state.outputs.results[id]
                }
            &&& tasked_once(chosen)
            &&& forall|j: int|
                0 <= j < chosen.len() ==> is_tasked(
                    state.tasks,
                    index,
                    end,
                    (#[trigger] chosen[j]).file.file_identity,
                )
        }),
    decreases verified.len(),
{
    if verified.len() > 0 {
        let fewer = verified.drop_last();
        lemma_prepared_wave(state, index, fewer, remaining);
        let (before, earlier) = prepared_wave(state, index, fewer, remaining);
        let (next, chosen) = prepared_wave(state, index, verified, remaining);
        let end = index + verified.len();
        let task = state.tasks[end - 1];
        assert forall|id: Seq<char>| !is_tasked(state.tasks, index, end, id) implies {
            &&& #[trigger] next.outputs.results.contains_key(id)
                == state.outputs.results.contains_key(id)
            &&& next.outputs.results[id] == state.outputs.results[id]
        } by {
            assert(state.tasks[end - 1].file.file_identity != id);
            assert(!is_tasked(state.tasks, index, end - 1, id));
            assert(before.outputs.results.contains_key(id)
                == state.outputs.results.contains_key(id));
        }
        assert forall|j: int| 0 <= j < chosen.len() implies is_tasked(
            state.tasks,
            index,
            end,
            (#[trigger] chosen[j]).file.file_identity,
        ) by {
            if j < earlier.len() {
                assert(chosen[j] == earlier[j]);
                let id = earlier[j].file.file_identity;
                let k = choose|k: int|
                    index <= k < end - 1 && (#[trigger] state.tasks[k]).file.file_identity == id;
                assert(state.tasks[k].file.file_identity == id);
            } else {
                assert(state.tasks[end - 1].file.file_identity == task.file.file_identity);
            }
        }
        assert forall|i: int, j: int| 0 <= i < j < chosen.len() implies (
        #[trigger] chosen[i]).file.file_identity != (
        #[trigger] chosen[j]).file.file_identity by {
            assert(chosen[i] == earlier[i]);
            if j < earlier.len() {
                assert(chosen[j] == earlier[j]);
            } else {
                let id = earlier[i].file.file_identity;
                let k = choose|k: int|
                    index <= k < end - 1 && (#[trigger] state.tasks[k]).file.file_identity == id;
                assert(state.tasks[k].file.file_identity
                    != state.tasks[end - 1].file.file_identity);
            }
        }
    }
}

proof fn lemma_parsed_wave_agrees(
    start: ParseRunView,
    chosen: Seq<ParseTaskView>,
    heard: Seq<ParsedHeard>,
    terms: ParseTerms,
)
    requires
        tasked_once(chosen),
        heard.len() <= chosen.len(),
        forall|i: int|
            0 <= i < start.outputs.parse_cache_receipts.len() ==> result_agrees(
                start.outputs,
                #[trigger] start.outputs.parse_cache_receipts[i],
            ) && !is_tasked(
                chosen,
                0,
                chosen.len() as int,
                start.outputs.parse_cache_receipts[i].file_identity,
            ),
    ensures
        ({
            let state = parsed_wave(start, chosen, heard, terms);
            &&& state.tasks == start.tasks
            &&& state.outputs.runtime_not_parsed == start.outputs.runtime_not_parsed
            &&& state.outputs.parse_cache_receipts.len()
                >= start.outputs.parse_cache_receipts.len()
            &&& forall|i: int|
                0 <= i < state.outputs.parse_cache_receipts.len() ==> {
                    let record = #[trigger] state.outputs.parse_cache_receipts[i];
                    &&& result_agrees(state.outputs, record)
                    &&& if i < start.outputs.parse_cache_receipts.len() {
                        record == start.outputs.parse_cache_receipts[i]
                    } else {
                        is_tasked(chosen, 0, heard.len() as int, record.file_identity)
                    }
                }
        }),
    decreases heard.len(),
{
    if heard.len() > 0 {
        let earlier = heard.drop_last();
        lemma_parsed_wave_agrees(start, chosen, earlier, terms);
        let before = parsed_wave(start, chosen, earlier, terms);
        let state = parsed_wave(start, chosen, heard, terms);
        let last = heard.len() - 1;
        let task = chosen[last];
        let told = heard.last();
        law_answers_are_the_results_of_their_file(
            before,
            task,
            told.result,
            told.verified,
            task.file.file_identity,
        );
        assert forall|i: int| 0 <= i < state.outputs.parse_cache_receipts.len() implies {
            let record = #[trigger] state.outputs.parse_cache_receipts[i];
            &&& result_agrees(state.outputs, record)
            &&& if i < start.outputs.parse_cache_receipts.len() {
                record == start.outputs.parse_cache_receipts[i]
            } else {
                is_tasked(chosen, 0, heard.len() as int, record.file_identity)
            }
        } by {
            let record = state.outputs.parse_cache_receipts[i];
            let id = record.file_identity;
            if i < before.outputs.parse_cache_receipts.len() {
                assert(record == before.outputs.parse_cache_receipts[i]);
                if i < start.outputs.parse_cache_receipts.len() {
                    assert(record == start.outputs.parse_cache_receipts[i]);
                    assert(!is_tasked(chosen, 0, chosen.len() as int, id));
                    assert(chosen[last].file.file_identity != id);
                } else {
                    let k = choose|k: int|
                        0 <= k < earlier.len() && (#[trigger] chosen[k]).file.file_identity == id;
                    assert(chosen[k].file.file_identity != chosen[last].file.file_identity);
                }
                law_answers_are_the_results_of_their_file(
                    before,
                    task,
                    told.result,
                    told.verified,
                    id,
                );
            } else {
                assert(chosen[last].file.file_identity == id);
            }
        }
    }
}

proof fn lemma_parse_waves_agree(
    planned: ParseRunView,
    waves: Seq<ParseWave>,
    terms: ParseTerms,
)
    requires
        tasked_once(planned.tasks),
        planned.tasks.len() <= usize::MAX,
        planned.outputs.parse_cache_receipts.len() == 0,
        terms.concurrency >= 0,
    ensures
        parse_waves(planned, waves, terms) matches Some((ran, index)) ==> {
            &&& ran.tasks == planned.tasks
            &&& ran.outputs.runtime_not_parsed == planned.outputs.runtime_not_parsed
            &&& 0 <= index <= planned.tasks.len()
            &&& forall|i: int|
                0 <= i < ran.outputs.parse_cache_receipts.len() ==> {
                    let record = #[trigger] ran.outputs.parse_cache_receipts[i];
                    &&& result_agrees(ran.outputs, record)
                    &&& is_tasked(planned.tasks, 0, index, record.file_identity)
                }
        },
    decreases waves.len(),
{
    if waves.len() > 0 && parse_waves(planned, waves, terms) is Some {
        lemma_parse_waves_agree(planned, waves.drop_last(), terms);
        let (before, index) = parse_waves(planned, waves.drop_last(), terms)->0;
        let (ran, end) = parse_waves(planned, waves, terms)->0;
        let wave = waves.last();
        let remaining = remaining_ms(terms.work_deadline_ms, wave.later_ms);
        let (prepared, chosen) = prepared_wave(before, index, wave.verified, remaining);
        lemma_prepared_wave(before, index, wave.verified, remaining);
        let receipts = before.outputs.parse_cache_receipts;
        assert forall|i: int| 0 <= i < receipts.len() implies result_agrees(
            prepared.outputs,
            #[trigger] receipts[i],
        ) && !is_tasked(chosen, 0, chosen.len() as int, receipts[i].file_identity) by {
            let id = receipts[i].file_identity;
            let k = choose|k: int|
                0 <= k < index && (#[trigger] planned.tasks[k]).file.file_identity == id;
            if is_tasked(planned.tasks, index, end, id) {
                let m = choose|m: int|
                    index <= m < end && (#[trigger] planned.tasks[m]).file.file_identity == id;
                assert(planned.tasks[k].file.file_identity != planned.tasks[m].file.file_identity);
            }
            assert(prepared.outputs.results.contains_key(id)
                == before.outputs.results.contains_key(id));
            if is_tasked(chosen, 0, chosen.len() as int, id) {
                let j = choose|j: int|
                    0 <= j < chosen.len() && (#[trigger] chosen[j]).file.file_identity == id;
                assert(is_tasked(planned.tasks, index, end, chosen[j].file.file_identity));
            }
        }
        lemma_parsed_wave_agrees(prepared, chosen, wave.tasks, terms);
        assert forall|i: int| 0 <= i < ran.outputs.parse_cache_receipts.len() implies {
            let record = #[trigger] ran.outputs.parse_cache_receipts[i];
            &&& result_agrees(ran.outputs, record)
            &&& is_tasked(planned.tasks, 0, end, record.file_identity)
        } by {
            let id = ran.outputs.parse_cache_receipts[i].file_identity;
            if i < receipts.len() {
                assert(ran.outputs.parse_cache_receipts[i] == receipts[i]);
                let k = choose|k: int|
                    0 <= k < index && (#[trigger] planned.tasks[k]).file.file_identity == id;
                assert(planned.tasks[k].file.file_identity == id);
            } else {
                let j = choose|j: int|
                    0 <= j < wave.tasks.len() && (#[trigger] chosen[j]).file.file_identity == id;
                assert(is_tasked(planned.tasks, index, end, chosen[j].file.file_identity));
                let k = choose|k: int|
                    index <= k < end && (#[trigger] planned.tasks[k]).file.file_identity == id;
                assert(planned.tasks[k].file.file_identity == id);
            }
        }
    }
}

proof fn lemma_abandoned_parses(state: ParseRunView, index: int, id: Seq<char>)
    requires
        0 <= index <= state.tasks.len(),
        !is_tasked(state.tasks, index, state.tasks.len() as int, id),
    ensures
        state.abandoned(index).outputs.runtime_not_parsed.contains(id)
            == state.outputs.runtime_not_parsed.contains(id),
        state.abandoned(index).outputs.results == state.outputs.results,
    decreases state.tasks.len() - index,
{
    if index < state.tasks.len() {
        assert(state.tasks[index].file.file_identity != id);
        assert(!is_tasked(state.tasks, index + 1, state.tasks.len() as int, id)) by {
            if is_tasked(state.tasks, index + 1, state.tasks.len() as int, id) {
                let k = choose|k: int|
                    index + 1 <= k < state.tasks.len() && (
                    #[trigger] state.tasks[k]).file.file_identity == id;
                assert(state.tasks[k].file.file_identity == id);
            }
        }
        lemma_abandoned_parses(state, index + 1, id);
    }
}

/// What a stage has committed to the parse cache is what it reports: each receipt is of an
/// admitted file that was not cut off, and the result of that file is a success with the
/// content, the hash, the backend, the lane and the truncation mark of the receipt.
pub proof fn law_parse_receipts_agree_with_the_results<
    P: ParserPort,
    S: CachePort,
    K: Clock,
    G: GuardVerifier,
>(
    parser: &P,
    around: Surroundings<'_, S, K, G>,
    metrics: ExecutionMetrics,
    decisions: Seq<AdmissionDecisionView>,
    terms: ParseTerms,
    run: ParseRunView,
    at: int,
)
    requires
        terms.files.len() <= usize::MAX,
        decisions.len() <= usize::MAX,
        terms.concurrency >= 0,
        decided_once(decisions),
        stage_parsed(
            parser,
            around,
            metrics,
            decisions,
            terms,
            Ok::<ParseRunView, DiagnosticView>(run),
        ),
        0 <= at < run.outputs.parse_cache_receipts.len(),
    ensures
        ({
            let record = run.outputs.parse_cache_receipts[at];
            &&& result_agrees(run.outputs, record)
            &&& was_admitted(decisions, terms, record.file_identity)
            &&& !run.outputs.runtime_not_parsed.contains(record.file_identity)
        }),
{
    let start = no_parses(metrics);
    let (heard, waves, end_ms) = choose|
        heard: Seq<DecisionHeard>,
        waves: Seq<ParseWave>,
        end_ms: u64,
    |
        #[trigger] parsed_as(parser, around, start, decisions, heard, waves, end_ms, terms, run);
    let planned = decisions_heard(start, decisions, heard, terms)->Ok_0;
    lemma_decided_tasks(metrics, decisions, heard, terms);
    lemma_parse_waves_agree(planned, waves, terms);
    let (ran, index) = parse_waves(planned, waves, terms)->0;
    let id = run.outputs.parse_cache_receipts[at].file_identity;
    lemma_abandoned_keeps_parse_receipts(ran, index);
    assert(ran.outputs.parse_cache_receipts[at].file_identity == id);
    let k = choose|k: int|
        0 <= k < index && (#[trigger] planned.tasks[k]).file.file_identity == id;
    assert(was_admitted(decisions, terms, planned.tasks[k].file.file_identity));
    if index < planned.tasks.len() {
        if is_tasked(ran.tasks, index, ran.tasks.len() as int, id) {
            let m = choose|m: int|
                index <= m < ran.tasks.len() && (#[trigger] ran.tasks[m]).file.file_identity == id;
            assert(planned.tasks[k].file.file_identity != planned.tasks[m].file.file_identity);
        }
        lemma_abandoned_parses(ran, index, id);
    }
}

} // verus!
