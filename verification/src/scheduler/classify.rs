//! The classification stage of a run.
//!
//! Plans are taken up in their order. For each one the caller performs what only it
//! can do (read the clock, recompute a guard, ask the cache, run the classifier)
//! and hands in what came of it; the stage decides what follows.
use crate::contract::{
    opt_view, views, DiscoveredFileOut, DiscoveredFileOutView, ErrorCode, PdfClassificationStatus,
};
use crate::ordered::{TextMap, TextSet};
use crate::profile::{NormalizedScannerProfileV2, NormalizedScannerProfileV2View};
use crate::scheduler::plan::{
    expected_guard, guard_of, is_classified, map_views, ClassifiedPlan, ClassifiedPlanView,
    PdfClassificationPlan, PdfClassificationResult, PdfClassificationResultView,
};
use crate::scheduler::records::{CachePortError, ExecutionMetrics};
use crate::session::{
    ParseFailure, PdfClassifierRequestV1, PdfClassifierRequestV1View, PdfClassifierResultStatus,
    PdfClassifierResultV1, PythonOperationErrorCode,
};
use crate::source_guard::{saturated_sum, SourceGuardV2, SourceGuardV2View};
use crate::store::cache::{
    ClassificationCacheLookup, ClassificationCacheLookupView, ClassificationCacheWriteRecord,
    ClassificationCacheWriteRecordView,
};
use crate::text::text_eq;
use vstd::prelude::*;

verus! {

/// A classification that is to be run.
#[derive(Debug, PartialEq, Eq)]
pub struct ClassificationTask {
    pub file: DiscoveredFileOut,
    pub guard: SourceGuardV2,
    pub request: PdfClassifierRequestV1,
    pub own_timeout_ms: u64,
    pub classifier_profile_hash: String,
    pub classifier_build: String,
}

/// What a [`ClassificationTask`] says.
#[verifier::ext_equal]
pub struct ClassificationTaskView {
    pub file: DiscoveredFileOutView,
    pub guard: SourceGuardV2View,
    pub request: PdfClassifierRequestV1View,
    pub own_timeout_ms: u64,
    pub classifier_profile_hash: Seq<char>,
    pub classifier_build: Seq<char>,
}

impl View for ClassificationTask {
    type V = ClassificationTaskView;

    open spec fn view(&self) -> ClassificationTaskView {
        ClassificationTaskView {
            file: self.file@,
            guard: self.guard@,
            request: self.request@,
            own_timeout_ms: self.own_timeout_ms,
            classifier_profile_hash: self.classifier_profile_hash@,
            classifier_build: self.classifier_build@,
        }
    }
}

impl Clone for ClassificationTask {
    fn clone(&self) -> (copy: Self)
        ensures
            copy@ == self@,
            copy == *self,
    {
        ClassificationTask {
            file: self.file.clone(),
            guard: self.guard.clone(),
            request: self.request.clone(),
            own_timeout_ms: self.own_timeout_ms,
            classifier_profile_hash: self.classifier_profile_hash.clone(),
            classifier_build: self.classifier_build.clone(),
        }
    }
}

/// The classification stage.
pub struct ClassificationRun {
    pub results: TextMap<PdfClassificationResult>,
    /// Files that were not classified because the deadline had come.
    pub runtime_not_parsed: TextSet,
    /// Files whose classification came from the cache.
    pub fresh_hits: Vec<String>,
    /// Classifications that are to be run, in plan order.
    pub tasks: Vec<ClassificationTask>,
    /// Cache entries that were committed.
    pub receipts: Vec<ClassificationCacheWriteRecord>,
    pub any_lookup: bool,
    pub any_miss: bool,
    pub metrics: ExecutionMetrics,
}

/// The classification stage.
#[verifier::ext_equal]
pub struct ClassificationRunView {
    pub results: Map<Seq<char>, PdfClassificationResultView>,
    pub runtime_not_parsed: Set<Seq<char>>,
    pub fresh_hits: Seq<Seq<char>>,
    pub tasks: Seq<ClassificationTaskView>,
    pub receipts: Seq<ClassificationCacheWriteRecordView>,
    pub any_lookup: bool,
    pub any_miss: bool,
    pub metrics: ExecutionMetrics,
}

impl View for ClassificationRun {
    type V = ClassificationRunView;

    open spec fn view(&self) -> ClassificationRunView {
        ClassificationRunView {
            results: map_views(self.results@),
            runtime_not_parsed: self.runtime_not_parsed@,
            fresh_hits: views(self.fresh_hits@),
            tasks: views(self.tasks@),
            receipts: views(self.receipts@),
            any_lookup: self.any_lookup,
            any_miss: self.any_miss,
            metrics: self.metrics,
        }
    }
}

/// The classification of a file that changed while it was worked on.
pub open spec fn changed_classification(identity: Seq<char>) -> PdfClassificationResultView {
    PdfClassificationResultView {
        file_identity: identity,
        status: PdfClassificationStatus::Error,
        page_count: None,
        result_examined_pages: None,
        error_code: Some("SOURCE_VERSION_CHANGED"@),
    }
}

/// The classification of a file that changed while it was worked on.
pub fn source_version_changed_classification(identity: &str) -> (result: PdfClassificationResult)
    ensures
        result@ == changed_classification(identity@),
{
    PdfClassificationResult {
        file_identity: identity.to_string(),
        status: PdfClassificationStatus::Error,
        page_count: None,
        result_examined_pages: None,
        error_code: Some("SOURCE_VERSION_CHANGED".to_string()),
    }
}

/// Milliseconds left until the deadline.
pub open spec fn remaining_ms(deadline_ms: u64, now_ms: u64) -> u64 {
    if deadline_ms > now_ms {
        (deadline_ms - now_ms) as u64
    } else {
        0
    }
}

/// The smaller of two numbers.
pub open spec fn smaller(left: u64, right: u64) -> u64 {
    if left <= right {
        left
    } else {
        right
    }
}

/// The timeout of a dispatched operation: its own, or what is left until the
/// deadline when that is less.
pub fn dispatch_timeout_ms(own_timeout_ms: u64, work_deadline_ms: u64, now_ms: u64) -> (timeout_ms:
    u64)
    ensures
        timeout_ms == smaller(own_timeout_ms, remaining_ms(work_deadline_ms, now_ms)),
{
    let remaining: u64 = work_deadline_ms.saturating_sub(now_ms);
    if own_timeout_ms <= remaining {
        own_timeout_ms
    } else {
        remaining
    }
}

/// A classification out of the cache.
pub open spec fn cached_classification(
    identity: Seq<char>,
    entry: crate::store::cache::ClassificationCacheEntryView,
) -> PdfClassificationResultView {
    PdfClassificationResultView {
        file_identity: identity,
        status: if entry.status == "text_in_parse_window"@ {
            PdfClassificationStatus::TextInParseWindow
        } else {
            PdfClassificationStatus::NoTextInParseWindow
        },
        page_count: Some(entry.page_count),
        result_examined_pages: Some(entry.result_examined_pages),
        error_code: None,
    }
}

/// The request for the classification of a file.
pub open spec fn classify_request(
    file: DiscoveredFileOutView,
    profile: NormalizedScannerProfileV2View,
    request_id: Seq<char>,
) -> PdfClassifierRequestV1View {
    PdfClassifierRequestV1View {
        contract: "ai_daily_pdf_classifier"@,
        protocol_version: 1,
        request_id,
        file_path: file.path,
        source_version: file.source_version,
        max_pages: profile.parse.pdf.max_pages,
        policy_version: profile.classifier_policy_version,
    }
}

/// What a classifier said, or how it failed.
pub open spec fn classification_of(
    identity: Seq<char>,
    outcome: Result<PdfClassifierResultV1, ParseFailure>,
) -> PdfClassificationResultView {
    match outcome {
        Ok(result) => PdfClassificationResultView {
            file_identity: identity,
            status: match result.status {
                PdfClassifierResultStatus::TextInParseWindow =>
                    PdfClassificationStatus::TextInParseWindow,
                PdfClassifierResultStatus::NoTextInParseWindow =>
                    PdfClassificationStatus::NoTextInParseWindow,
                PdfClassifierResultStatus::Unknown => PdfClassificationStatus::Unknown,
                PdfClassifierResultStatus::Error => PdfClassificationStatus::Error,
            },
            page_count: result.page_count,
            result_examined_pages: result.result_examined_pages,
            error_code: match result.diagnostic {
                None => None,
                Some(diagnostic) => Some(
                    if diagnostic.error_code == PythonOperationErrorCode::ParserTimeout {
                        "PARSER_TIMEOUT"@
                    } else {
                        "PARSER_FAILED"@
                    },
                ),
            },
        },
        Err(failure) => PdfClassificationResultView {
            file_identity: identity,
            status: PdfClassificationStatus::Unknown,
            page_count: None,
            result_examined_pages: None,
            error_code: Some(
                if failure.diagnostic.error_code == ErrorCode::ParserTimeout {
                    "PARSER_TIMEOUT"@
                } else {
                    "PARSER_FAILED"@
                },
            ),
        },
    }
}

/// Reads what a classifier said, or how it failed.
pub fn read_classification(
    identity: &str,
    outcome: &Result<PdfClassifierResultV1, ParseFailure>,
) -> (result: PdfClassificationResult)
    ensures
        result@ == classification_of(identity@, *outcome),
{
    match outcome {
        Ok(result) => {
            let status: PdfClassificationStatus = match result.status {
                PdfClassifierResultStatus::TextInParseWindow =>
                    PdfClassificationStatus::TextInParseWindow,
                PdfClassifierResultStatus::NoTextInParseWindow =>
                    PdfClassificationStatus::NoTextInParseWindow,
                PdfClassifierResultStatus::Unknown => PdfClassificationStatus::Unknown,
                PdfClassifierResultStatus::Error => PdfClassificationStatus::Error,
            };
            let error_code: Option<String> = match &result.diagnostic {
                None => None,
                Some(diagnostic) => {
                    if diagnostic.error_code == PythonOperationErrorCode::ParserTimeout {
                        Some("PARSER_TIMEOUT".to_string())
                    } else {
                        Some("PARSER_FAILED".to_string())
                    }
                },
            };
            PdfClassificationResult {
                file_identity: identity.to_string(),
                status,
                page_count: result.page_count,
                result_examined_pages: result.result_examined_pages,
                error_code,
            }
        },
        Err(failure) => {
            let error_code: String = if failure.diagnostic.error_code == ErrorCode::ParserTimeout {
                "PARSER_TIMEOUT".to_string()
            } else {
                "PARSER_FAILED".to_string()
            };
            PdfClassificationResult {
                file_identity: identity.to_string(),
                status: PdfClassificationStatus::Unknown,
                page_count: None,
                result_examined_pages: None,
                error_code: Some(error_code),
            }
        },
    }
}

/// The cache entry that a classification leaves: only a classification with an
/// outcome, of a file with a guard and with counted pages, leaves one.
pub open spec fn classification_record(
    file: DiscoveredFileOutView,
    profile_hash: Seq<char>,
    build: Seq<char>,
    result: PdfClassificationResultView,
) -> Option<ClassificationCacheWriteRecordView> {
    let status = match result.status {
        PdfClassificationStatus::TextInParseWindow => Some("text_in_parse_window"@),
        PdfClassificationStatus::NoTextInParseWindow => Some("no_text_in_parse_window"@),
        _ => None,
    };
    match (
        file.source_guard_kind,
        file.source_guard_sha256,
        status,
        result.page_count,
        result.result_examined_pages,
    ) {
        (Some(kind), Some(hash), Some(text), Some(pages), Some(examined)) => if pages == 0
            || examined == 0 {
            None
        } else {
            Some(
                ClassificationCacheWriteRecordView {
                    file_identity: file.file_identity,
                    source_version: file.source_version,
                    source_guard_kind: kind,
                    source_guard_sha256: hash,
                    classifier_profile_hash: profile_hash,
                    classifier_build: build,
                    status: text,
                    page_count: pages,
                    result_examined_pages: examined,
                },
            )
        },
        _ => None,
    }
}

/// The cache entry that a classification leaves.
pub fn classification_cache_record(
    file: &DiscoveredFileOut,
    classifier_profile_hash: &str,
    classifier_build: &str,
    result: &PdfClassificationResult,
) -> (record: Option<ClassificationCacheWriteRecord>)
    ensures
        opt_view(record) == classification_record(
            file@,
            classifier_profile_hash@,
            classifier_build@,
            result@,
        ),
{
    let kind: String = match &file.source_guard_kind {
        Some(kind) => kind.clone(),
        None => {
            return None;
        },
    };
    let hash: String = match &file.source_guard_sha256 {
        Some(hash) => hash.clone(),
        None => {
            return None;
        },
    };
    let status: String = match result.status {
        PdfClassificationStatus::TextInParseWindow => "text_in_parse_window".to_string(),
        PdfClassificationStatus::NoTextInParseWindow => "no_text_in_parse_window".to_string(),
        _ => {
            return None;
        },
    };
    let pages: u64 = match result.page_count {
        Some(pages) => pages,
        None => {
            return None;
        },
    };
    let examined: u64 = match result.result_examined_pages {
        Some(examined) => examined,
        None => {
            return None;
        },
    };
    if pages == 0 || examined == 0 {
        return None;
    }
    Some(
        ClassificationCacheWriteRecord {
            file_identity: file.file_identity.clone(),
            source_version: file.source_version.clone(),
            source_guard_kind: kind,
            source_guard_sha256: hash,
            classifier_profile_hash: classifier_profile_hash.to_string(),
            classifier_build: classifier_build.to_string(),
            status,
            page_count: pages,
            result_examined_pages: examined,
        },
    )
}

impl ClassificationRunView {
    /// The deadline came before the file was classified.
    pub open spec fn cut_off(self, identity: Seq<char>) -> ClassificationRunView {
        ClassificationRunView {
            runtime_not_parsed: self.runtime_not_parsed.insert(identity),
            metrics: ExecutionMetrics { stage_deadline_exhausted_count: 1, ..self.metrics },
            ..self
        }
    }

    /// A plan is taken up at the given time. Work goes on only when the file can be
    /// guarded; the guard is then to be verified.
    pub open spec fn taken_up(
        self,
        plan: ClassifiedPlanView,
        file: Option<DiscoveredFileOutView>,
        now_ms: u64,
        work_deadline_ms: u64,
    ) -> (ClassificationRunView, Option<SourceGuardV2View>) {
        if !is_classified(plan) || file is None {
            (self, None)
        } else if now_ms >= work_deadline_ms {
            (self.cut_off(plan.file_identity), None)
        } else {
            (self, guard_of(file->0))
        }
    }

    /// The guard of a file was verified or not. Only a verified file is looked up.
    pub open spec fn guarded(self, identity: Seq<char>, verified: bool) -> ClassificationRunView {
        if !verified {
            ClassificationRunView {
                results: self.results.insert(identity, changed_classification(identity)),
                ..self
            }
        } else {
            ClassificationRunView {
                any_lookup: true,
                metrics: ExecutionMetrics {
                    classification_cache_lookup_count: (
                    self.metrics.classification_cache_lookup_count + 1) as u64,
                    ..self.metrics
                },
                ..self
            }
        }
    }

    /// The cache answered at the given time. A miss becomes a task while time is
    /// left.
    pub open spec fn looked_up(
        self,
        file: DiscoveredFileOutView,
        guard: SourceGuardV2View,
        lookup: ClassificationCacheLookupView,
        now_ms: u64,
        work_deadline_ms: u64,
        profile: NormalizedScannerProfileV2View,
        request_id: Seq<char>,
        profile_hash: Seq<char>,
        build: Seq<char>,
    ) -> ClassificationRunView {
        let id = file.file_identity;
        match lookup {
            ClassificationCacheLookupView::Fresh(entry) => ClassificationRunView {
                fresh_hits: self.fresh_hits.push(id),
                results: self.results.insert(id, cached_classification(id, entry)),
                ..self
            },
            ClassificationCacheLookupView::Miss(_) => {
                let missed = ClassificationRunView { any_miss: true, ..self };
                let remaining = remaining_ms(work_deadline_ms, now_ms);
                if remaining == 0 {
                    missed.cut_off(id)
                } else {
                    ClassificationRunView {
                        tasks: self.tasks.push(
                            ClassificationTaskView {
                                file,
                                guard,
                                request: classify_request(file, profile, request_id),
                                own_timeout_ms: smaller(
                                    profile.pdf_classification_timeout_ms,
                                    remaining,
                                ),
                                classifier_profile_hash: profile_hash,
                                classifier_build: build,
                            },
                        ),
                        metrics: ExecutionMetrics {
                            classify_attempt_count: (self.metrics.classify_attempt_count
                                + 1) as u64,
                            ..self.metrics
                        },
                        ..missed
                    }
                }
            },
        }
    }

    /// The tasks from `index` on are not run: the deadline has come.
    pub open spec fn abandoned(self, index: int) -> ClassificationRunView
        decreases self.tasks.len() - index,
    {
        if index < 0 || index >= self.tasks.len() {
            self
        } else {
            let rest = self.abandoned(index + 1);
            rest.cut_off(self.tasks[index].file.file_identity)
        }
    }

    /// A task was run, and its file was verified again or not.
    pub open spec fn merged(
        self,
        task: ClassificationTaskView,
        outcome: Result<PdfClassifierResultV1, ParseFailure>,
        verified: bool,
    ) -> ClassificationRunView {
        let id = task.file.file_identity;
        let result = classification_of(id, outcome);
        if !verified {
            ClassificationRunView {
                results: self.results.insert(id, changed_classification(id)),
                metrics: ExecutionMetrics {
                    unobserved_classification_attempt_count: (
                    self.metrics.unobserved_classification_attempt_count + 1) as u64,
                    ..self.metrics
                },
                ..self
            }
        } else {
            ClassificationRunView {
                results: self.results.insert(id, result),
                metrics: match result.result_examined_pages {
                    Some(pages) => ExecutionMetrics {
                        confirmed_run_inspected_pages_total: saturated_sum(
                            self.metrics.confirmed_run_inspected_pages_total as int,
                            pages as int,
                        ),
                        ..self.metrics
                    },
                    None => ExecutionMetrics {
                        unobserved_classification_attempt_count: (
                        self.metrics.unobserved_classification_attempt_count + 1) as u64,
                        ..self.metrics
                    },
                },
                ..self
            }
        }
    }

    /// The cache entry that a task leaves when it ended at the given time.
    pub open spec fn entry_left(
        task: ClassificationTaskView,
        outcome: Result<PdfClassifierResultV1, ParseFailure>,
        verified: bool,
        now_ms: u64,
        work_deadline_ms: u64,
    ) -> Option<ClassificationCacheWriteRecordView> {
        if verified && now_ms < work_deadline_ms {
            classification_record(
                task.file,
                task.classifier_profile_hash,
                task.classifier_build,
                classification_of(task.file.file_identity, outcome),
            )
        } else {
            None
        }
    }

    /// A cache entry was committed, or was not.
    pub open spec fn written(
        self,
        record: ClassificationCacheWriteRecordView,
        outcome: Result<(), CachePortError>,
    ) -> ClassificationRunView {
        match outcome {
            Ok(_) => ClassificationRunView { receipts: self.receipts.push(record), ..self },
            Err(_) => self,
        }
    }

    /// The stage is over: whether all lookups were hits is known, if there were
    /// any.
    pub open spec fn finished(self) -> ClassificationRunView {
        ClassificationRunView {
            metrics: ExecutionMetrics {
                classification_cache_all_hit: if self.any_lookup {
                    Some(!self.any_miss)
                } else {
                    None
                },
                ..self.metrics
            },
            ..self
        }
    }

    /// The counts of the stage can still grow.
    pub open spec fn can_count(self) -> bool {
        self.metrics.classification_cache_lookup_count < u64::MAX
            && self.metrics.classify_attempt_count < u64::MAX
            && self.metrics.unobserved_classification_attempt_count < u64::MAX
    }

    /// A file was cut off only when the deadline was noted as exhausted, a lookup
    /// came before every miss, and every task is a counted attempt.
    pub open spec fn consistent(self) -> bool {
        &&& forall|id: Seq<char>| #[trigger]
            self.runtime_not_parsed.contains(id) ==> self.metrics.stage_deadline_exhausted_count
                == 1
        &&& self.any_miss ==> self.any_lookup
        &&& self.tasks.len() <= self.metrics.classify_attempt_count
    }
}

/// What a wave does next.
#[derive(Clone, Copy, Debug, PartialEq, Eq, Structural)]
pub enum WaveStep {
    /// All tasks were taken up.
    Done,
    /// The deadline has come; the remaining tasks are not run.
    CutOff,
    /// The tasks up to the given position are run together.
    Run(usize),
}

/// The step that follows when tasks up to `index` were taken up.
pub open spec fn wave_step(
    index: int,
    count: int,
    concurrency: int,
    now_ms: u64,
    work_deadline_ms: u64,
) -> WaveStep {
    if index >= count {
        WaveStep::Done
    } else if now_ms >= work_deadline_ms {
        WaveStep::CutOff
    } else if index + concurrency < count {
        WaveStep::Run((index + concurrency) as usize)
    } else {
        WaveStep::Run(count as usize)
    }
}

/// Decides the step that follows when tasks up to `index` were taken up.
pub fn next_wave(
    index: usize,
    count: usize,
    concurrency: usize,
    now_ms: u64,
    work_deadline_ms: u64,
) -> (step: WaveStep)
    ensures
        step == wave_step(
            index as int,
            count as int,
            concurrency as int,
            now_ms,
            work_deadline_ms,
        ),
{
    if index >= count {
        WaveStep::Done
    } else if now_ms >= work_deadline_ms {
        WaveStep::CutOff
    } else if concurrency < count - index {
        WaveStep::Run(index + concurrency)
    } else {
        WaveStep::Run(count)
    }
}

/// Waves take the tasks up in order without a gap, at most as many at a time as
/// there are sessions, and every wave takes up at least one.
pub proof fn law_waves_are_bounded_and_in_order(
    index: int,
    count: int,
    concurrency: int,
    now_ms: u64,
    work_deadline_ms: u64,
    end: usize,
)
    requires
        0 <= index,
        count <= usize::MAX,
        1 <= concurrency,
        wave_step(index, count, concurrency, now_ms, work_deadline_ms) == WaveStep::Run(end),
    ensures
        index < end <= count,
        end - index <= concurrency,
        now_ms < work_deadline_ms,
{
}

impl ClassificationRun {
    /// A stage that has done nothing, with the counts of the run so far.
    pub fn new(metrics: ExecutionMetrics) -> (run: Self)
        ensures
            run@ == (ClassificationRunView {
                results: Map::empty(),
                runtime_not_parsed: Set::empty(),
                fresh_hits: Seq::empty(),
                tasks: Seq::empty(),
                receipts: Seq::empty(),
                any_lookup: false,
                any_miss: false,
                metrics,
            }),
    {
        let run = ClassificationRun {
            results: TextMap::new(),
            runtime_not_parsed: TextSet::new(),
            fresh_hits: Vec::new(),
            tasks: Vec::new(),
            receipts: Vec::new(),
            any_lookup: false,
            any_miss: false,
            metrics,
        };
        assert(run@.results =~= Map::empty());
        assert(run@.fresh_hits =~= Seq::empty());
        assert(run@.tasks =~= Seq::empty());
        assert(run@.receipts =~= Seq::empty());
        run
    }

    fn cut_off(&mut self, identity: &str)
        ensures
            final(self)@ == old(self)@.cut_off(identity@),
    {
        self.runtime_not_parsed.insert(identity.to_string());
        self.metrics.stage_deadline_exhausted_count = 1;
    }

    /// Takes a plan up. The guard that is given has to be verified next; without
    /// one nothing more is done on the plan.
    pub fn take_up(
        &mut self,
        plan: &ClassifiedPlan,
        file: Option<&DiscoveredFileOut>,
        now_ms: u64,
        work_deadline_ms: u64,
    ) -> (guard: Option<SourceGuardV2>)
        ensures
            (final(self)@, opt_view(guard)) == old(self)@.taken_up(
                plan@,
                opt_view(file),
                now_ms,
                work_deadline_ms,
            ),
    {
        let planned: bool = match plan.pdf_classification {
            PdfClassificationPlan::Classify { charged_pages: _ } => true,
            _ => false,
        };
        if !planned {
            return None;
        }
        match file {
            None => None,
            Some(found) => {
                if now_ms >= work_deadline_ms {
                    self.cut_off(plan.file_identity.as_str());
                    None
                } else {
                    expected_guard(found)
                }
            },
        }
    }

    /// Takes in whether the guard of a file was verified.
    pub fn guard_checked(&mut self, identity: &str, verified: bool)
        requires
            old(self)@.metrics.classification_cache_lookup_count < u64::MAX,
        ensures
            final(self)@ == old(self)@.guarded(identity@, verified),
    {
        if !verified {
            let ghost before = self.results@;
            let result: PdfClassificationResult = source_version_changed_classification(identity);
            self.results.insert(identity.to_string(), result);
            assert(map_views(before.insert(identity@, result)) =~= map_views(before).insert(
                identity@,
                result@,
            ));
        } else {
            self.metrics.classification_cache_lookup_count =
            self.metrics.classification_cache_lookup_count + 1;
            self.any_lookup = true;
        }
    }

    /// Takes in what the cache answered.
    pub fn lookup_answered(
        &mut self,
        file: &DiscoveredFileOut,
        guard: SourceGuardV2,
        lookup: ClassificationCacheLookup,
        now_ms: u64,
        work_deadline_ms: u64,
        profile: &NormalizedScannerProfileV2,
        request_id: String,
        classifier_profile_hash: &str,
        classifier_build: &str,
    )
        requires
            old(self)@.metrics.classify_attempt_count < u64::MAX,
        ensures
            final(self)@ == old(self)@.looked_up(
                file@,
                guard@,
                lookup@,
                now_ms,
                work_deadline_ms,
                profile@,
                request_id@,
                classifier_profile_hash@,
                classifier_build@,
            ),
    {
        let ghost before = self@;
        match lookup {
            ClassificationCacheLookup::Fresh(entry) => {
                let ghost held = self.results@;
                self.fresh_hits.push(file.file_identity.clone());
                let status: PdfClassificationStatus = if text_eq(
                    entry.status.as_str(),
                    "text_in_parse_window",
                ) {
                    PdfClassificationStatus::TextInParseWindow
                } else {
                    PdfClassificationStatus::NoTextInParseWindow
                };
                let result = PdfClassificationResult {
                    file_identity: file.file_identity.clone(),
                    status,
                    page_count: Some(entry.page_count),
                    result_examined_pages: Some(entry.result_examined_pages),
                    error_code: None,
                };
                self.results.insert(file.file_identity.clone(), result);
                proof {
                    let id = file.file_identity@;
                    assert(map_views(held.insert(id, result)) =~= map_views(held).insert(
                        id,
                        result@,
                    ));
                    assert(self@.fresh_hits =~= before.fresh_hits.push(id));
                }
            },
            ClassificationCacheLookup::Miss(_) => {
                self.any_miss = true;
                let remaining: u64 = work_deadline_ms.saturating_sub(now_ms);
                if remaining == 0 {
                    self.cut_off(file.file_identity.as_str());
                } else {
                    let own_timeout_ms: u64 = if profile.pdf_classification_timeout_ms
                        <= remaining {
                        profile.pdf_classification_timeout_ms
                    } else {
                        remaining
                    };
                    self.metrics.classify_attempt_count = self.metrics.classify_attempt_count + 1;
                    let task = ClassificationTask {
                        file: file.clone(),
                        guard,
                        request: PdfClassifierRequestV1 {
                            contract: "ai_daily_pdf_classifier".to_string(),
                            protocol_version: 1,
                            request_id,
                            file_path: file.path.clone(),
                            source_version: file.source_version.clone(),
                            max_pages: profile.parse.pdf.max_pages,
                            policy_version: profile.classifier_policy_version.clone(),
                        },
                        own_timeout_ms,
                        classifier_profile_hash: classifier_profile_hash.to_string(),
                        classifier_build: classifier_build.to_string(),
                    };
                    self.tasks.push(task);
                    assert(self@.tasks =~= before.tasks.push(task@));
                }
            },
        }
    }

    /// Gives up the tasks from `index` on, because the deadline has come.
    pub fn abandon(&mut self, index: usize)
        requires
            index <= old(self).tasks@.len(),
        ensures
            final(self)@ == old(self)@.abandoned(index as int),
    {
        let ghost start = self@;
        let count: usize = self.tasks.len();
        let mut i: usize = count;
        while i > index
            invariant
                index <= i <= count,
                count == self.tasks.len(),
                self@.tasks == start.tasks,
                start.tasks.len() == count,
                self@ == start.abandoned(i as int),
            decreases i,
        {
            i = i - 1;
            assert(self@.tasks[i as int] == self.tasks@[i as int]@);
            let identity: String = self.tasks[i].file.file_identity.clone();
            self.cut_off(identity.as_str());
        }
    }

    /// Takes in what became of a task. The cache entry that is given is to be
    /// written.
    pub fn merge(
        &mut self,
        task: &ClassificationTask,
        outcome: &Result<PdfClassifierResultV1, ParseFailure>,
        verified: bool,
        now_ms: u64,
        work_deadline_ms: u64,
    ) -> (record: Option<ClassificationCacheWriteRecord>)
        requires
            old(self)@.metrics.unobserved_classification_attempt_count < u64::MAX,
        ensures
            final(self)@ == old(self)@.merged(task@, *outcome, verified),
            opt_view(record) == ClassificationRunView::entry_left(
                task@,
                *outcome,
                verified,
                now_ms,
                work_deadline_ms,
            ),
    {
        let id: String = task.file.file_identity.clone();
        let ghost held = self.results@;
        if !verified {
            let result: PdfClassificationResult = source_version_changed_classification(
                id.as_str(),
            );
            self.results.insert(id, result);
            self.metrics.unobserved_classification_attempt_count =
            self.metrics.unobserved_classification_attempt_count + 1;
            assert(map_views(held.insert(id@, result)) =~= map_views(held).insert(id@, result@));
            return None;
        }
        let result: PdfClassificationResult = read_classification(id.as_str(), outcome);
        match result.result_examined_pages {
            Some(pages) => {
                self.metrics.confirmed_run_inspected_pages_total =
                self.metrics.confirmed_run_inspected_pages_total.saturating_add(pages);
            },
            None => {
                self.metrics.unobserved_classification_attempt_count =
                self.metrics.unobserved_classification_attempt_count + 1;
            },
        }
        let record: Option<ClassificationCacheWriteRecord> = if now_ms < work_deadline_ms {
            classification_cache_record(
                &task.file,
                task.classifier_profile_hash.as_str(),
                task.classifier_build.as_str(),
                &result,
            )
        } else {
            None
        };
        self.results.insert(id, result);
        assert(map_views(held.insert(id@, result)) =~= map_views(held).insert(id@, result@));
        record
    }

    /// Takes in whether a cache entry was committed.
    pub fn write_done(
        &mut self,
        record: ClassificationCacheWriteRecord,
        outcome: &Result<(), CachePortError>,
    )
        ensures
            final(self)@ == old(self)@.written(record@, *outcome),
    {
        let ghost before = self@;
        if outcome.is_ok() {
            self.receipts.push(record);
            assert(self@.receipts =~= before.receipts.push(record@));
        }
    }

    /// Ends the stage.
    pub fn finish(&mut self)
        ensures
            final(self)@ == old(self)@.finished(),
    {
        self.metrics.classification_cache_all_hit = if self.any_lookup {
            Some(!self.any_miss)
        } else {
            None
        };
    }
}

/// Every step of the stage keeps it consistent.
pub proof fn law_classification_stays_consistent(
    state: ClassificationRunView,
    plan: ClassifiedPlanView,
    file: DiscoveredFileOutView,
    found: bool,
    guard: SourceGuardV2View,
    verified: bool,
    lookup: ClassificationCacheLookupView,
    now_ms: u64,
    work_deadline_ms: u64,
    profile: NormalizedScannerProfileV2View,
    request_id: Seq<char>,
    profile_hash: Seq<char>,
    build: Seq<char>,
    task: ClassificationTaskView,
    outcome: Result<PdfClassifierResultV1, ParseFailure>,
    record: ClassificationCacheWriteRecordView,
    written: Result<(), CachePortError>,
)
    requires
        state.consistent(),
        state.can_count(),
    ensures
        state.taken_up(
            plan,
            if found {
                Some(file)
            } else {
                None
            },
            now_ms,
            work_deadline_ms,
        ).0.consistent(),
        state.guarded(plan.file_identity, verified).consistent(),
        state.any_lookup ==> state.looked_up(
            file,
            guard,
            lookup,
            now_ms,
            work_deadline_ms,
            profile,
            request_id,
            profile_hash,
            build,
        ).consistent(),
        state.merged(task, outcome, verified).consistent(),
        state.written(record, written).consistent(),
        state.finished().consistent(),
{
}

/// A classification is cached only for a file that verified before the deadline,
/// and only when it has an outcome.
pub proof fn law_only_verified_classifications_are_cached(
    task: ClassificationTaskView,
    outcome: Result<PdfClassifierResultV1, ParseFailure>,
    verified: bool,
    now_ms: u64,
    work_deadline_ms: u64,
)
    ensures
        ClassificationRunView::entry_left(
            task,
            outcome,
            verified,
            now_ms,
            work_deadline_ms,
        ) matches Some(record) ==> verified && now_ms < work_deadline_ms
            && crate::store::cache::is_cached_status(record.status) && record.page_count > 0
            && record.result_examined_pages > 0 && record.file_identity == task.file.file_identity,
{
}

/// A receipt is kept of an entry exactly where its write was accepted; nothing else
/// changes.
pub proof fn law_receipts_are_of_committed_classifications(
    state: ClassificationRunView,
    record: ClassificationCacheWriteRecordView,
    outcome: Result<(), CachePortError>,
)
    ensures
        state.written(record, outcome).receipts == if outcome is Ok {
            state.receipts.push(record)
        } else {
            state.receipts
        },
        state.written(record, outcome).results == state.results,
        state.written(record, outcome).metrics == state.metrics,
{
}

/// Giving up the tasks from `index` on keeps the stage consistent: every one of them
/// is cut off, and no result is touched.
pub proof fn law_abandoned_classifications_are_cut_off(state: ClassificationRunView, index: int)
    requires
        0 <= index <= state.tasks.len(),
        state.consistent(),
    ensures
        state.abandoned(index).consistent(),
        state.abandoned(index).tasks == state.tasks,
        state.abandoned(index).results == state.results,
        forall|j: int|
            index <= j < state.tasks.len() ==> state.abandoned(index).runtime_not_parsed.contains(
                (#[trigger] state.tasks[j]).file.file_identity,
            ),
    decreases state.tasks.len() - index,
{
    if index < state.tasks.len() {
        law_abandoned_classifications_are_cut_off(state, index + 1);
    }
}

/// A classification survives the cache: where one with an outcome is written as a record
/// and a later run finds an entry with the status and the pages of that record, the later
/// run has the same status and the same pages.
pub proof fn law_classifications_survive_the_cache(
    file: DiscoveredFileOutView,
    profile_hash: Seq<char>,
    build: Seq<char>,
    result: PdfClassificationResultView,
    identity: Seq<char>,
    entry: crate::store::cache::ClassificationCacheEntryView,
)
    requires
        classification_record(file, profile_hash, build, result) matches Some(record)
            && entry.status == record.status && entry.page_count == record.page_count
            && entry.result_examined_pages == record.result_examined_pages,
    ensures
        ({
            let found = cached_classification(identity, entry);
            &&& found.file_identity == identity
            &&& found.status == result.status
            &&& found.page_count == result.page_count
            &&& found.result_examined_pages == result.result_examined_pages
            &&& found.error_code is None
        }),
{
    lemma_statuses_differ();
}

proof fn lemma_statuses_differ()
    ensures
        "text_in_parse_window"@ != "no_text_in_parse_window"@,
{
    reveal_strlit("text_in_parse_window");
    reveal_strlit("no_text_in_parse_window");
    assert("text_in_parse_window"@.len() == 20 && "no_text_in_parse_window"@.len() == 23);
}

/// A cached classification is read as the outcome that its status names: text where it says
/// so, and no text where it says so.
pub proof fn law_cached_outcomes_are_told_apart(
    identity: Seq<char>,
    entry: crate::store::cache::ClassificationCacheEntryView,
)
    requires
        entry.status == "text_in_parse_window"@ || entry.status == "no_text_in_parse_window"@,
    ensures
        ({
            let found = cached_classification(identity, entry);
            &&& found.status == PdfClassificationStatus::TextInParseWindow <==> entry.status
                == "text_in_parse_window"@
            &&& found.status == PdfClassificationStatus::NoTextInParseWindow <==> entry.status
                == "no_text_in_parse_window"@
            &&& found.page_count == Some(entry.page_count)
            &&& found.result_examined_pages == Some(entry.result_examined_pages)
        }),
{
    lemma_statuses_differ();
}

/// A fresh classification is taken from the cache and not made again; a missing one is
/// made, unless the deadline has come, and then it is cut off. Either way no other file is
/// touched.
pub proof fn law_cached_classifications_are_not_made_again(
    state: ClassificationRunView,
    file: DiscoveredFileOutView,
    guard: SourceGuardV2View,
    lookup: ClassificationCacheLookupView,
    now_ms: u64,
    work_deadline_ms: u64,
    profile: NormalizedScannerProfileV2View,
    request_id: Seq<char>,
    profile_hash: Seq<char>,
    build: Seq<char>,
    other: Seq<char>,
)
    requires
        state.can_count(),
    ensures
        ({
            let id = file.file_identity;
            let next = state.looked_up(
                file,
                guard,
                lookup,
                now_ms,
                work_deadline_ms,
                profile,
                request_id,
                profile_hash,
                build,
            );
            &&& lookup matches ClassificationCacheLookupView::Fresh(entry) ==> {
                &&& next.tasks == state.tasks
                &&& next.results.contains_key(id)
                &&& next.results[id] == cached_classification(id, entry)
                &&& next.fresh_hits == state.fresh_hits.push(id)
                &&& next.metrics == state.metrics
                &&& next.any_miss == state.any_miss
                &&& next.runtime_not_parsed == state.runtime_not_parsed
            }
            &&& lookup is Miss ==> {
                &&& next.results == state.results
                &&& next.fresh_hits == state.fresh_hits
                &&& next.any_miss
                &&& now_ms >= work_deadline_ms ==> next.tasks == state.tasks
                    && next.runtime_not_parsed == state.runtime_not_parsed.insert(id)
                    && next.metrics.classify_attempt_count == state.metrics.classify_attempt_count
                    && next.metrics.stage_deadline_exhausted_count == 1
                &&& now_ms < work_deadline_ms ==> next.tasks.len() == state.tasks.len() + 1
                    && next.tasks.drop_last() == state.tasks && next.tasks.last().file == file
                    && next.runtime_not_parsed == state.runtime_not_parsed
                    && next.metrics.classify_attempt_count == state.metrics.classify_attempt_count
                    + 1
            }
            &&& other != id ==> next.results.contains_key(other) == state.results.contains_key(
                other,
            ) && (state.results.contains_key(other) ==> next.results[other]
                == state.results[other])
            &&& next.receipts == state.receipts
        }),
{
    let next = state.looked_up(
        file,
        guard,
        lookup,
        now_ms,
        work_deadline_ms,
        profile,
        request_id,
        profile_hash,
        build,
    );
    if lookup is Miss && now_ms < work_deadline_ms {
        assert(next.tasks.drop_last() =~= state.tasks);
    }
}

/// A classification that is to be made is of the file that was looked up, asks for that
/// file as it was discovered, within the pages of the profile, and is given neither more
/// time than the profile allows nor more than is left.
pub proof fn law_classifications_are_asked_for_the_file(
    state: ClassificationRunView,
    file: DiscoveredFileOutView,
    guard: SourceGuardV2View,
    lookup: ClassificationCacheLookupView,
    now_ms: u64,
    work_deadline_ms: u64,
    profile: NormalizedScannerProfileV2View,
    request_id: Seq<char>,
    profile_hash: Seq<char>,
    build: Seq<char>,
)
    requires
        lookup is Miss,
        now_ms < work_deadline_ms,
    ensures
        ({
            let task = state.looked_up(
                file,
                guard,
                lookup,
                now_ms,
                work_deadline_ms,
                profile,
                request_id,
                profile_hash,
                build,
            ).tasks.last();
            &&& task.guard == guard
            &&& task.request.file_path == file.path
            &&& task.request.source_version == file.source_version
            &&& task.request.request_id == request_id
            &&& task.request.max_pages == profile.parse.pdf.max_pages
            &&& task.request.policy_version == profile.classifier_policy_version
            &&& task.classifier_profile_hash == profile_hash
            &&& task.classifier_build == build
            &&& task.own_timeout_ms <= profile.pdf_classification_timeout_ms
            &&& task.own_timeout_ms <= work_deadline_ms - now_ms
            &&& task.own_timeout_ms == profile.pdf_classification_timeout_ms
                || task.own_timeout_ms == work_deadline_ms - now_ms
        }),
{
}

/// Work is given no more time than it may take and no more than is left, and all of the
/// smaller of the two.
pub proof fn law_timeouts_end_at_the_deadline(own_timeout_ms: u64, deadline_ms: u64, now_ms: u64)
    ensures
        ({
            let timeout_ms = smaller(own_timeout_ms, remaining_ms(deadline_ms, now_ms));
            &&& timeout_ms <= own_timeout_ms
            &&& now_ms < deadline_ms ==> now_ms + timeout_ms <= deadline_ms
            &&& now_ms >= deadline_ms ==> timeout_ms == 0
            &&& timeout_ms == own_timeout_ms || timeout_ms == 0 || now_ms + timeout_ms
                == deadline_ms
            &&& own_timeout_ms > 0 && now_ms < deadline_ms ==> timeout_ms > 0
        }),
{
}

/// What the classifier answered is the classification: its status by the same name, with
/// its pages. Where no answer came, nothing is known of the file.
pub proof fn law_classifier_answers_are_the_classification(
    identity: Seq<char>,
    outcome: Result<PdfClassifierResultV1, ParseFailure>,
)
    ensures
        ({
            let result = classification_of(identity, outcome);
            &&& result.file_identity == identity
            &&& outcome matches Ok(answer) ==> {
                &&& result.status == PdfClassificationStatus::TextInParseWindow <==> answer.status
                    == PdfClassifierResultStatus::TextInParseWindow
                &&& result.status == PdfClassificationStatus::NoTextInParseWindow
                    <==> answer.status == PdfClassifierResultStatus::NoTextInParseWindow
                &&& result.status == PdfClassificationStatus::Unknown <==> answer.status
                    == PdfClassifierResultStatus::Unknown
                &&& result.status == PdfClassificationStatus::Error <==> answer.status
                    == PdfClassifierResultStatus::Error
                &&& result.page_count == answer.page_count
                &&& result.result_examined_pages == answer.result_examined_pages
                &&& result.error_code is Some <==> answer.diagnostic is Some
                &&& result.error_code == Some(ErrorCode::ParserTimeout.text_spec()) <==> (
                answer.diagnostic is Some && answer.diagnostic->0.error_code
                    == PythonOperationErrorCode::ParserTimeout)
            }
            &&& outcome matches Err(failure) ==> {
                &&& result.status == PdfClassificationStatus::Unknown
                &&& result.page_count is None && result.result_examined_pages is None
                &&& result.error_code is Some
                &&& result.error_code == Some(ErrorCode::ParserTimeout.text_spec())
                    <==> failure.diagnostic.error_code == ErrorCode::ParserTimeout
            }
        }),
{
    reveal_strlit("PARSER_TIMEOUT");
    reveal_strlit("PARSER_FAILED");
    assert("PARSER_TIMEOUT"@.len() == 14 && "PARSER_FAILED"@.len() == 13);
}

/// A file that changed while it was classified is an error of that file, whatever the
/// classifier said; one that did not change has the classification that was made. No other
/// file is touched, and the pages that were seen to be examined are counted.
pub proof fn law_changed_files_are_not_classified(
    state: ClassificationRunView,
    task: ClassificationTaskView,
    outcome: Result<PdfClassifierResultV1, ParseFailure>,
    verified: bool,
    other: Seq<char>,
)
    requires
        state.can_count(),
    ensures
        ({
            let id = task.file.file_identity;
            let next = state.merged(task, outcome, verified);
            let answered = classification_of(id, outcome);
            &&& next.results.contains_key(id)
            &&& verified ==> next.results[id] == answered
            &&& !verified ==> next.results[id].status == PdfClassificationStatus::Error
                && next.results[id].error_code == Some(
                ErrorCode::SourceVersionChanged.text_spec(),
            ) && next.results[id].page_count is None && next.results[id].file_identity == id
            &&& other != id ==> next.results.contains_key(other) == state.results.contains_key(
                other,
            ) && (state.results.contains_key(other) ==> next.results[other]
                == state.results[other])
            &&& next.tasks == state.tasks && next.receipts == state.receipts
            &&& next.runtime_not_parsed == state.runtime_not_parsed
            &&& verified && answered.result_examined_pages is Some ==> {
                let sum = state.metrics.confirmed_run_inspected_pages_total
                    + answered.result_examined_pages->0;
                &&& sum <= u64::MAX ==> next.metrics.confirmed_run_inspected_pages_total == sum
                &&& next.metrics.unobserved_classification_attempt_count
                    == state.metrics.unobserved_classification_attempt_count
            }
            &&& !(verified && answered.result_examined_pages is Some) ==> {
                &&& next.metrics.confirmed_run_inspected_pages_total
                    == state.metrics.confirmed_run_inspected_pages_total
                &&& next.metrics.unobserved_classification_attempt_count
                    == state.metrics.unobserved_classification_attempt_count + 1
            }
        }),
{
}

/// An outcome that was found in time, of a file that did not change, is cached under the
/// version and the guard that the file was discovered with, and with the outcome's pages.
pub proof fn law_outcomes_are_cached(
    task: ClassificationTaskView,
    outcome: Result<PdfClassifierResultV1, ParseFailure>,
    now_ms: u64,
    work_deadline_ms: u64,
)
    requires
        now_ms < work_deadline_ms,
        task.file.source_guard_kind is Some,
        task.file.source_guard_sha256 is Some,
        outcome is Ok,
        outcome->Ok_0.status == PdfClassifierResultStatus::TextInParseWindow
            || outcome->Ok_0.status == PdfClassifierResultStatus::NoTextInParseWindow,
        outcome->Ok_0.page_count is Some && outcome->Ok_0.page_count->0 > 0,
        outcome->Ok_0.result_examined_pages is Some && outcome->Ok_0.result_examined_pages->0 > 0,
    ensures
        ({
            let left = ClassificationRunView::entry_left(
                task,
                outcome,
                true,
                now_ms,
                work_deadline_ms,
            );
            let record = left->0;
            &&& left is Some
            &&& record.file_identity == task.file.file_identity
            &&& record.source_version == task.file.source_version
            &&& Some(record.source_guard_kind) == task.file.source_guard_kind
            &&& Some(record.source_guard_sha256) == task.file.source_guard_sha256
            &&& record.classifier_profile_hash == task.classifier_profile_hash
            &&& record.classifier_build == task.classifier_build
            &&& Some(record.page_count) == outcome->Ok_0.page_count
            &&& Some(record.result_examined_pages) == outcome->Ok_0.result_examined_pages
            &&& record.status == "text_in_parse_window"@ <==> outcome->Ok_0.status
                == PdfClassifierResultStatus::TextInParseWindow
            &&& record.status == "no_text_in_parse_window"@ <==> outcome->Ok_0.status
                == PdfClassifierResultStatus::NoTextInParseWindow
        }),
{
    lemma_statuses_differ();
}

/// A plan that needs no classification, or whose file is not there, changes nothing; one
/// that is taken up after the deadline is cut off; any other is taken up under the guard
/// of its file.
pub proof fn law_late_plans_are_cut_off(
    state: ClassificationRunView,
    plan: ClassifiedPlanView,
    file: Option<DiscoveredFileOutView>,
    now_ms: u64,
    work_deadline_ms: u64,
)
    ensures
        ({
            let (next, guard) = state.taken_up(plan, file, now_ms, work_deadline_ms);
            let wanted = plan.pdf_classification is Classify && file is Some;
            &&& next.results == state.results && next.tasks == state.tasks
            &&& wanted && now_ms >= work_deadline_ms ==> next.runtime_not_parsed
                == state.runtime_not_parsed.insert(plan.file_identity) && guard is None
                && next.metrics.stage_deadline_exhausted_count == 1
            &&& !(wanted && now_ms >= work_deadline_ms) ==> next == state
            &&& wanted && now_ms < work_deadline_ms ==> guard == guard_of(file->0)
            &&& !wanted ==> guard is None
        }),
{
}

/// A file that was not verified before it was looked up is an error of that file; one that
/// was is looked up, and the lookup is counted.
pub proof fn law_only_verified_files_are_looked_up(
    state: ClassificationRunView,
    identity: Seq<char>,
    verified: bool,
)
    requires
        state.can_count(),
    ensures
        ({
            let next = state.guarded(identity, verified);
            &&& verified ==> next.results == state.results && next.any_lookup
                && next.metrics.classification_cache_lookup_count
                == state.metrics.classification_cache_lookup_count + 1
            &&& !verified ==> next.results.contains_key(identity)
                && next.results[identity].status == PdfClassificationStatus::Error
                && next.results[identity].error_code == Some(
                ErrorCode::SourceVersionChanged.text_spec(),
            ) && next.metrics == state.metrics && next.any_lookup == state.any_lookup
        }),
{
}

/// A stage says that every lookup hit exactly where there was a lookup and none missed, and
/// says nothing of it where there was none.
pub proof fn law_all_hit_means_that_none_missed(state: ClassificationRunView)
    ensures
        ({
            let told = state.finished().metrics.classification_cache_all_hit;
            &&& told == Some(true) <==> state.any_lookup && !state.any_miss
            &&& told == Some(false) <==> state.any_lookup && state.any_miss
            &&& told is None <==> !state.any_lookup
        }),
        state.finished().results == state.results,
        state.finished().receipts == state.receipts,
        state.finished().runtime_not_parsed == state.runtime_not_parsed,
{
}

/// A classification that one run cached answers the next run that discovers the same file
/// as it was: the lookup with what the file was discovered with is fresh, and what the next
/// run makes of it has the outcome and the pages of the first.
pub proof fn law_later_runs_take_the_cached_classification(
    rows: Seq<crate::store::cache::ClassificationCacheRowView>,
    file: DiscoveredFileOutView,
    profile_hash: Seq<char>,
    build: Seq<char>,
    result: PdfClassificationResultView,
    cached_at_ms: i64,
    bucket: Seq<char>,
    existed_before: bool,
)
    requires
        classification_record(file, profile_hash, build, result) matches Some(record)
            && record.valid(),
    ensures
        ({
            let record = classification_record(file, profile_hash, build, result)->0;
            let answer = crate::store::cache::classification_lookup(
                crate::store::cache::classified_rows_after_write(
                    rows,
                    record,
                    cached_at_ms,
                    bucket,
                ),
                file.file_identity,
                file.source_version,
                file.source_guard_kind->0,
                file.source_guard_sha256->0,
                profile_hash,
                build,
                existed_before,
            );
            let found = cached_classification(file.file_identity, answer->Fresh_0);
            &&& answer is Fresh
            &&& found.status == result.status
            &&& found.page_count == result.page_count
            &&& found.result_examined_pages == result.result_examined_pages
        }),
{
    let record = classification_record(file, profile_hash, build, result)->0;
    crate::store::cache::law_cached_classifications_are_read_as_written(
        rows,
        record,
        cached_at_ms,
        bucket,
        existed_before,
    );
    lemma_statuses_differ();
}

} // verus!
