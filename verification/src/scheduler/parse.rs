//! The parse stage of a run.
//!
//! Admitted files are taken up in admission order. The caller reads the clock, asks
//! the cache, recomputes guards and runs parsers; the stage decides what follows
//! from what it is told.
use crate::contract::{
    opt_view, views, CacheMissReason, CacheStatus, Diagnostic, DiagnosticStage, DiagnosticView,
    DiscoveredFileOut, DiscoveredFileOutView, ErrorCode, ParseStatus, ParseTransport,
    PdfClassificationStatus, RouteKind,
};
use crate::hash::{content_hash, content_sha256};
use crate::ordered::{TextMap, TextSet};
use crate::profile::{route_timeout, route_timeout_ms, ExecutionProfile, ExecutionProfileView};
use crate::scheduler::classify::{remaining_ms, smaller};
use crate::scheduler::plan::{
    expected_guard, guard_of, law_guards_are_those_of_the_discovery, map_views, AdmissionDecision,
    AdmissionDecisionView, PdfClassificationResult, PdfClassificationResultView, PlanAction,
    PlanActionView,
};
use crate::scheduler::records::{
    no_outputs, CachePortError, ExecutionMetrics, ParseLookupOutcome, ParseLookupOutcomeView,
    ParseOutputs, ParseOutputsView, ParseRequest, ParseRequestView, ParseResult, ParseResultView,
    WorkerIdentities, WorkerIdentitiesView,
};
use crate::source_guard::{kind_text, source_guard_kind_text, SourceGuardV2};
use crate::store::cache::{
    CacheEntryView, CacheLookup, CacheLookupView, CacheWriteRecord, CacheWriteRecordView,
};
use vstd::prelude::*;
use vstd::string::StringExecFns;

verus! {

/// A parse that is to be run.
#[derive(Debug, PartialEq, Eq)]
pub struct ParseTask {
    pub file: DiscoveredFileOut,
    pub route: RouteKind,
    pub own_timeout_ms: u64,
    pub profile_hash: String,
}

/// What a [`ParseTask`] says.
#[verifier::ext_equal]
pub struct ParseTaskView {
    pub file: DiscoveredFileOutView,
    pub route: RouteKind,
    pub own_timeout_ms: u64,
    pub profile_hash: Seq<char>,
}

impl View for ParseTask {
    type V = ParseTaskView;

    open spec fn view(&self) -> ParseTaskView {
        ParseTaskView {
            file: self.file@,
            route: self.route,
            own_timeout_ms: self.own_timeout_ms,
            profile_hash: self.profile_hash@,
        }
    }
}

impl Clone for ParseTask {
    fn clone(&self) -> (copy: Self)
        ensures
            copy@ == self@,
            copy == *self,
    {
        ParseTask {
            file: self.file.clone(),
            route: self.route,
            own_timeout_ms: self.own_timeout_ms,
            profile_hash: self.profile_hash.clone(),
        }
    }
}

/// Who the engine is.
#[derive(Debug, PartialEq, Eq)]
pub struct EngineIdentity {
    pub version: String,
    pub build: String,
}

/// What a [`EngineIdentity`] says.
#[verifier::ext_equal]
pub struct EngineIdentityView {
    pub version: Seq<char>,
    pub build: Seq<char>,
}

impl View for EngineIdentity {
    type V = EngineIdentityView;

    open spec fn view(&self) -> EngineIdentityView {
        EngineIdentityView {
            version: self.version@,
            build: self.build@,
        }
    }
}

impl Clone for EngineIdentity {
    fn clone(&self) -> (copy: Self)
        ensures
            copy@ == self@,
            copy == *self,
    {
        EngineIdentity {
            version: self.version.clone(),
            build: self.build.clone(),
        }
    }
}

/// The parse stage.
pub struct ParseRun {
    pub outputs: ParseOutputs,
    /// Parses that are to be run, in admission order.
    pub tasks: Vec<ParseTask>,
    pub any_lookup: bool,
    pub any_miss: bool,
    pub metrics: ExecutionMetrics,
}

/// The parse stage.
#[verifier::ext_equal]
pub struct ParseRunView {
    pub outputs: ParseOutputsView,
    pub tasks: Seq<ParseTaskView>,
    pub any_lookup: bool,
    pub any_miss: bool,
    pub metrics: ExecutionMetrics,
}

impl View for ParseRun {
    type V = ParseRunView;

    open spec fn view(&self) -> ParseRunView {
        ParseRunView {
            outputs: self.outputs@,
            tasks: views(self.tasks@),
            any_lookup: self.any_lookup,
            any_miss: self.any_miss,
            metrics: self.metrics,
        }
    }
}

/// The text, or the fallback where there is none.
pub open spec fn text_or(text: Option<Seq<char>>, fallback: Seq<char>) -> Seq<char> {
    match text {
        Some(value) => value,
        None => fallback,
    }
}

fn given_or(text: &Option<String>, fallback: &str) -> (value: String)
    ensures
        value@ == text_or(opt_view(*text), fallback@),
{
    match text {
        Some(value) => value.clone(),
        None => fallback.to_string(),
    }
}

/// Who parses the files of a route: contract, version and build.
pub open spec fn worker_of(
    route: RouteKind,
    workers: WorkerIdentitiesView,
    engine: EngineIdentityView,
) -> (Seq<char>, Seq<char>, Seq<char>) {
    match route {
        RouteKind::RustOffice | RouteKind::RustXlsx => (
            text_or(workers.office_contract, "ai_daily_worker_v1"@),
            text_or(workers.office_version, "unknown"@),
            text_or(workers.office_build, "unknown"@),
        ),
        RouteKind::Pdf | RouteKind::PythonOffice | RouteKind::PythonSharepointText => (
            text_or(workers.python_contract, "ai_daily_worker_v1"@),
            text_or(workers.python_version, "unknown"@),
            text_or(workers.python_build, "unknown"@),
        ),
        RouteKind::LightText => ("ai_daily_context_v1"@, engine.version, engine.build),
    }
}

/// Names who parses the files of a route.
pub fn worker_identity_for(
    route: RouteKind,
    workers: &WorkerIdentities,
    engine: &EngineIdentity,
) -> (identity: (String, String, String))
    ensures
        (identity.0@, identity.1@, identity.2@) == worker_of(route, workers@, engine@),
{
    match route {
        RouteKind::RustOffice | RouteKind::RustXlsx => (
            given_or(&workers.office_contract, "ai_daily_worker_v1"),
            given_or(&workers.office_version, "unknown"),
            given_or(&workers.office_build, "unknown"),
        ),
        RouteKind::Pdf | RouteKind::PythonOffice | RouteKind::PythonSharepointText => (
            given_or(&workers.python_contract, "ai_daily_worker_v1"),
            given_or(&workers.python_version, "unknown"),
            given_or(&workers.python_build, "unknown"),
        ),
        RouteKind::LightText => (
            "ai_daily_context_v1".to_string(),
            engine.version.clone(),
            engine.build.clone(),
        ),
    }
}

/// The result of a file that changed while it was worked on.
pub open spec fn changed_parse(file: DiscoveredFileOutView) -> ParseResultView {
    ParseResultView {
        file_identity: file.file_identity,
        content: Seq::empty(),
        parser_backend: "not_parsed"@,
        worker_lane: "not_parsed"@,
        truncated: false,
        content_sha256: content_sha256(Seq::empty()),
        parse_status: ParseStatus::Error,
        error: Some(
            DiagnosticView {
                error_code: ErrorCode::SourceVersionChanged,
                message: "file source version changed before or during parsing"@,
                retryable: true,
                stage: DiagnosticStage::Parse,
                file_path: Some(file.path),
                backend: Some(file.extension),
            },
        ),
        warnings: Seq::empty(),
        failure_class: "deterministic"@,
        fallback_backend: Seq::empty(),
        fallback_reason_code: "source_version_changed"@,
        parse_transport: ParseTransport::NotApplicable,
        parse_attempt_count: 0,
        primary_duration_ms: 0,
        fallback_duration_ms: 0,
        parse_duration_ms: 0,
    }
}

/// The result of a file that changed while it was worked on.
pub fn source_version_changed_parse(file: &DiscoveredFileOut) -> (result: ParseResult)
    ensures
        result@ == changed_parse(file@),
{
    let empty: String = String::new();
    let result = ParseResult {
        file_identity: file.file_identity.clone(),
        content: String::new(),
        parser_backend: "not_parsed".to_string(),
        worker_lane: "not_parsed".to_string(),
        truncated: false,
        content_sha256: content_hash(empty.as_str()),
        parse_status: ParseStatus::Error,
        error: Some(
            Diagnostic {
                error_code: ErrorCode::SourceVersionChanged,
                message: "file source version changed before or during parsing".to_string(),
                retryable: true,
                stage: DiagnosticStage::Parse,
                file_path: Some(file.path.clone()),
                backend: Some(file.extension.clone()),
            },
        ),
        warnings: Vec::new(),
        failure_class: "deterministic".to_string(),
        fallback_backend: String::new(),
        fallback_reason_code: "source_version_changed".to_string(),
        parse_transport: ParseTransport::NotApplicable,
        parse_attempt_count: 0,
        primary_duration_ms: 0,
        fallback_duration_ms: 0,
        parse_duration_ms: 0,
    };
    assert(result@.warnings =~= Seq::empty());
    result
}

/// The result of a file that came from the cache.
pub open spec fn cached_parse(identity: Seq<char>, entry: CacheEntryView) -> ParseResultView {
    ParseResultView {
        file_identity: identity,
        content: entry.content,
        parser_backend: entry.parser_backend,
        worker_lane: entry.worker_lane,
        truncated: entry.truncated,
        content_sha256: entry.content_sha256,
        parse_status: ParseStatus::Success,
        error: None,
        warnings: Seq::empty(),
        failure_class: Seq::empty(),
        fallback_backend: Seq::empty(),
        fallback_reason_code: Seq::empty(),
        parse_transport: ParseTransport::NotApplicable,
        parse_attempt_count: 0,
        primary_duration_ms: 0,
        fallback_duration_ms: 0,
        parse_duration_ms: 0,
    }
}

/// The cache entry of a successful parse.
pub open spec fn parse_record(
    file: DiscoveredFileOutView,
    route: RouteKind,
    profile_hash: Seq<char>,
    result: ParseResultView,
    workers: WorkerIdentitiesView,
    engine: EngineIdentityView,
) -> Option<CacheWriteRecordView> {
    match guard_of(file) {
        None => None,
        Some(guard) => {
            let worker = worker_of(route, workers, engine);
            Some(
                CacheWriteRecordView {
                    file_identity: file.file_identity,
                    source_version: file.source_version,
                    source_guard_kind: kind_text(guard.kind),
                    source_guard_sha256: text_or(guard.guard_sha256, Seq::empty()),
                    parse_profile_hash: profile_hash,
                    content: result.content,
                    content_sha256: result.content_sha256,
                    parser_backend: result.parser_backend,
                    worker_lane: result.worker_lane,
                    truncated: result.truncated,
                    worker_contract_version: worker.0,
                    worker_version: worker.1,
                    worker_build: worker.2,
                },
            )
        },
    }
}

/// The warning about a cache write that did not come about.
pub open spec fn write_skipped(
    error: CachePortError,
    path: Seq<char>,
    backend: Seq<char>,
) -> DiagnosticView {
    DiagnosticView {
        error_code: ErrorCode::CacheWriteFailed,
        message: "parse cache write skipped: "@ + error.diagnostic_view(
            DiagnosticStage::Cache,
        ).message,
        retryable: true,
        stage: DiagnosticStage::Cache,
        file_path: Some(path),
        backend: Some(backend),
    }
}

/// The route on which a file has to be looked up: an admitted file of this run that
/// was not cut off and is not a PDF without text.
pub open spec fn lookup_route(
    decision: AdmissionDecisionView,
    file: Option<DiscoveredFileOutView>,
    cut_off: Set<Seq<char>>,
    classifications: Map<Seq<char>, PdfClassificationResultView>,
) -> Option<RouteKind> {
    let id = decision.file_identity;
    match decision.action {
        PlanActionView::Admit { route } => if file is None || cut_off.contains(id) || (route
            == RouteKind::Pdf && classifications.contains_key(id) && classifications[id].status
            == PdfClassificationStatus::NoTextInParseWindow) {
            None
        } else {
            Some(route)
        },
        _ => None,
    }
}

impl ParseRunView {
    /// The deadline came before the file was parsed.
    pub open spec fn cut_off(self, identity: Seq<char>) -> ParseRunView {
        ParseRunView {
            outputs: ParseOutputsView {
                runtime_not_parsed: self.outputs.runtime_not_parsed.insert(identity),
                ..self.outputs
            },
            metrics: ExecutionMetrics { stage_deadline_exhausted_count: 1, ..self.metrics },
            ..self
        }
    }

    /// The file changed while it was worked on.
    pub open spec fn changed(
        self,
        file: DiscoveredFileOutView,
        profile_hash: Seq<char>,
    ) -> ParseRunView {
        ParseRunView {
            outputs: ParseOutputsView {
                results: self.outputs.results.insert(file.file_identity, changed_parse(file)),
                parse_profile_hashes: self.outputs.parse_profile_hashes.insert(
                    file.file_identity,
                    profile_hash,
                ),
                ..self.outputs
            },
            ..self
        }
    }

    /// An admission decision is taken up; the file is looked up or left.
    pub open spec fn taken_up(
        self,
        decision: AdmissionDecisionView,
        file: Option<DiscoveredFileOutView>,
        cut_off: Set<Seq<char>>,
        classifications: Map<Seq<char>, PdfClassificationResultView>,
    ) -> ParseRunView {
        if lookup_route(decision, file, cut_off, classifications) is Some {
            ParseRunView {
                any_lookup: true,
                metrics: ExecutionMetrics {
                    parse_cache_lookup_count: (self.metrics.parse_cache_lookup_count + 1) as u64,
                    ..self.metrics
                },
                ..self
            }
        } else {
            self
        }
    }

    /// The cache holds the file. What it holds is used only when the file is
    /// still the one that was discovered.
    pub open spec fn found(
        self,
        file: DiscoveredFileOutView,
        profile_hash: Seq<char>,
        entry: CacheEntryView,
        verified: bool,
    ) -> ParseRunView {
        let id = file.file_identity;
        if guard_of(file) is None {
            self
        } else if !verified {
            self.changed(file, profile_hash)
        } else {
            ParseRunView {
                outputs: ParseOutputsView {
                    results: self.outputs.results.insert(id, cached_parse(id, entry)),
                    parse_profile_hashes: self.outputs.parse_profile_hashes.insert(
                        id,
                        profile_hash,
                    ),
                    parse_cache_status: self.outputs.parse_cache_status.insert(
                        id,
                        CacheStatus::Fresh,
                    ),
                    parse_cache_miss_reason: self.outputs.parse_cache_miss_reason.insert(
                        id,
                        CacheMissReason::NotMissed,
                    ),
                    parse_fresh_hits: self.outputs.parse_fresh_hits.push(id),
                    ..self.outputs
                },
                ..self
            }
        }
    }

    /// The cache does not hold the file. It becomes a task while time is left; what is
    /// left of it is read again for the task.
    pub open spec fn missed(
        self,
        file: DiscoveredFileOutView,
        route: RouteKind,
        profile_hash: Seq<char>,
        reason: CacheMissReason,
        now_ms: u64,
        later_ms: u64,
        work_deadline_ms: u64,
        execution: ExecutionProfileView,
    ) -> ParseRunView {
        let id = file.file_identity;
        let noted = ParseRunView {
            any_miss: true,
            outputs: ParseOutputsView {
                parse_cache_status: self.outputs.parse_cache_status.insert(id, CacheStatus::Miss),
                parse_cache_miss_reason: self.outputs.parse_cache_miss_reason.insert(id, reason),
                ..self.outputs
            },
            ..self
        };
        if now_ms >= work_deadline_ms {
            noted.cut_off(id)
        } else {
            ParseRunView {
                tasks: self.tasks.push(
                    ParseTaskView {
                        file,
                        route,
                        own_timeout_ms: smaller(
                            route_timeout(route, execution),
                            remaining_ms(work_deadline_ms, later_ms),
                        ),
                        profile_hash,
                    },
                ),
                metrics: ExecutionMetrics {
                    parse_attempt_count: (self.metrics.parse_attempt_count + 1) as u64,
                    pdfplumber_invocations: if route == RouteKind::Pdf {
                        (self.metrics.pdfplumber_invocations + 1) as u64
                    } else {
                        self.metrics.pdfplumber_invocations
                    },
                    ..self.metrics
                },
                ..noted
            }
        }
    }

    /// The cache answered.
    pub open spec fn answered(
        self,
        file: DiscoveredFileOutView,
        route: RouteKind,
        outcome: ParseLookupOutcomeView,
        verified: bool,
        now_ms: u64,
        later_ms: u64,
        work_deadline_ms: u64,
        execution: ExecutionProfileView,
    ) -> ParseRunView {
        match outcome.lookup {
            CacheLookupView::Fresh(entry) => self.found(
                file,
                outcome.parse_profile_hash,
                entry,
                verified,
            ),
            CacheLookupView::Miss(reason) => self.missed(
                file,
                route,
                outcome.parse_profile_hash,
                reason,
                now_ms,
                later_ms,
                work_deadline_ms,
                execution,
            ),
        }
    }

    /// The tasks from `index` on are not run: the deadline has come.
    pub open spec fn abandoned(self, index: int) -> ParseRunView
        decreases self.tasks.len() - index,
    {
        if index < 0 || index >= self.tasks.len() {
            self
        } else {
            self.abandoned(index + 1).cut_off(self.tasks[index].file.file_identity)
        }
    }

    /// A task is about to be run. It is run only when its file can be guarded and
    /// is still the one that was discovered.
    pub open spec fn dispatched(
        self,
        task: ParseTaskView,
        verified: bool,
        remaining: u64,
    ) -> (ParseRunView, Option<ParseRequestView>) {
        if guard_of(task.file) is None {
            (self, None)
        } else if !verified {
            (self.changed(task.file, task.profile_hash), None)
        } else {
            (
                self,
                Some(
                    ParseRequestView {
                        file: task.file,
                        route: task.route,
                        timeout_ms: smaller(task.own_timeout_ms, remaining),
                    },
                ),
            )
        }
    }

    /// A task was run. A success counts only when the file is still the one that
    /// was discovered.
    pub open spec fn parsed(
        self,
        task: ParseTaskView,
        result: ParseResultView,
        verified: bool,
    ) -> ParseRunView {
        let warned = ParseRunView {
            outputs: ParseOutputsView {
                parse_warnings: self.outputs.parse_warnings + result.warnings,
                ..self.outputs
            },
            ..self
        };
        if result.parse_status == ParseStatus::Success && !verified {
            warned.changed(task.file, task.profile_hash)
        } else {
            ParseRunView {
                outputs: ParseOutputsView {
                    results: self.outputs.results.insert(task.file.file_identity, result),
                    parse_profile_hashes: self.outputs.parse_profile_hashes.insert(
                        task.file.file_identity,
                        task.profile_hash,
                    ),
                    ..warned.outputs
                },
                ..warned
            }
        }
    }

    /// The cache entry that a task leaves when it ended at the given time.
    pub open spec fn entry_left(
        task: ParseTaskView,
        result: ParseResultView,
        verified: bool,
        now_ms: u64,
        work_deadline_ms: u64,
        workers: WorkerIdentitiesView,
        engine: EngineIdentityView,
    ) -> Option<CacheWriteRecordView> {
        if result.parse_status == ParseStatus::Success && verified && now_ms < work_deadline_ms {
            parse_record(task.file, task.route, task.profile_hash, result, workers, engine)
        } else {
            None
        }
    }

    /// A cache entry was written, or was not.
    pub open spec fn written(
        self,
        record: CacheWriteRecordView,
        outcome: Result<(), CachePortError>,
        path: Seq<char>,
        backend: Seq<char>,
    ) -> ParseRunView {
        ParseRunView {
            outputs: match outcome {
                Ok(_) => ParseOutputsView {
                    parse_cache_receipts: self.outputs.parse_cache_receipts.push(record),
                    ..self.outputs
                },
                Err(error) => ParseOutputsView {
                    cache_write_warnings: self.outputs.cache_write_warnings.push(
                        write_skipped(error, path, backend),
                    ),
                    ..self.outputs
                },
            },
            ..self
        }
    }

    /// The stage is over: whether all lookups were hits is known, if there were
    /// any.
    pub open spec fn finished(self) -> ParseRunView {
        ParseRunView {
            metrics: ExecutionMetrics {
                parse_cache_all_hit: if self.any_lookup {
                    Some(!self.any_miss)
                } else {
                    None
                },
                ..self.metrics
            },
            ..self
        }
    }

    /// The counts of the stage can still grow.
    pub open spec fn can_count(self) -> bool {
        self.metrics.parse_cache_lookup_count < u64::MAX && self.metrics.parse_attempt_count
            < u64::MAX && self.metrics.pdfplumber_invocations < u64::MAX
    }

    /// A file was cut off only when the deadline was noted as exhausted, a lookup
    /// came before every miss, every task is a counted attempt, every result has
    /// the profile hash it was looked up with, every cache status has its reason,
    /// and a fresh one has none.
    pub open spec fn consistent(self) -> bool {
        let outputs = self.outputs;
        &&& forall|id: Seq<char>| #[trigger]
            outputs.runtime_not_parsed.contains(id) ==> self.metrics.stage_deadline_exhausted_count
                == 1
        &&& self.any_miss ==> self.any_lookup
        &&& self.tasks.len() <= self.metrics.parse_attempt_count
        &&& self.metrics.pdfplumber_invocations <= self.metrics.parse_attempt_count
        &&& forall|id: Seq<char>| #[trigger]
            outputs.results.contains_key(id) ==> outputs.parse_profile_hashes.contains_key(id)
        &&& forall|id: Seq<char>|
            (#[trigger] outputs.parse_cache_status.contains_key(id))
                == outputs.parse_cache_miss_reason.contains_key(id)
        &&& forall|id: Seq<char>| #[trigger]
            outputs.parse_cache_status.contains_key(id) ==> (outputs.parse_cache_status[id]
                == CacheStatus::Fresh) == (outputs.parse_cache_miss_reason[id]
                == CacheMissReason::NotMissed)
    }
}

/// The guard that has to be verified before what the cache answered is used: that
/// of a file which the cache holds.
pub fn guard_to_check(file: &DiscoveredFileOut, lookup: &CacheLookup) -> (guard: Option<
    SourceGuardV2,
>)
    ensures
        opt_view(guard) == (match lookup@ {
            CacheLookupView::Fresh(_) => guard_of(file@),
            CacheLookupView::Miss(_) => None,
        }),
{
    match lookup {
        CacheLookup::Fresh(_) => expected_guard(file),
        CacheLookup::Miss(_) => None,
    }
}

impl ParseRun {
    /// A stage that has done nothing, with the counts of the run so far.
    pub fn new(metrics: ExecutionMetrics) -> (run: Self)
        ensures
            run@ == (ParseRunView {
                outputs: no_outputs(),
                tasks: Seq::empty(),
                any_lookup: false,
                any_miss: false,
                metrics,
            }),
    {
        let run = ParseRun {
            outputs: ParseOutputs::new(),
            tasks: Vec::new(),
            any_lookup: false,
            any_miss: false,
            metrics,
        };
        assert(run@.tasks =~= Seq::empty());
        run
    }

    fn cut_off(&mut self, identity: &str)
        ensures
            final(self)@ == old(self)@.cut_off(identity@),
    {
        self.outputs.runtime_not_parsed.insert(identity.to_string());
        self.metrics.stage_deadline_exhausted_count = 1;
    }

    fn keep_result(&mut self, identity: &str, result: ParseResult, profile_hash: &str)
        ensures
            final(self)@ == (ParseRunView {
                outputs: ParseOutputsView {
                    results: old(self)@.outputs.results.insert(identity@, result@),
                    parse_profile_hashes: old(self)@.outputs.parse_profile_hashes.insert(
                        identity@,
                        profile_hash@,
                    ),
                    ..old(self)@.outputs
                },
                ..old(self)@
            }),
    {
        let ghost results = self.outputs.results@;
        let ghost hashes = self.outputs.parse_profile_hashes@;
        let hash: String = profile_hash.to_string();
        self.outputs.results.insert(identity.to_string(), result);
        self.outputs.parse_profile_hashes.insert(identity.to_string(), hash);
        assert(map_views(results.insert(identity@, result)) =~= map_views(results).insert(
            identity@,
            result@,
        ));
        assert(map_views(hashes.insert(identity@, hash)) =~= map_views(hashes).insert(
            identity@,
            hash@,
        ));
    }

    fn mark_changed(&mut self, file: &DiscoveredFileOut, profile_hash: &str)
        ensures
            final(self)@ == old(self)@.changed(file@, profile_hash@),
    {
        let result: ParseResult = source_version_changed_parse(file);
        self.keep_result(file.file_identity.as_str(), result, profile_hash);
    }

    /// Takes an admission decision up. A file with a route has to be looked up
    /// next; without one nothing more is done.
    pub fn take_up(
        &mut self,
        decision: &AdmissionDecision,
        file: Option<&DiscoveredFileOut>,
        cut_off: &TextSet,
        classifications: &TextMap<PdfClassificationResult>,
    ) -> (route: Option<RouteKind>)
        requires
            old(self)@.metrics.parse_cache_lookup_count < u64::MAX,
        ensures
            route == lookup_route(
                decision@,
                opt_view(file),
                cut_off@,
                map_views(classifications@),
            ),
            final(self)@ == old(self)@.taken_up(
                decision@,
                opt_view(file),
                cut_off@,
                map_views(classifications@),
            ),
    {
        let route: RouteKind = match decision.action {
            PlanAction::Admit { route } => route,
            _ => {
                return None;
            },
        };
        if file.is_none() {
            return None;
        }
        if cut_off.contains(decision.file_identity.as_str()) {
            return None;
        }
        if route == RouteKind::Pdf {
            match classifications.get(decision.file_identity.as_str()) {
                Some(result) => {
                    if result.status == PdfClassificationStatus::NoTextInParseWindow {
                        return None;
                    }
                },
                None => {},
            }
        }
        self.metrics.parse_cache_lookup_count = self.metrics.parse_cache_lookup_count + 1;
        self.any_lookup = true;
        Some(route)
    }

    /// Takes in what the cache answered, whether the guard that had to be checked was
    /// verified, and, for a miss, the time, read twice.
    pub fn lookup_answered(
        &mut self,
        file: &DiscoveredFileOut,
        route: RouteKind,
        outcome: ParseLookupOutcome,
        verified: bool,
        now_ms: u64,
        later_ms: u64,
        work_deadline_ms: u64,
        execution: &ExecutionProfile,
    )
        requires
            old(self)@.metrics.parse_attempt_count < u64::MAX,
            old(self)@.metrics.pdfplumber_invocations < u64::MAX,
        ensures
            final(self)@ == old(self)@.answered(
                file@,
                route,
                outcome@,
                verified,
                now_ms,
                later_ms,
                work_deadline_ms,
                execution@,
            ),
    {
        let ghost before = self@;
        let ghost asked = outcome@;
        let ParseLookupOutcome { parse_profile_hash, lookup } = outcome;
        match lookup {
            CacheLookup::Fresh(entry) => {
                if expected_guard(file).is_none() {
                    return;
                }
                if !verified {
                    self.mark_changed(file, parse_profile_hash.as_str());
                    return;
                }
                let result = ParseResult {
                    file_identity: file.file_identity.clone(),
                    content: entry.content,
                    parser_backend: entry.parser_backend,
                    worker_lane: entry.worker_lane,
                    truncated: entry.truncated,
                    content_sha256: entry.content_sha256,
                    parse_status: ParseStatus::Success,
                    error: None,
                    warnings: Vec::new(),
                    failure_class: String::new(),
                    fallback_backend: String::new(),
                    fallback_reason_code: String::new(),
                    parse_transport: ParseTransport::NotApplicable,
                    parse_attempt_count: 0,
                    primary_duration_ms: 0,
                    fallback_duration_ms: 0,
                    parse_duration_ms: 0,
                };
                assert(result@.warnings =~= Seq::empty());
                assert(result@ =~= cached_parse(file@.file_identity, entry@));
                self.outputs.parse_cache_status.insert(
                    file.file_identity.clone(),
                    CacheStatus::Fresh,
                );
                self.outputs.parse_cache_miss_reason.insert(
                    file.file_identity.clone(),
                    CacheMissReason::NotMissed,
                );
                self.outputs.parse_fresh_hits.push(file.file_identity.clone());
                assert(self@.outputs.parse_fresh_hits =~= before.outputs.parse_fresh_hits.push(
                    file@.file_identity,
                ));
                self.keep_result(file.file_identity.as_str(), result, parse_profile_hash.as_str());
            },
            CacheLookup::Miss(reason) => {
                self.any_miss = true;
                self.outputs.parse_cache_status.insert(
                    file.file_identity.clone(),
                    CacheStatus::Miss,
                );
                self.outputs.parse_cache_miss_reason.insert(file.file_identity.clone(), reason);
                if now_ms >= work_deadline_ms {
                    self.cut_off(file.file_identity.as_str());
                    return;
                }
                let remaining: u64 = work_deadline_ms.saturating_sub(later_ms);
                let of_route: u64 = route_timeout_ms(route, execution);
                self.metrics.parse_attempt_count = self.metrics.parse_attempt_count + 1;
                if route == RouteKind::Pdf {
                    self.metrics.pdfplumber_invocations = self.metrics.pdfplumber_invocations + 1;
                }
                let task = ParseTask {
                    file: file.clone(),
                    route,
                    own_timeout_ms: if of_route <= remaining {
                        of_route
                    } else {
                        remaining
                    },
                    profile_hash: parse_profile_hash,
                };
                self.tasks.push(task);
                assert(self@.tasks =~= before.tasks.push(task@));
            },
        }
    }

    /// Gives up the tasks from `index` on, because the deadline has come.
    pub fn abandon(&mut self, index: usize)
        requires
            index <= old(self).tasks@.len(),
        ensures
            final(self)@ == old(self)@.abandoned(index as int),
    {
        let ghost start = self@;
        let count: usize = self.tasks.len();
        let mut i: usize = count;
        while i > index
            invariant
                index <= i <= count,
                count == self.tasks.len(),
                self@.tasks == start.tasks,
                start.tasks.len() == count,
                self@ == start.abandoned(i as int),
            decreases i,
        {
            i = i - 1;
            assert(self@.tasks[i as int] == self.tasks@[i as int]@);
            let identity: String = self.tasks[i].file.file_identity.clone();
            self.cut_off(identity.as_str());
        }
    }

    /// Prepares a task of a wave, given whether the guard of its file was verified
    /// and the time that is left. The request that is given is to be run.
    pub fn dispatch(&mut self, task: &ParseTask, verified: bool, remaining: u64) -> (request: Option<
        ParseRequest,
    >)
        ensures
            (final(self)@, opt_view(request)) == old(self)@.dispatched(task@, verified, remaining),
    {
        if expected_guard(&task.file).is_none() {
            return None;
        }
        if !verified {
            self.mark_changed(&task.file, task.profile_hash.as_str());
            return None;
        }
        let timeout_ms: u64 = if task.own_timeout_ms <= remaining {
            task.own_timeout_ms
        } else {
            remaining
        };
        Some(ParseRequest { file: task.file.clone(), route: task.route, timeout_ms })
    }

    /// Takes in what became of a task. The cache entry that is given is to be
    /// written. Whether the guard was verified matters only for a success.
    pub fn merge(
        &mut self,
        task: &ParseTask,
        result: ParseResult,
        verified: bool,
        now_ms: u64,
        work_deadline_ms: u64,
        workers: &WorkerIdentities,
        engine: &EngineIdentity,
    ) -> (record: Option<CacheWriteRecord>)
        ensures
            final(self)@ == old(self)@.parsed(task@, result@, verified),
            opt_view(record) == ParseRunView::entry_left(
                task@,
                result@,
                verified,
                now_ms,
                work_deadline_ms,
                workers@,
                engine@,
            ),
    {
        let ghost before = self@;
        let mut warnings: Vec<Diagnostic> = crate::contract::clone_all(&result.warnings);
        let ghost held = self.outputs.parse_warnings@;
        let ghost added = warnings@;
        self.outputs.parse_warnings.append(&mut warnings);
        assert(views(held + added) =~= views(held) + views(added));
        if result.parse_status == ParseStatus::Success && !verified {
            self.mark_changed(&task.file, task.profile_hash.as_str());
            return None;
        }
        let record: Option<CacheWriteRecord> = if result.parse_status == ParseStatus::Success
            && now_ms < work_deadline_ms {
            match expected_guard(&task.file) {
                None => None,
                Some(guard) => {
                    let worker: (String, String, String) = worker_identity_for(
                        task.route,
                        workers,
                        engine,
                    );
                    Some(
                        CacheWriteRecord {
                            file_identity: task.file.file_identity.clone(),
                            source_version: task.file.source_version.clone(),
                            source_guard_kind: source_guard_kind_text(guard.kind).to_string(),
                            source_guard_sha256: given_or(&guard.guard_sha256, ""),
                            parse_profile_hash: task.profile_hash.clone(),
                            content: result.content.clone(),
                            content_sha256: result.content_sha256.clone(),
                            parser_backend: result.parser_backend.clone(),
                            worker_lane: result.worker_lane.clone(),
                            truncated: result.truncated,
                            worker_contract_version: worker.0,
                            worker_version: worker.1,
                            worker_build: worker.2,
                        },
                    )
                },
            }
        } else {
            None
        };
        proof {
            reveal_strlit("");
            assert(""@ =~= Seq::<char>::empty());
        }
        self.keep_result(task.file.file_identity.as_str(), result, task.profile_hash.as_str());
        record
    }

    /// Takes in whether a cache entry was written.
    pub fn write_done(
        &mut self,
        record: CacheWriteRecord,
        outcome: &Result<(), CachePortError>,
        path: &str,
        backend: &str,
    )
        ensures
            final(self)@ == old(self)@.written(record@, *outcome, path@, backend@),
    {
        let ghost before = self@;
        match outcome {
            Ok(_) => {
                self.outputs.parse_cache_receipts.push(record);
                assert(self@.outputs.parse_cache_receipts
                    =~= before.outputs.parse_cache_receipts.push(record@));
            },
            Err(error) => {
                let reported: Diagnostic = error.diagnostic(DiagnosticStage::Cache);
                let mut message: String = "parse cache write skipped: ".to_string();
                message.append(reported.message.as_str());
                let warning = Diagnostic {
                    error_code: ErrorCode::CacheWriteFailed,
                    message,
                    retryable: true,
                    stage: DiagnosticStage::Cache,
                    file_path: Some(path.to_string()),
                    backend: Some(backend.to_string()),
                };
                self.outputs.cache_write_warnings.push(warning);
                assert(self@.outputs.cache_write_warnings
                    =~= before.outputs.cache_write_warnings.push(warning@));
            },
        }
    }

    /// Ends the stage.
    pub fn finish(&mut self)
        ensures
            final(self)@ == old(self)@.finished(),
    {
        self.metrics.parse_cache_all_hit = if self.any_lookup {
            Some(!self.any_miss)
        } else {
            None
        };
    }
}

/// Every step of the stage keeps it consistent, whatever the cache, the guards and
/// the parsers say; the reason of a miss is one.
pub proof fn law_parsing_stays_consistent(
    state: ParseRunView,
    decision: AdmissionDecisionView,
    found: Option<DiscoveredFileOutView>,
    cut_off: Set<Seq<char>>,
    classifications: Map<Seq<char>, PdfClassificationResultView>,
    file: DiscoveredFileOutView,
    route: RouteKind,
    outcome: ParseLookupOutcomeView,
    verified: bool,
    now_ms: u64,
    later_ms: u64,
    work_deadline_ms: u64,
    execution: ExecutionProfileView,
    task: ParseTaskView,
    remaining: u64,
    result: ParseResultView,
    record: CacheWriteRecordView,
    written: Result<(), CachePortError>,
    path: Seq<char>,
    backend: Seq<char>,
)
    requires
        state.consistent(),
        state.can_count(),
        outcome.lookup != CacheLookupView::Miss(CacheMissReason::NotMissed),
    ensures
        state.taken_up(decision, found, cut_off, classifications).consistent(),
        state.any_lookup ==> state.answered(
            file,
            route,
            outcome,
            verified,
            now_ms,
            later_ms,
            work_deadline_ms,
            execution,
        ).consistent(),
        state.dispatched(task, verified, remaining).0.consistent(),
        state.parsed(task, result, verified).consistent(),
        state.written(record, written, path, backend).consistent(),
        state.finished().consistent(),
{
}

/// Only a successful parse of a file that verified before the deadline is cached,
/// under the guard that the file was discovered with.
pub proof fn law_only_verified_parses_are_cached(
    task: ParseTaskView,
    result: ParseResultView,
    verified: bool,
    now_ms: u64,
    work_deadline_ms: u64,
    workers: WorkerIdentitiesView,
    engine: EngineIdentityView,
)
    ensures
        ParseRunView::entry_left(
            task,
            result,
            verified,
            now_ms,
            work_deadline_ms,
            workers,
            engine,
        ) matches Some(record) ==> verified && result.parse_status == ParseStatus::Success
            && now_ms < work_deadline_ms && record.file_identity == task.file.file_identity
            && record.content == result.content && guard_of(task.file) is Some,
{
}

/// A failed cache write leaves no receipt: it leaves a warning, and the parse
/// itself stands.
pub proof fn law_failed_writes_leave_no_receipt(
    state: ParseRunView,
    record: CacheWriteRecordView,
    error: CachePortError,
    path: Seq<char>,
    backend: Seq<char>,
)
    ensures
        ({
            let after = state.written(record, Err(error), path, backend);
            &&& after.outputs.parse_cache_receipts == state.outputs.parse_cache_receipts
            &&& after.outputs.results == state.outputs.results
            &&& after.outputs.cache_write_warnings.len()
                == state.outputs.cache_write_warnings.len() + 1
        }),
{
}

/// Giving up the tasks from `index` on keeps the stage consistent: every one of them
/// is cut off, and no result is touched.
pub proof fn law_abandoned_parses_are_cut_off(state: ParseRunView, index: int)
    requires
        0 <= index <= state.tasks.len(),
        state.consistent(),
    ensures
        state.abandoned(index).consistent(),
        state.abandoned(index).tasks == state.tasks,
        state.abandoned(index).outputs.results == state.outputs.results,
        forall|j: int|
            index <= j < state.tasks.len() ==> state.abandoned(index).outputs.runtime_not_parsed.contains(
                (#[trigger] state.tasks[j]).file.file_identity,
            ),
    decreases state.tasks.len() - index,
{
    if index < state.tasks.len() {
        law_abandoned_parses_are_cut_off(state, index + 1);
    }
}

/// A successful parse survives the cache: the record that it leaves has its content, hash,
/// backend, lane and truncation mark, and a later run that finds an entry with what the
/// record holds has the same content, hash, backend, lane and truncation mark.
pub proof fn law_parses_survive_the_cache(
    task: ParseTaskView,
    result: ParseResultView,
    verified: bool,
    now_ms: u64,
    work_deadline_ms: u64,
    workers: WorkerIdentitiesView,
    engine: EngineIdentityView,
    identity: Seq<char>,
    entry: CacheEntryView,
)
    requires
        ParseRunView::entry_left(
            task,
            result,
            verified,
            now_ms,
            work_deadline_ms,
            workers,
            engine,
        ) matches Some(record) && entry.content == record.content && entry.content_sha256
            == record.content_sha256 && entry.parser_backend == record.parser_backend
            && entry.worker_lane == record.worker_lane && entry.truncated == record.truncated,
    ensures
        ({
            let record = ParseRunView::entry_left(
                task,
                result,
                verified,
                now_ms,
                work_deadline_ms,
                workers,
                engine,
            )->0;
            &&& record.content == result.content
            &&& record.content_sha256 == result.content_sha256
            &&& record.parser_backend == result.parser_backend
            &&& record.worker_lane == result.worker_lane
            &&& record.truncated == result.truncated
        }),
        ({
            let found = cached_parse(identity, entry);
            &&& found.file_identity == identity
            &&& found.content == result.content
            &&& found.content_sha256 == result.content_sha256
            &&& found.parser_backend == result.parser_backend
            &&& found.worker_lane == result.worker_lane
            &&& found.truncated == result.truncated
            &&& found.parse_status == result.parse_status
        }),
{
}

/// What is taken from the cache is a success with the content of the entry, as it was cut
/// when it was parsed; nothing was parsed for it.
pub proof fn law_cached_parses_are_successes(identity: Seq<char>, entry: CacheEntryView)
    ensures
        ({
            let found = cached_parse(identity, entry);
            &&& found.parse_status == ParseStatus::Success
            &&& found.error is None
            &&& found.content == entry.content
            &&& found.content_sha256 == entry.content_sha256
            &&& found.parser_backend == entry.parser_backend
            &&& found.worker_lane == entry.worker_lane
            &&& found.truncated == entry.truncated
            &&& found.parse_attempt_count == 0
            &&& found.parse_duration_ms == 0
            &&& found.parse_transport == ParseTransport::NotApplicable
            &&& found.warnings.len() == 0
        }),
{
}

/// A parse is cached under the file, the version, the guard and the profile that it was
/// made for.
pub proof fn law_parses_are_cached_for_their_file(
    task: ParseTaskView,
    result: ParseResultView,
    verified: bool,
    now_ms: u64,
    work_deadline_ms: u64,
    workers: WorkerIdentitiesView,
    engine: EngineIdentityView,
)
    ensures
        ({
            let left = ParseRunView::entry_left(
                task,
                result,
                verified,
                now_ms,
                work_deadline_ms,
                workers,
                engine,
            );
            &&& left is Some <==> (result.parse_status == ParseStatus::Success && verified && now_ms
                < work_deadline_ms && guard_of(task.file) is Some)
            &&& left matches Some(record) ==> {
                &&& record.file_identity == task.file.file_identity
                &&& record.source_version == task.file.source_version
                &&& Some(record.source_guard_kind) == task.file.source_guard_kind
                &&& Some(record.source_guard_sha256) == task.file.source_guard_sha256
                &&& record.parse_profile_hash == task.profile_hash
            }
        }),
{
    law_guards_are_those_of_the_discovery(task.file);
}

/// A parse is cached with the identity of the worker that its route goes to: the engine's
/// own for plain texts, the office worker's for its routes and the document worker's for
/// the others.
pub proof fn law_parses_name_the_worker_of_their_route(
    route: RouteKind,
    workers: WorkerIdentitiesView,
    engine: EngineIdentityView,
)
    ensures
        ({
            let (contract, version, build) = worker_of(route, workers, engine);
            &&& route == RouteKind::LightText ==> version == engine.version && build
                == engine.build
            &&& route == RouteKind::RustOffice || route == RouteKind::RustXlsx ==> {
                &&& workers.office_contract is Some ==> contract == workers.office_contract->0
                &&& workers.office_version is Some ==> version == workers.office_version->0
                &&& workers.office_build is Some ==> build == workers.office_build->0
                &&& workers.office_version is None ==> version == "unknown"@
                &&& workers.office_build is None ==> build == "unknown"@
            }
            &&& route == RouteKind::Pdf || route == RouteKind::PythonOffice || route
                == RouteKind::PythonSharepointText ==> {
                &&& workers.python_contract is Some ==> contract == workers.python_contract->0
                &&& workers.python_version is Some ==> version == workers.python_version->0
                &&& workers.python_build is Some ==> build == workers.python_build->0
                &&& workers.python_version is None ==> version == "unknown"@
                &&& workers.python_build is None ==> build == "unknown"@
            }
        }),
{
}

/// A file that changed before or while it was parsed is an error of that file that may be
/// tried again, with no content.
pub proof fn law_changed_files_are_errors(file: DiscoveredFileOutView)
    ensures
        ({
            let result = changed_parse(file);
            &&& result.file_identity == file.file_identity
            &&& result.parse_status == ParseStatus::Error
            &&& result.content.len() == 0
            &&& result.content_sha256 == content_sha256(result.content)
            &&& result.error matches Some(error) && error.error_code
                == ErrorCode::SourceVersionChanged && error.retryable && error.file_path == Some(
                file.path,
            )
            &&& result.parse_attempt_count == 0
        }),
{
}

/// An admitted file is looked up in the parse cache on its route, unless it is not there,
/// its classification was cut off, or it is a PDF that was found to have no text. No other
/// file is.
pub proof fn law_admitted_files_are_looked_up(
    state: ParseRunView,
    decision: AdmissionDecisionView,
    file: Option<DiscoveredFileOutView>,
    cut_off: Set<Seq<char>>,
    classifications: Map<Seq<char>, PdfClassificationResultView>,
)
    requires
        state.can_count(),
    ensures
        ({
            let id = decision.file_identity;
            let without_text = classifications.contains_key(id) && classifications[id].status
                == PdfClassificationStatus::NoTextInParseWindow;
            let route = lookup_route(decision, file, cut_off, classifications);
            let next = state.taken_up(decision, file, cut_off, classifications);
            &&& route matches Some(taken) ==> decision.action == (PlanActionView::Admit {
                route: taken,
            }) && file is Some && !cut_off.contains(id) && !(taken == RouteKind::Pdf
                && without_text)
            &&& decision.action matches PlanActionView::Admit { route: wanted } ==> (file is Some
                && !cut_off.contains(id) && (wanted != RouteKind::Pdf || !without_text)
                ==> route == Some(wanted))
            &&& route is Some ==> next.any_lookup && next.metrics.parse_cache_lookup_count
                == state.metrics.parse_cache_lookup_count + 1
            &&& route is None ==> next == state
            &&& next.outputs == state.outputs && next.tasks == state.tasks
        }),
{
}

/// A file that counts as an extraction is looked up on the route of PDFs, where it is there
/// and was not cut off.
pub proof fn law_extractions_are_looked_up(
    decision: AdmissionDecisionView,
    file: Option<DiscoveredFileOutView>,
    cut_off: Set<Seq<char>>,
    classifications: Map<Seq<char>, PdfClassificationResultView>,
)
    requires
        file is Some,
        !cut_off.contains(decision.file_identity),
        classifications.contains_key(decision.file_identity),
        classifications[decision.file_identity].status
            == PdfClassificationStatus::TextInParseWindow
            || classifications[decision.file_identity].status
            == PdfClassificationStatus::NoTextInParseWindow,
    ensures
        crate::scheduler::plan::is_extraction(decision, classifications) <==> lookup_route(
            decision,
            file,
            cut_off,
            classifications,
        ) == Some(RouteKind::Pdf),
{
}

/// A fresh entry answers for its file where the file is still the discovered one, and then
/// nothing is parsed; where the file changed, it is an error. No other file is touched.
pub proof fn law_fresh_entries_answer_for_their_file(
    state: ParseRunView,
    file: DiscoveredFileOutView,
    route: RouteKind,
    outcome: ParseLookupOutcomeView,
    entry: CacheEntryView,
    verified: bool,
    now_ms: u64,
    later_ms: u64,
    work_deadline_ms: u64,
    execution: ExecutionProfileView,
    other: Seq<char>,
)
    requires
        outcome.lookup == CacheLookupView::Fresh(entry),
        guard_of(file) is Some,
    ensures
        ({
            let id = file.file_identity;
            let next = state.answered(
                file,
                route,
                outcome,
                verified,
                now_ms,
                later_ms,
                work_deadline_ms,
                execution,
            );
            let told = next.outputs;
            let before = state.outputs;
            &&& told.results.contains_key(id)
            &&& verified ==> told.results[id] == cached_parse(id, entry)
            &&& verified ==> told.parse_cache_status.contains_key(id)
                && told.parse_cache_status[id] == CacheStatus::Fresh
                && told.parse_cache_miss_reason.contains_key(id)
                && told.parse_cache_miss_reason[id] == CacheMissReason::NotMissed
                && told.parse_fresh_hits == before.parse_fresh_hits.push(id)
            &&& !verified ==> told.results[id] == changed_parse(file) && told.parse_fresh_hits
                == before.parse_fresh_hits && told.parse_cache_status == before.parse_cache_status
            &&& told.parse_profile_hashes.contains_key(id) && told.parse_profile_hashes[id]
                == outcome.parse_profile_hash
            &&& next.tasks == state.tasks && next.metrics == state.metrics
            &&& next.any_miss == state.any_miss
            &&& told.runtime_not_parsed == before.runtime_not_parsed
            &&& told.parse_cache_receipts == before.parse_cache_receipts
            &&& other != id ==> told.results.contains_key(other) == before.results.contains_key(
                other,
            ) && (before.results.contains_key(other) ==> told.results[other]
                == before.results[other])
        }),
{
}

/// A file that the cache does not hold is parsed on its route, with the reason of the miss
/// noted and within its time, unless the deadline has come: then it is cut off.
pub proof fn law_missing_entries_are_parsed(
    state: ParseRunView,
    file: DiscoveredFileOutView,
    route: RouteKind,
    outcome: ParseLookupOutcomeView,
    reason: CacheMissReason,
    verified: bool,
    now_ms: u64,
    later_ms: u64,
    work_deadline_ms: u64,
    execution: ExecutionProfileView,
)
    requires
        outcome.lookup == CacheLookupView::Miss(reason),
        state.can_count(),
    ensures
        ({
            let id = file.file_identity;
            let next = state.answered(
                file,
                route,
                outcome,
                verified,
                now_ms,
                later_ms,
                work_deadline_ms,
                execution,
            );
            let told = next.outputs;
            &&& told.results == state.outputs.results
            &&& told.parse_fresh_hits == state.outputs.parse_fresh_hits
            &&& told.parse_cache_status.contains_key(id) && told.parse_cache_status[id]
                == CacheStatus::Miss
            &&& told.parse_cache_miss_reason.contains_key(id) && told.parse_cache_miss_reason[id]
                == reason
            &&& next.any_miss
            &&& now_ms >= work_deadline_ms ==> {
                &&& next.tasks == state.tasks
                &&& told.runtime_not_parsed == state.outputs.runtime_not_parsed.insert(id)
                &&& next.metrics.stage_deadline_exhausted_count == 1
                &&& next.metrics.parse_attempt_count == state.metrics.parse_attempt_count
            }
            &&& now_ms < work_deadline_ms ==> {
                let task = next.tasks.last();
                &&& next.tasks.len() == state.tasks.len() + 1
                &&& next.tasks.drop_last() == state.tasks
                &&& task.file == file && task.route == route
                &&& task.profile_hash == outcome.parse_profile_hash
                &&& task.own_timeout_ms <= route_timeout(route, execution)
                &&& later_ms < work_deadline_ms ==> task.own_timeout_ms <= work_deadline_ms
                    - later_ms
                &&& later_ms >= work_deadline_ms ==> task.own_timeout_ms == 0
                &&& task.own_timeout_ms == route_timeout(route, execution) || later_ms
                    + task.own_timeout_ms == work_deadline_ms || task.own_timeout_ms == 0
                &&& told.runtime_not_parsed == state.outputs.runtime_not_parsed
                &&& next.metrics.parse_attempt_count == state.metrics.parse_attempt_count + 1
                &&& next.metrics.pdfplumber_invocations == state.metrics.pdfplumber_invocations
                    + if route == RouteKind::Pdf {
                    1int
                } else {
                    0
                }
            }
        }),
{
    let next = state.answered(
        file,
        route,
        outcome,
        verified,
        now_ms,
        later_ms,
        work_deadline_ms,
        execution,
    );
    if now_ms < work_deadline_ms {
        assert(next.tasks.drop_last() =~= state.tasks);
    }
}

/// A task is handed to a parser exactly where its file is still the discovered one, for
/// that file and route and within its time; a file that changed is an error.
pub proof fn law_changed_files_are_not_handed_out(
    state: ParseRunView,
    task: ParseTaskView,
    verified: bool,
    remaining: u64,
)
    requires
        guard_of(task.file) is Some,
    ensures
        ({
            let (next, request) = state.dispatched(task, verified, remaining);
            &&& request is Some <==> verified
            &&& request matches Some(asked) ==> asked.file == task.file && asked.route
                == task.route && asked.timeout_ms <= task.own_timeout_ms && asked.timeout_ms
                <= remaining && (asked.timeout_ms == task.own_timeout_ms || asked.timeout_ms
                == remaining)
            &&& verified ==> next == state
            &&& !verified ==> next.outputs.results == state.outputs.results.insert(
                task.file.file_identity,
                changed_parse(task.file),
            )
        }),
{
}

/// What a parser answered is the result of its file, except that a success on a file that
/// changed meanwhile is an error. Its warnings are told, and no other file is touched.
pub proof fn law_answers_are_the_results_of_their_file(
    state: ParseRunView,
    task: ParseTaskView,
    result: ParseResultView,
    verified: bool,
    other: Seq<char>,
)
    ensures
        ({
            let id = task.file.file_identity;
            let next = state.parsed(task, result, verified);
            &&& next.outputs.results.contains_key(id)
            &&& verified || result.parse_status != ParseStatus::Success
                ==> next.outputs.results[id] == result
            &&& !verified && result.parse_status == ParseStatus::Success
                ==> next.outputs.results[id] == changed_parse(task.file)
            &&& next.outputs.parse_profile_hashes.contains_key(id)
                && next.outputs.parse_profile_hashes[id] == task.profile_hash
            &&& next.outputs.parse_warnings == state.outputs.parse_warnings + result.warnings
            &&& other != id ==> next.outputs.results.contains_key(other)
                == state.outputs.results.contains_key(other) && (
            state.outputs.results.contains_key(other) ==> next.outputs.results[other]
                == state.outputs.results[other])
            &&& next.outputs.parse_cache_receipts == state.outputs.parse_cache_receipts
            &&& next.outputs.runtime_not_parsed == state.outputs.runtime_not_parsed
            &&& next.metrics == state.metrics && next.tasks == state.tasks
        }),
{
}

/// A cache write that was accepted is reported by its record; one that was not is warned
/// about, for the file and with what went wrong.
pub proof fn law_cache_writes_are_reported(
    state: ParseRunView,
    record: CacheWriteRecordView,
    outcome: Result<(), CachePortError>,
    path: Seq<char>,
    backend: Seq<char>,
)
    ensures
        ({
            let next = state.written(record, outcome, path, backend);
            &&& next.outputs.results == state.outputs.results
            &&& outcome is Ok ==> next.outputs.parse_cache_receipts
                == state.outputs.parse_cache_receipts.push(record)
                && next.outputs.cache_write_warnings == state.outputs.cache_write_warnings
            &&& outcome matches Err(error) ==> {
                let warning = next.outputs.cache_write_warnings.last();
                let detail = match error {
                    CachePortError::Store { detail } => detail@,
                    CachePortError::InvalidKey { detail } => detail@,
                };
                &&& next.outputs.parse_cache_receipts == state.outputs.parse_cache_receipts
                &&& next.outputs.cache_write_warnings.len()
                    == state.outputs.cache_write_warnings.len() + 1
                &&& warning.error_code == ErrorCode::CacheWriteFailed
                &&& warning.stage == DiagnosticStage::Cache
                &&& warning.file_path == Some(path)
                &&& warning.backend == Some(backend)
                &&& warning.message == "parse cache write skipped: "@ + detail
            }
        }),
{
}

/// A stage says that every lookup hit exactly where there was a lookup and none missed, and
/// says nothing of it where there was none.
pub proof fn law_all_parses_hit_means_that_none_missed(state: ParseRunView)
    ensures
        ({
            let told = state.finished().metrics.parse_cache_all_hit;
            &&& told == Some(true) <==> state.any_lookup && !state.any_miss
            &&& told == Some(false) <==> state.any_lookup && state.any_miss
            &&& told is None <==> !state.any_lookup
        }),
        state.finished().outputs == state.outputs,
{
}

/// A parse that one run cached answers the next run that discovers the same file as it was:
/// the lookup with what the file was discovered with is fresh, and what the next run makes
/// of it is the first parse.
pub proof fn law_later_runs_are_answered_from_the_cache(
    rows: Seq<crate::store::cache::ParseCacheRowView>,
    task: ParseTaskView,
    result: ParseResultView,
    now_ms: u64,
    work_deadline_ms: u64,
    workers: WorkerIdentitiesView,
    engine: EngineIdentityView,
    cached_at_ms: i64,
    bucket: Seq<char>,
)
    requires
        ParseRunView::entry_left(
            task,
            result,
            true,
            now_ms,
            work_deadline_ms,
            workers,
            engine,
        ) matches Some(record) && record.valid(),
    ensures
        ({
            let record = ParseRunView::entry_left(
                task,
                result,
                true,
                now_ms,
                work_deadline_ms,
                workers,
                engine,
            )->0;
            let answer = crate::store::cache::parse_lookup(
                crate::store::cache::rows_after_write(rows, record, cached_at_ms, bucket),
                task.file.file_identity,
                task.file.source_version,
                task.file.source_guard_kind->0,
                task.file.source_guard_sha256->0,
                task.profile_hash,
            );
            let found = cached_parse(task.file.file_identity, answer->Fresh_0);
            &&& answer is Fresh
            &&& found.content == result.content
            &&& found.content_sha256 == result.content_sha256
            &&& found.parser_backend == result.parser_backend
            &&& found.worker_lane == result.worker_lane
            &&& found.truncated == result.truncated
            &&& found.parse_status == ParseStatus::Success
        }),
{
    let record = ParseRunView::entry_left(
        task,
        result,
        true,
        now_ms,
        work_deadline_ms,
        workers,
        engine,
    )->0;
    law_parses_are_cached_for_their_file(
        task,
        result,
        true,
        now_ms,
        work_deadline_ms,
        workers,
        engine,
    );
    crate::store::cache::law_cached_parses_are_read_as_written(
        rows,
        record,
        cached_at_ms,
        bucket,
    );
}

} // verus!
