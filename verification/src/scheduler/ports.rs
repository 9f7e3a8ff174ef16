//! What a run asks of its surroundings. Of the answers it is known only that a wave gets
//! one for each of its calls: what is stated of a run holds for every one of them. Which
//! call an answer belongs to is said here, so that a run can state that it went by what it
//! was told.
use crate::contract::{
    views, DiscoveredFileOut, DiscoveredFileOutView, ExtensionMetric, ExtensionMetricView,
    RouteKind,
};
use crate::ordered::{TextMap, TextSet};
use crate::scheduler::outcome::{RenderedContext, RenderedContextView};
use crate::scheduler::plan::{
    guard_of, map_views, AdmissionDecision, AdmissionDecisionView, ClassifiedPlan,
    ClassifiedPlanView, PdfClassificationResult, PdfClassificationResultView, PlanCandidate,
    PlanCandidateView,
};
use crate::scheduler::records::{
    CachePortError, ContextFileEvidence, ContextFileEvidenceView, ParseLookupOutcome,
    ParseLookupOutcomeView, ParseRequest, ParseRequestView, ParseResult, ParseResultView,
};
use crate::session::{
    ParseFailure, PdfClassifierRequestV1, PdfClassifierRequestV1View, PdfClassifierResultV1,
};
use crate::source_guard::{SourceGuardV2, SourceGuardV2View};
use crate::store::cache::{
    CacheWriteRecord, CacheWriteRecordView, ClassificationCacheLookup,
    ClassificationCacheLookupView, ClassificationCacheWriteRecord,
    ClassificationCacheWriteRecordView,
};
use crate::store::inventory::{
    FileResultRecord, FileResultRecordView, InventoryRecord, InventoryRecordView,
};
use vstd::prelude::*;

verus! {

/// A monotonic clock.
pub trait Clock {
    /// Milliseconds since the origin that the deadlines of the run are counted from.
    fn now_ms(&self) -> u64;
}

/// Tells whether files are still the ones that were discovered.
pub trait GuardVerifier {
    /// Whether the file at `path` has the expected guard now.
    fn verify(&self, path: &str, expected: &SourceGuardV2) -> bool;
}

/// The caches and the inventory of a run.
pub trait CachePort {
    /// Stores the inventory of the run and gives the identities that were known before.
    fn prepare_inventory(
        &self,
        scan_run_id: u64,
        now_ms: u64,
        records: &Vec<InventoryRecord>,
    ) -> Result<TextSet, CachePortError>;

    /// Looks a parse up.
    fn lookup_parse(
        &self,
        file: &DiscoveredFileOut,
        route: RouteKind,
        inventory_existed_before: bool,
    ) -> Result<ParseLookupOutcome, CachePortError>;

    /// Looks a classification up.
    fn lookup_classification(
        &self,
        file: &DiscoveredFileOut,
        classifier_profile_hash: &str,
        classifier_build: &str,
        inventory_existed_before: bool,
    ) -> Result<ClassificationCacheLookup, CachePortError>;

    /// Caches parses.
    fn write_parse(&self, now_ms: u64, records: &Vec<CacheWriteRecord>) -> Result<
        (),
        CachePortError,
    >;

    /// Caches classifications.
    fn write_classification(
        &self,
        now_ms: u64,
        records: &Vec<ClassificationCacheWriteRecord>,
    ) -> Result<(), CachePortError>;

    /// Notes the day on which entries were last used.
    fn touch_access(
        &self,
        now_ms: u64,
        parse_hits: &Vec<String>,
        classification_hits: &Vec<String>,
    ) -> Result<(), CachePortError>;
}

/// A classification that is to be run, and how long it may take.
#[derive(Debug, PartialEq, Eq)]
pub struct ClassifyCall {
    pub request: PdfClassifierRequestV1,
    pub timeout_ms: u64,
}

/// What a [`ClassifyCall`] says.
#[verifier::ext_equal]
pub struct ClassifyCallView {
    pub request: PdfClassifierRequestV1View,
    pub timeout_ms: u64,
}

impl View for ClassifyCall {
    type V = ClassifyCallView;

    open spec fn view(&self) -> ClassifyCallView {
        ClassifyCallView { request: self.request@, timeout_ms: self.timeout_ms }
    }
}

/// Classifies PDFs.
pub trait PdfClassifierPort {
    /// Runs the calls of a wave together and gives their answers in the same order.
    fn classify_pdfs(&self, calls: &Vec<ClassifyCall>) -> (outcomes: Vec<
        Result<PdfClassifierResultV1, ParseFailure>,
    >)
        ensures
            outcomes@.len() == calls@.len(),
    ;
}

/// Parses files.
pub trait ParserPort {
    /// Runs the requests of a wave together and gives their results in the same order.
    fn parse(&self, requests: &Vec<ParseRequest>) -> (results: Vec<ParseResult>)
        ensures
            results@.len() == requests@.len(),
    ;

    /// The name of the backend that parses on a route.
    fn backend(&self, route: RouteKind) -> String;
}

/// Gives identities to requests.
pub trait RequestIds {
    /// An identity that no other request has.
    fn next_request_id(&self) -> String;
}

/// Plans and renders the context of a run.
pub trait ContextPort {
    /// Whether the platform takes the path for an absolute one.
    fn is_absolute(&self, path: &str) -> bool;

    /// The path relative to the working directory, or why there is none.
    fn relative_path(&self, path: &str) -> Result<String, String>;

    /// The verdict of the wire contract on the profile of the run.
    fn accept_profile(&self) -> Result<(), String>;

    /// Plans the classification of the candidates, charging at most `max_pages`.
    fn plan(&self, candidates: Vec<PlanCandidate>, max_pages: u64) -> Vec<ClassifiedPlan>;

    /// The characters of the fixed sections with the given lines, or why they do not fit.
    fn budget(&self, source_file_count: u64, error_lines: &Vec<String>) -> Result<u64, String>;

    /// Decides on the admission of the planned files.
    fn decide_admission(
        &self,
        plans: &Vec<ClassifiedPlan>,
        classifications: &TextMap<PdfClassificationResult>,
    ) -> Vec<AdmissionDecision>;

    /// Renders the context, or says why it cannot be rendered.
    fn render(&self, evidence: Vec<ContextFileEvidence>) -> Result<RenderedContext, String>;

    /// Sums the results up by extension, or says why they cannot be.
    fn extension_metrics(
        &self,
        inventory: &Vec<InventoryRecord>,
        results: &Vec<FileResultRecord>,
    ) -> Result<Vec<ExtensionMetric>, String>;
}

// ---------------------------------------------------------------------------
// What was told
// ---------------------------------------------------------------------------

/// The clock told the time.
pub open spec fn time_told<K: Clock>(clock: &K, now_ms: u64) -> bool {
    call_ensures(K::now_ms, (clock,), now_ms)
}

/// Asked for the guard of the file at `path`, the verifier said whether it holds.
pub open spec fn guard_told<G: GuardVerifier>(
    guards: &G,
    path: Seq<char>,
    expected: SourceGuardV2View,
    verified: bool,
) -> bool {
    exists|at: &str, guard: &SourceGuardV2|
        at@ == path && guard@ == expected && #[trigger] call_ensures(
            G::verify,
            (guards, at, guard),
            verified,
        )
}

/// What is known of a file whose guard had to be checked: without a guard it does not
/// verify, and nobody is asked.
pub open spec fn file_guard_told<G: GuardVerifier>(
    guards: &G,
    file: DiscoveredFileOutView,
    verified: bool,
) -> bool {
    match guard_of(file) {
        Some(guard) => guard_told(guards, file.path, guard, verified),
        None => !verified,
    }
}

/// What a set of texts or the failure of a cache says.
pub open spec fn known_view(known: Result<TextSet, CachePortError>) -> Result<
    Set<Seq<char>>,
    CachePortError,
> {
    match known {
        Ok(set) => Ok(set@),
        Err(error) => Err(error),
    }
}

/// The inventory was stored under the run and the time, and these were the identities
/// that were known before.
pub open spec fn inventory_told<S: CachePort>(
    cache: &S,
    scan_run_id: u64,
    now_ms: u64,
    rows: Seq<InventoryRecordView>,
    known: Result<Set<Seq<char>>, CachePortError>,
) -> bool {
    exists|records: &Vec<InventoryRecord>, answer: Result<TextSet, CachePortError>|
        views(records@) == rows && known_view(answer) == known && #[trigger] call_ensures(
            S::prepare_inventory,
            (cache, scan_run_id, now_ms, records),
            answer,
        )
}

/// What the cache answered, or how it failed.
pub open spec fn parse_lookup_view(answer: Result<ParseLookupOutcome, CachePortError>) -> Result<
    ParseLookupOutcomeView,
    CachePortError,
> {
    match answer {
        Ok(outcome) => Ok(outcome@),
        Err(error) => Err(error),
    }
}

/// The parse of the file was looked up on the route.
pub open spec fn parse_lookup_told<S: CachePort>(
    cache: &S,
    file: DiscoveredFileOutView,
    route: RouteKind,
    existed_before: bool,
    lookup: Result<ParseLookupOutcomeView, CachePortError>,
) -> bool {
    exists|of: &DiscoveredFileOut, answer: Result<ParseLookupOutcome, CachePortError>|
        of@ == file && parse_lookup_view(answer) == lookup && #[trigger] call_ensures(
            S::lookup_parse,
            (cache, of, route, existed_before),
            answer,
        )
}

/// What the cache answered, or how it failed.
pub open spec fn classification_lookup_view(
    answer: Result<ClassificationCacheLookup, CachePortError>,
) -> Result<ClassificationCacheLookupView, CachePortError> {
    match answer {
        Ok(lookup) => Ok(lookup@),
        Err(error) => Err(error),
    }
}

/// The classification of the file was looked up under the profile and the build.
pub open spec fn classification_lookup_told<S: CachePort>(
    cache: &S,
    file: DiscoveredFileOutView,
    profile_hash: Seq<char>,
    build: Seq<char>,
    existed_before: bool,
    lookup: Result<ClassificationCacheLookupView, CachePortError>,
) -> bool {
    exists|
        of: &DiscoveredFileOut,
        hash: &str,
        by: &str,
        answer: Result<ClassificationCacheLookup, CachePortError>,
    |
        of@ == file && hash@ == profile_hash && by@ == build && classification_lookup_view(answer)
            == lookup && #[trigger] call_ensures(
            S::lookup_classification,
            (cache, of, hash, by, existed_before),
            answer,
        )
}

/// This one parse was written to the cache, at the given time.
pub open spec fn parse_write_told<S: CachePort>(
    cache: &S,
    now_ms: u64,
    record: CacheWriteRecordView,
    written: Result<(), CachePortError>,
) -> bool {
    exists|records: &Vec<CacheWriteRecord>|
        views(records@) == seq![record] && #[trigger] call_ensures(
            S::write_parse,
            (cache, now_ms, records),
            written,
        )
}

/// This one classification was written to the cache, at the given time.
pub open spec fn classification_write_told<S: CachePort>(
    cache: &S,
    now_ms: u64,
    record: ClassificationCacheWriteRecordView,
    written: Result<(), CachePortError>,
) -> bool {
    exists|records: &Vec<ClassificationCacheWriteRecord>|
        views(records@) == seq![record] && #[trigger] call_ensures(
            S::write_classification,
            (cache, now_ms, records),
            written,
        )
}

/// The use of these entries was noted, at the given time.
pub open spec fn touch_told<S: CachePort>(
    cache: &S,
    now_ms: u64,
    parse_hits: Seq<Seq<char>>,
    classification_hits: Seq<Seq<char>>,
) -> bool {
    exists|parses: &Vec<String>, classifications: &Vec<String>, noted: Result<(), CachePortError>|
        views(parses@) == parse_hits && views(classifications@) == classification_hits
            && #[trigger] call_ensures(
            S::touch_access,
            (cache, now_ms, parses, classifications),
            noted,
        )
}

/// The classifier ran these calls together, and this is what came of them.
pub open spec fn classifications_told<C: PdfClassifierPort>(
    classifier: &C,
    calls: Seq<ClassifyCallView>,
    outcomes: Seq<Result<PdfClassifierResultV1, ParseFailure>>,
) -> bool {
    exists|
        asked: &Vec<ClassifyCall>,
        answers: Vec<Result<PdfClassifierResultV1, ParseFailure>>,
    |
        views(asked@) == calls && answers@ == outcomes && #[trigger] call_ensures(
            C::classify_pdfs,
            (classifier, asked),
            answers,
        )
}

/// The parser ran these requests together, and these are the results.
pub open spec fn parses_told<P: ParserPort>(
    parser: &P,
    requests: Seq<ParseRequestView>,
    results: Seq<ParseResultView>,
) -> bool {
    exists|asked: &Vec<ParseRequest>, answers: Vec<ParseResult>|
        views(asked@) == requests && views(answers@) == results && #[trigger] call_ensures(
            P::parse,
            (parser, asked),
            answers,
        )
}

/// The parser named the backend of the route.
pub open spec fn backend_told<P: ParserPort>(
    parser: &P,
    route: RouteKind,
    backend: Seq<char>,
) -> bool {
    exists|name: String|
        name@ == backend && #[trigger] call_ensures(P::backend, (parser, route), name)
}

/// The identity was given to a request.
pub open spec fn request_id_told<R: RequestIds>(ids: &R, request_id: Seq<char>) -> bool {
    exists|id: String|
        id@ == request_id && #[trigger] call_ensures(R::next_request_id, (ids,), id)
}

/// The platform said whether the path of an entry is absolute; one without a path is not.
pub open spec fn absolute_told<X: ContextPort>(
    context: &X,
    path: Option<Seq<char>>,
    absolute: bool,
) -> bool {
    match path {
        None => !absolute,
        Some(text) => exists|at: &str|
            at@ == text && #[trigger] call_ensures(X::is_absolute, (context, at), absolute),
    }
}

/// A relative path, or why there is none.
pub open spec fn path_view(path: Result<String, String>) -> Result<Seq<char>, Seq<char>> {
    match path {
        Ok(text) => Ok(text@),
        Err(message) => Err(message@),
    }
}

/// The relative path of a file was asked for.
pub open spec fn relative_path_told<X: ContextPort>(
    context: &X,
    path: Seq<char>,
    relative: Result<Seq<char>, Seq<char>>,
) -> bool {
    exists|at: &str, answer: Result<String, String>|
        at@ == path && path_view(answer) == relative && #[trigger] call_ensures(
            X::relative_path,
            (context, at),
            answer,
        )
}

/// The verdict on the profile.
pub open spec fn profile_told<X: ContextPort>(context: &X, accepted: Result<(), String>) -> bool {
    call_ensures(X::accept_profile, (context,), accepted)
}

/// The candidates were planned, charging at most `max_pages`.
pub open spec fn plans_told<X: ContextPort>(
    context: &X,
    candidates: Seq<PlanCandidateView>,
    max_pages: u64,
    plans: Seq<ClassifiedPlanView>,
) -> bool {
    exists|asked: Vec<PlanCandidate>, answer: Vec<ClassifiedPlan>|
        views(asked@) == candidates && views(answer@) == plans && #[trigger] call_ensures(
            X::plan,
            (context, asked, max_pages),
            answer,
        )
}

/// What the fixed sections take, or why they do not fit.
pub open spec fn budget_view(budget: Result<u64, String>) -> Result<u64, Seq<char>> {
    match budget {
        Ok(chars) => Ok(chars),
        Err(message) => Err(message@),
    }
}

/// The fixed sections were weighed with these error lines.
pub open spec fn budget_told<X: ContextPort>(
    context: &X,
    source_file_count: u64,
    lines: Seq<Seq<char>>,
    budget: Result<u64, Seq<char>>,
) -> bool {
    exists|asked: &Vec<String>, answer: Result<u64, String>|
        views(asked@) == lines && budget_view(answer) == budget && #[trigger] call_ensures(
            X::budget,
            (context, source_file_count, asked),
            answer,
        )
}

/// The admission of the planned files was decided on.
pub open spec fn admission_told<X: ContextPort>(
    context: &X,
    plans: Seq<ClassifiedPlanView>,
    classifications: Map<Seq<char>, PdfClassificationResultView>,
    admission: Seq<AdmissionDecisionView>,
) -> bool {
    exists|
        asked: &Vec<ClassifiedPlan>,
        known: &TextMap<PdfClassificationResult>,
        answer: Vec<AdmissionDecision>,
    |
        views(asked@) == plans && map_views(known@) == classifications && views(answer@)
            == admission && #[trigger] call_ensures(
            X::decide_admission,
            (context, asked, known),
            answer,
        )
}

/// What the rendering gave, or why it failed.
pub open spec fn rendered_view(rendered: Result<RenderedContext, String>) -> Result<
    RenderedContextView,
    Seq<char>,
> {
    match rendered {
        Ok(context) => Ok(context@),
        Err(message) => Err(message@),
    }
}

/// The context was rendered from this evidence.
pub open spec fn render_told<X: ContextPort>(
    context: &X,
    evidence: Seq<ContextFileEvidenceView>,
    rendered: Result<RenderedContextView, Seq<char>>,
) -> bool {
    exists|asked: Vec<ContextFileEvidence>, answer: Result<RenderedContext, String>|
        views(asked@) == evidence && rendered_view(answer) == rendered && #[trigger] call_ensures(
            X::render,
            (context, asked),
            answer,
        )
}

/// The rows by extension, or why there are none.
pub open spec fn extensions_view(rows: Result<Vec<ExtensionMetric>, String>) -> Result<
    Seq<ExtensionMetricView>,
    Seq<char>,
> {
    match rows {
        Ok(metrics) => Ok(views(metrics@)),
        Err(message) => Err(message@),
    }
}

/// The results were summed up by extension.
pub open spec fn extensions_told<X: ContextPort>(
    context: &X,
    inventory: Seq<InventoryRecordView>,
    results: Seq<FileResultRecordView>,
    extensions: Result<Seq<ExtensionMetricView>, Seq<char>>,
) -> bool {
    exists|
        rows: &Vec<InventoryRecord>,
        records: &Vec<FileResultRecord>,
        answer: Result<Vec<ExtensionMetric>, String>,
    |
        views(rows@) == inventory && views(records@) == results && extensions_view(answer)
            == extensions && #[trigger] call_ensures(
            X::extension_metrics,
            (context, rows, records),
            answer,
        )
}

} // verus!
