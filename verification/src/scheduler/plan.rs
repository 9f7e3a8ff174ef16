//! Plans of a run: which files are classified, admitted, rejected or left out.
use crate::contract::{
    opt_view, views, DiscoveredFileOut, DiscoveredFileOutView, PdfClassificationStatus, RouteKind,
};
use crate::ordered::{TextMap, TextSet};
use crate::source_guard::{
    guard_holds, kind_of_text, kind_text, law_kind_text_round_trip, source_guard_kind_from_text,
    SourceGuardKind, SourceGuardV2, SourceGuardV2View,
};
use crate::text::{is_sha256_text, text_eq};
use vstd::prelude::*;
use vstd::string::StringExecFns;

verus! {

/// Why a file is rejected before any work on it.
#[derive(Clone, Copy, Debug, PartialEq, Eq, Structural)]
pub enum RejectReason {
    SourceGuardUnavailable,
    ProfileRouteInvariant,
}

/// What the plan foresees for the classification of a file.
#[derive(Clone, Copy, Debug, PartialEq, Eq, Structural)]
pub enum PdfClassificationPlan {
    /// The file is classified; so many pages are charged for it.
    Classify { charged_pages: u64 },
    /// The page quota was used up before the file.
    NotClassifiedByBudget,
    /// The file is not a candidate for classification.
    NotCandidate,
}

/// What the plan does with a file.
#[derive(Debug, PartialEq, Eq)]
pub enum PlanAction {
    /// The file is left out, for the given reason.
    NotParsed { reason: String },
    /// The file is rejected; `text` is the wire text of the reason.
    Reject { why: RejectReason, text: String },
    /// The classifier gave no usable answer.
    ClassifierFailed { status: PdfClassificationStatus },
    /// The file is parsed on a route.
    Admit { route: RouteKind },
}

/// What the plan does with a file.
#[verifier::ext_equal]
pub enum PlanActionView {
    NotParsed { reason: Seq<char> },
    Reject { why: RejectReason, text: Seq<char> },
    ClassifierFailed { status: PdfClassificationStatus },
    Admit { route: RouteKind },
}

impl View for PlanAction {
    type V = PlanActionView;

    open spec fn view(&self) -> PlanActionView {
        match self {
            PlanAction::NotParsed { reason } => PlanActionView::NotParsed { reason: reason@ },
            PlanAction::Reject { why, text } => PlanActionView::Reject {
                why: *why,
                text: text@,
            },
            PlanAction::ClassifierFailed { status } => PlanActionView::ClassifierFailed {
                status: *status,
            },
            PlanAction::Admit { route } => PlanActionView::Admit { route: *route },
        }
    }
}

impl Clone for PlanAction {
    fn clone(&self) -> (copy: Self)
        ensures
            copy@ == self@,
            copy == *self,
    {
        match self {
            PlanAction::NotParsed { reason } => PlanAction::NotParsed { reason: reason.clone() },
            PlanAction::Reject { why, text } => PlanAction::Reject {
                why: *why,
                text: text.clone(),
            },
            PlanAction::ClassifierFailed { status } => PlanAction::ClassifierFailed {
                status: *status,
            },
            PlanAction::Admit { route } => PlanAction::Admit { route: *route },
        }
    }
}

/// A file as the planner sees it.
#[derive(Debug, PartialEq, Eq)]
pub struct PlanCandidate {
    pub file_identity: String,
    pub relative_path: String,
    pub extension: String,
    pub size_bytes: u64,
    pub source_guard_kind: SourceGuardKind,
}

/// What a [`PlanCandidate`] says.
#[verifier::ext_equal]
pub struct PlanCandidateView {
    pub file_identity: Seq<char>,
    pub relative_path: Seq<char>,
    pub extension: Seq<char>,
    pub size_bytes: u64,
    pub source_guard_kind: SourceGuardKind,
}

impl View for PlanCandidate {
    type V = PlanCandidateView;

    open spec fn view(&self) -> PlanCandidateView {
        PlanCandidateView {
            file_identity: self.file_identity@,
            relative_path: self.relative_path@,
            extension: self.extension@,
            size_bytes: self.size_bytes,
            source_guard_kind: self.source_guard_kind,
        }
    }
}

impl Clone for PlanCandidate {
    fn clone(&self) -> (copy: Self)
        ensures
            copy@ == self@,
            copy == *self,
    {
        PlanCandidate {
            file_identity: self.file_identity.clone(),
            relative_path: self.relative_path.clone(),
            extension: self.extension.clone(),
            size_bytes: self.size_bytes,
            source_guard_kind: self.source_guard_kind,
        }
    }
}

/// The plan for one file before its content is admitted.
#[derive(Debug, PartialEq, Eq)]
pub struct ClassifiedPlan {
    pub file_identity: String,
    pub relative_path: String,
    pub action: PlanAction,
    pub pdf_classification: PdfClassificationPlan,
}

/// What a [`ClassifiedPlan`] says.
#[verifier::ext_equal]
pub struct ClassifiedPlanView {
    pub file_identity: Seq<char>,
    pub relative_path: Seq<char>,
    pub action: PlanActionView,
    pub pdf_classification: PdfClassificationPlan,
}

impl View for ClassifiedPlan {
    type V = ClassifiedPlanView;

    open spec fn view(&self) -> ClassifiedPlanView {
        ClassifiedPlanView {
            file_identity: self.file_identity@,
            relative_path: self.relative_path@,
            action: self.action@,
            pdf_classification: self.pdf_classification,
        }
    }
}

impl Clone for ClassifiedPlan {
    fn clone(&self) -> (copy: Self)
        ensures
            copy@ == self@,
            copy == *self,
    {
        ClassifiedPlan {
            file_identity: self.file_identity.clone(),
            relative_path: self.relative_path.clone(),
            action: self.action.clone(),
            pdf_classification: self.pdf_classification,
        }
    }
}

/// Whether the content of one file is admitted, and how many characters are reserved for it.
#[derive(Debug, PartialEq, Eq)]
pub struct AdmissionDecision {
    pub file_identity: String,
    pub relative_path: String,
    pub action: PlanAction,
    pub reserved_chars: u64,
}

/// What a [`AdmissionDecision`] says.
#[verifier::ext_equal]
pub struct AdmissionDecisionView {
    pub file_identity: Seq<char>,
    pub relative_path: Seq<char>,
    pub action: PlanActionView,
    pub reserved_chars: u64,
}

impl View for AdmissionDecision {
    type V = AdmissionDecisionView;

    open spec fn view(&self) -> AdmissionDecisionView {
        AdmissionDecisionView {
            file_identity: self.file_identity@,
            relative_path: self.relative_path@,
            action: self.action@,
            reserved_chars: self.reserved_chars,
        }
    }
}

impl Clone for AdmissionDecision {
    fn clone(&self) -> (copy: Self)
        ensures
            copy@ == self@,
            copy == *self,
    {
        AdmissionDecision {
            file_identity: self.file_identity.clone(),
            relative_path: self.relative_path.clone(),
            action: self.action.clone(),
            reserved_chars: self.reserved_chars,
        }
    }
}

/// What the classifier said about one PDF.
#[derive(Debug, PartialEq, Eq)]
pub struct PdfClassificationResult {
    pub file_identity: String,
    pub status: PdfClassificationStatus,
    pub page_count: Option<u64>,
    pub result_examined_pages: Option<u64>,
    pub error_code: Option<String>,
}

/// What a [`PdfClassificationResult`] says.
#[verifier::ext_equal]
pub struct PdfClassificationResultView {
    pub file_identity: Seq<char>,
    pub status: PdfClassificationStatus,
    pub page_count: Option<u64>,
    pub result_examined_pages: Option<u64>,
    pub error_code: Option<Seq<char>>,
}

impl View for PdfClassificationResult {
    type V = PdfClassificationResultView;

    open spec fn view(&self) -> PdfClassificationResultView {
        PdfClassificationResultView {
            file_identity: self.file_identity@,
            status: self.status,
            page_count: self.page_count,
            result_examined_pages: self.result_examined_pages,
            error_code: opt_view(self.error_code),
        }
    }
}

impl Clone for PdfClassificationResult {
    fn clone(&self) -> (copy: Self)
        ensures
            copy@ == self@,
            copy == *self,
    {
        PdfClassificationResult {
            file_identity: self.file_identity.clone(),
            status: self.status,
            page_count: self.page_count,
            result_examined_pages: self.result_examined_pages,
            error_code: self.error_code.clone(),
        }
    }
}

/// The views of the values of a map.
pub open spec fn map_views<T: View>(map: Map<Seq<char>, T>) -> Map<Seq<char>, T::V> {
    map.map_values(|value: T| value@)
}

/// The files of a run by identity: of two files with one identity the later counts.
pub open spec fn file_index(files: Seq<DiscoveredFileOutView>, count: nat) -> Map<Seq<char>, usize>
    decreases count,
{
    if count == 0 {
        Map::empty()
    } else {
        file_index(files, (count - 1) as nat).insert(
            files[count - 1].file_identity,
            (count - 1) as usize,
        )
    }
}

/// The file with the given identity.
pub open spec fn file_of(files: Seq<DiscoveredFileOutView>, identity: Seq<char>) -> Option<
    DiscoveredFileOutView,
> {
    let index = file_index(files, files.len());
    if index.contains_key(identity) {
        Some(files[index[identity] as int])
    } else {
        None
    }
}

proof fn lemma_file_index(files: Seq<DiscoveredFileOutView>, count: nat)
    requires
        count <= files.len(),
        files.len() <= usize::MAX,
    ensures
        forall|identity: Seq<char>|
            #![trigger file_index(files, count).contains_key(identity)]
            file_index(files, count).contains_key(identity) ==> file_index(files, count)[identity]
                < count && files[file_index(files, count)[identity] as int].file_identity
                == identity,
        forall|i: int|
            0 <= i < count ==> file_index(files, count).contains_key(
                (#[trigger] files[i]).file_identity,
            ),
    decreases count,
{
    if count > 0 {
        lemma_file_index(files, (count - 1) as nat);
    }
}

/// The files of a run, found by identity.
pub struct FileSnapshot<'a> {
    files: &'a Vec<DiscoveredFileOut>,
    index: TextMap<usize>,
}

impl<'a> FileSnapshot<'a> {
    /// The files of the snapshot.
    pub closed spec fn files(&self) -> Seq<DiscoveredFileOutView> {
        views(self.files@)
    }

    #[verifier::type_invariant]
    spec fn indexed(self) -> bool {
        self.index@ == file_index(views(self.files@), self.files@.len())
    }

    /// Indexes the files of a run.
    pub fn new(files: &'a Vec<DiscoveredFileOut>) -> (snapshot: Self)
        ensures
            snapshot.files() == views(files@),
    {
        let ghost all = views(files@);
        let mut index: TextMap<usize> = TextMap::new();
        let mut i: usize = 0;
        while i < files.len()
            invariant
                i <= files.len(),
                all == views(files@),
                index@ == file_index(all, i as nat),
            decreases files.len() - i,
        {
            assert(all[i as int] == files@[i as int]@);
            index.insert(files[i].file_identity.clone(), i);
            i = i + 1;
        }
        FileSnapshot { files, index }
    }

    /// The file with the given identity.
    pub fn get(&self, identity: &str) -> (file: Option<&'a DiscoveredFileOut>)
        ensures
            match file {
                Some(found) => file_of(self.files(), identity@) == Some(found@),
                None => file_of(self.files(), identity@) is None,
            },
    {
        proof {
            use_type_invariant(self);
            assert(self.files@.len() == self.files.len());
            lemma_file_index(views(self.files@), self.files@.len());
        }
        match self.index.get(identity) {
            Some(at) => {
                proof {
                    assert(self.files()[*at as int] == self.files@[*at as int]@);
                }
                let files: &'a Vec<DiscoveredFileOut> = self.files;
                Some(&files[*at])
            },
            None => None,
        }
    }
}

/// A file that is found has the identity that was asked for and is one of the
/// files of the run; and every file of the run is found under its identity, or a
/// later file with that identity is.
pub proof fn law_files_are_found_by_identity(
    files: Seq<DiscoveredFileOutView>,
    identity: Seq<char>,
    at: int,
)
    requires
        files.len() <= usize::MAX,
        0 <= at < files.len(),
    ensures
        file_of(files, identity) matches Some(file) ==> file.file_identity == identity
            && files.contains(file),
        file_of(files, files[at].file_identity) is Some,
{
    lemma_file_index(files, files.len());
    let index = file_index(files, files.len());
    if index.contains_key(identity) {
        assert(files[index[identity] as int].file_identity == identity);
    }
    assert(index.contains_key(files[at].file_identity));
}

/// The guard kind that a discovered file claims.
pub open spec fn claimed_kind(file: DiscoveredFileOutView) -> Option<SourceGuardKind> {
    match file.source_guard_kind {
        Some(text) => kind_of_text(text),
        None => None,
    }
}

fn read_claimed_kind(file: &DiscoveredFileOut) -> (kind: Option<SourceGuardKind>)
    ensures
        kind == claimed_kind(file@),
{
    match &file.source_guard_kind {
        Some(text) => source_guard_kind_from_text(text.as_str()),
        None => None,
    }
}

/// A discovered file as the planner sees it; without a known guard kind its guard
/// is unavailable.
pub open spec fn candidate_of(file: DiscoveredFileOutView) -> PlanCandidateView {
    PlanCandidateView {
        file_identity: file.file_identity,
        relative_path: file.path,
        extension: file.extension,
        size_bytes: file.size_bytes,
        source_guard_kind: match claimed_kind(file) {
            Some(kind) => kind,
            None => SourceGuardKind::Unavailable,
        },
    }
}

/// A discovered file as the planner sees it.
pub fn plan_candidate(file: &DiscoveredFileOut) -> (candidate: PlanCandidate)
    ensures
        candidate@ == candidate_of(file@),
{
    let source_guard_kind: SourceGuardKind = match read_claimed_kind(file) {
        Some(kind) => kind,
        None => SourceGuardKind::Unavailable,
    };
    PlanCandidate {
        file_identity: file.file_identity.clone(),
        relative_path: file.path.clone(),
        extension: file.extension.clone(),
        size_bytes: file.size_bytes,
        source_guard_kind,
    }
}

/// All discovered files as the planner sees them, in order.
pub fn plan_candidates(files: &Vec<DiscoveredFileOut>) -> (candidates: Vec<PlanCandidate>)
    ensures
        views(candidates@) == views(files@).map_values(
            |file: DiscoveredFileOutView| candidate_of(file),
        ),
{
    let ghost all = views(files@);
    let ghost wanted = all.map_values(|file: DiscoveredFileOutView| candidate_of(file));
    let mut candidates: Vec<PlanCandidate> = Vec::new();
    let mut i: usize = 0;
    assert(views(candidates@) =~= wanted.take(0));
    while i < files.len()
        invariant
            i <= files.len(),
            all == views(files@),
            wanted == all.map_values(|file: DiscoveredFileOutView| candidate_of(file)),
            views(candidates@) == wanted.take(i as int),
        decreases files.len() - i,
    {
        let ghost before = views(candidates@);
        assert(all[i as int] == files@[i as int]@);
        let candidate: PlanCandidate = plan_candidate(&files[i]);
        candidates.push(candidate);
        assert(views(candidates@) =~= before.push(candidate@));
        assert(views(candidates@) =~= wanted.take(i + 1));
        i = i + 1;
    }
    assert(wanted.take(i as int) =~= wanted);
    candidates
}

/// The guard that work on a file is verified against: the one it was discovered
/// with, if that is a guard and is available.
pub open spec fn guard_of(file: DiscoveredFileOutView) -> Option<SourceGuardV2View> {
    match (claimed_kind(file), file.source_guard_sha256) {
        (Some(kind), Some(hash)) => if kind != SourceGuardKind::Unavailable && guard_holds(
            kind,
            Some(hash),
        ) {
            Some(SourceGuardV2View { kind, guard_sha256: Some(hash) })
        } else {
            None
        },
        _ => None,
    }
}

/// The guard that work on a file is verified against.
pub fn expected_guard(file: &DiscoveredFileOut) -> (guard: Option<SourceGuardV2>)
    ensures
        opt_view(guard) == guard_of(file@),
{
    let kind: SourceGuardKind = match read_claimed_kind(file) {
        Some(kind) => kind,
        None => {
            return None;
        },
    };
    if kind == SourceGuardKind::Unavailable {
        return None;
    }
    let hash: String = match &file.source_guard_sha256 {
        Some(hash) => hash.clone(),
        None => {
            return None;
        },
    };
    let guard = SourceGuardV2 { kind, guard_sha256: Some(hash) };
    match guard.validate() {
        Ok(()) => Some(guard),
        Err(_) => None,
    }
}

/// The plan admits the file.
pub open spec fn is_admitted(action: PlanActionView) -> bool {
    action is Admit
}

/// The plan foresees a classification of the file.
pub open spec fn is_classified(plan: ClassifiedPlanView) -> bool {
    plan.pdf_classification is Classify
}

/// Number of plans that admit their file.
pub open spec fn candidate_count(plans: Seq<ClassifiedPlanView>) -> nat {
    plans.filter(|plan: ClassifiedPlanView| is_admitted(plan.action)).len()
}

/// Number of plans that foresee a classification.
pub open spec fn classification_count(plans: Seq<ClassifiedPlanView>) -> nat {
    plans.filter(|plan: ClassifiedPlanView| is_classified(plan)).len()
}

/// Pages charged for all foreseen classifications, capped at the largest count.
pub open spec fn charged_pages_total(plans: Seq<ClassifiedPlanView>, count: nat) -> u64
    decreases count,
{
    if count == 0 {
        0
    } else {
        match plans[count - 1].pdf_classification {
            PdfClassificationPlan::Classify { charged_pages } => crate::source_guard::saturated_sum(
                charged_pages_total(plans, (count - 1) as nat) as int,
                charged_pages as int,
            ),
            _ => charged_pages_total(plans, (count - 1) as nat),
        }
    }
}

/// Counts of a frozen classification plan.
#[derive(Clone, Copy, Debug, PartialEq, Eq)]
pub struct PlanCounts {
    pub candidate_file_count: u64,
    pub classification_slot_count: u64,
    pub nominal_charged_pages_total: u64,
}

/// Counts candidates, classification slots and charged pages of a plan.
pub fn count_plans(plans: &Vec<ClassifiedPlan>) -> (counts: PlanCounts)
    ensures
        counts.candidate_file_count == candidate_count(views(plans@)),
        counts.classification_slot_count == classification_count(views(plans@)),
        counts.nominal_charged_pages_total == charged_pages_total(views(plans@), plans@.len()),
{
    let ghost all = views(plans@);
    let ghost admits = |plan: ClassifiedPlanView| is_admitted(plan.action);
    let ghost classifies = |plan: ClassifiedPlanView| is_classified(plan);
    let mut candidates: u64 = 0;
    let mut slots: u64 = 0;
    let mut pages: u64 = 0;
    let mut i: usize = 0;
    assert(all.take(0) =~= Seq::<ClassifiedPlanView>::empty());
    proof {
        reveal(Seq::filter);
    }
    while i < plans.len()
        invariant
            i <= plans.len(),
            all == views(plans@),
            candidates <= i,
            slots <= i,
            candidates == all.take(i as int).filter(admits).len(),
            slots == all.take(i as int).filter(classifies).len(),
            admits == (|plan: ClassifiedPlanView| is_admitted(plan.action)),
            classifies == (|plan: ClassifiedPlanView| is_classified(plan)),
            pages == charged_pages_total(all, i as nat),
        decreases plans.len() - i,
    {
        proof {
            reveal(Seq::filter);
            assert(all.take(i + 1).drop_last() =~= all.take(i as int));
            assert(all.take(i + 1).last() == plans@[i as int]@);
        }
        if let PlanAction::Admit { route: _ } = &plans[i].action {
            candidates = candidates + 1;
        }
        if let PdfClassificationPlan::Classify { charged_pages } = plans[i].pdf_classification {
            slots = slots + 1;
            pages = pages.saturating_add(charged_pages);
        }
        i = i + 1;
    }
    assert(all.take(i as int) =~= all);
    PlanCounts {
        candidate_file_count: candidates,
        classification_slot_count: slots,
        nominal_charged_pages_total: pages,
    }
}

/// The plan goes on to admission: its classification was not skipped by the quota
/// and not cut off by the deadline.
pub open spec fn goes_to_admission(plan: ClassifiedPlanView, cut_off: Set<Seq<char>>) -> bool {
    !cut_off.contains(plan.file_identity) && plan.pdf_classification
        != PdfClassificationPlan::NotClassifiedByBudget
}

/// The plans that go on to admission, in order.
pub fn plans_for_admission(plans: &Vec<ClassifiedPlan>, cut_off: &TextSet) -> (kept: Vec<
    ClassifiedPlan,
>)
    ensures
        views(kept@) == views(plans@).filter(
            |plan: ClassifiedPlanView| goes_to_admission(plan, cut_off@),
        ),
{
    let ghost all = views(plans@);
    let ghost keeps = |plan: ClassifiedPlanView| goes_to_admission(plan, cut_off@);
    let mut kept: Vec<ClassifiedPlan> = Vec::new();
    let mut i: usize = 0;
    proof {
        reveal(Seq::filter);
        assert(all.take(0) =~= Seq::<ClassifiedPlanView>::empty());
        assert(views(kept@) =~= all.take(0).filter(keeps));
    }
    while i < plans.len()
        invariant
            i <= plans.len(),
            all == views(plans@),
            keeps == (|plan: ClassifiedPlanView| goes_to_admission(plan, cut_off@)),
            views(kept@) == all.take(i as int).filter(keeps),
        decreases plans.len() - i,
    {
        let ghost before = views(kept@);
        proof {
            reveal(Seq::filter);
            assert(all.take(i + 1).drop_last() =~= all.take(i as int));
            assert(all.take(i + 1).last() == plans@[i as int]@);
        }
        let skipped: bool = match plans[i].pdf_classification {
            PdfClassificationPlan::NotClassifiedByBudget => true,
            _ => false,
        };
        if !cut_off.contains(plans[i].file_identity.as_str()) && !skipped {
            let plan: ClassifiedPlan = plans[i].clone();
            kept.push(plan);
            assert(views(kept@) =~= before.push(plan@));
        }
        i = i + 1;
    }
    assert(all.take(i as int) =~= all);
    kept
}

/// The admission takes up an extraction slot: a PDF with text in the window.
pub open spec fn is_extraction(
    decision: AdmissionDecisionView,
    classifications: Map<Seq<char>, PdfClassificationResultView>,
) -> bool {
    &&& decision.action == (PlanActionView::Admit { route: RouteKind::Pdf })
    &&& classifications.contains_key(decision.file_identity)
    &&& classifications[decision.file_identity].status == PdfClassificationStatus::TextInParseWindow
}

/// Characters reserved by the first `count` decisions.
pub open spec fn reserved_total(decisions: Seq<AdmissionDecisionView>, count: nat) -> int
    decreases count,
{
    if count == 0 {
        0
    } else {
        reserved_total(decisions, (count - 1) as nat) + decisions[count - 1].reserved_chars
    }
}

/// Counts of a frozen admission plan.
#[derive(Clone, Copy, Debug, PartialEq, Eq)]
pub struct AdmissionCounts {
    pub admitted_file_count: u64,
    pub extraction_slot_count: u64,
}

/// Counts admitted files and extraction slots of an admission plan.
pub fn count_admissions(
    decisions: &Vec<AdmissionDecision>,
    classifications: &TextMap<PdfClassificationResult>,
) -> (counts: AdmissionCounts)
    ensures
        counts.admitted_file_count == views(decisions@).filter(
            |decision: AdmissionDecisionView| is_admitted(decision.action),
        ).len(),
        counts.extraction_slot_count == views(decisions@).filter(
            |decision: AdmissionDecisionView|
                is_extraction(decision, map_views(classifications@)),
        ).len(),
{
    let ghost all = views(decisions@);
    let ghost known = map_views(classifications@);
    let ghost admits = |decision: AdmissionDecisionView| is_admitted(decision.action);
    let ghost extracts = |decision: AdmissionDecisionView| is_extraction(decision, known);
    let mut admitted: u64 = 0;
    let mut extractions: u64 = 0;
    let mut i: usize = 0;
    proof {
        reveal(Seq::filter);
        assert(all.take(0) =~= Seq::<AdmissionDecisionView>::empty());
    }
    while i < decisions.len()
        invariant
            i <= decisions.len(),
            all == views(decisions@),
            known == map_views(classifications@),
            admitted <= i,
            extractions <= i,
            admits == (|decision: AdmissionDecisionView| is_admitted(decision.action)),
            extracts == (|decision: AdmissionDecisionView| is_extraction(decision, known)),
            admitted == all.take(i as int).filter(admits).len(),
            extractions == all.take(i as int).filter(extracts).len(),
        decreases decisions.len() - i,
    {
        proof {
            reveal(Seq::filter);
            assert(all.take(i + 1).drop_last() =~= all.take(i as int));
            assert(all.take(i + 1).last() == decisions@[i as int]@);
        }
        let decision: &AdmissionDecision = &decisions[i];
        if let PlanAction::Admit { route } = &decision.action {
            admitted = admitted + 1;
            if *route == RouteKind::Pdf {
                if let Some(result) = classifications.get(decision.file_identity.as_str()) {
                    if result.status == PdfClassificationStatus::TextInParseWindow {
                        extractions = extractions + 1;
                    }
                }
            }
        }
        i = i + 1;
    }
    assert(all.take(i as int) =~= all);
    AdmissionCounts { admitted_file_count: admitted, extraction_slot_count: extractions }
}

/// The action that holds for a file in the end: that of its admission decision, or
/// of its plan when nothing was decided on admission.
pub open spec fn final_action(
    plan: ClassifiedPlanView,
    decisions: Seq<AdmissionDecisionView>,
    from: int,
) -> PlanActionView
    decreases decisions.len() - from,
{
    if from < 0 || from >= decisions.len() {
        plan.action
    } else if decisions[from].file_identity == plan.file_identity {
        decisions[from].action
    } else {
        final_action(plan, decisions, from + 1)
    }
}

/// The action that holds for a file in the end.
pub fn settle_action<'a>(
    plan: &'a ClassifiedPlan,
    decisions: &'a Vec<AdmissionDecision>,
) -> (action: &'a PlanAction)
    ensures
        action@ == final_action(plan@, views(decisions@), 0),
{
    let ghost all = views(decisions@);
    let mut i: usize = 0;
    while i < decisions.len()
        invariant
            i <= decisions.len(),
            all == views(decisions@),
            final_action(plan@, all, 0) == final_action(plan@, all, i as int),
        decreases decisions.len() - i,
    {
        assert(all[i as int] == decisions@[i as int]@);
        if text_eq(decisions[i].file_identity.as_str(), plan.file_identity.as_str()) {
            return &decisions[i].action;
        }
        i = i + 1;
    }
    &plan.action
}

/// The classification of a file failed by timing out.
pub open spec fn timed_out(
    status: PdfClassificationStatus,
    identity: Seq<char>,
    classifications: Map<Seq<char>, PdfClassificationResultView>,
) -> bool {
    &&& status == PdfClassificationStatus::Unknown
    &&& classifications.contains_key(identity)
    &&& classifications[identity].error_code == Some("PARSER_TIMEOUT"@)
}

/// Tests whether the classification of a file failed by timing out.
pub fn classification_timed_out(
    status: PdfClassificationStatus,
    identity: &str,
    classifications: &TextMap<PdfClassificationResult>,
) -> (yes: bool)
    ensures
        yes == timed_out(status, identity@, map_views(classifications@)),
{
    if status != PdfClassificationStatus::Unknown {
        return false;
    }
    match classifications.get(identity) {
        None => false,
        Some(result) => match &result.error_code {
            None => false,
            Some(code) => text_eq(code.as_str(), "PARSER_TIMEOUT"),
        },
    }
}

/// The line that the fixed part of a context holds for a file whose
/// classification failed.
pub open spec fn error_line(
    plan: ClassifiedPlanView,
    classifications: Map<Seq<char>, PdfClassificationResultView>,
    cut_off: Set<Seq<char>>,
) -> Option<Seq<char>> {
    if !is_classified(plan) || cut_off.contains(plan.file_identity)
        || !classifications.contains_key(plan.file_identity) {
        None
    } else {
        let status = classifications[plan.file_identity].status;
        if status == PdfClassificationStatus::Unknown && timed_out(
            status,
            plan.file_identity,
            classifications,
        ) {
            Some("- "@ + plan.relative_path + " | reason=parse_error | error="@ + "PARSER_TIMEOUT"@)
        } else if status == PdfClassificationStatus::Unknown || status
            == PdfClassificationStatus::Error {
            Some("- "@ + plan.relative_path + " | reason=parse_error | error="@ + "PARSER_FAILED"@)
        } else {
            None
        }
    }
}

/// The line that the fixed part of a context holds for a file whose
/// classification failed.
pub fn classifier_error_line(
    plan: &ClassifiedPlan,
    classifications: &TextMap<PdfClassificationResult>,
    cut_off: &TextSet,
) -> (line: Option<String>)
    ensures
        opt_view(line) == error_line(plan@, map_views(classifications@), cut_off@),
{
    match plan.pdf_classification {
        PdfClassificationPlan::Classify { charged_pages: _ } => {},
        _ => {
            return None;
        },
    }
    if cut_off.contains(plan.file_identity.as_str()) {
        return None;
    }
    let status: PdfClassificationStatus = match classifications.get(plan.file_identity.as_str()) {
        Some(result) => result.status,
        None => {
            return None;
        },
    };
    let code: &str = if classification_timed_out(
        status,
        plan.file_identity.as_str(),
        classifications,
    ) {
        "PARSER_TIMEOUT"
    } else if status == PdfClassificationStatus::Unknown || status
        == PdfClassificationStatus::Error {
        "PARSER_FAILED"
    } else {
        return None;
    };
    let mut line: String = "- ".to_string();
    line.append(plan.relative_path.as_str());
    line.append(" | reason=parse_error | error=");
    line.append(code);
    Some(line)
}

/// The lines of the first `count` plans whose classification failed, in plan order.
pub open spec fn error_lines(
    plans: Seq<ClassifiedPlanView>,
    classifications: Map<Seq<char>, PdfClassificationResultView>,
    cut_off: Set<Seq<char>>,
    count: nat,
) -> Seq<Seq<char>>
    decreases count,
{
    if count == 0 {
        Seq::empty()
    } else {
        let earlier = error_lines(plans, classifications, cut_off, (count - 1) as nat);
        match error_line(plans[count - 1], classifications, cut_off) {
            Some(line) => earlier.push(line),
            None => earlier,
        }
    }
}

/// The lines of all plans whose classification failed, in plan order.
pub fn classifier_error_lines(
    plans: &Vec<ClassifiedPlan>,
    classifications: &TextMap<PdfClassificationResult>,
    cut_off: &TextSet,
) -> (lines: Vec<String>)
    ensures
        views(lines@) == error_lines(
            views(plans@),
            map_views(classifications@),
            cut_off@,
            plans@.len(),
        ),
{
    let ghost all = views(plans@);
    let ghost known = map_views(classifications@);
    let mut lines: Vec<String> = Vec::new();
    let mut i: usize = 0;
    assert(views(lines@) =~= Seq::<Seq<char>>::empty());
    while i < plans.len()
        invariant
            i <= plans.len(),
            all == views(plans@),
            known == map_views(classifications@),
            views(lines@) == error_lines(all, known, cut_off@, i as nat),
        decreases plans.len() - i,
    {
        let ghost before = views(lines@);
        assert(all[i as int] == plans@[i as int]@);
        if let Some(line) = classifier_error_line(&plans[i], classifications, cut_off) {
            lines.push(line);
            assert(views(lines@) =~= before.push(line@));
        }
        i = i + 1;
    }
    lines
}

// ---------------------------------------------------------------------------
// Laws
// ---------------------------------------------------------------------------

/// The guard of a file is the one that it was discovered with, and a file has one exactly
/// where it was discovered with a known and available kind and a SHA-256 text.
pub proof fn law_guards_are_those_of_the_discovery(file: DiscoveredFileOutView)
    ensures
        guard_of(file) matches Some(guard) ==> {
            &&& file.source_guard_kind == Some(kind_text(guard.kind))
            &&& file.source_guard_sha256 == guard.guard_sha256
            &&& guard.guard_sha256 matches Some(hash) && is_sha256_text(hash)
            &&& guard.kind != SourceGuardKind::Unavailable
        },
        guard_of(file) is Some <==> {
            &&& file.source_guard_kind is Some
            &&& kind_of_text(file.source_guard_kind->0) is Some
            &&& kind_of_text(file.source_guard_kind->0) != Some(SourceGuardKind::Unavailable)
            &&& file.source_guard_sha256 is Some
            &&& is_sha256_text(file.source_guard_sha256->0)
        },
{
    if let Some(text) = file.source_guard_kind {
        law_kind_text_round_trip(SourceGuardKind::WindowsFileIdChangeTimeV1, text);
        law_kind_text_round_trip(SourceGuardKind::UnixInodeCtimeV1, text);
        law_kind_text_round_trip(SourceGuardKind::ContentSha256V1, text);
        law_kind_text_round_trip(SourceGuardKind::Unavailable, text);
    }
}

/// A file is put up for planning as it was discovered; one whose guard kind is not known
/// counts as one without a guard.
pub proof fn law_candidates_are_the_discovered_files(file: DiscoveredFileOutView)
    ensures
        ({
            let candidate = candidate_of(file);
            &&& candidate.file_identity == file.file_identity
            &&& candidate.relative_path == file.path
            &&& candidate.extension == file.extension
            &&& candidate.size_bytes == file.size_bytes
            &&& file.source_guard_kind == Some(kind_text(candidate.source_guard_kind))
                || candidate.source_guard_kind == SourceGuardKind::Unavailable
            &&& guard_of(file) is Some ==> candidate.source_guard_kind
                != SourceGuardKind::Unavailable
        }),
{
    if let Some(text) = file.source_guard_kind {
        law_kind_text_round_trip(SourceGuardKind::WindowsFileIdChangeTimeV1, text);
        law_kind_text_round_trip(SourceGuardKind::UnixInodeCtimeV1, text);
        law_kind_text_round_trip(SourceGuardKind::ContentSha256V1, text);
        law_kind_text_round_trip(SourceGuardKind::Unavailable, text);
    }
}

proof fn lemma_final_action(
    plan: ClassifiedPlanView,
    decisions: Seq<AdmissionDecisionView>,
    from: int,
    at: int,
)
    requires
        0 <= from <= at <= decisions.len(),
        forall|i: int|
            from <= i < at ==> (#[trigger] decisions[i]).file_identity != plan.file_identity,
    ensures
        at == decisions.len() ==> final_action(plan, decisions, from) == plan.action,
        at < decisions.len() && decisions[at].file_identity == plan.file_identity ==> final_action(
            plan,
            decisions,
            from,
        ) == decisions[at].action,
    decreases at - from,
{
    if from < at {
        lemma_final_action(plan, decisions, from + 1, at);
    }
}

/// The first decision on a file settles what becomes of it; a file that was not decided on
/// keeps the action of its plan.
pub proof fn law_decisions_settle_the_action(
    plan: ClassifiedPlanView,
    decisions: Seq<AdmissionDecisionView>,
    at: int,
)
    requires
        0 <= at <= decisions.len(),
        forall|i: int|
            0 <= i < at ==> (#[trigger] decisions[i]).file_identity != plan.file_identity,
    ensures
        at == decisions.len() ==> final_action(plan, decisions, 0) == plan.action,
        at < decisions.len() && decisions[at].file_identity == plan.file_identity ==> final_action(
            plan,
            decisions,
            0,
        ) == decisions[at].action,
{
    lemma_final_action(plan, decisions, 0, at);
}

/// A plan goes to admission exactly where the deadline did not cut its classification off
/// and the budget did not leave it out.
pub proof fn law_plans_go_to_admission_unless_left_out(
    plans: Seq<ClassifiedPlanView>,
    cut_off: Set<Seq<char>>,
    at: int,
)
    requires
        0 <= at < plans.len(),
    ensures
        plans.filter(|plan: ClassifiedPlanView| goes_to_admission(plan, cut_off)).contains(
            plans[at],
        ) <==> !cut_off.contains(plans[at].file_identity) && !(
        plans[at].pdf_classification is NotClassifiedByBudget),
{
    let keep = |plan: ClassifiedPlanView| goes_to_admission(plan, cut_off);
    let kept = plans.filter(keep);
    if keep(plans[at]) {
        plans.lemma_filter_contains(keep, at);
    }
    if kept.contains(plans[at]) {
        let i = choose|i: int| 0 <= i < kept.len() && kept[i] == plans[at];
        plans.lemma_filter_pred(keep, i);
    }
}

/// The pages that a run is charged are those of its classified plans, none more: a plan
/// that is classified adds its pages, as far as they can be counted, and another adds none.
pub proof fn law_charged_pages_are_those_of_the_classified(
    plans: Seq<ClassifiedPlanView>,
    plan: ClassifiedPlanView,
)
    ensures
        ({
            let before = charged_pages_total(plans, plans.len());
            let after = charged_pages_total(plans.push(plan), plans.len() + 1);
            match plan.pdf_classification {
                PdfClassificationPlan::Classify { charged_pages } => {
                    &&& before + charged_pages <= u64::MAX ==> after == before + charged_pages
                    &&& before + charged_pages > u64::MAX ==> after == u64::MAX
                },
                _ => after == before,
            }
        }),
        charged_pages_total(Seq::empty(), 0) == 0,
{
    lemma_charges_of_prefix(plans, plans.push(plan), plans.len());
}

proof fn lemma_charges_of_prefix(
    left: Seq<ClassifiedPlanView>,
    right: Seq<ClassifiedPlanView>,
    count: nat,
)
    requires
        count <= left.len(),
        count <= right.len(),
        forall|i: int| 0 <= i < count ==> left[i] == right[i],
    ensures
        charged_pages_total(left, count) == charged_pages_total(right, count),
    decreases count,
{
    if count > 0 {
        lemma_charges_of_prefix(left, right, (count - 1) as nat);
    }
}

/// The kind of guard that a file claims is the one of that name.
pub proof fn law_claimed_kinds_are_known_by_name(file: DiscoveredFileOutView)
    ensures
        file.source_guard_kind is None ==> claimed_kind(file) is None,
        claimed_kind(file) matches Some(kind) ==> file.source_guard_kind == Some(
            crate::source_guard::kind_text(kind),
        ),
        forall|kind: SourceGuardKind|
            file.source_guard_kind == Some(#[trigger] crate::source_guard::kind_text(kind))
                ==> claimed_kind(file) == Some(kind),
{
    if let Some(text) = file.source_guard_kind {
        if let Some(kind) = claimed_kind(file) {
            crate::source_guard::law_kind_text_round_trip(kind, text);
        }
        assert forall|kind: SourceGuardKind|
            file.source_guard_kind == Some(#[trigger] crate::source_guard::kind_text(kind))
            implies claimed_kind(file) == Some(kind) by {
            crate::source_guard::law_kind_text_round_trip(kind, text);
        }
    }
}

} // verus!
