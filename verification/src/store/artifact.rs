//! Context artifacts: rendered contexts that are stored once and may be reused.
use crate::contract::{
    clone_all, opt_view, views, ContextAction, ContextSummary, ParseStatus, PdfClassificationStatus,
};
use crate::hash::{content_hash, content_sha256};
use crate::source_guard::opt_text_eq;
use crate::store::run::{StoreError, StoreErrorView};
use crate::text::{text_bytes, text_eq, utf8_len};
use vstd::prelude::*;
use vstd::string::StringExecFns;

verus! {

/// How a PDF of an artifact was classified.
#[derive(Debug, PartialEq, Eq)]
pub struct PdfClassificationProvenanceV1 {
    pub status: PdfClassificationStatus,
    pub page_count: Option<u64>,
    pub result_examined_pages: Option<u64>,
    pub nominal_charged_pages: u64,
    pub classifier_build: String,
    pub classifier_profile_hash: String,
}

/// What a [`PdfClassificationProvenanceV1`] says.
#[verifier::ext_equal]
pub struct PdfClassificationProvenanceV1View {
    pub status: PdfClassificationStatus,
    pub page_count: Option<u64>,
    pub result_examined_pages: Option<u64>,
    pub nominal_charged_pages: u64,
    pub classifier_build: Seq<char>,
    pub classifier_profile_hash: Seq<char>,
}

impl View for PdfClassificationProvenanceV1 {
    type V = PdfClassificationProvenanceV1View;

    open spec fn view(&self) -> PdfClassificationProvenanceV1View {
        PdfClassificationProvenanceV1View {
            status: self.status,
            page_count: self.page_count,
            result_examined_pages: self.result_examined_pages,
            nominal_charged_pages: self.nominal_charged_pages,
            classifier_build: self.classifier_build@,
            classifier_profile_hash: self.classifier_profile_hash@,
        }
    }
}

impl Clone for PdfClassificationProvenanceV1 {
    fn clone(&self) -> (copy: Self)
        ensures
            copy@ == self@,
            copy == *self,
    {
        PdfClassificationProvenanceV1 {
            status: self.status,
            page_count: self.page_count,
            result_examined_pages: self.result_examined_pages,
            nominal_charged_pages: self.nominal_charged_pages,
            classifier_build: self.classifier_build.clone(),
            classifier_profile_hash: self.classifier_profile_hash.clone(),
        }
    }
}

/// A source file of an artifact.
#[derive(Debug, PartialEq, Eq)]
pub struct ArtifactFileRow {
    pub file_identity: String,
    pub relative_path: String,
    pub legacy_source_version: String,
    pub source_guard_kind: Option<String>,
    pub source_guard_sha256: Option<String>,
    pub parse_profile_hash: String,
    pub parse_status: ParseStatus,
    pub parser_backend: String,
    pub worker_lane: String,
    pub truncated: bool,
    pub content_sha256: String,
    pub classifier: Option<PdfClassificationProvenanceV1>,
}

/// What a [`ArtifactFileRow`] says.
#[verifier::ext_equal]
pub struct ArtifactFileRowView {
    pub file_identity: Seq<char>,
    pub relative_path: Seq<char>,
    pub legacy_source_version: Seq<char>,
    pub source_guard_kind: Option<Seq<char>>,
    pub source_guard_sha256: Option<Seq<char>>,
    pub parse_profile_hash: Seq<char>,
    pub parse_status: ParseStatus,
    pub parser_backend: Seq<char>,
    pub worker_lane: Seq<char>,
    pub truncated: bool,
    pub content_sha256: Seq<char>,
    pub classifier: Option<PdfClassificationProvenanceV1View>,
}

impl View for ArtifactFileRow {
    type V = ArtifactFileRowView;

    open spec fn view(&self) -> ArtifactFileRowView {
        ArtifactFileRowView {
            file_identity: self.file_identity@,
            relative_path: self.relative_path@,
            legacy_source_version: self.legacy_source_version@,
            source_guard_kind: opt_view(self.source_guard_kind),
            source_guard_sha256: opt_view(self.source_guard_sha256),
            parse_profile_hash: self.parse_profile_hash@,
            parse_status: self.parse_status,
            parser_backend: self.parser_backend@,
            worker_lane: self.worker_lane@,
            truncated: self.truncated,
            content_sha256: self.content_sha256@,
            classifier: opt_view(self.classifier),
        }
    }
}

impl Clone for ArtifactFileRow {
    fn clone(&self) -> (copy: Self)
        ensures
            copy@ == self@,
            copy == *self,
    {
        ArtifactFileRow {
            file_identity: self.file_identity.clone(),
            relative_path: self.relative_path.clone(),
            legacy_source_version: self.legacy_source_version.clone(),
            source_guard_kind: self.source_guard_kind.clone(),
            source_guard_sha256: self.source_guard_sha256.clone(),
            parse_profile_hash: self.parse_profile_hash.clone(),
            parse_status: self.parse_status,
            parser_backend: self.parser_backend.clone(),
            worker_lane: self.worker_lane.clone(),
            truncated: self.truncated,
            content_sha256: self.content_sha256.clone(),
            classifier: self.classifier.clone(),
        }
    }
}

/// What the context of an artifact did with a file.
#[derive(Debug, PartialEq, Eq)]
pub struct ArtifactDecisionRow {
    pub file_identity: String,
    pub relative_path: String,
    pub action: ContextAction,
    pub reason: String,
    pub priority: u64,
    pub input_chars: u64,
    pub output_chars: u64,
    pub truncated: bool,
    pub error_code: String,
}

/// What a [`ArtifactDecisionRow`] says.
#[verifier::ext_equal]
pub struct ArtifactDecisionRowView {
    pub file_identity: Seq<char>,
    pub relative_path: Seq<char>,
    pub action: ContextAction,
    pub reason: Seq<char>,
    pub priority: u64,
    pub input_chars: u64,
    pub output_chars: u64,
    pub truncated: bool,
    pub error_code: Seq<char>,
}

impl View for ArtifactDecisionRow {
    type V = ArtifactDecisionRowView;

    open spec fn view(&self) -> ArtifactDecisionRowView {
        ArtifactDecisionRowView {
            file_identity: self.file_identity@,
            relative_path: self.relative_path@,
            action: self.action,
            reason: self.reason@,
            priority: self.priority,
            input_chars: self.input_chars,
            output_chars: self.output_chars,
            truncated: self.truncated,
            error_code: self.error_code@,
        }
    }
}

impl Clone for ArtifactDecisionRow {
    fn clone(&self) -> (copy: Self)
        ensures
            copy@ == self@,
            copy == *self,
    {
        ArtifactDecisionRow {
            file_identity: self.file_identity.clone(),
            relative_path: self.relative_path.clone(),
            action: self.action,
            reason: self.reason.clone(),
            priority: self.priority,
            input_chars: self.input_chars,
            output_chars: self.output_chars,
            truncated: self.truncated,
            error_code: self.error_code.clone(),
        }
    }
}

/// The totals of an artifact.
#[derive(Clone, Copy, Debug, PartialEq, Eq, Structural)]
pub struct SemanticSummary {
    pub source_file_count: u64,
    pub success_count: u64,
    pub timeout_count: u64,
    pub included_file_count: u64,
    pub omitted_file_count: u64,
    pub error_file_count: u64,
    pub input_chars: u64,
    pub output_chars: u64,
    pub reserved_chars: u64,
    pub rendered_chars: u64,
}

/// A context artifact. One that may be reused holds a row for each of its files.
#[derive(Debug, PartialEq, Eq)]
pub struct ArtifactDraft {
    pub snapshot_eligible: bool,
    pub final_context: String,
    pub context_sha256: String,
    pub semantic_summary: SemanticSummary,
    pub file_rows: Vec<ArtifactFileRow>,
    pub decision_rows: Vec<ArtifactDecisionRow>,
}

/// What a [`ArtifactDraft`] says.
#[verifier::ext_equal]
pub struct ArtifactDraftView {
    pub snapshot_eligible: bool,
    pub final_context: Seq<char>,
    pub context_sha256: Seq<char>,
    pub semantic_summary: SemanticSummary,
    pub file_rows: Seq<ArtifactFileRowView>,
    pub decision_rows: Seq<ArtifactDecisionRowView>,
}

impl View for ArtifactDraft {
    type V = ArtifactDraftView;

    open spec fn view(&self) -> ArtifactDraftView {
        ArtifactDraftView {
            snapshot_eligible: self.snapshot_eligible,
            final_context: self.final_context@,
            context_sha256: self.context_sha256@,
            semantic_summary: self.semantic_summary,
            file_rows: views(self.file_rows@),
            decision_rows: views(self.decision_rows@),
        }
    }
}

impl Clone for ArtifactDraft {
    fn clone(&self) -> (copy: Self)
        ensures
            copy@ == self@,
    {
        ArtifactDraft {
            snapshot_eligible: self.snapshot_eligible,
            final_context: self.final_context.clone(),
            context_sha256: self.context_sha256.clone(),
            semantic_summary: self.semantic_summary,
            file_rows: clone_all(&self.file_rows),
            decision_rows: clone_all(&self.decision_rows),
        }
    }
}

/// What a reusable artifact is found by.
#[derive(Debug, PartialEq, Eq)]
pub struct SnapshotKeyParts {
    pub sha256: String,
    pub canonical_json: String,
}

/// What a [`SnapshotKeyParts`] says.
#[verifier::ext_equal]
pub struct SnapshotKeyPartsView {
    pub sha256: Seq<char>,
    pub canonical_json: Seq<char>,
}

impl View for SnapshotKeyParts {
    type V = SnapshotKeyPartsView;

    open spec fn view(&self) -> SnapshotKeyPartsView {
        SnapshotKeyPartsView {
            sha256: self.sha256@,
            canonical_json: self.canonical_json@,
        }
    }
}

impl Clone for SnapshotKeyParts {
    fn clone(&self) -> (copy: Self)
        ensures
            copy@ == self@,
            copy == *self,
    {
        SnapshotKeyParts {
            sha256: self.sha256.clone(),
            canonical_json: self.canonical_json.clone(),
        }
    }
}

/// A stored row of an artifact file.
#[derive(Debug, PartialEq, Eq)]
pub struct ArtifactFileColumns {
    pub file_identity: String,
    pub relative_path: String,
    pub source_version: String,
    pub source_guard_kind: Option<String>,
    pub source_guard_sha256: Option<String>,
    pub parse_profile_hash: String,
    pub parse_status: String,
    pub parser_backend: String,
    pub worker_lane: String,
    pub truncated: bool,
    pub content_sha256: String,
    pub classifier_status: Option<String>,
    pub classifier_page_count: Option<i64>,
    pub classifier_result_examined_pages: Option<i64>,
    pub classifier_nominal_charged_pages: Option<i64>,
    pub classifier_build: Option<String>,
    pub classifier_profile_hash: Option<String>,
}

/// What a [`ArtifactFileColumns`] says.
#[verifier::ext_equal]
pub struct ArtifactFileColumnsView {
    pub file_identity: Seq<char>,
    pub relative_path: Seq<char>,
    pub source_version: Seq<char>,
    pub source_guard_kind: Option<Seq<char>>,
    pub source_guard_sha256: Option<Seq<char>>,
    pub parse_profile_hash: Seq<char>,
    pub parse_status: Seq<char>,
    pub parser_backend: Seq<char>,
    pub worker_lane: Seq<char>,
    pub truncated: bool,
    pub content_sha256: Seq<char>,
    pub classifier_status: Option<Seq<char>>,
    pub classifier_page_count: Option<i64>,
    pub classifier_result_examined_pages: Option<i64>,
    pub classifier_nominal_charged_pages: Option<i64>,
    pub classifier_build: Option<Seq<char>>,
    pub classifier_profile_hash: Option<Seq<char>>,
}

impl View for ArtifactFileColumns {
    type V = ArtifactFileColumnsView;

    open spec fn view(&self) -> ArtifactFileColumnsView {
        ArtifactFileColumnsView {
            file_identity: self.file_identity@,
            relative_path: self.relative_path@,
            source_version: self.source_version@,
            source_guard_kind: opt_view(self.source_guard_kind),
            source_guard_sha256: opt_view(self.source_guard_sha256),
            parse_profile_hash: self.parse_profile_hash@,
            parse_status: self.parse_status@,
            parser_backend: self.parser_backend@,
            worker_lane: self.worker_lane@,
            truncated: self.truncated,
            content_sha256: self.content_sha256@,
            classifier_status: opt_view(self.classifier_status),
            classifier_page_count: self.classifier_page_count,
            classifier_result_examined_pages: self.classifier_result_examined_pages,
            classifier_nominal_charged_pages: self.classifier_nominal_charged_pages,
            classifier_build: opt_view(self.classifier_build),
            classifier_profile_hash: opt_view(self.classifier_profile_hash),
        }
    }
}

impl Clone for ArtifactFileColumns {
    fn clone(&self) -> (copy: Self)
        ensures
            copy@ == self@,
            copy == *self,
    {
        ArtifactFileColumns {
            file_identity: self.file_identity.clone(),
            relative_path: self.relative_path.clone(),
            source_version: self.source_version.clone(),
            source_guard_kind: self.source_guard_kind.clone(),
            source_guard_sha256: self.source_guard_sha256.clone(),
            parse_profile_hash: self.parse_profile_hash.clone(),
            parse_status: self.parse_status.clone(),
            parser_backend: self.parser_backend.clone(),
            worker_lane: self.worker_lane.clone(),
            truncated: self.truncated,
            content_sha256: self.content_sha256.clone(),
            classifier_status: self.classifier_status.clone(),
            classifier_page_count: self.classifier_page_count,
            classifier_result_examined_pages: self.classifier_result_examined_pages,
            classifier_nominal_charged_pages: self.classifier_nominal_charged_pages,
            classifier_build: self.classifier_build.clone(),
            classifier_profile_hash: self.classifier_profile_hash.clone(),
        }
    }
}

/// A stored artifact with the numbers of its rows.
#[derive(Debug, PartialEq, Eq)]
pub struct StoredArtifact {
    pub artifact_id: i64,
    pub snapshot_eligible: bool,
    pub snapshot_key_sha256: Option<String>,
    pub snapshot_key_json: Option<String>,
    pub final_context: String,
    pub context_sha256: String,
    pub file_row_count: u64,
    pub decision_row_count: u64,
}

/// What a [`StoredArtifact`] says.
#[verifier::ext_equal]
pub struct StoredArtifactView {
    pub artifact_id: i64,
    pub snapshot_eligible: bool,
    pub snapshot_key_sha256: Option<Seq<char>>,
    pub snapshot_key_json: Option<Seq<char>>,
    pub final_context: Seq<char>,
    pub context_sha256: Seq<char>,
    pub file_row_count: u64,
    pub decision_row_count: u64,
}

impl View for StoredArtifact {
    type V = StoredArtifactView;

    open spec fn view(&self) -> StoredArtifactView {
        StoredArtifactView {
            artifact_id: self.artifact_id,
            snapshot_eligible: self.snapshot_eligible,
            snapshot_key_sha256: opt_view(self.snapshot_key_sha256),
            snapshot_key_json: opt_view(self.snapshot_key_json),
            final_context: self.final_context@,
            context_sha256: self.context_sha256@,
            file_row_count: self.file_row_count,
            decision_row_count: self.decision_row_count,
        }
    }
}

impl Clone for StoredArtifact {
    fn clone(&self) -> (copy: Self)
        ensures
            copy@ == self@,
            copy == *self,
    {
        StoredArtifact {
            artifact_id: self.artifact_id,
            snapshot_eligible: self.snapshot_eligible,
            snapshot_key_sha256: self.snapshot_key_sha256.clone(),
            snapshot_key_json: self.snapshot_key_json.clone(),
            final_context: self.final_context.clone(),
            context_sha256: self.context_sha256.clone(),
            file_row_count: self.file_row_count,
            decision_row_count: self.decision_row_count,
        }
    }
}

impl PdfClassificationStatus {
    /// The stored text of the status.
    pub open spec fn stored_text_spec(self) -> Seq<char> {
        match self {
            PdfClassificationStatus::TextInParseWindow => "text_in_parse_window"@,
            PdfClassificationStatus::NoTextInParseWindow => "no_text_in_parse_window"@,
            PdfClassificationStatus::Unknown => "unknown"@,
            PdfClassificationStatus::Error => "error"@,
            PdfClassificationStatus::NotClassifiedByBudget => "not_classified_by_budget"@,
        }
    }

    /// The stored text of the status.
    pub fn stored_text(self) -> (text: &'static str)
        ensures
            text@ == self.stored_text_spec(),
    {
        match self {
            PdfClassificationStatus::TextInParseWindow => "text_in_parse_window",
            PdfClassificationStatus::NoTextInParseWindow => "no_text_in_parse_window",
            PdfClassificationStatus::Unknown => "unknown",
            PdfClassificationStatus::Error => "error",
            PdfClassificationStatus::NotClassifiedByBudget => "not_classified_by_budget",
        }
    }

    /// The status that a stored text names.
    pub open spec fn of_text(text: Seq<char>) -> Option<PdfClassificationStatus> {
        if text == "text_in_parse_window"@ {
            Some(PdfClassificationStatus::TextInParseWindow)
        } else if text == "no_text_in_parse_window"@ {
            Some(PdfClassificationStatus::NoTextInParseWindow)
        } else if text == "unknown"@ {
            Some(PdfClassificationStatus::Unknown)
        } else if text == "error"@ {
            Some(PdfClassificationStatus::Error)
        } else if text == "not_classified_by_budget"@ {
            Some(PdfClassificationStatus::NotClassifiedByBudget)
        } else {
            None
        }
    }

    /// Reads a stored status.
    pub fn parse(text: &str) -> (status: Option<Self>)
        ensures
            status == PdfClassificationStatus::of_text(text@),
    {
        if text_eq(text, "text_in_parse_window") {
            Some(PdfClassificationStatus::TextInParseWindow)
        } else if text_eq(text, "no_text_in_parse_window") {
            Some(PdfClassificationStatus::NoTextInParseWindow)
        } else if text_eq(text, "unknown") {
            Some(PdfClassificationStatus::Unknown)
        } else if text_eq(text, "error") {
            Some(PdfClassificationStatus::Error)
        } else if text_eq(text, "not_classified_by_budget") {
            Some(PdfClassificationStatus::NotClassifiedByBudget)
        } else {
            None
        }
    }
}

impl ParseStatus {
    /// The status that a stored text names.
    pub open spec fn of_text(text: Seq<char>) -> Option<ParseStatus> {
        if text == "success"@ {
            Some(ParseStatus::Success)
        } else if text == "error"@ {
            Some(ParseStatus::Error)
        } else if text == "timeout"@ {
            Some(ParseStatus::Timeout)
        } else if text == "not_parsed"@ {
            Some(ParseStatus::NotParsed)
        } else {
            None
        }
    }

    /// Reads a stored status.
    pub fn parse(text: &str) -> (status: Option<Self>)
        ensures
            status == ParseStatus::of_text(text@),
    {
        if text_eq(text, "success") {
            Some(ParseStatus::Success)
        } else if text_eq(text, "error") {
            Some(ParseStatus::Error)
        } else if text_eq(text, "timeout") {
            Some(ParseStatus::Timeout)
        } else if text_eq(text, "not_parsed") {
            Some(ParseStatus::NotParsed)
        } else {
            None
        }
    }
}

impl ContextAction {
    /// The action that a stored text names.
    pub open spec fn of_text(text: Seq<char>) -> Option<ContextAction> {
        if text == "keep"@ {
            Some(ContextAction::Keep)
        } else if text == "compress"@ {
            Some(ContextAction::Compress)
        } else if text == "metadata_only"@ {
            Some(ContextAction::MetadataOnly)
        } else if text == "omit"@ {
            Some(ContextAction::Omit)
        } else if text == "error"@ {
            Some(ContextAction::Error)
        } else {
            None
        }
    }

    /// Reads a stored action.
    pub fn parse(text: &str) -> (action: Result<Self, StoreError>)
        ensures
            crate::store::run::outcome_view(action) == match ContextAction::of_text(text@) {
                Some(named) => Ok(named),
                None => Err(StoreErrorView::RunCorrupt("persisted contract enum is invalid"@)),
            },
    {
        if text_eq(text, "keep") {
            Ok(ContextAction::Keep)
        } else if text_eq(text, "compress") {
            Ok(ContextAction::Compress)
        } else if text_eq(text, "metadata_only") {
            Ok(ContextAction::MetadataOnly)
        } else if text_eq(text, "omit") {
            Ok(ContextAction::Omit)
        } else if text_eq(text, "error") {
            Ok(ContextAction::Error)
        } else {
            Err(StoreError::corrupt("persisted contract enum is invalid"))
        }
    }
}

/// What is stored of an artifact row by its text is read back as it was.
pub proof fn law_artifact_texts_round_trip(
    status: ParseStatus,
    action: ContextAction,
    classified: PdfClassificationStatus,
)
    ensures
        ParseStatus::of_text(status.text_spec()) == Some(status),
        ContextAction::of_text(action.text_spec()) == Some(action),
        PdfClassificationStatus::of_text(classified.stored_text_spec()) == Some(classified),
{
    reveal_strlit("success");
    reveal_strlit("error");
    reveal_strlit("timeout");
    reveal_strlit("not_parsed");
    reveal_strlit("keep");
    reveal_strlit("compress");
    reveal_strlit("metadata_only");
    reveal_strlit("omit");
    reveal_strlit("text_in_parse_window");
    reveal_strlit("no_text_in_parse_window");
    reveal_strlit("unknown");
    reveal_strlit("not_classified_by_budget");
    assert("success"@.len() == 7 && "error"@.len() == 5 && "timeout"@.len() == 7
        && "not_parsed"@.len() == 10);
    assert("success"@[0] == 's' && "timeout"@[0] == 't');
    assert("keep"@.len() == 4 && "compress"@.len() == 8 && "metadata_only"@.len() == 13
        && "omit"@.len() == 4);
    assert("keep"@[0] == 'k' && "omit"@[0] == 'o');
    assert("text_in_parse_window"@.len() == 20 && "no_text_in_parse_window"@.len() == 23
        && "unknown"@.len() == 7 && "not_classified_by_budget"@.len() == 24);
}

// ---------------------------------------------------------------------------
// Sizes
// ---------------------------------------------------------------------------

/// Bytes of a text that may be missing.
pub open spec fn opt_len(text: Option<Seq<char>>) -> nat {
    match text {
        Some(value) => utf8_len(value),
        None => 0,
    }
}

/// Bytes of a number that may be missing.
pub open spec fn opt_number_len(number: Option<u64>) -> nat {
    match number {
        Some(_) => 8,
        None => 0,
    }
}

impl PdfClassificationProvenanceV1View {
    /// Payload bytes of the classification columns of a file row.
    pub open spec fn size_bytes(self) -> nat {
        utf8_len(self.status.stored_text_spec()) + opt_number_len(self.page_count)
            + opt_number_len(self.result_examined_pages) + 8 + utf8_len(self.classifier_build)
            + utf8_len(self.classifier_profile_hash)
    }
}

impl ArtifactFileRowView {
    /// Payload bytes of the row.
    pub open spec fn size_bytes(self) -> nat {
        8 + utf8_len(self.file_identity) + utf8_len(self.relative_path) + utf8_len(
            self.legacy_source_version,
        ) + opt_len(self.source_guard_kind) + opt_len(self.source_guard_sha256) + utf8_len(
            self.parse_profile_hash,
        ) + utf8_len(self.parse_status.text_spec()) + utf8_len(self.parser_backend) + utf8_len(
            self.worker_lane,
        ) + 8 + utf8_len(self.content_sha256) + match self.classifier {
            Some(classifier) => classifier.size_bytes(),
            None => 0,
        }
    }
}

impl ArtifactDecisionRowView {
    /// Payload bytes of the row.
    pub open spec fn size_bytes(self) -> nat {
        8 + utf8_len(self.file_identity) + utf8_len(self.relative_path) + utf8_len(
            self.action.text_spec(),
        ) + utf8_len(self.reason) + 32 + utf8_len(self.error_code)
    }
}

/// Payload bytes of the first `count` file rows.
pub open spec fn file_rows_size(rows: Seq<ArtifactFileRowView>, count: nat) -> nat
    decreases count,
{
    if count == 0 {
        0
    } else {
        file_rows_size(rows, (count - 1) as nat) + rows[count - 1].size_bytes()
    }
}

/// Payload bytes of the first `count` decision rows.
pub open spec fn decision_rows_size(rows: Seq<ArtifactDecisionRowView>, count: nat) -> nat
    decreases count,
{
    if count == 0 {
        0
    } else {
        decision_rows_size(rows, (count - 1) as nat) + rows[count - 1].size_bytes()
    }
}

/// Payload bytes of an artifact: its own columns, its key and its rows. The date it
/// was last used on takes ten bytes.
pub open spec fn artifact_size(
    final_context: Seq<char>,
    context_sha256: Seq<char>,
    summary_json: Seq<char>,
    key: Option<SnapshotKeyPartsView>,
    files: Seq<ArtifactFileRowView>,
    decisions: Seq<ArtifactDecisionRowView>,
) -> nat {
    8 + utf8_len(final_context) + utf8_len(context_sha256) + utf8_len(summary_json) + 8 + 10
        + match key {
        Some(parts) => utf8_len(parts.sha256) + utf8_len(parts.canonical_json),
        None => 0,
    } + file_rows_size(files, files.len()) + decision_rows_size(decisions, decisions.len())
}

fn opt_size(text: &Option<String>) -> (size: u128)
    ensures
        size == opt_len(opt_view(*text)),
        size <= u64::MAX,
{
    match text {
        Some(value) => text_bytes(value.as_str()),
        None => 0,
    }
}

fn number_size(number: Option<u64>) -> (size: u128)
    ensures
        size == opt_number_len(number),
        size <= 8,
{
    match number {
        Some(_) => 8,
        None => 0,
    }
}

fn file_row_size(row: &ArtifactFileRow) -> (size: u128)
    ensures
        size == row@.size_bytes(),
{
    let classifier: u128 = match &row.classifier {
        None => 0,
        Some(provenance) => text_bytes(provenance.status.stored_text()) + number_size(
            provenance.page_count,
        ) + number_size(provenance.result_examined_pages) + 8 + text_bytes(
            provenance.classifier_build.as_str(),
        ) + text_bytes(provenance.classifier_profile_hash.as_str()),
    };
    8 + text_bytes(row.file_identity.as_str()) + text_bytes(row.relative_path.as_str())
        + text_bytes(
        row.legacy_source_version.as_str(),
    ) + opt_size(&row.source_guard_kind) + opt_size(&row.source_guard_sha256) + text_bytes(
        row.parse_profile_hash.as_str(),
    ) + text_bytes(row.parse_status.text()) + text_bytes(row.parser_backend.as_str()) + text_bytes(
        row.worker_lane.as_str(),
    ) + 8 + text_bytes(row.content_sha256.as_str()) + classifier
}

fn decision_row_size(row: &ArtifactDecisionRow) -> (size: u128)
    ensures
        size == row@.size_bytes(),
{
    8 + text_bytes(row.file_identity.as_str()) + text_bytes(row.relative_path.as_str())
        + text_bytes(
        row.action.text(),
    ) + text_bytes(row.reason.as_str()) + 32 + text_bytes(row.error_code.as_str())
}

proof fn lemma_file_rows_grow(rows: Seq<ArtifactFileRowView>, low: nat, high: nat)
    requires
        low <= high <= rows.len(),
    ensures
        file_rows_size(rows, low) <= file_rows_size(rows, high),
    decreases high,
{
    if low < high {
        lemma_file_rows_grow(rows, low, (high - 1) as nat);
    }
}

proof fn lemma_decision_rows_grow(rows: Seq<ArtifactDecisionRowView>, low: nat, high: nat)
    requires
        low <= high <= rows.len(),
    ensures
        decision_rows_size(rows, low) <= decision_rows_size(rows, high),
    decreases high,
{
    if low < high {
        lemma_decision_rows_grow(rows, low, (high - 1) as nat);
    }
}

/// Payload bytes of an artifact.
pub fn artifact_size_bytes(
    final_context: &str,
    context_hash: &str,
    semantic_summary_json: &str,
    snapshot_key: Option<&SnapshotKeyParts>,
    file_rows: &Vec<ArtifactFileRow>,
    decision_rows: &Vec<ArtifactDecisionRow>,
) -> (size: i64)
    requires
        artifact_size(
            final_context@,
            context_hash@,
            semantic_summary_json@,
            opt_view(snapshot_key),
            views(file_rows@),
            views(decision_rows@),
        ) <= i64::MAX,
    ensures
        size == artifact_size(
            final_context@,
            context_hash@,
            semantic_summary_json@,
            opt_view(snapshot_key),
            views(file_rows@),
            views(decision_rows@),
        ),
{
    let ghost files = views(file_rows@);
    let ghost decisions = views(decision_rows@);
    let key: u128 = match snapshot_key {
        Some(parts) => text_bytes(parts.sha256.as_str())
            + text_bytes(parts.canonical_json.as_str()),
        None => 0,
    };
    let own: u128 = 8 + text_bytes(final_context) + text_bytes(context_hash) + text_bytes(
        semantic_summary_json,
    ) + 8 + 10 + key;
    let ghost whole = own + file_rows_size(files, files.len()) + decision_rows_size(
        decisions,
        decisions.len(),
    );
    let mut total: u128 = own;
    let mut i: usize = 0;
    while i < file_rows.len()
        invariant
            i <= file_rows.len(),
            files == views(file_rows@),
            total == own + file_rows_size(files, i as nat),
            whole == own + file_rows_size(files, files.len()) + decision_rows_size(
                decisions,
                decisions.len(),
            ),
            whole <= i64::MAX,
        decreases file_rows.len() - i,
    {
        assert(files[i as int] == file_rows@[i as int]@);
        proof {
            lemma_file_rows_grow(files, (i + 1) as nat, files.len());
        }
        total = total + file_row_size(&file_rows[i]);
        i = i + 1;
    }
    let mut k: usize = 0;
    while k < decision_rows.len()
        invariant
            k <= decision_rows.len(),
            decisions == views(decision_rows@),
            total == own + file_rows_size(files, files.len()) + decision_rows_size(
                decisions,
                k as nat,
            ),
            whole == own + file_rows_size(files, files.len()) + decision_rows_size(
                decisions,
                decisions.len(),
            ),
            whole <= i64::MAX,
        decreases decision_rows.len() - k,
    {
        assert(decisions[k as int] == decision_rows@[k as int]@);
        proof {
            lemma_decision_rows_grow(decisions, (k + 1) as nat, decisions.len());
        }
        total = total + decision_row_size(&decision_rows[k]);
        k = k + 1;
    }
    total as i64
}

// ---------------------------------------------------------------------------
// Reading artifacts back
// ---------------------------------------------------------------------------

/// The classification columns of a stored file row: complete, or taken for none.
pub open spec fn provenance_of(row: ArtifactFileColumnsView) -> Result<
    Option<PdfClassificationProvenanceV1View>,
    StoreErrorView,
> {
    match (row.classifier_status, row.classifier_build, row.classifier_profile_hash) {
        (Some(status), Some(build), Some(profile_hash)) => match PdfClassificationStatus::of_text(
            status,
        ) {
            None => Err(StoreErrorView::RunCorrupt("persisted contract enum is invalid"@)),
            Some(named) => Ok(
                Some(
                    PdfClassificationProvenanceV1View {
                        status: named,
                        page_count: match row.classifier_page_count {
                            Some(value) => Some(value as u64),
                            None => None,
                        },
                        result_examined_pages: match row.classifier_result_examined_pages {
                            Some(value) => Some(value as u64),
                            None => None,
                        },
                        nominal_charged_pages: match row.classifier_nominal_charged_pages {
                            Some(value) => value as u64,
                            None => 0,
                        },
                        classifier_build: build,
                        classifier_profile_hash: profile_hash,
                    },
                ),
            ),
        },
        _ => Ok(None),
    }
}

/// The file row that stored columns hold.
pub open spec fn file_row_of(row: ArtifactFileColumnsView) -> Result<
    ArtifactFileRowView,
    StoreErrorView,
> {
    match ParseStatus::of_text(row.parse_status) {
        None => Err(StoreErrorView::RunCorrupt("persisted contract enum is invalid"@)),
        Some(parse_status) => match provenance_of(row) {
            Err(fault) => Err(fault),
            Ok(classifier) => Ok(
                ArtifactFileRowView {
                    file_identity: row.file_identity,
                    relative_path: row.relative_path,
                    legacy_source_version: row.source_version,
                    source_guard_kind: row.source_guard_kind,
                    source_guard_sha256: row.source_guard_sha256,
                    parse_profile_hash: row.parse_profile_hash,
                    parse_status,
                    parser_backend: row.parser_backend,
                    worker_lane: row.worker_lane,
                    truncated: row.truncated,
                    content_sha256: row.content_sha256,
                    classifier,
                },
            ),
        },
    }
}

/// Reads a stored file row back.
pub fn restore_file_row(row: ArtifactFileColumns) -> (restored: Result<ArtifactFileRow, StoreError>)
    ensures
        match restored {
            Ok(file) => file_row_of(row@) == Ok::<ArtifactFileRowView, StoreErrorView>(file@),
            Err(error) => file_row_of(row@) == Err::<ArtifactFileRowView, StoreErrorView>(error@),
        },
{
    let parse_status: ParseStatus = match ParseStatus::parse(row.parse_status.as_str()) {
        Some(status) => status,
        None => {
            return Err(StoreError::corrupt("persisted contract enum is invalid"));
        },
    };
    let classifier: Option<PdfClassificationProvenanceV1> = match (
        row.classifier_status,
        row.classifier_build,
        row.classifier_profile_hash,
    ) {
        (Some(text), Some(classifier_build), Some(classifier_profile_hash)) => {
            let status: PdfClassificationStatus = match PdfClassificationStatus::parse(
                text.as_str(),
            ) {
                Some(status) => status,
                None => {
                    return Err(StoreError::corrupt("persisted contract enum is invalid"));
                },
            };
            let page_count: Option<u64> = match row.classifier_page_count {
                Some(value) => Some(value as u64),
                None => None,
            };
            let result_examined_pages: Option<u64> = match row.classifier_result_examined_pages {
                Some(value) => Some(value as u64),
                None => None,
            };
            let nominal_charged_pages: u64 = match row.classifier_nominal_charged_pages {
                Some(value) => value as u64,
                None => 0,
            };
            Some(
                PdfClassificationProvenanceV1 {
                    status,
                    page_count,
                    result_examined_pages,
                    nominal_charged_pages,
                    classifier_build,
                    classifier_profile_hash,
                },
            )
        },
        _ => None,
    };
    Ok(
        ArtifactFileRow {
            file_identity: row.file_identity,
            relative_path: row.relative_path,
            legacy_source_version: row.source_version,
            source_guard_kind: row.source_guard_kind,
            source_guard_sha256: row.source_guard_sha256,
            parse_profile_hash: row.parse_profile_hash,
            parse_status,
            parser_backend: row.parser_backend,
            worker_lane: row.worker_lane,
            truncated: row.truncated,
            content_sha256: row.content_sha256,
            classifier,
        },
    )
}

/// The columns that a file row is stored in.
pub open spec fn columns_of(row: ArtifactFileRowView) -> ArtifactFileColumnsView {
    ArtifactFileColumnsView {
        file_identity: row.file_identity,
        relative_path: row.relative_path,
        source_version: row.legacy_source_version,
        source_guard_kind: row.source_guard_kind,
        source_guard_sha256: row.source_guard_sha256,
        parse_profile_hash: row.parse_profile_hash,
        parse_status: row.parse_status.text_spec(),
        parser_backend: row.parser_backend,
        worker_lane: row.worker_lane,
        truncated: row.truncated,
        content_sha256: row.content_sha256,
        classifier_status: match row.classifier {
            Some(classifier) => Some(classifier.status.stored_text_spec()),
            None => None,
        },
        classifier_page_count: match row.classifier {
            Some(classifier) => match classifier.page_count {
                Some(value) => Some(value as i64),
                None => None,
            },
            None => None,
        },
        classifier_result_examined_pages: match row.classifier {
            Some(classifier) => match classifier.result_examined_pages {
                Some(value) => Some(value as i64),
                None => None,
            },
            None => None,
        },
        classifier_nominal_charged_pages: match row.classifier {
            Some(classifier) => Some(classifier.nominal_charged_pages as i64),
            None => None,
        },
        classifier_build: match row.classifier {
            Some(classifier) => Some(classifier.classifier_build),
            None => None,
        },
        classifier_profile_hash: match row.classifier {
            Some(classifier) => Some(classifier.classifier_profile_hash),
            None => None,
        },
    }
}

fn stored_number(number: Option<u64>) -> (stored: Option<i64>)
    ensures
        stored == match number {
            Some(value) => Some(value as i64),
            None => None,
        },
{
    match number {
        Some(value) => Some(value as i64),
        None => None,
    }
}

/// Puts a file row into the columns it is stored in.
pub fn store_file_row(row: &ArtifactFileRow) -> (columns: ArtifactFileColumns)
    ensures
        columns@ == columns_of(row@),
{
    let mut columns = ArtifactFileColumns {
        file_identity: row.file_identity.clone(),
        relative_path: row.relative_path.clone(),
        source_version: row.legacy_source_version.clone(),
        source_guard_kind: row.source_guard_kind.clone(),
        source_guard_sha256: row.source_guard_sha256.clone(),
        parse_profile_hash: row.parse_profile_hash.clone(),
        parse_status: row.parse_status.text().to_string(),
        parser_backend: row.parser_backend.clone(),
        worker_lane: row.worker_lane.clone(),
        truncated: row.truncated,
        content_sha256: row.content_sha256.clone(),
        classifier_status: None,
        classifier_page_count: None,
        classifier_result_examined_pages: None,
        classifier_nominal_charged_pages: None,
        classifier_build: None,
        classifier_profile_hash: None,
    };
    if let Some(classifier) = &row.classifier {
        columns.classifier_status = Some(classifier.status.stored_text().to_string());
        columns.classifier_page_count = stored_number(classifier.page_count);
        columns.classifier_result_examined_pages = stored_number(classifier.result_examined_pages);
        columns.classifier_nominal_charged_pages = stored_number(
            Some(classifier.nominal_charged_pages),
        );
        columns.classifier_build = Some(classifier.classifier_build.clone());
        columns.classifier_profile_hash = Some(classifier.classifier_profile_hash.clone());
    }
    columns
}

/// The numbers of the row fit into stored integers.
pub open spec fn row_fits(row: ArtifactFileRowView) -> bool {
    row.classifier matches Some(classifier) ==> classifier.nominal_charged_pages <= i64::MAX && (
    classifier.page_count matches Some(pages) ==> pages <= i64::MAX) && (
    classifier.result_examined_pages matches Some(pages) ==> pages <= i64::MAX)
}

/// A stored file row is read back as it was.
pub proof fn law_artifact_rows_round_trip(row: ArtifactFileRowView)
    requires
        row_fits(row),
    ensures
        file_row_of(columns_of(row)) == Ok::<ArtifactFileRowView, StoreErrorView>(row),
{
    law_artifact_texts_round_trip(
        row.parse_status,
        ContextAction::Keep,
        match row.classifier {
            Some(classifier) => classifier.status,
            None => PdfClassificationStatus::Unknown,
        },
    );
    assert(file_row_of(columns_of(row))->Ok_0 =~= row);
}

/// Checks that the context of a loaded artifact is the one that was stored.
pub fn check_loaded(final_context: &str, context_hash: &str) -> (verdict: Result<(), StoreError>)
    ensures
        crate::store::run::outcome_view(verdict) == if content_sha256(final_context@)
            == context_hash@ {
            Ok(())
        } else {
            Err(StoreErrorView::RunCorrupt("artifact context hash is invalid"@))
        },
{
    let hash: String = content_hash(final_context);
    if text_eq(hash.as_str(), context_hash) {
        Ok(())
    } else {
        Err(StoreError::corrupt("artifact context hash is invalid"))
    }
}

// ---------------------------------------------------------------------------
// Reuse
// ---------------------------------------------------------------------------

fn provenance_eq(
    left: &Option<PdfClassificationProvenanceV1>,
    right: &Option<PdfClassificationProvenanceV1>,
) -> (same: bool)
    ensures
        same == (opt_view(*left) == opt_view(*right)),
{
    match (left, right) {
        (None, None) => true,
        (Some(a), Some(b)) => {
            let same: bool = a.status == b.status && a.page_count == b.page_count
                && a.result_examined_pages == b.result_examined_pages && a.nominal_charged_pages
                == b.nominal_charged_pages && text_eq(
                a.classifier_build.as_str(),
                b.classifier_build.as_str(),
            ) && text_eq(a.classifier_profile_hash.as_str(), b.classifier_profile_hash.as_str());
            assert(same ==> a@ =~= b@);
            same
        },
        _ => false,
    }
}

fn file_row_eq(left: &ArtifactFileRow, right: &ArtifactFileRow) -> (same: bool)
    ensures
        same == (left@ == right@),
{
    let same: bool = text_eq(left.file_identity.as_str(), right.file_identity.as_str()) && text_eq(
        left.relative_path.as_str(),
        right.relative_path.as_str(),
    ) && text_eq(left.legacy_source_version.as_str(), right.legacy_source_version.as_str())
        && opt_text_eq(&left.source_guard_kind, &right.source_guard_kind) && opt_text_eq(
        &left.source_guard_sha256,
        &right.source_guard_sha256,
    ) && text_eq(left.parse_profile_hash.as_str(), right.parse_profile_hash.as_str())
        && left.parse_status == right.parse_status && text_eq(
        left.parser_backend.as_str(),
        right.parser_backend.as_str(),
    ) && text_eq(left.worker_lane.as_str(), right.worker_lane.as_str()) && left.truncated
        == right.truncated && text_eq(left.content_sha256.as_str(), right.content_sha256.as_str())
        && provenance_eq(&left.classifier, &right.classifier);
    assert(same ==> left@ =~= right@);
    same
}

fn decision_row_eq(left: &ArtifactDecisionRow, right: &ArtifactDecisionRow) -> (same: bool)
    ensures
        same == (left@ == right@),
{
    let same: bool = text_eq(left.file_identity.as_str(), right.file_identity.as_str()) && text_eq(
        left.relative_path.as_str(),
        right.relative_path.as_str(),
    ) && left.action == right.action && text_eq(left.reason.as_str(), right.reason.as_str())
        && left.priority == right.priority && left.input_chars == right.input_chars
        && left.output_chars == right.output_chars && left.truncated == right.truncated && text_eq(
        left.error_code.as_str(),
        right.error_code.as_str(),
    );
    assert(same ==> left@ =~= right@);
    same
}

/// Whether two artifacts are the same, field for field.
pub fn draft_eq(left: &ArtifactDraft, right: &ArtifactDraft) -> (same: bool)
    ensures
        same == (left@ == right@),
{
    assert(left@.file_rows.len() == left.file_rows.len());
    assert(right@.file_rows.len() == right.file_rows.len());
    assert(left@.decision_rows.len() == left.decision_rows.len());
    assert(right@.decision_rows.len() == right.decision_rows.len());
    if left.snapshot_eligible != right.snapshot_eligible || !text_eq(
        left.final_context.as_str(),
        right.final_context.as_str(),
    ) || !text_eq(left.context_sha256.as_str(), right.context_sha256.as_str())
        || left.semantic_summary != right.semantic_summary || left.file_rows.len()
        != right.file_rows.len() || left.decision_rows.len() != right.decision_rows.len() {
        return false;
    }
    let mut i: usize = 0;
    while i < left.file_rows.len()
        invariant
            i <= left.file_rows.len(),
            left.file_rows@.len() == right.file_rows@.len(),
            left@.file_rows.take(i as int) == right@.file_rows.take(i as int),
        decreases left.file_rows.len() - i,
    {
        assert(left@.file_rows[i as int] == left.file_rows@[i as int]@);
        assert(right@.file_rows[i as int] == right.file_rows@[i as int]@);
        if !file_row_eq(&left.file_rows[i], &right.file_rows[i]) {
            return false;
        }
        i = i + 1;
        assert(left@.file_rows.take(i as int) =~= right@.file_rows.take(i as int)) by {
            assert(left@.file_rows.take(i as int).drop_last() =~= left@.file_rows.take(i - 1));
            assert(right@.file_rows.take(i as int).drop_last() =~= right@.file_rows.take(i - 1));
        }
    }
    let mut k: usize = 0;
    while k < left.decision_rows.len()
        invariant
            k <= left.decision_rows.len(),
            left.decision_rows@.len() == right.decision_rows@.len(),
            left@.decision_rows.take(k as int) == right@.decision_rows.take(k as int),
        decreases left.decision_rows.len() - k,
    {
        assert(left@.decision_rows[k as int] == left.decision_rows@[k as int]@);
        assert(right@.decision_rows[k as int] == right.decision_rows@[k as int]@);
        if !decision_row_eq(&left.decision_rows[k], &right.decision_rows[k]) {
            return false;
        }
        k = k + 1;
        assert(left@.decision_rows.take(k as int) =~= right@.decision_rows.take(k as int)) by {
            assert(left@.decision_rows.take(k as int).drop_last() =~= left@.decision_rows.take(
                k - 1,
            ));
            assert(right@.decision_rows.take(k as int).drop_last() =~= right@.decision_rows.take(
                k - 1,
            ));
        }
    }
    assert(left@.file_rows.take(i as int) =~= left@.file_rows);
    assert(right@.file_rows.take(i as int) =~= right@.file_rows);
    assert(left@.decision_rows.take(k as int) =~= left@.decision_rows);
    assert(right@.decision_rows.take(k as int) =~= right@.decision_rows);
    assert(left@ =~= right@);
    true
}

/// A stored artifact that has the hash of a key.
pub struct ExistingArtifact {
    pub artifact_id: i64,
    pub snapshot_key_json: Option<String>,
    pub draft: ArtifactDraft,
}

/// Which stored artifact is taken in place of a new one, or that the one with the hash of
/// the key is another. Only one with the same key, byte for byte, that is the same
/// artifact is taken.
pub open spec fn deduplicated(
    existing: Option<&ExistingArtifact>,
    draft: ArtifactDraftView,
    key: SnapshotKeyPartsView,
) -> Result<Option<i64>, StoreErrorView> {
    match existing {
        None => Ok(None),
        Some(stored) => if opt_view(stored.snapshot_key_json) == Some(key.canonical_json)
            && stored.draft@ == draft {
            Ok(Some(stored.artifact_id))
        } else {
            Err(
                StoreErrorView::ArtifactMismatch(
                    "snapshot key "@ + key.sha256
                        + " already exists with different artifact semantics"@,
                ),
            )
        },
    }
}

/// Decides whether a stored artifact with the hash of the key is taken in place of
/// a new one. It is only when its key is the same, byte for byte, and it is the
/// same artifact; a different one under the same hash is never written over.
pub fn dedup_artifact(
    existing: Option<&ExistingArtifact>,
    draft: &ArtifactDraft,
    key: &SnapshotKeyParts,
) -> (reused: Result<Option<i64>, StoreError>)
    ensures
        crate::store::run::outcome_view(reused) == deduplicated(existing, draft@, key@),
{
    match existing {
        None => Ok(None),
        Some(stored) => {
            let same_key: bool = match &stored.snapshot_key_json {
                Some(json) => text_eq(json.as_str(), key.canonical_json.as_str()),
                None => false,
            };
            if same_key && draft_eq(&stored.draft, draft) {
                Ok(Some(stored.artifact_id))
            } else {
                let mut message: String = "snapshot key ".to_string();
                message.append(key.sha256.as_str());
                message.append(" already exists with different artifact semantics");
                Err(StoreError::ArtifactMismatch(message))
            }
        },
    }
}

/// The totals of an artifact are those of the run that commits it.
pub open spec fn summaries_agree(semantic: SemanticSummary, summary: ContextSummary) -> bool {
    &&& semantic.source_file_count == summary.source_file_count
    &&& semantic.success_count == summary.success_count
    &&& semantic.timeout_count == summary.timeout_count
    &&& semantic.included_file_count == summary.included_file_count
    &&& semantic.omitted_file_count == summary.omitted_file_count
    &&& semantic.error_file_count == summary.error_file_count
    &&& semantic.input_chars == summary.input_chars
    &&& semantic.output_chars == summary.output_chars
}

/// Checks that the totals of an artifact are those of the run that commits it.
pub fn check_semantic_summary(semantic: &SemanticSummary, summary: &ContextSummary) -> (verdict:
    Result<(), StoreError>)
    ensures
        crate::store::run::outcome_view(verdict) == if summaries_agree(*semantic, *summary) {
            Ok(())
        } else {
            Err(
                StoreErrorView::RunCorrupt(
                    "artifact semantic summary disagrees with the current summary"@,
                ),
            )
        },
{
    if semantic.source_file_count == summary.source_file_count && semantic.success_count
        == summary.success_count && semantic.timeout_count == summary.timeout_count
        && semantic.included_file_count == summary.included_file_count
        && semantic.omitted_file_count == summary.omitted_file_count
        && semantic.error_file_count == summary.error_file_count && semantic.input_chars
        == summary.input_chars && semantic.output_chars == summary.output_chars {
        Ok(())
    } else {
        Err(StoreError::corrupt("artifact semantic summary disagrees with the current summary"))
    }
}

impl StoredArtifactView {
    /// A reusable artifact has a key and as many files as decisions, at least one;
    /// any other has neither key nor rows. The context is the one that was stored.
    pub open spec fn sound(self) -> bool {
        &&& self.snapshot_eligible == (self.snapshot_key_sha256 is Some)
        &&& self.snapshot_eligible == (self.snapshot_key_json is Some)
        &&& self.snapshot_eligible == (self.file_row_count > 0)
        &&& self.snapshot_eligible == (self.decision_row_count > 0)
        &&& self.snapshot_eligible ==> self.file_row_count == self.decision_row_count
        &&& content_sha256(self.final_context) == self.context_sha256
    }
}

/// Whether every stored artifact is sound.
pub fn artifact_invariants_hold(artifacts: &Vec<StoredArtifact>) -> (hold: bool)
    ensures
        hold == forall|i: int| 0 <= i < artifacts@.len() ==> (#[trigger] artifacts@[i])@.sound(),
{
    let mut i: usize = 0;
    while i < artifacts.len()
        invariant
            i <= artifacts.len(),
            forall|k: int| 0 <= k < i ==> (#[trigger] artifacts@[k])@.sound(),
        decreases artifacts.len() - i,
    {
        let artifact: &StoredArtifact = &artifacts[i];
        let eligible: bool = artifact.snapshot_eligible;
        let hash: String = content_hash(artifact.final_context.as_str());
        if eligible != artifact.snapshot_key_sha256.is_some() || eligible
            != artifact.snapshot_key_json.is_some() || eligible != (artifact.file_row_count > 0)
            || eligible != (artifact.decision_row_count > 0) || (eligible
            && artifact.file_row_count != artifact.decision_row_count) || !text_eq(
            hash.as_str(),
            artifact.context_sha256.as_str(),
        ) {
            assert(!artifacts@[i as int]@.sound());
            return false;
        }
        i = i + 1;
    }
    true
}

/// An artifact row is stored under its own columns: its file, its version, its guard, its
/// profile, its status by name, its hash and its truncation mark, and its classification
/// exactly where it has one.
pub proof fn law_artifact_columns_hold_their_row(row: ArtifactFileRowView)
    ensures
        ({
            let columns = columns_of(row);
            &&& columns.file_identity == row.file_identity
            &&& columns.relative_path == row.relative_path
            &&& columns.source_version == row.legacy_source_version
            &&& columns.source_guard_kind == row.source_guard_kind
            &&& columns.source_guard_sha256 == row.source_guard_sha256
            &&& columns.parse_profile_hash == row.parse_profile_hash
            &&& columns.parse_status == row.parse_status.text_spec()
            &&& columns.parser_backend == row.parser_backend
            &&& columns.worker_lane == row.worker_lane
            &&& columns.truncated == row.truncated
            &&& columns.content_sha256 == row.content_sha256
            &&& columns.classifier_status is Some <==> row.classifier is Some
            &&& row.classifier matches Some(classifier) ==> columns.classifier_build == Some(
                classifier.classifier_build,
            ) && columns.classifier_profile_hash == Some(classifier.classifier_profile_hash)
                && columns.classifier_status == Some(classifier.status.stored_text_spec())
        }),
{
}

/// A stored artifact is taken for a new one exactly where it has the same canonical key and
/// the same content; where only the hash of the key is the same, the new one is refused.
pub proof fn law_artifacts_are_shared_where_they_are_the_same(
    existing: Option<&ExistingArtifact>,
    draft: ArtifactDraftView,
    key: SnapshotKeyPartsView,
)
    ensures
        existing is None ==> deduplicated(existing, draft, key) == Ok::<
            Option<i64>,
            StoreErrorView,
        >(None),
        existing matches Some(stored) ==> {
            let same = opt_view(stored.snapshot_key_json) == Some(key.canonical_json)
                && stored.draft@ == draft;
            &&& same ==> deduplicated(existing, draft, key) == Ok::<Option<i64>, StoreErrorView>(
                Some(stored.artifact_id),
            )
            &&& !same ==> deduplicated(existing, draft, key) is Err
        },
{
}

/// The summary of an artifact is that of the run that takes it exactly where all their
/// counts are the same.
pub proof fn law_summaries_agree_in_every_count(semantic: SemanticSummary, summary: ContextSummary)
    ensures
        summaries_agree(semantic, summary) <==> {
            &&& semantic.source_file_count == summary.source_file_count
            &&& semantic.success_count == summary.success_count
            &&& semantic.timeout_count == summary.timeout_count
            &&& semantic.error_file_count == summary.error_file_count
            &&& semantic.included_file_count == summary.included_file_count
            &&& semantic.omitted_file_count == summary.omitted_file_count
            &&& semantic.input_chars == summary.input_chars
            &&& semantic.output_chars == summary.output_chars
        },
{
}

/// A sound artifact has the hash of its context; it has a key and rows exactly where it may
/// be taken over, and then a decision for each file.
pub proof fn law_sound_artifacts_are_keyed_where_they_are_shared(artifact: StoredArtifactView)
    ensures
        artifact.sound() <==> {
            &&& artifact.context_sha256 == content_sha256(artifact.final_context)
            &&& artifact.snapshot_eligible <==> artifact.snapshot_key_sha256 is Some
            &&& artifact.snapshot_eligible <==> artifact.snapshot_key_json is Some
            &&& artifact.snapshot_eligible <==> artifact.file_row_count > 0
            &&& artifact.snapshot_eligible <==> artifact.decision_row_count > 0
            &&& artifact.snapshot_eligible ==> artifact.file_row_count
                == artifact.decision_row_count
        },
{
}

/// What an artifact holds adds to its size: its context, its key and each of its rows.
pub proof fn law_artifacts_grow_with_what_they_hold(
    final_context: Seq<char>,
    context_sha256: Seq<char>,
    summary_json: Seq<char>,
    key: SnapshotKeyPartsView,
    files: Seq<ArtifactFileRowView>,
    decisions: Seq<ArtifactDecisionRowView>,
    file: ArtifactFileRowView,
    decision: ArtifactDecisionRowView,
)
    ensures
        ({
            let size = artifact_size(
                final_context,
                context_sha256,
                summary_json,
                None,
                files,
                decisions,
            );
            &&& size >= utf8_len(final_context) + utf8_len(context_sha256) + utf8_len(
                summary_json,
            )
            &&& artifact_size(
                final_context,
                context_sha256,
                summary_json,
                Some(key),
                files,
                decisions,
            ) == size + utf8_len(key.sha256) + utf8_len(key.canonical_json)
            &&& artifact_size(
                final_context,
                context_sha256,
                summary_json,
                None,
                files.push(file),
                decisions,
            ) == size + file.size_bytes()
            &&& artifact_size(
                final_context,
                context_sha256,
                summary_json,
                None,
                files,
                decisions.push(decision),
            ) == size + decision.size_bytes()
            &&& file.size_bytes() >= utf8_len(file.file_identity) + utf8_len(file.relative_path)
                + utf8_len(file.content_sha256)
            &&& decision.size_bytes() >= utf8_len(decision.file_identity) + utf8_len(
                decision.relative_path,
            ) + utf8_len(decision.reason)
        }),
{
    lemma_file_rows_prefix(files, files.push(file), files.len());
    lemma_decision_rows_prefix(decisions, decisions.push(decision), decisions.len());
}

proof fn lemma_file_rows_prefix(
    left: Seq<ArtifactFileRowView>,
    right: Seq<ArtifactFileRowView>,
    count: nat,
)
    requires
        count <= left.len(),
        count <= right.len(),
        forall|i: int| 0 <= i < count ==> left[i] == right[i],
    ensures
        file_rows_size(left, count) == file_rows_size(right, count),
    decreases count,
{
    if count > 0 {
        lemma_file_rows_prefix(left, right, (count - 1) as nat);
    }
}

proof fn lemma_decision_rows_prefix(
    left: Seq<ArtifactDecisionRowView>,
    right: Seq<ArtifactDecisionRowView>,
    count: nat,
)
    requires
        count <= left.len(),
        count <= right.len(),
        forall|i: int| 0 <= i < count ==> left[i] == right[i],
    ensures
        decision_rows_size(left, count) == decision_rows_size(right, count),
    decreases count,
{
    if count > 0 {
        lemma_decision_rows_prefix(left, right, (count - 1) as nat);
    }
}

/// A classification is stored under the name by which the classification cache knows its
/// outcome.
pub proof fn law_outcomes_are_named_as_in_the_cache(status: PdfClassificationStatus)
    ensures
        crate::store::cache::is_cached_status(status.stored_text_spec()) <==> status
            == PdfClassificationStatus::TextInParseWindow || status
            == PdfClassificationStatus::NoTextInParseWindow,
        status.stored_text_spec() == "text_in_parse_window"@ <==> status
            == PdfClassificationStatus::TextInParseWindow,
        status.stored_text_spec() == "no_text_in_parse_window"@ <==> status
            == PdfClassificationStatus::NoTextInParseWindow,
{
    reveal_strlit("text_in_parse_window");
    reveal_strlit("no_text_in_parse_window");
    reveal_strlit("unknown");
    reveal_strlit("error");
    reveal_strlit("not_classified_by_budget");
    assert("text_in_parse_window"@.len() == 20 && "no_text_in_parse_window"@.len() == 23);
    assert("unknown"@.len() == 7 && "error"@.len() == 5);
    assert("not_classified_by_budget"@.len() == 24);
}

} // verus!
