//! Per-file evidence, per-file results and the terminal state of a run.
use crate::contract::{
    views, AuditWorkerLane, CacheMissReason, CacheStatus, Diagnostic, DiagnosticStage,
    DiagnosticView, DiscoveredFileOut, DiscoveredFileOutView, ErrorCode, ParseStatus,
    ParseTransport, PdfClassificationStatus,
};
use crate::hash::{content_hash, content_sha256};
use crate::ordered::{TextMap, TextSet};
use crate::scheduler::plan::{
    classification_timed_out, error_line, file_of, final_action, law_files_are_found_by_identity,
    map_views, settle_action, timed_out,
    AdmissionDecision, AdmissionDecisionView, ClassifiedPlan, ClassifiedPlanView, FileSnapshot,
    PdfClassificationResult, PdfClassificationResultView, PlanAction, PlanActionView, RejectReason,
};
use crate::scheduler::records::{
    internal_failure, ContextFileEvidence, ContextFileEvidenceView, ParseOutputs, ParseOutputsView,
    SchedulerFailure,
};
use crate::store::inventory::{FileResultRecord, FileResultRecordView};
use crate::text::text_eq;
use vstd::prelude::*;
use vstd::string::StringExecFns;

verus! {

/// The lane that a worker text names; an unknown text names none.
pub open spec fn lane_of_text(text: Seq<char>) -> AuditWorkerLane {
    if text == "rust_core"@ {
        AuditWorkerLane::RustCore
    } else if text == "rust_office_process"@ || text == "rust_office_process_v2"@ {
        AuditWorkerLane::RustOfficeProcess
    } else if text == "python_document_process"@ || text == "python_document_process_v2"@ {
        AuditWorkerLane::PythonDocumentProcess
    } else {
        AuditWorkerLane::NotParsed
    }
}

/// Reads the lane that a worker text names.
pub fn parse_worker_lane(lane: &str) -> (parsed: AuditWorkerLane)
    ensures
        parsed == lane_of_text(lane@),
{
    if text_eq(lane, "rust_core") {
        AuditWorkerLane::RustCore
    } else if text_eq(lane, "rust_office_process") || text_eq(lane, "rust_office_process_v2") {
        AuditWorkerLane::RustOfficeProcess
    } else if text_eq(lane, "python_document_process") || text_eq(
        lane,
        "python_document_process_v2",
    ) {
        AuditWorkerLane::PythonDocumentProcess
    } else {
        AuditWorkerLane::NotParsed
    }
}

/// How a failed classification is reported: a timeout of the classifier is a
/// timeout of the file, an unknown outcome may be retried, an error may not.
pub open spec fn classifier_failure(status: PdfClassificationStatus, timeout: bool) -> (
    ParseStatus,
    ErrorCode,
    bool,
) {
    if status == PdfClassificationStatus::Unknown && timeout {
        (ParseStatus::Timeout, ErrorCode::ParserTimeout, true)
    } else if status == PdfClassificationStatus::Unknown {
        (ParseStatus::Error, ErrorCode::ParserFailed, true)
    } else {
        (ParseStatus::Error, ErrorCode::ParserFailed, false)
    }
}

/// The diagnostic of a file whose classification failed.
pub open spec fn classifier_diagnostic(
    path: Seq<char>,
    status: PdfClassificationStatus,
    timeout: bool,
) -> DiagnosticView {
    DiagnosticView {
        error_code: classifier_failure(status, timeout).1,
        message: "pdf classification "@ + status.name_spec(),
        retryable: classifier_failure(status, timeout).2,
        stage: DiagnosticStage::Parse,
        file_path: Some(path),
        backend: Some("pdf_classifier"@),
    }
}

/// The diagnostic of a rejected file.
pub open spec fn reject_diagnostic(
    path: Seq<char>,
    why: RejectReason,
    text: Seq<char>,
) -> DiagnosticView {
    DiagnosticView {
        error_code: match why {
            RejectReason::SourceGuardUnavailable => ErrorCode::SourceGuardUnavailable,
            RejectReason::ProfileRouteInvariant => ErrorCode::ProfileRouteInvariant,
        },
        message: text,
        retryable: why == RejectReason::SourceGuardUnavailable,
        stage: DiagnosticStage::Parse,
        file_path: Some(path),
        backend: None,
    }
}

/// The diagnostic of an admitted PDF with text that was never parsed.
pub open spec fn lost_parse_diagnostic(path: Seq<char>) -> DiagnosticView {
    DiagnosticView {
        error_code: ErrorCode::InternalError,
        message: "admitted text pdf has no parse result"@,
        retryable: false,
        stage: DiagnosticStage::Parse,
        file_path: Some(path),
        backend: None,
    }
}

fn build_classifier_diagnostic(
    path: &String,
    status: PdfClassificationStatus,
    error_code: ErrorCode,
    retryable: bool,
) -> (diagnostic: Diagnostic)
    ensures
        diagnostic@ == (DiagnosticView {
            error_code,
            message: "pdf classification "@ + status.name_spec(),
            retryable,
            stage: DiagnosticStage::Parse,
            file_path: Some(path@),
            backend: Some("pdf_classifier"@),
        }),
{
    let mut message: String = "pdf classification ".to_string();
    message.append(status.name());
    Diagnostic {
        error_code,
        message,
        retryable,
        stage: DiagnosticStage::Parse,
        file_path: Some(path.clone()),
        backend: Some("pdf_classifier".to_string()),
    }
}

fn build_reject_diagnostic(path: &String, why: RejectReason, text: &String) -> (diagnostic:
    Diagnostic)
    ensures
        diagnostic@ == reject_diagnostic(path@, why, text@),
{
    let error_code: ErrorCode = match why {
        RejectReason::SourceGuardUnavailable => ErrorCode::SourceGuardUnavailable,
        RejectReason::ProfileRouteInvariant => ErrorCode::ProfileRouteInvariant,
    };
    Diagnostic {
        error_code,
        message: text.clone(),
        retryable: why == RejectReason::SourceGuardUnavailable,
        stage: DiagnosticStage::Parse,
        file_path: Some(path.clone()),
        backend: None,
    }
}

/// The status, code and retry mark of a failed classification.
pub fn report_classifier_failure(status: PdfClassificationStatus, timeout: bool) -> (report: (
    ParseStatus,
    ErrorCode,
    bool,
))
    ensures
        report == classifier_failure(status, timeout),
{
    match status {
        PdfClassificationStatus::Unknown => {
            if timeout {
                (ParseStatus::Timeout, ErrorCode::ParserTimeout, true)
            } else {
                (ParseStatus::Error, ErrorCode::ParserFailed, true)
            }
        },
        _ => (ParseStatus::Error, ErrorCode::ParserFailed, false),
    }
}

/// Evidence of a file on which no work was done.
pub open spec fn blank_evidence(
    file: DiscoveredFileOutView,
    relative_path: Seq<char>,
) -> ContextFileEvidenceView {
    ContextFileEvidenceView {
        file_identity: file.file_identity,
        absolute_path: file.path,
        relative_path,
        extension: file.extension,
        size_bytes: Some(file.size_bytes),
        content: Seq::empty(),
        parser_backend: "not_parsed"@,
        worker_lane: AuditWorkerLane::NotParsed,
        cache_status: CacheStatus::Miss,
        parse_status: ParseStatus::NotParsed,
        truncated: false,
        error: None,
        reason: None,
    }
}

/// The deadline came before the file was worked on.
pub open spec fn was_cut_off(
    identity: Seq<char>,
    cut_off: Set<Seq<char>>,
    outputs: ParseOutputsView,
) -> bool {
    cut_off.contains(identity) || outputs.runtime_not_parsed.contains(identity)
}

/// The classification of a file; a file without one counts as one without text.
pub open spec fn status_of(
    identity: Seq<char>,
    classifications: Map<Seq<char>, PdfClassificationResultView>,
) -> PdfClassificationStatus {
    if classifications.contains_key(identity) {
        classifications[identity].status
    } else {
        PdfClassificationStatus::NoTextInParseWindow
    }
}

/// What the context is told about a file.
pub open spec fn evidence_of(
    file: DiscoveredFileOutView,
    relative_path: Seq<char>,
    action: PlanActionView,
    classifications: Map<Seq<char>, PdfClassificationResultView>,
    cut_off: Set<Seq<char>>,
    outputs: ParseOutputsView,
) -> ContextFileEvidenceView {
    let blank = blank_evidence(file, relative_path);
    let id = file.file_identity;
    match action {
        PlanActionView::NotParsed { reason } => ContextFileEvidenceView {
            reason: Some(reason),
            ..blank
        },
        PlanActionView::Reject { why, text } => ContextFileEvidenceView {
            parse_status: ParseStatus::Error,
            error: Some(reject_diagnostic(file.path, why, text)),
            reason: Some(text),
            ..blank
        },
        PlanActionView::ClassifierFailed { status } => {
            let timeout = timed_out(status, id, classifications);
            ContextFileEvidenceView {
                parse_status: classifier_failure(status, timeout).0,
                error: Some(classifier_diagnostic(file.path, status, timeout)),
                reason: Some("parse_error"@),
                ..blank
            }
        },
        PlanActionView::Admit { .. } => if was_cut_off(id, cut_off, outputs) {
            ContextFileEvidenceView { reason: Some("runtime_deadline_exhausted"@), ..blank }
        } else if outputs.results.contains_key(id) {
            let result = outputs.results[id];
            ContextFileEvidenceView {
                content: result.content,
                parser_backend: result.parser_backend,
                worker_lane: lane_of_text(result.worker_lane),
                parse_status: result.parse_status,
                truncated: result.truncated,
                error: result.error,
                reason: if result.parse_status == ParseStatus::Success {
                    None
                } else {
                    Some("parse_error"@)
                },
                ..blank
            }
        } else if status_of(id, classifications) == PdfClassificationStatus::NoTextInParseWindow {
            ContextFileEvidenceView {
                parser_backend: "pdf_metadata_v1"@,
                worker_lane: AuditWorkerLane::RustCore,
                parse_status: ParseStatus::Success,
                reason: Some("pdf_no_text_in_parse_window"@),
                ..blank
            }
        } else {
            ContextFileEvidenceView {
                parse_status: ParseStatus::Error,
                error: Some(lost_parse_diagnostic(file.path)),
                reason: Some("parse_error"@),
                ..blank
            }
        },
    }
}

fn start_evidence(file: &DiscoveredFileOut, relative_path: &str) -> (evidence: ContextFileEvidence)
    ensures
        evidence@ == blank_evidence(file@, relative_path@),
{
    ContextFileEvidence {
        file_identity: file.file_identity.clone(),
        absolute_path: file.path.clone(),
        relative_path: relative_path.to_string(),
        extension: file.extension.clone(),
        size_bytes: Some(file.size_bytes),
        content: String::new(),
        parser_backend: "not_parsed".to_string(),
        worker_lane: AuditWorkerLane::NotParsed,
        cache_status: CacheStatus::Miss,
        parse_status: ParseStatus::NotParsed,
        truncated: false,
        error: None,
        reason: None,
    }
}

/// Tells the context what became of a file.
pub fn file_evidence(
    file: &DiscoveredFileOut,
    relative_path: &str,
    action: &PlanAction,
    classifications: &TextMap<PdfClassificationResult>,
    runtime_classification: &TextSet,
    parse_outputs: &ParseOutputs,
) -> (evidence: ContextFileEvidence)
    ensures
        evidence@ == evidence_of(
            file@,
            relative_path@,
            action@,
            map_views(classifications@),
            runtime_classification@,
            parse_outputs@,
        ),
{
    let mut evidence: ContextFileEvidence = start_evidence(file, relative_path);
    match action {
        PlanAction::NotParsed { reason } => {
            evidence.reason = Some(reason.clone());
        },
        PlanAction::Reject { why, text } => {
            evidence.parse_status = ParseStatus::Error;
            evidence.error = Some(build_reject_diagnostic(&file.path, *why, text));
            evidence.reason = Some(text.clone());
        },
        PlanAction::ClassifierFailed { status } => {
            let timeout: bool = classification_timed_out(
                *status,
                file.file_identity.as_str(),
                classifications,
            );
            let (parse_status, error_code, retryable): (ParseStatus, ErrorCode, bool) =
                report_classifier_failure(*status, timeout);
            evidence.parse_status = parse_status;
            evidence.error = Some(
                build_classifier_diagnostic(&file.path, *status, error_code, retryable),
            );
            evidence.reason = Some("parse_error".to_string());
        },
        PlanAction::Admit { route: _ } => {
            let id: &str = file.file_identity.as_str();
            if runtime_classification.contains(id) || parse_outputs.runtime_not_parsed.contains(
                id,
            ) {
                evidence.reason = Some("runtime_deadline_exhausted".to_string());
            } else if let Some(result) = parse_outputs.results.get(id) {
                evidence.content = result.content.clone();
                evidence.parser_backend = result.parser_backend.clone();
                evidence.worker_lane = parse_worker_lane(result.worker_lane.as_str());
                evidence.parse_status = result.parse_status;
                evidence.truncated = result.truncated;
                evidence.error = result.error.clone();
                if result.parse_status != ParseStatus::Success {
                    evidence.reason = Some("parse_error".to_string());
                }
            } else {
                let status: PdfClassificationStatus = match classifications.get(id) {
                    Some(known) => known.status,
                    None => PdfClassificationStatus::NoTextInParseWindow,
                };
                if status == PdfClassificationStatus::NoTextInParseWindow {
                    evidence.parser_backend = "pdf_metadata_v1".to_string();
                    evidence.worker_lane = AuditWorkerLane::RustCore;
                    evidence.parse_status = ParseStatus::Success;
                    evidence.reason = Some("pdf_no_text_in_parse_window".to_string());
                } else {
                    evidence.parse_status = ParseStatus::Error;
                    evidence.error = Some(
                        Diagnostic {
                            error_code: ErrorCode::InternalError,
                            message: "admitted text pdf has no parse result".to_string(),
                            retryable: false,
                            stage: DiagnosticStage::Parse,
                            file_path: Some(file.path.clone()),
                            backend: None,
                        },
                    );
                    evidence.reason = Some("parse_error".to_string());
                }
            }
        },
    }
    evidence
}

/// A result of a file on which no work was done.
pub open spec fn blank_result(
    file: DiscoveredFileOutView,
    relative_path: Seq<char>,
    profile_hash: Seq<char>,
) -> FileResultRecordView {
    FileResultRecordView {
        file_identity: file.file_identity,
        relative_path,
        source_version: file.source_version,
        parse_profile_hash: profile_hash,
        cache_status: CacheStatus::Miss,
        cache_miss_reason: CacheMissReason::NewFile,
        parse_status: ParseStatus::NotParsed,
        parser_backend: "not_parsed"@,
        worker_lane: AuditWorkerLane::NotParsed,
        truncated: false,
        content_sha256: content_sha256(Seq::empty()),
        primary_duration_ms: 0,
        fallback_duration_ms: 0,
        parse_duration_ms: 0,
        failure_class: Seq::empty(),
        fallback_backend: Seq::empty(),
        fallback_reason_code: Seq::empty(),
        parse_transport: ParseTransport::NotApplicable,
        parse_attempt_count: 0,
        pdf_classification: None,
        error: None,
    }
}

/// The value under `key`, or `default` when there is none.
pub open spec fn value_or<V>(map: Map<Seq<char>, V>, key: Seq<char>, default: V) -> V {
    if map.contains_key(key) {
        map[key]
    } else {
        default
    }
}

/// How a file fared.
pub open spec fn result_of(
    file: DiscoveredFileOutView,
    relative_path: Seq<char>,
    action: PlanActionView,
    classifications: Map<Seq<char>, PdfClassificationResultView>,
    cut_off: Set<Seq<char>>,
    outputs: ParseOutputsView,
    rejected_profile_hash: Seq<char>,
) -> FileResultRecordView {
    let blank = blank_result(file, relative_path, rejected_profile_hash);
    let id = file.file_identity;
    match action {
        PlanActionView::NotParsed { .. } => blank,
        PlanActionView::Reject { why, text } => FileResultRecordView {
            parse_status: ParseStatus::Error,
            error: Some(reject_diagnostic(file.path, why, text)),
            ..blank
        },
        PlanActionView::ClassifierFailed { status } => {
            let timeout = timed_out(status, id, classifications);
            FileResultRecordView {
                parse_status: classifier_failure(status, timeout).0,
                error: Some(classifier_diagnostic(file.path, status, timeout)),
                ..blank
            }
        },
        PlanActionView::Admit { .. } => {
            let looked_up = FileResultRecordView {
                parse_profile_hash: value_or(
                    outputs.parse_profile_hashes,
                    id,
                    rejected_profile_hash,
                ),
                cache_status: value_or(outputs.parse_cache_status, id, CacheStatus::Miss),
                cache_miss_reason: value_or(
                    outputs.parse_cache_miss_reason,
                    id,
                    CacheMissReason::NewFile,
                ),
                ..blank
            };
            if was_cut_off(id, cut_off, outputs) {
                looked_up
            } else if outputs.results.contains_key(id) {
                let result = outputs.results[id];
                FileResultRecordView {
                    parse_status: result.parse_status,
                    parser_backend: result.parser_backend,
                    worker_lane: lane_of_text(result.worker_lane),
                    error: result.error,
                    content_sha256: result.content_sha256,
                    truncated: result.truncated,
                    primary_duration_ms: result.primary_duration_ms,
                    fallback_duration_ms: result.fallback_duration_ms,
                    parse_duration_ms: result.parse_duration_ms,
                    failure_class: result.failure_class,
                    fallback_backend: result.fallback_backend,
                    fallback_reason_code: result.fallback_reason_code,
                    parse_transport: result.parse_transport,
                    parse_attempt_count: result.parse_attempt_count,
                    ..looked_up
                }
            } else {
                FileResultRecordView {
                    parse_status: ParseStatus::Success,
                    parser_backend: "pdf_metadata_v1"@,
                    worker_lane: AuditWorkerLane::RustCore,
                    ..looked_up
                }
            }
        },
    }
}

fn start_result(
    file: &DiscoveredFileOut,
    relative_path: &str,
    profile_hash: &str,
) -> (result: FileResultRecord)
    ensures
        result@ == blank_result(file@, relative_path@, profile_hash@),
{
    let empty: String = String::new();
    FileResultRecord {
        file_identity: file.file_identity.clone(),
        relative_path: relative_path.to_string(),
        source_version: file.source_version.clone(),
        parse_profile_hash: profile_hash.to_string(),
        cache_status: CacheStatus::Miss,
        cache_miss_reason: CacheMissReason::NewFile,
        parse_status: ParseStatus::NotParsed,
        parser_backend: "not_parsed".to_string(),
        worker_lane: AuditWorkerLane::NotParsed,
        truncated: false,
        content_sha256: content_hash(empty.as_str()),
        primary_duration_ms: 0,
        fallback_duration_ms: 0,
        parse_duration_ms: 0,
        failure_class: String::new(),
        fallback_backend: String::new(),
        fallback_reason_code: String::new(),
        parse_transport: ParseTransport::NotApplicable,
        parse_attempt_count: 0,
        pdf_classification: None,
        error: None,
    }
}

/// Records how a file fared.
pub fn file_result(
    file: &DiscoveredFileOut,
    relative_path: &str,
    action: &PlanAction,
    classifications: &TextMap<PdfClassificationResult>,
    runtime_classification: &TextSet,
    parse_outputs: &ParseOutputs,
    rejected_profile_hash: &str,
) -> (record: FileResultRecord)
    ensures
        record@ == result_of(
            file@,
            relative_path@,
            action@,
            map_views(classifications@),
            runtime_classification@,
            parse_outputs@,
            rejected_profile_hash@,
        ),
{
    let mut record: FileResultRecord = start_result(file, relative_path, rejected_profile_hash);
    let id: &str = file.file_identity.as_str();
    match action {
        PlanAction::NotParsed { reason: _ } => {},
        PlanAction::Reject { why, text } => {
            record.parse_status = ParseStatus::Error;
            record.error = Some(build_reject_diagnostic(&file.path, *why, text));
        },
        PlanAction::ClassifierFailed { status } => {
            let timeout: bool = classification_timed_out(*status, id, classifications);
            let (parse_status, error_code, retryable): (ParseStatus, ErrorCode, bool) =
                report_classifier_failure(*status, timeout);
            record.parse_status = parse_status;
            record.error = Some(
                build_classifier_diagnostic(&file.path, *status, error_code, retryable),
            );
        },
        PlanAction::Admit { route: _ } => {
            if let Some(hash) = parse_outputs.parse_profile_hashes.get(id) {
                record.parse_profile_hash = hash.clone();
            }
            if let Some(status) = parse_outputs.parse_cache_status.get(id) {
                record.cache_status = *status;
            }
            if let Some(reason) = parse_outputs.parse_cache_miss_reason.get(id) {
                record.cache_miss_reason = *reason;
            }
            if runtime_classification.contains(id) || parse_outputs.runtime_not_parsed.contains(
                id,
            ) {
            } else if let Some(result) = parse_outputs.results.get(id) {
                record.parse_status = result.parse_status;
                record.parser_backend = result.parser_backend.clone();
                record.worker_lane = parse_worker_lane(result.worker_lane.as_str());
                record.error = result.error.clone();
                record.content_sha256 = result.content_sha256.clone();
                record.truncated = result.truncated;
                record.primary_duration_ms = result.primary_duration_ms;
                record.fallback_duration_ms = result.fallback_duration_ms;
                record.parse_duration_ms = result.parse_duration_ms;
                record.failure_class = result.failure_class.clone();
                record.fallback_backend = result.fallback_backend.clone();
                record.fallback_reason_code = result.fallback_reason_code.clone();
                record.parse_transport = result.parse_transport;
                record.parse_attempt_count = result.parse_attempt_count;
            } else {
                record.parse_status = ParseStatus::Success;
                record.parser_backend = "pdf_metadata_v1".to_string();
                record.worker_lane = AuditWorkerLane::RustCore;
            }
        },
    }
    record
}

/// The relative path of each plan's file, or why it has none.
pub open spec fn path_views(paths: Seq<Result<String, String>>) -> Seq<
    Result<Seq<char>, Seq<char>>,
> {
    paths.map_values(
        |path: Result<String, String>|
            match path {
                Ok(text) => Ok::<Seq<char>, Seq<char>>(text@),
                Err(message) => Err(message@),
            },
    )
}

/// The first plan, counted from `from`, whose file or path is missing, with the
/// failure that follows.
pub open spec fn missing_file(
    plans: Seq<ClassifiedPlanView>,
    files: Seq<DiscoveredFileOutView>,
    paths: Seq<Result<Seq<char>, Seq<char>>>,
    from: int,
) -> Option<DiagnosticView>
    decreases plans.len() - from,
{
    if from < 0 || from >= plans.len() {
        None
    } else if file_of(files, plans[from].file_identity) is None {
        Some(internal_failure("classified plan has no discovery file"@))
    } else {
        match paths[from] {
            Err(message) => Some(internal_failure(message)),
            Ok(_) => missing_file(plans, files, paths, from + 1),
        }
    }
}

/// The evidence of all planned files, in plan order.
pub open spec fn all_evidence(
    plans: Seq<ClassifiedPlanView>,
    files: Seq<DiscoveredFileOutView>,
    paths: Seq<Result<Seq<char>, Seq<char>>>,
    decisions: Seq<AdmissionDecisionView>,
    classifications: Map<Seq<char>, PdfClassificationResultView>,
    cut_off: Set<Seq<char>>,
    outputs: ParseOutputsView,
) -> Seq<ContextFileEvidenceView> {
    Seq::new(
        plans.len(),
        |i: int|
            evidence_of(
                file_of(files, plans[i].file_identity)->0,
                paths[i]->Ok_0,
                final_action(plans[i], decisions, 0),
                classifications,
                cut_off,
                outputs,
            ),
    )
}

/// Collects the evidence of all planned files. `relative_paths` holds, for each
/// plan, the relative path of its file or why it has none.
pub fn build_evidence(
    classified: &Vec<ClassifiedPlan>,
    snapshot: &FileSnapshot<'_>,
    relative_paths: &Vec<Result<String, String>>,
    admission: &Vec<AdmissionDecision>,
    classifications: &TextMap<PdfClassificationResult>,
    runtime_classification: &TextSet,
    parse_outputs: &ParseOutputs,
) -> (evidence: Result<Vec<ContextFileEvidence>, SchedulerFailure>)
    requires
        relative_paths@.len() == classified@.len(),
    ensures
        match evidence {
            Ok(items) => missing_file(
                views(classified@),
                snapshot.files(),
                path_views(relative_paths@),
                0,
            ) is None && views(items@) == all_evidence(
                views(classified@),
                snapshot.files(),
                path_views(relative_paths@),
                views(admission@),
                map_views(classifications@),
                runtime_classification@,
                parse_outputs@,
            ),
            Err(failure) => missing_file(
                views(classified@),
                snapshot.files(),
                path_views(relative_paths@),
                0,
            ) == Some(failure.diagnostic@),
        },
{
    let ghost plans = views(classified@);
    let ghost files = snapshot.files();
    let ghost paths = path_views(relative_paths@);
    let ghost wanted = all_evidence(
        plans,
        files,
        paths,
        views(admission@),
        map_views(classifications@),
        runtime_classification@,
        parse_outputs@,
    );
    let mut evidence: Vec<ContextFileEvidence> = Vec::new();
    let mut i: usize = 0;
    while i < classified.len()
        invariant
            i <= classified.len(),
            relative_paths@.len() == classified@.len(),
            plans == views(classified@),
            files == snapshot.files(),
            paths == path_views(relative_paths@),
            wanted == all_evidence(
                plans,
                files,
                paths,
                views(admission@),
                map_views(classifications@),
                runtime_classification@,
                parse_outputs@,
            ),
            missing_file(plans, files, paths, 0) == missing_file(plans, files, paths, i as int),
            views(evidence@) == wanted.take(i as int),
        decreases classified.len() - i,
    {
        let plan: &ClassifiedPlan = &classified[i];
        assert(plans[i as int] == plan@);
        let file: &DiscoveredFileOut = match snapshot.get(plan.file_identity.as_str()) {
            Some(file) => file,
            None => {
                return Err(SchedulerFailure::internal("classified plan has no discovery file"));
            },
        };
        let relative_path: &str = match &relative_paths[i] {
            Ok(path) => path.as_str(),
            Err(message) => {
                return Err(SchedulerFailure::internal(message.as_str()));
            },
        };
        let action: &PlanAction = settle_action(plan, admission);
        let ghost before = views(evidence@);
        let item: ContextFileEvidence = file_evidence(
            file,
            relative_path,
            action,
            classifications,
            runtime_classification,
            parse_outputs,
        );
        evidence.push(item);
        proof {
            assert(views(evidence@) =~= before.push(item@));
            assert(item@ == wanted[i as int]);
            assert(views(evidence@) =~= wanted.take(i + 1));
        }
        i = i + 1;
    }
    assert(wanted.take(i as int) =~= wanted);
    Ok(evidence)
}

/// The results of all planned files, in plan order.
pub open spec fn all_results(
    plans: Seq<ClassifiedPlanView>,
    files: Seq<DiscoveredFileOutView>,
    paths: Seq<Result<Seq<char>, Seq<char>>>,
    decisions: Seq<AdmissionDecisionView>,
    classifications: Map<Seq<char>, PdfClassificationResultView>,
    cut_off: Set<Seq<char>>,
    outputs: ParseOutputsView,
    rejected_profile_hash: Seq<char>,
) -> Seq<FileResultRecordView> {
    Seq::new(
        plans.len(),
        |i: int|
            result_of(
                file_of(files, plans[i].file_identity)->0,
                paths[i]->Ok_0,
                final_action(plans[i], decisions, 0),
                classifications,
                cut_off,
                outputs,
                rejected_profile_hash,
            ),
    )
}

/// Records how all planned files fared. `relative_paths` holds, for each plan, the
/// relative path of its file or why it has none.
pub fn build_file_results(
    classified: &Vec<ClassifiedPlan>,
    snapshot: &FileSnapshot<'_>,
    relative_paths: &Vec<Result<String, String>>,
    admission: &Vec<AdmissionDecision>,
    classifications: &TextMap<PdfClassificationResult>,
    parse_outputs: &ParseOutputs,
    runtime_classification: &TextSet,
    rejected_profile_hash: &str,
) -> (records: Result<Vec<FileResultRecord>, SchedulerFailure>)
    requires
        relative_paths@.len() == classified@.len(),
    ensures
        match records {
            Ok(items) => missing_file(
                views(classified@),
                snapshot.files(),
                path_views(relative_paths@),
                0,
            ) is None && views(items@) == all_results(
                views(classified@),
                snapshot.files(),
                path_views(relative_paths@),
                views(admission@),
                map_views(classifications@),
                runtime_classification@,
                parse_outputs@,
                rejected_profile_hash@,
            ),
            Err(failure) => missing_file(
                views(classified@),
                snapshot.files(),
                path_views(relative_paths@),
                0,
            ) == Some(failure.diagnostic@),
        },
{
    let ghost plans = views(classified@);
    let ghost files = snapshot.files();
    let ghost paths = path_views(relative_paths@);
    let ghost wanted = all_results(
        plans,
        files,
        paths,
        views(admission@),
        map_views(classifications@),
        runtime_classification@,
        parse_outputs@,
        rejected_profile_hash@,
    );
    let mut records: Vec<FileResultRecord> = Vec::new();
    let mut i: usize = 0;
    while i < classified.len()
        invariant
            i <= classified.len(),
            relative_paths@.len() == classified@.len(),
            plans == views(classified@),
            files == snapshot.files(),
            paths == path_views(relative_paths@),
            wanted == all_results(
                plans,
                files,
                paths,
                views(admission@),
                map_views(classifications@),
                runtime_classification@,
                parse_outputs@,
                rejected_profile_hash@,
            ),
            missing_file(plans, files, paths, 0) == missing_file(plans, files, paths, i as int),
            views(records@) == wanted.take(i as int),
        decreases classified.len() - i,
    {
        let plan: &ClassifiedPlan = &classified[i];
        assert(plans[i as int] == plan@);
        let file: &DiscoveredFileOut = match snapshot.get(plan.file_identity.as_str()) {
            Some(file) => file,
            None => {
                return Err(SchedulerFailure::internal("classified plan has no discovery file"));
            },
        };
        let relative_path: &str = match &relative_paths[i] {
            Ok(path) => path.as_str(),
            Err(message) => {
                return Err(SchedulerFailure::internal(message.as_str()));
            },
        };
        let action: &PlanAction = settle_action(plan, admission);
        let ghost before = views(records@);
        let item: FileResultRecord = file_result(
            file,
            relative_path,
            action,
            classifications,
            runtime_classification,
            parse_outputs,
            rejected_profile_hash,
        );
        records.push(item);
        proof {
            assert(views(records@) =~= before.push(item@));
            assert(item@ == wanted[i as int]);
            assert(views(records@) =~= wanted.take(i + 1));
        }
        i = i + 1;
    }
    assert(wanted.take(i as int) =~= wanted);
    Ok(records)
}

// ---------------------------------------------------------------------------
// Laws
// ---------------------------------------------------------------------------

/// What is told about a file names the file, whatever became of it.
pub proof fn law_reports_name_their_file(
    file: DiscoveredFileOutView,
    relative_path: Seq<char>,
    action: PlanActionView,
    classifications: Map<Seq<char>, PdfClassificationResultView>,
    cut_off: Set<Seq<char>>,
    outputs: ParseOutputsView,
    profile_hash: Seq<char>,
)
    ensures
        ({
            let result = result_of(
                file,
                relative_path,
                action,
                classifications,
                cut_off,
                outputs,
                profile_hash,
            );
            &&& result.file_identity == file.file_identity
            &&& result.relative_path == relative_path
            &&& result.source_version == file.source_version
        }),
        ({
            let evidence = evidence_of(
                file,
                relative_path,
                action,
                classifications,
                cut_off,
                outputs,
            );
            &&& evidence.file_identity == file.file_identity
            &&& evidence.absolute_path == file.path
            &&& evidence.relative_path == relative_path
            &&& evidence.extension == file.extension
            &&& evidence.size_bytes == Some(file.size_bytes)
        }),
{
}

/// An admitted file that was parsed in time is reported as it was parsed: its result has
/// the hash, the status, the error and the measures of the parse, and the context is told
/// its content.
pub proof fn law_parsed_files_are_reported_as_parsed(
    file: DiscoveredFileOutView,
    relative_path: Seq<char>,
    route: crate::contract::RouteKind,
    classifications: Map<Seq<char>, PdfClassificationResultView>,
    cut_off: Set<Seq<char>>,
    outputs: ParseOutputsView,
    profile_hash: Seq<char>,
)
    requires
        !cut_off.contains(file.file_identity),
        !outputs.runtime_not_parsed.contains(file.file_identity),
        outputs.results.contains_key(file.file_identity),
    ensures
        ({
            let action = PlanActionView::Admit { route };
            let parse = outputs.results[file.file_identity];
            let result = result_of(
                file,
                relative_path,
                action,
                classifications,
                cut_off,
                outputs,
                profile_hash,
            );
            let evidence = evidence_of(
                file,
                relative_path,
                action,
                classifications,
                cut_off,
                outputs,
            );
            &&& result.content_sha256 == parse.content_sha256
            &&& evidence.content == parse.content
            &&& parse.content_sha256 == content_sha256(parse.content) ==> result.content_sha256
                == content_sha256(evidence.content)
            &&& result.parse_status == parse.parse_status && evidence.parse_status
                == parse.parse_status
            &&& result.error == parse.error && evidence.error == parse.error
            &&& result.truncated == parse.truncated && evidence.truncated == parse.truncated
            &&& result.parser_backend == parse.parser_backend && evidence.parser_backend
                == parse.parser_backend
            &&& result.primary_duration_ms == parse.primary_duration_ms
            &&& result.fallback_duration_ms == parse.fallback_duration_ms
            &&& result.parse_duration_ms == parse.parse_duration_ms
            &&& result.failure_class == parse.failure_class
            &&& result.fallback_backend == parse.fallback_backend
            &&& result.fallback_reason_code == parse.fallback_reason_code
            &&& result.parse_transport == parse.parse_transport
            &&& result.parse_attempt_count == parse.parse_attempt_count
            &&& evidence.reason is Some <==> parse.parse_status != ParseStatus::Success
        }),
{
}

/// A file that was not admitted, or that the deadline cut off, has no content: its result
/// has the hash of the empty text, no backend, no lane, no attempt and no time, and it does
/// not count as parsed.
pub proof fn law_unparsed_files_report_no_content(
    file: DiscoveredFileOutView,
    relative_path: Seq<char>,
    action: PlanActionView,
    classifications: Map<Seq<char>, PdfClassificationResultView>,
    cut_off: Set<Seq<char>>,
    outputs: ParseOutputsView,
    profile_hash: Seq<char>,
)
    requires
        action is Admit ==> cut_off.contains(file.file_identity)
            || outputs.runtime_not_parsed.contains(file.file_identity),
    ensures
        ({
            let result = result_of(
                file,
                relative_path,
                action,
                classifications,
                cut_off,
                outputs,
                profile_hash,
            );
            let evidence = evidence_of(
                file,
                relative_path,
                action,
                classifications,
                cut_off,
                outputs,
            );
            &&& evidence.content.len() == 0
            &&& result.content_sha256 == content_sha256(evidence.content)
            &&& result.parser_backend == "not_parsed"@ && evidence.parser_backend
                == "not_parsed"@
            &&& result.worker_lane == AuditWorkerLane::NotParsed && evidence.worker_lane
                == AuditWorkerLane::NotParsed
            &&& result.parse_attempt_count == 0
            &&& result.parse_duration_ms == 0
            &&& result.parse_transport == ParseTransport::NotApplicable
            &&& !result.truncated && !evidence.truncated
            &&& result.parse_status != ParseStatus::Success
            &&& evidence.reason is Some
        }),
{
}

/// The result of a file and what the context is told about it agree, except of an admitted
/// PDF with text that has no parse: there the context is told of the loss.
pub proof fn law_evidence_and_result_agree(
    file: DiscoveredFileOutView,
    relative_path: Seq<char>,
    action: PlanActionView,
    classifications: Map<Seq<char>, PdfClassificationResultView>,
    cut_off: Set<Seq<char>>,
    outputs: ParseOutputsView,
    profile_hash: Seq<char>,
)
    ensures
        ({
            let id = file.file_identity;
            let lost = action is Admit && !cut_off.contains(id)
                && !outputs.runtime_not_parsed.contains(id)
                && !outputs.results.contains_key(id) && classifications.contains_key(id)
                && classifications[id].status != PdfClassificationStatus::NoTextInParseWindow;
            let result = result_of(
                file,
                relative_path,
                action,
                classifications,
                cut_off,
                outputs,
                profile_hash,
            );
            let evidence = evidence_of(
                file,
                relative_path,
                action,
                classifications,
                cut_off,
                outputs,
            );
            &&& !lost ==> result.parse_status == evidence.parse_status && result.error
                == evidence.error && result.parser_backend == evidence.parser_backend
                && result.worker_lane == evidence.worker_lane && result.truncated
                == evidence.truncated
            &&& lost ==> evidence.parse_status == ParseStatus::Error && evidence.error is Some
                && evidence.error->0.file_path == Some(file.path) && evidence.content.len() == 0
        }),
{
}

/// A file is reported as unparsed where its plan left it out, giving the plan's reason, or
/// where the deadline came first.
pub proof fn law_left_out_files_are_reported_with_a_reason(
    file: DiscoveredFileOutView,
    relative_path: Seq<char>,
    action: PlanActionView,
    classifications: Map<Seq<char>, PdfClassificationResultView>,
    cut_off: Set<Seq<char>>,
    outputs: ParseOutputsView,
    profile_hash: Seq<char>,
)
    requires
        action is NotParsed || action is Admit,
        action is Admit ==> cut_off.contains(file.file_identity)
            || outputs.runtime_not_parsed.contains(file.file_identity),
    ensures
        ({
            let result = result_of(
                file,
                relative_path,
                action,
                classifications,
                cut_off,
                outputs,
                profile_hash,
            );
            let evidence = evidence_of(
                file,
                relative_path,
                action,
                classifications,
                cut_off,
                outputs,
            );
            &&& result.parse_status == ParseStatus::NotParsed && evidence.parse_status
                == ParseStatus::NotParsed
            &&& result.error is None && evidence.error is None
            &&& match action {
                PlanActionView::NotParsed { reason } => evidence.reason == Some(reason),
                _ => evidence.reason == Some("runtime_deadline_exhausted"@),
            }
        }),
{
}

/// A rejected file is an error of that file, with the reason it was rejected for; only one
/// whose guard was unavailable may be tried again.
pub proof fn law_rejected_files_are_errors(
    file: DiscoveredFileOutView,
    relative_path: Seq<char>,
    why: RejectReason,
    text: Seq<char>,
    classifications: Map<Seq<char>, PdfClassificationResultView>,
    cut_off: Set<Seq<char>>,
    outputs: ParseOutputsView,
    profile_hash: Seq<char>,
)
    ensures
        ({
            let action = PlanActionView::Reject { why, text };
            let result = result_of(
                file,
                relative_path,
                action,
                classifications,
                cut_off,
                outputs,
                profile_hash,
            );
            let evidence = evidence_of(
                file,
                relative_path,
                action,
                classifications,
                cut_off,
                outputs,
            );
            &&& result.parse_status == ParseStatus::Error
            &&& result.error is Some && evidence.error == result.error
            &&& result.error->0.file_path == Some(file.path)
            &&& result.error->0.message == text && evidence.reason == Some(text)
            &&& result.error->0.retryable <==> why == RejectReason::SourceGuardUnavailable
            &&& (result.error->0.error_code == ErrorCode::SourceGuardUnavailable) <==> why
                == RejectReason::SourceGuardUnavailable
            &&& (result.error->0.error_code == ErrorCode::ProfileRouteInvariant) <==> why
                == RejectReason::ProfileRouteInvariant
            &&& result.parse_profile_hash == profile_hash
        }),
{
}

/// A file whose classification failed never counts as parsed: it is a timeout exactly where
/// the classifier timed out, an error otherwise, and it may be tried again exactly where
/// nothing is known of it.
pub proof fn law_failed_classifications_are_failures_of_the_file(
    file: DiscoveredFileOutView,
    relative_path: Seq<char>,
    status: PdfClassificationStatus,
    classifications: Map<Seq<char>, PdfClassificationResultView>,
    cut_off: Set<Seq<char>>,
    outputs: ParseOutputsView,
    profile_hash: Seq<char>,
)
    ensures
        ({
            let action = PlanActionView::ClassifierFailed { status };
            let id = file.file_identity;
            let late = status == PdfClassificationStatus::Unknown && classifications.contains_key(
                id,
            ) && classifications[id].error_code == Some(ErrorCode::ParserTimeout.text_spec());
            let result = result_of(
                file,
                relative_path,
                action,
                classifications,
                cut_off,
                outputs,
                profile_hash,
            );
            let evidence = evidence_of(
                file,
                relative_path,
                action,
                classifications,
                cut_off,
                outputs,
            );
            &&& result.parse_status == evidence.parse_status
            &&& late ==> result.parse_status == ParseStatus::Timeout
            &&& !late ==> result.parse_status == ParseStatus::Error
            &&& result.error is Some && evidence.error == result.error
            &&& (result.error->0.error_code == ErrorCode::ParserTimeout) <==> late
            &&& (result.error->0.error_code == ErrorCode::ParserFailed) <==> !late
            &&& result.error->0.retryable <==> status == PdfClassificationStatus::Unknown
            &&& result.error->0.file_path == Some(file.path)
            &&& evidence.reason == Some("parse_error"@)
        }),
{
}

/// An admitted PDF without text that was not parsed counts as parsed: it is reported by its
/// metadata, with no content.
pub proof fn law_pdfs_without_text_are_reported_by_metadata(
    file: DiscoveredFileOutView,
    relative_path: Seq<char>,
    route: crate::contract::RouteKind,
    classifications: Map<Seq<char>, PdfClassificationResultView>,
    cut_off: Set<Seq<char>>,
    outputs: ParseOutputsView,
    profile_hash: Seq<char>,
)
    requires
        !cut_off.contains(file.file_identity),
        !outputs.runtime_not_parsed.contains(file.file_identity),
        !outputs.results.contains_key(file.file_identity),
        classifications.contains_key(file.file_identity),
        classifications[file.file_identity].status == PdfClassificationStatus::NoTextInParseWindow,
    ensures
        ({
            let action = PlanActionView::Admit { route };
            let result = result_of(
                file,
                relative_path,
                action,
                classifications,
                cut_off,
                outputs,
                profile_hash,
            );
            let evidence = evidence_of(
                file,
                relative_path,
                action,
                classifications,
                cut_off,
                outputs,
            );
            &&& result.parse_status == ParseStatus::Success && evidence.parse_status
                == ParseStatus::Success
            &&& result.error is None && evidence.error is None
            &&& result.parser_backend == "pdf_metadata_v1"@ && evidence.parser_backend
                == "pdf_metadata_v1"@
            &&& result.worker_lane == AuditWorkerLane::RustCore && evidence.worker_lane
                == AuditWorkerLane::RustCore
            &&& evidence.content.len() == 0
            &&& result.content_sha256 == content_sha256(Seq::empty())
            &&& evidence.reason == Some("pdf_no_text_in_parse_window"@)
        }),
{
}

/// The result of an admitted file tells what the parse cache said of it, and under which
/// profile it was asked; a file that the cache was not asked about counts as new.
pub proof fn law_results_tell_what_the_cache_said(
    file: DiscoveredFileOutView,
    relative_path: Seq<char>,
    route: crate::contract::RouteKind,
    classifications: Map<Seq<char>, PdfClassificationResultView>,
    cut_off: Set<Seq<char>>,
    outputs: ParseOutputsView,
    profile_hash: Seq<char>,
)
    ensures
        ({
            let id = file.file_identity;
            let result = result_of(
                file,
                relative_path,
                PlanActionView::Admit { route },
                classifications,
                cut_off,
                outputs,
                profile_hash,
            );
            &&& outputs.parse_cache_status.contains_key(id) ==> result.cache_status
                == outputs.parse_cache_status[id]
            &&& !outputs.parse_cache_status.contains_key(id) ==> result.cache_status
                == CacheStatus::Miss
            &&& outputs.parse_cache_miss_reason.contains_key(id) ==> result.cache_miss_reason
                == outputs.parse_cache_miss_reason[id]
            &&& !outputs.parse_cache_miss_reason.contains_key(id) ==> result.cache_miss_reason
                == CacheMissReason::NewFile
            &&& outputs.parse_profile_hashes.contains_key(id) ==> result.parse_profile_hash
                == outputs.parse_profile_hashes[id]
            &&& !outputs.parse_profile_hashes.contains_key(id) ==> result.parse_profile_hash
                == profile_hash
        }),
{
}

/// A lane that is written down is read back as the same lane, and the lanes of worker
/// sessions are read as those of their workers.
pub proof fn law_lanes_are_read_back(lane: AuditWorkerLane)
    ensures
        lane_of_text(lane.text_spec()) == lane,
        lane_of_text(
            crate::scheduler::adapter::WorkerLane::RustOfficeProcessV2.name_spec(),
        ) == AuditWorkerLane::RustOfficeProcess,
        lane_of_text(
            crate::scheduler::adapter::WorkerLane::PythonDocumentProcessV2.name_spec(),
        ) == AuditWorkerLane::PythonDocumentProcess,
{
    reveal_strlit("rust_core");
    reveal_strlit("rust_office_process");
    reveal_strlit("rust_office_process_v2");
    reveal_strlit("python_document_process");
    reveal_strlit("python_document_process_v2");
    reveal_strlit("not_parsed");
    assert("rust_core"@.len() == 9 && "not_parsed"@.len() == 10);
    assert("rust_office_process"@.len() == 19 && "rust_office_process_v2"@.len() == 22);
    assert("python_document_process"@.len() == 23 && "python_document_process_v2"@.len() == 26);
}

/// The line that the context is given about a failed classification names the code with
/// which the file is reported, and there is one exactly for a classification that was made
/// and failed.
pub proof fn law_error_lines_name_the_reported_code(
    plan: ClassifiedPlanView,
    classifications: Map<Seq<char>, PdfClassificationResultView>,
    cut_off: Set<Seq<char>>,
)
    ensures
        ({
            let id = plan.file_identity;
            let status = classifications[id].status;
            let line = error_line(plan, classifications, cut_off);
            &&& line is Some <==> (plan.pdf_classification is Classify && !cut_off.contains(id)
                && classifications.contains_key(id) && (status
                == PdfClassificationStatus::Unknown || status == PdfClassificationStatus::Error))
            &&& line is Some ==> line->0 == "- "@ + plan.relative_path
                + " | reason=parse_error | error="@ + classifier_failure(
                status,
                timed_out(status, id, classifications),
            ).1.text_spec()
        }),
{
}

proof fn lemma_missing_file_at(
    plans: Seq<ClassifiedPlanView>,
    files: Seq<DiscoveredFileOutView>,
    paths: Seq<Result<Seq<char>, Seq<char>>>,
    from: int,
    at: int,
)
    requires
        0 <= from <= at < plans.len(),
        missing_file(plans, files, paths, from) is None,
    ensures
        file_of(files, plans[at].file_identity) is Some,
        paths[at] is Ok,
    decreases at - from,
{
    if from < at {
        lemma_missing_file_at(plans, files, paths, from + 1, at);
    }
}

/// The files of a run are reported in the order of their plans: each report is of the
/// discovered file that its plan is of, under the path that was found for it.
pub proof fn law_reports_are_in_plan_order(
    plans: Seq<ClassifiedPlanView>,
    files: Seq<DiscoveredFileOutView>,
    paths: Seq<Result<Seq<char>, Seq<char>>>,
    decisions: Seq<AdmissionDecisionView>,
    classifications: Map<Seq<char>, PdfClassificationResultView>,
    cut_off: Set<Seq<char>>,
    outputs: ParseOutputsView,
    profile_hash: Seq<char>,
    at: int,
)
    requires
        files.len() <= usize::MAX,
        missing_file(plans, files, paths, 0) is None,
        0 <= at < plans.len(),
    ensures
        ({
            let results = all_results(
                plans,
                files,
                paths,
                decisions,
                classifications,
                cut_off,
                outputs,
                profile_hash,
            );
            let evidence = all_evidence(
                plans,
                files,
                paths,
                decisions,
                classifications,
                cut_off,
                outputs,
            );
            &&& results.len() == plans.len()
            &&& evidence.len() == plans.len()
            &&& results[at].file_identity == plans[at].file_identity
            &&& evidence[at].file_identity == plans[at].file_identity
            &&& paths[at] == Ok::<Seq<char>, Seq<char>>(results[at].relative_path)
            &&& evidence[at].relative_path == results[at].relative_path
            &&& exists|i: int|
                0 <= i < files.len() && (#[trigger] files[i]).file_identity
                    == plans[at].file_identity && files[i].source_version
                    == results[at].source_version && files[i].path == evidence[at].absolute_path
        }),
{
    lemma_missing_file_at(plans, files, paths, 0, at);
    let file = file_of(files, plans[at].file_identity)->0;
    assert(files.len() > 0) by {
        if files.len() == 0 {
            assert(file_of(files, plans[at].file_identity) is None);
        }
    }
    law_files_are_found_by_identity(files, plans[at].file_identity, 0);
    let i = choose|i: int| 0 <= i < files.len() && files[i] == file;
    assert(files[i].file_identity == plans[at].file_identity);
}

} // verus!
