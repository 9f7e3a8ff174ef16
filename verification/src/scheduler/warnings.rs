//! The terminal state of a run and the bounded projection of its warnings.
use crate::contract::{
    opt_view, views, Diagnostic, DiagnosticSeverity, DiagnosticStage, DiagnosticView, ErrorCode,
    RunDiagnosticRecord, RunDiagnosticRecordView,
};
use crate::json::json_bool;
use crate::ordered::{is_before, text_less, TextSet};
use crate::scheduler::records::{
    internal_failure, SchedulerFailure, TerminalIntent, MAX_MESSAGE_CHARS,
};
use crate::store::inventory::{FileResultRecord, FileResultRecordView};
use crate::text::{byte_len, capped, decimal, take_chars, text_eq, u64_text, utf8_len};
use vstd::prelude::*;
use vstd::string::StringExecFns;

verus! {

/// Warnings of a run that are reported one by one.
pub const MAX_DETAIL_WARNINGS: usize = 256;

/// A diagnostic of the given severity.
pub open spec fn with_severity(
    severity: DiagnosticSeverity,
    diagnostic: DiagnosticView,
) -> RunDiagnosticRecordView {
    RunDiagnosticRecordView { severity, diagnostic }
}

/// Counts of a rendered context that decide how a run ends.
#[derive(Clone, Copy, Debug, PartialEq, Eq)]
pub struct RenderedCounts {
    pub error_file_count: u64,
    pub timeout_count: u64,
    pub included_file_count: u64,
}

/// Something went wrong in the run: a file failed or timed out, or the deadline
/// cut work off.
pub open spec fn run_has_failure(
    rendered: RenderedCounts,
    cut_off_classifications: Set<Seq<char>>,
    cut_off_parses: Set<Seq<char>>,
    deadline_exhausted: u64,
) -> bool {
    ||| rendered.error_file_count > 0
    ||| rendered.timeout_count > 0
    ||| cut_off_classifications.len() > 0
    ||| cut_off_parses.len() > 0
    ||| deadline_exhausted > 0
}

/// How a run ends: well when nothing went wrong, in part when something did and
/// some file is in the context, and with an error when none is.
pub open spec fn intent_of(has_failure: bool, rendered: RenderedCounts) -> TerminalIntent {
    if !has_failure {
        TerminalIntent::Success
    } else if rendered.included_file_count == 0 {
        TerminalIntent::Error
    } else {
        TerminalIntent::Partial
    }
}

/// The errors of the first `count` file results, in order.
pub open spec fn file_errors(results: Seq<FileResultRecordView>, count: nat) -> Seq<DiagnosticView>
    decreases count,
{
    if count == 0 {
        Seq::empty()
    } else {
        let earlier = file_errors(results, (count - 1) as nat);
        match results[count - 1].error {
            Some(error) => earlier.push(error),
            None => earlier,
        }
    }
}

/// The run-level diagnostic of an exhausted deadline.
pub open spec fn deadline_diagnostic(message: Seq<char>) -> DiagnosticView {
    DiagnosticView {
        error_code: ErrorCode::StageDeadlineExhausted,
        message,
        retryable: true,
        stage: DiagnosticStage::Parse,
        file_path: None,
        backend: None,
    }
}

/// The run-level diagnostic of a run that ends with an error which neither a file nor the
/// deadline accounts for.
pub open spec fn unexplained_diagnostic() -> DiagnosticView {
    internal_failure("no file could be included and no failed file carries a diagnostic"@)
}

/// The diagnostics of the end of a run: a warning about the deadline, one for each
/// file error, and for a run that ends with an error the error itself: that of the first
/// failed file, that of the deadline, or that there is neither.
pub open spec fn terminal_diagnostics(
    rendered: RenderedCounts,
    results: Seq<FileResultRecordView>,
    has_failure: bool,
    deadline_exhausted: u64,
) -> Seq<RunDiagnosticRecordView> {
    let deadline = if deadline_exhausted > 0 {
        seq![
            with_severity(
                DiagnosticSeverity::Warning,
                deadline_diagnostic("work deadline exhausted; remaining work stopped"@),
            ),
        ]
    } else {
        Seq::empty()
    };
    let errors = if has_failure {
        file_errors(results, results.len())
    } else {
        Seq::empty()
    };
    let warnings = errors.map_values(
        |error: DiagnosticView| with_severity(DiagnosticSeverity::Warning, error),
    );
    let last = if intent_of(has_failure, rendered) != TerminalIntent::Error {
        Seq::empty()
    } else if errors.len() > 0 {
        seq![with_severity(DiagnosticSeverity::Error, errors[0])]
    } else if deadline_exhausted > 0 {
        seq![
            with_severity(
                DiagnosticSeverity::Error,
                deadline_diagnostic("work deadline exhausted before any included context"@),
            ),
        ]
    } else {
        seq![with_severity(DiagnosticSeverity::Error, unexplained_diagnostic())]
    };
    deadline + warnings + last
}

fn deadline_record(severity: DiagnosticSeverity, message: &str) -> (record: RunDiagnosticRecord)
    ensures
        record@ == with_severity(severity, deadline_diagnostic(message@)),
{
    RunDiagnosticRecord {
        severity,
        diagnostic: Diagnostic {
            error_code: ErrorCode::StageDeadlineExhausted,
            message: message.to_string(),
            retryable: true,
            stage: DiagnosticStage::Parse,
            file_path: None,
            backend: None,
        },
    }
}

/// Decides how a run ends and which diagnostics its end gives rise to.
pub fn terminal_state(
    rendered: RenderedCounts,
    file_results: &Vec<FileResultRecord>,
    runtime_classification: &TextSet,
    runtime_not_parsed: &TextSet,
    stage_deadline_exhausted_count: u64,
) -> (state: (TerminalIntent, Vec<RunDiagnosticRecord>))
    ensures
        ({
            let has_failure = run_has_failure(
                rendered,
                runtime_classification@,
                runtime_not_parsed@,
                stage_deadline_exhausted_count,
            );
            &&& state.0 == intent_of(has_failure, rendered)
            &&& views(state.1@) == terminal_diagnostics(
                rendered,
                views(file_results@),
                has_failure,
                stage_deadline_exhausted_count,
            )
        }),
{
    let has_failure: bool = rendered.error_file_count > 0 || rendered.timeout_count > 0
        || runtime_classification.len() > 0 || runtime_not_parsed.len() > 0
        || stage_deadline_exhausted_count > 0;
    let ghost results = views(file_results@);
    let ghost deadline = if stage_deadline_exhausted_count > 0 {
        seq![
            with_severity(
                DiagnosticSeverity::Warning,
                deadline_diagnostic("work deadline exhausted; remaining work stopped"@),
            ),
        ]
    } else {
        Seq::<RunDiagnosticRecordView>::empty()
    };
    let ghost as_warning = |error: DiagnosticView|
        with_severity(DiagnosticSeverity::Warning, error);
    let mut diagnostics: Vec<RunDiagnosticRecord> = Vec::new();
    if stage_deadline_exhausted_count > 0 {
        let record: RunDiagnosticRecord = deadline_record(
            DiagnosticSeverity::Warning,
            "work deadline exhausted; remaining work stopped",
        );
        diagnostics.push(record);
    }
    assert(views(diagnostics@) =~= deadline);
    let mut primary_error: Option<Diagnostic> = None;
    let ghost mut errors = Seq::<DiagnosticView>::empty();
    if has_failure {
        let mut i: usize = 0;
        assert(deadline + file_errors(results, 0).map_values(as_warning) =~= deadline);
        while i < file_results.len()
            invariant
                i <= file_results.len(),
                results == views(file_results@),
                as_warning == (|error: DiagnosticView|
                    with_severity(DiagnosticSeverity::Warning, error)),
                views(diagnostics@) == deadline + file_errors(results, i as nat).map_values(
                    as_warning,
                ),
                opt_view(primary_error) == if file_errors(results, i as nat).len() > 0 {
                    Some(file_errors(results, i as nat)[0])
                } else {
                    None
                },
            decreases file_results.len() - i,
        {
            assert(results[i as int] == file_results@[i as int]@);
            let ghost before = views(diagnostics@);
            let ghost earlier = file_errors(results, i as nat);
            match &file_results[i].error {
                None => {},
                Some(error) => {
                    if primary_error.is_none() {
                        primary_error = Some(error.clone());
                    }
                    let record = RunDiagnosticRecord {
                        severity: DiagnosticSeverity::Warning,
                        diagnostic: error.clone(),
                    };
                    diagnostics.push(record);
                    proof {
                        assert(views(diagnostics@) =~= before.push(record@));
                        assert(earlier.push(error@).map_values(as_warning) =~= earlier.map_values(
                            as_warning,
                        ).push(record@));
                        assert(views(diagnostics@) =~= deadline + file_errors(
                            results,
                            (i + 1) as nat,
                        ).map_values(as_warning));
                    }
                },
            }
            i = i + 1;
        }
        proof {
            errors = file_errors(results, results.len());
        }
    } else {
        assert(deadline + errors.map_values(as_warning) =~= deadline);
    }
    let intent: TerminalIntent = if !has_failure {
        TerminalIntent::Success
    } else if rendered.included_file_count == 0 {
        TerminalIntent::Error
    } else {
        TerminalIntent::Partial
    };
    let ghost before = views(diagnostics@);
    assert(before + Seq::<RunDiagnosticRecordView>::empty() =~= before);
    if intent == TerminalIntent::Error {
        match primary_error {
            Some(error) => {
                let record = RunDiagnosticRecord {
                    severity: DiagnosticSeverity::Error,
                    diagnostic: error,
                };
                diagnostics.push(record);
                assert(views(diagnostics@) =~= before + seq![record@]);
            },
            None => {
                if stage_deadline_exhausted_count > 0 {
                    let record: RunDiagnosticRecord = deadline_record(
                        DiagnosticSeverity::Error,
                        "work deadline exhausted before any included context",
                    );
                    diagnostics.push(record);
                    assert(views(diagnostics@) =~= before + seq![record@]);
                } else {
                    let failure: SchedulerFailure = SchedulerFailure::internal(
                        "no file could be included and no failed file carries a diagnostic",
                    );
                    let record = RunDiagnosticRecord {
                        severity: DiagnosticSeverity::Error,
                        diagnostic: failure.diagnostic,
                    };
                    diagnostics.push(record);
                    assert(views(diagnostics@) =~= before + seq![record@]);
                }
            },
        }
    }
    (intent, diagnostics)
}

/// A run that ends with an error reports an error diagnostic as its last; every other run
/// reports warnings alone, and one that ends well none.
pub proof fn law_error_runs_report_an_error(
    rendered: RenderedCounts,
    results: Seq<FileResultRecordView>,
    cut_off_classifications: Set<Seq<char>>,
    cut_off_parses: Set<Seq<char>>,
    deadline_exhausted: u64,
)
    ensures
        ({
            let has_failure = run_has_failure(
                rendered,
                cut_off_classifications,
                cut_off_parses,
                deadline_exhausted,
            );
            let diagnostics = terminal_diagnostics(
                rendered,
                results,
                has_failure,
                deadline_exhausted,
            );
            &&& intent_of(has_failure, rendered) == TerminalIntent::Error ==> diagnostics.len() > 0
                && diagnostics.last().severity == DiagnosticSeverity::Error
            &&& intent_of(has_failure, rendered) != TerminalIntent::Error ==> forall|i: int|
                0 <= i < diagnostics.len() ==> (#[trigger] diagnostics[i]).severity
                    == DiagnosticSeverity::Warning
            &&& intent_of(has_failure, rendered) == TerminalIntent::Success ==> diagnostics.len()
                == 0
        }),
{
}

/// The warnings of a run.
pub open spec fn warnings_of(records: Seq<RunDiagnosticRecordView>) -> Seq<
    RunDiagnosticRecordView,
> {
    records.filter(
        |record: RunDiagnosticRecordView| record.severity == DiagnosticSeverity::Warning,
    )
}

/// The errors of a run.
pub open spec fn errors_of(records: Seq<RunDiagnosticRecordView>) -> Seq<RunDiagnosticRecordView> {
    records.filter(|record: RunDiagnosticRecordView| record.severity == DiagnosticSeverity::Error)
}

/// Diagnostics that are told together: by stage, code and retry mark.
#[derive(Clone, Copy, Debug, PartialEq, Eq, Structural)]
pub struct GroupKey {
    pub stage: DiagnosticStage,
    pub error_code: ErrorCode,
    pub retryable: bool,
}

/// A group of diagnostics and how many they are.
#[derive(Clone, Copy, Debug, PartialEq, Eq, Structural)]
pub struct Group {
    pub key: GroupKey,
    pub count: u64,
}

/// The group that a diagnostic belongs to.
pub open spec fn key_of(diagnostic: DiagnosticView) -> GroupKey {
    GroupKey {
        stage: diagnostic.stage,
        error_code: diagnostic.error_code,
        retryable: diagnostic.retryable,
    }
}

/// Groups are told in the order of their stage and code texts, those that may not
/// be retried first.
pub open spec fn key_before(left: GroupKey, right: GroupKey) -> bool {
    if left.stage.text_spec() != right.stage.text_spec() {
        text_less(left.stage.text_spec(), right.stage.text_spec())
    } else if left.error_code.text_spec() != right.error_code.text_spec() {
        text_less(left.error_code.text_spec(), right.error_code.text_spec())
    } else {
        !left.retryable && right.retryable
    }
}

/// One more diagnostic of the given group is counted.
pub open spec fn counted(groups: Seq<Group>, key: GroupKey) -> Seq<Group>
    decreases groups.len(),
{
    if groups.len() == 0 {
        seq![Group { key, count: 1 }]
    } else if groups[0].key == key {
        seq![Group { key, count: (groups[0].count + 1) as u64 }] + groups.skip(1)
    } else if key_before(key, groups[0].key) {
        seq![Group { key, count: 1 }] + groups
    } else {
        seq![groups[0]] + counted(groups.skip(1), key)
    }
}

/// The groups of the first `count` records, in order.
pub open spec fn groups_of(records: Seq<RunDiagnosticRecordView>, count: nat) -> Seq<Group>
    decreases count,
{
    if count == 0 {
        Seq::empty()
    } else {
        counted(
            groups_of(records, (count - 1) as nat),
            key_of(records[count - 1].diagnostic),
        )
    }
}

/// Diagnostics that the groups stand for.
pub open spec fn group_total(groups: Seq<Group>) -> nat
    decreases groups.len(),
{
    if groups.len() == 0 {
        0
    } else {
        groups[0].count as nat + group_total(groups.skip(1))
    }
}

proof fn lemma_counted_total(groups: Seq<Group>, key: GroupKey)
    requires
        group_total(groups) < u64::MAX,
    ensures
        group_total(counted(groups, key)) == group_total(groups) + 1,
    decreases groups.len(),
{
    let after = counted(groups, key);
    if groups.len() == 0 {
        assert(after.skip(1) =~= Seq::<Group>::empty());
        assert(group_total(after.skip(1)) == 0);
    } else if groups[0].key == key {
        assert(after.skip(1) =~= groups.skip(1));
    } else if key_before(key, groups[0].key) {
        assert(after.skip(1) =~= groups);
    } else {
        lemma_counted_total(groups.skip(1), key);
        assert(after.skip(1) =~= counted(groups.skip(1), key));
    }
}

/// The counts of the groups add up to the number of diagnostics.
pub proof fn law_groups_count_every_diagnostic(records: Seq<RunDiagnosticRecordView>, count: nat)
    requires
        count <= records.len(),
        count <= u64::MAX,
    ensures
        group_total(groups_of(records, count)) == count,
    decreases count,
{
    if count > 0 {
        law_groups_count_every_diagnostic(records, (count - 1) as nat);
        lemma_counted_total(
            groups_of(records, (count - 1) as nat),
            key_of(records[count - 1].diagnostic),
        );
    }
}

fn goes_before(left: GroupKey, right: GroupKey) -> (before: bool)
    ensures
        before == key_before(left, right),
{
    if !text_eq(left.stage.text(), right.stage.text()) {
        is_before(left.stage.text(), right.stage.text())
    } else if !text_eq(left.error_code.text(), right.error_code.text()) {
        is_before(left.error_code.text(), right.error_code.text())
    } else {
        !left.retryable && right.retryable
    }
}

proof fn lemma_group_bound(groups: Seq<Group>, at: int)
    requires
        0 <= at < groups.len(),
    ensures
        groups[at].count <= group_total(groups),
    decreases groups.len(),
{
    if at > 0 {
        lemma_group_bound(groups.skip(1), at - 1);
        assert(groups.skip(1)[at - 1] == groups[at]);
    }
}

proof fn lemma_counted_prefix(groups: Seq<Group>, key: GroupKey, at: int)
    requires
        0 <= at <= groups.len(),
        forall|i: int| 0 <= i < at ==> (#[trigger] groups[i]).key != key && !key_before(key, groups[i].key),
    ensures
        counted(groups, key) == groups.take(at) + counted(groups.skip(at), key),
    decreases at,
{
    if at == 0 {
        assert(groups.skip(0) =~= groups);
        assert(groups.take(0) + counted(groups, key) =~= counted(groups, key));
    } else {
        let rest = groups.skip(1);
        assert forall|i: int| 0 <= i < at - 1 implies (#[trigger] rest[i]).key != key && !key_before(
            key,
            rest[i].key,
        ) by {
            assert(rest[i] == groups[i + 1]);
        }
        lemma_counted_prefix(rest, key, at - 1);
        assert(rest.skip(at - 1) =~= groups.skip(at));
        assert(seq![groups[0]] + (rest.take(at - 1) + counted(groups.skip(at), key)) =~= groups.take(
            at,
        ) + counted(groups.skip(at), key));
    }
}

fn count_one(groups: &mut Vec<Group>, key: GroupKey)
    requires
        group_total(old(groups)@) < u64::MAX,
    ensures
        final(groups)@ == counted(old(groups)@, key),
{
    let ghost before = groups@;
    let mut at: usize = 0;
    while at < groups.len()
        invariant
            at <= groups.len(),
            groups@ == before,
            before == old(groups)@,
            group_total(before) < u64::MAX,
            forall|i: int|
                0 <= i < at ==> (#[trigger] before[i]).key != key && !key_before(
                    key,
                    before[i].key,
                ),
        decreases groups.len() - at,
    {
        let held: Group = groups[at];
        if held.key == key {
            proof {
                lemma_group_bound(before, at as int);
                lemma_counted_prefix(before, key, at as int);
                let tail = before.skip(at as int);
                assert(tail[0] == before[at as int]);
                assert(tail.skip(1) =~= before.skip(at + 1));
            }
            groups.set(at, Group { key, count: held.count + 1 });
            assert(groups@ =~= counted(before, key));
            return;
        }
        if goes_before(key, held.key) {
            proof {
                lemma_counted_prefix(before, key, at as int);
                let tail = before.skip(at as int);
                assert(tail[0] == before[at as int]);
            }
            groups.insert(at, Group { key, count: 1 });
            assert(groups@ =~= counted(before, key));
            return;
        }
        at = at + 1;
    }
    proof {
        lemma_counted_prefix(before, key, at as int);
        assert(before.skip(at as int) =~= Seq::<Group>::empty());
        assert(before.take(at as int) =~= before);
    }
    groups.push(Group { key, count: 1 });
    assert(groups@ =~= counted(before, key));
}

/// A group in words.
pub open spec fn group_text(group: Group) -> Seq<char> {
    group.key.stage.text_spec() + ":"@ + group.key.error_code.text_spec() + ":retryable="@
        + json_bool(group.key.retryable) + ":"@ + decimal(group.count as nat)
}

fn write_group(group: Group) -> (text: String)
    ensures
        text@ == group_text(group),
{
    let mut text: String = group.key.stage.text().to_string();
    text.append(":");
    text.append(group.key.error_code.text());
    text.append(":retryable=");
    if group.key.retryable {
        text.append("true");
    } else {
        text.append("false");
    }
    text.append(":");
    let count: String = u64_text(group.count);
    text.append(count.as_str());
    text
}

/// The groups that are told in full: each as long as it fits behind those before
/// it, with a comma after each of them.
#[verifier::ext_equal]
pub struct Told {
    pub parts: Seq<Seq<char>>,
    pub used: nat,
    pub other: nat,
}

/// What is told of the first `count` groups.
pub open spec fn told(groups: Seq<Group>, count: nat) -> Told
    decreases count,
{
    if count == 0 {
        Told { parts: Seq::empty(), used: 0, other: 0 }
    } else {
        let earlier = told(groups, (count - 1) as nat);
        let part = group_text(groups[count - 1]);
        if earlier.used + utf8_len(part) <= MAX_MESSAGE_CHARS {
            Told {
                parts: earlier.parts.push(part),
                used: earlier.used + utf8_len(part) + 1,
                other: earlier.other,
            }
        } else {
            Told { other: earlier.other + groups[count - 1].count as nat, ..earlier }
        }
    }
}

/// The first `count` parts with commas between.
pub open spec fn joined(parts: Seq<Seq<char>>, count: nat) -> Seq<char>
    decreases count,
{
    if count == 0 {
        Seq::empty()
    } else if count == 1 {
        parts[0]
    } else {
        joined(parts, (count - 1) as nat) + ","@ + parts[count - 1]
    }
}

/// The message that stands for folded diagnostics.
pub open spec fn folded_message(folded: Seq<RunDiagnosticRecordView>) -> Seq<char> {
    let groups = groups_of(folded, folded.len());
    let all = told(groups, groups.len());
    let parts = if all.other > 0 {
        all.parts.push("other:"@ + decimal(all.other))
    } else {
        all.parts
    };
    "aggregated "@ + decimal(folded.len()) + " diagnostics: "@ + joined(parts, parts.len())
}

/// The one warning that stands for folded warnings; it may be retried when any of
/// them may.
pub open spec fn aggregate_of(folded: Seq<RunDiagnosticRecordView>) -> RunDiagnosticRecordView {
    with_severity(
        DiagnosticSeverity::Warning,
        DiagnosticView {
            error_code: ErrorCode::DiagnosticsAggregated,
            message: capped(folded_message(folded), MAX_MESSAGE_CHARS as int),
            retryable: exists|i: int|
                0 <= i < folded.len() && (#[trigger] folded[i]).diagnostic.retryable,
            stage: DiagnosticStage::Internal,
            file_path: None,
            backend: None,
        },
    )
}

proof fn lemma_told_bounds(groups: Seq<Group>, count: nat)
    requires
        count <= groups.len(),
    ensures
        told(groups, count).used <= MAX_MESSAGE_CHARS + 1,
        told(groups, count).other + group_total(groups.skip(count as int)) <= group_total(groups),
        told(groups, count).parts.len() <= count,
    decreases count,
{
    if count == 0 {
        assert(groups.skip(0) =~= groups);
    } else {
        lemma_told_bounds(groups, (count - 1) as nat);
        let tail = groups.skip(count - 1);
        assert(tail[0] == groups[count - 1]);
        assert(tail.skip(1) =~= groups.skip(count as int));
    }
}

fn join_parts(parts: &Vec<String>) -> (text: String)
    ensures
        text@ == joined(views(parts@), parts@.len()),
{
    let ghost all = views(parts@);
    let mut text: String = String::new();
    let mut i: usize = 0;
    while i < parts.len()
        invariant
            i <= parts.len(),
            all == views(parts@),
            text@ == joined(all, i as nat),
        decreases parts.len() - i,
    {
        assert(all[i as int] == parts@[i as int]@);
        if i > 0 {
            text.append(",");
        }
        text.append(parts[i].as_str());
        if i == 0 {
            assert(text@ =~= all[0]);
        }
        i = i + 1;
    }
    text
}

fn tell_groups(groups: &Vec<Group>) -> (text: String)
    requires
        group_total(groups@) <= u64::MAX,
    ensures
        ({
            let all = told(groups@, groups@.len());
            let parts = if all.other > 0 {
                all.parts.push("other:"@ + decimal(all.other))
            } else {
                all.parts
            };
            text@ == joined(parts, parts.len())
        }),
{
    let mut parts: Vec<String> = Vec::new();
    let mut used: usize = 0;
    let mut other: u64 = 0;
    let mut i: usize = 0;
    assert(views(parts@) =~= told(groups@, 0).parts);
    while i < groups.len()
        invariant
            i <= groups.len(),
            group_total(groups@) <= u64::MAX,
            views(parts@) == told(groups@, i as nat).parts,
            used == told(groups@, i as nat).used,
            other == told(groups@, i as nat).other,
        decreases groups.len() - i,
    {
        proof {
            lemma_told_bounds(groups@, i as nat);
            lemma_told_bounds(groups@, (i + 1) as nat);
        }
        let part: String = write_group(groups[i]);
        let len: usize = byte_len(part.as_str());
        let ghost before = views(parts@);
        if used <= MAX_MESSAGE_CHARS && len <= MAX_MESSAGE_CHARS - used {
            used = used + len + 1;
            parts.push(part);
            assert(views(parts@) =~= before.push(part@));
        } else {
            other = other + groups[i].count;
        }
        i = i + 1;
    }
    if other > 0 {
        let ghost before = views(parts@);
        let mut rest: String = "other:".to_string();
        let count: String = u64_text(other);
        rest.append(count.as_str());
        parts.push(rest);
        assert(views(parts@) =~= before.push(rest@));
    }
    join_parts(&parts)
}

/// Folds warnings into one that tells how many of each kind they are.
pub fn aggregate_warning(folded: &Vec<RunDiagnosticRecord>) -> (record: RunDiagnosticRecord)
    ensures
        record@ == aggregate_of(views(folded@)),
{
    let ghost all = views(folded@);
    let mut groups: Vec<Group> = Vec::new();
    let mut any_retryable: bool = false;
    let mut i: usize = 0;
    assert(groups@ =~= groups_of(all, 0));
    while i < folded.len()
        invariant
            i <= folded.len(),
            all == views(folded@),
            groups@ == groups_of(all, i as nat),
            any_retryable <==> exists|k: int|
                0 <= k < i && (#[trigger] all[k]).diagnostic.retryable,
        decreases folded.len() - i,
    {
        assert(all[i as int] == folded@[i as int]@);
        proof {
            assert(folded.len() == folded@.len());
            law_groups_count_every_diagnostic(all, i as nat);
        }
        let diagnostic: &Diagnostic = &folded[i].diagnostic;
        count_one(
            &mut groups,
            GroupKey {
                stage: diagnostic.stage,
                error_code: diagnostic.error_code,
                retryable: diagnostic.retryable,
            },
        );
        any_retryable = any_retryable || diagnostic.retryable;
        i = i + 1;
    }
    proof {
        assert(folded.len() == folded@.len());
        law_groups_count_every_diagnostic(all, all.len());
    }
    let mut message: String = "aggregated ".to_string();
    let total: String = u64_text(folded.len() as u64);
    message.append(total.as_str());
    message.append(" diagnostics: ");
    let parts: String = tell_groups(&groups);
    message.append(parts.as_str());
    assert(message@ =~= folded_message(all));
    RunDiagnosticRecord {
        severity: DiagnosticSeverity::Warning,
        diagnostic: Diagnostic {
            error_code: ErrorCode::DiagnosticsAggregated,
            message: take_chars(message.as_str(), MAX_MESSAGE_CHARS),
            retryable: any_retryable,
            stage: DiagnosticStage::Internal,
            file_path: None,
            backend: None,
        },
    }
}

/// The bounded projection of the diagnostics of a run: the warnings first, those
/// above the limit folded into one, and all errors behind them.
pub open spec fn projected(records: Seq<RunDiagnosticRecordView>) -> Seq<RunDiagnosticRecordView> {
    let warnings = warnings_of(records);
    if warnings.len() <= MAX_DETAIL_WARNINGS {
        warnings + errors_of(records)
    } else {
        warnings.take(MAX_DETAIL_WARNINGS as int).push(
            aggregate_of(warnings.skip(MAX_DETAIL_WARNINGS as int)),
        ) + errors_of(records)
    }
}

/// Bounds the warnings of a run and keeps its errors.
pub fn project_warnings(diagnostics: Vec<RunDiagnosticRecord>) -> (projection: Vec<
    RunDiagnosticRecord,
>)
    ensures
        views(projection@) == projected(views(diagnostics@)),
{
    let ghost all = views(diagnostics@);
    let ghost is_warning = |record: RunDiagnosticRecordView|
        record.severity == DiagnosticSeverity::Warning;
    let ghost is_error = |record: RunDiagnosticRecordView|
        record.severity == DiagnosticSeverity::Error;
    let mut kept: Vec<RunDiagnosticRecord> = Vec::new();
    let mut folded: Vec<RunDiagnosticRecord> = Vec::new();
    let mut errors: Vec<RunDiagnosticRecord> = Vec::new();
    let limit: usize = MAX_DETAIL_WARNINGS;
    let mut i: usize = 0;
    proof {
        reveal(Seq::filter);
        assert(all.take(0) =~= Seq::<RunDiagnosticRecordView>::empty());
        assert(views(kept@) + views(folded@) =~= all.take(0).filter(is_warning));
        assert(views(errors@) =~= all.take(0).filter(is_error));
    }
    while i < diagnostics.len()
        invariant
            i <= diagnostics.len(),
            all == views(diagnostics@),
            limit == MAX_DETAIL_WARNINGS,
            is_warning == (|record: RunDiagnosticRecordView|
                record.severity == DiagnosticSeverity::Warning),
            is_error == (|record: RunDiagnosticRecordView|
                record.severity == DiagnosticSeverity::Error),
            kept.len() <= limit,
            folded.len() > 0 ==> kept.len() == limit,
            folded.len() <= i,
            views(kept@) + views(folded@) == all.take(i as int).filter(is_warning),
            views(errors@) == all.take(i as int).filter(is_error),
        decreases diagnostics.len() - i,
    {
        proof {
            reveal(Seq::filter);
            assert(all.take(i + 1).drop_last() =~= all.take(i as int));
            assert(all.take(i + 1).last() == diagnostics@[i as int]@);
        }
        let ghost k = views(kept@);
        let ghost f = views(folded@);
        let ghost e = views(errors@);
        let record: RunDiagnosticRecord = diagnostics[i].clone();
        if record.severity == DiagnosticSeverity::Error {
            errors.push(record);
            assert(views(errors@) =~= e.push(record@));
        } else if kept.len() < limit {
            kept.push(record);
            assert(views(kept@) =~= k.push(record@));
            assert(f =~= Seq::<RunDiagnosticRecordView>::empty());
            assert(k.push(record@) + f =~= (k + f).push(record@));
        } else {
            folded.push(record);
            assert(views(folded@) =~= f.push(record@));
            assert(k + f.push(record@) =~= (k + f).push(record@));
        }
        i = i + 1;
    }
    assert(all.take(i as int) =~= all);
    let ghost warnings = warnings_of(all);
    assert(views(kept@) + views(folded@) == warnings);
    if folded.len() > 0 {
        proof {
            assert(warnings.take(limit as int) =~= views(kept@));
            assert(warnings.skip(limit as int) =~= views(folded@));
        }
        let ghost k = views(kept@);
        let aggregate: RunDiagnosticRecord = aggregate_warning(&folded);
        kept.push(aggregate);
        assert(views(kept@) =~= k.push(aggregate@));
    } else {
        assert(views(kept@) =~= warnings);
    }
    let ghost head = views(kept@);
    let ghost tail = views(errors@);
    kept.append(&mut errors);
    assert(views(kept@) =~= head + tail);
    kept
}

proof fn lemma_severity_filter(records: Seq<RunDiagnosticRecordView>, severity: DiagnosticSeverity)
    requires
        forall|i: int| 0 <= i < records.len() ==> (#[trigger] records[i]).severity == severity,
    ensures
        severity == DiagnosticSeverity::Warning ==> warnings_of(records) == records && errors_of(
            records,
        ).len() == 0,
        severity == DiagnosticSeverity::Error ==> errors_of(records) == records && warnings_of(
            records,
        ).len() == 0,
    decreases records.len(),
{
    reveal(Seq::filter);
    if records.len() > 0 {
        lemma_severity_filter(records.drop_last(), severity);
        assert(records.drop_last().push(records.last()) =~= records);
    } else {
        assert(warnings_of(records) =~= records);
        assert(errors_of(records) =~= records);
    }
}

proof fn lemma_filter_holds(records: Seq<RunDiagnosticRecordView>)
    ensures
        forall|i: int|
            0 <= i < warnings_of(records).len() ==> (#[trigger] warnings_of(records)[i]).severity
                == DiagnosticSeverity::Warning,
        forall|i: int|
            0 <= i < errors_of(records).len() ==> (#[trigger] errors_of(records)[i]).severity
                == DiagnosticSeverity::Error,
    decreases records.len(),
{
    reveal(Seq::filter);
    if records.len() > 0 {
        lemma_filter_holds(records.drop_last());
    }
}

proof fn lemma_filter_concat(left: Seq<RunDiagnosticRecordView>, right: Seq<RunDiagnosticRecordView>)
    ensures
        warnings_of(left + right) == warnings_of(left) + warnings_of(right),
        errors_of(left + right) == errors_of(left) + errors_of(right),
    decreases right.len(),
{
    reveal(Seq::filter);
    if right.len() == 0 {
        assert(left + right =~= left);
        assert(warnings_of(left) + warnings_of(right) =~= warnings_of(left));
        assert(errors_of(left) + errors_of(right) =~= errors_of(left));
    } else {
        lemma_filter_concat(left, right.drop_last());
        assert((left + right).drop_last() =~= left + right.drop_last());
        assert((left + right).last() == right.last());
        assert(warnings_of(left + right) =~= warnings_of(left) + warnings_of(right));
        assert(errors_of(left + right) =~= errors_of(left) + errors_of(right));
    }
}

/// The projection keeps every error, reports at most 257 warnings, and leaves up to
/// 256 warnings as they were.
pub proof fn law_projection_is_bounded(records: Seq<RunDiagnosticRecordView>)
    ensures
        errors_of(projected(records)) == errors_of(records),
        warnings_of(projected(records)).len() <= MAX_DETAIL_WARNINGS + 1,
        warnings_of(records).len() <= MAX_DETAIL_WARNINGS ==> warnings_of(projected(records))
            == warnings_of(records),
        warnings_of(records).len() > MAX_DETAIL_WARNINGS ==> warnings_of(projected(records)).len()
            == MAX_DETAIL_WARNINGS + 1 && warnings_of(projected(records)).last()
            == aggregate_of(warnings_of(records).skip(MAX_DETAIL_WARNINGS as int)),
{
    let warnings = warnings_of(records);
    let errors = errors_of(records);
    lemma_filter_holds(records);
    let head = if warnings.len() <= MAX_DETAIL_WARNINGS {
        warnings
    } else {
        warnings.take(MAX_DETAIL_WARNINGS as int).push(
            aggregate_of(warnings.skip(MAX_DETAIL_WARNINGS as int)),
        )
    };
    lemma_severity_filter(head, DiagnosticSeverity::Warning);
    lemma_severity_filter(errors, DiagnosticSeverity::Error);
    lemma_filter_concat(head, errors);
    assert(errors_of(head) =~= Seq::<RunDiagnosticRecordView>::empty());
    assert(warnings_of(errors) =~= Seq::<RunDiagnosticRecordView>::empty());
    assert(Seq::<RunDiagnosticRecordView>::empty() + errors =~= errors);
    assert(head + Seq::<RunDiagnosticRecordView>::empty() =~= head);
}

/// Errors come after all warnings: where the last of the records is an error, so is the
/// last of the projection.
pub proof fn law_projection_ends_with_the_errors(
    before: Seq<RunDiagnosticRecordView>,
    last: RunDiagnosticRecordView,
)
    requires
        last.severity == DiagnosticSeverity::Error,
    ensures
        projected(before.push(last)).len() > 0,
        projected(before.push(last)).last() == last,
{
    reveal(Seq::filter);
    assert(before.push(last).drop_last() =~= before);
    assert(errors_of(before.push(last)) =~= errors_of(before).push(last));
}

/// Where the first of the records is a warning, the projection reports one.
pub proof fn law_projection_begins_with_the_warnings(
    first: RunDiagnosticRecordView,
    after: Seq<RunDiagnosticRecordView>,
)
    requires
        first.severity == DiagnosticSeverity::Warning,
    ensures
        projected(seq![first] + after).len() > 0,
        projected(seq![first] + after)[0].severity == DiagnosticSeverity::Warning,
{
    lemma_severity_filter(seq![first], DiagnosticSeverity::Warning);
    lemma_filter_concat(seq![first], after);
    lemma_filter_holds(seq![first] + after);
    let warnings = warnings_of(seq![first] + after);
    assert(warnings[0].severity == DiagnosticSeverity::Warning);
}

/// A run succeeds exactly where no file failed or timed out and no work was cut off; one
/// with a failure is partial where it included a file, and an error where it included none.
pub proof fn law_runs_end_as_their_files_fared(
    rendered: RenderedCounts,
    cut_off_classifications: Set<Seq<char>>,
    cut_off_parses: Set<Seq<char>>,
    deadline_exhausted: u64,
)
    ensures
        ({
            let sound = rendered.error_file_count == 0 && rendered.timeout_count == 0
                && cut_off_classifications.len() == 0 && cut_off_parses.len() == 0
                && deadline_exhausted == 0;
            let intent = intent_of(
                run_has_failure(
                    rendered,
                    cut_off_classifications,
                    cut_off_parses,
                    deadline_exhausted,
                ),
                rendered,
            );
            &&& intent == TerminalIntent::Success <==> sound
            &&& intent == TerminalIntent::Partial <==> !sound && rendered.included_file_count > 0
            &&& intent == TerminalIntent::Error <==> !sound && rendered.included_file_count == 0
        }),
{
}

proof fn lemma_file_errors(results: Seq<FileResultRecordView>, count: nat, at: int)
    requires
        0 <= at < count <= results.len(),
    ensures
        results[at].error matches Some(error) ==> file_errors(results, count).contains(error),
    decreases count,
{
    let errors = file_errors(results, count);
    if at < count - 1 {
        lemma_file_errors(results, (count - 1) as nat, at);
        let earlier = file_errors(results, (count - 1) as nat);
        if let Some(error) = results[at].error {
            let i = choose|i: int| 0 <= i < earlier.len() && earlier[i] == error;
            assert(errors[i] == error);
        }
    } else if let Some(error) = results[at].error {
        assert(errors.last() == error);
    }
}

proof fn lemma_file_errors_come_from_files(
    results: Seq<FileResultRecordView>,
    count: nat,
    error: DiagnosticView,
)
    requires
        count <= results.len(),
        file_errors(results, count).contains(error),
    ensures
        exists|i: int| 0 <= i < count && (#[trigger] results[i]).error == Some(error),
    decreases count,
{
    if count > 0 {
        let errors = file_errors(results, count);
        let earlier = file_errors(results, (count - 1) as nat);
        let i = choose|i: int| 0 <= i < errors.len() && errors[i] == error;
        if i < earlier.len() {
            assert(earlier[i] == error);
            lemma_file_errors_come_from_files(results, (count - 1) as nat, error);
        } else {
            assert(results[count - 1].error == Some(error));
        }
    }
}

/// A run with a failure tells the error of each file as a warning, and tells of no other
/// file; whether the deadline was exhausted is told first. The error that a failed run ends
/// with is that of one of its files where a file has one.
pub proof fn law_failed_files_are_told(
    rendered: RenderedCounts,
    results: Seq<FileResultRecordView>,
    deadline_exhausted: u64,
    at: int,
)
    requires
        0 <= at < results.len(),
    ensures
        ({
            let told = terminal_diagnostics(rendered, results, true, deadline_exhausted);
            &&& results[at].error matches Some(error) ==> told.contains(
                RunDiagnosticRecordView {
                    severity: DiagnosticSeverity::Warning,
                    diagnostic: error,
                },
            )
            &&& deadline_exhausted > 0 ==> told[0].severity == DiagnosticSeverity::Warning
                && told[0].diagnostic.error_code == ErrorCode::StageDeadlineExhausted
            &&& results[at].error is Some && rendered.included_file_count == 0 ==> exists|i: int|
                0 <= i < results.len() && (#[trigger] results[i]).error == Some(
                    told.last().diagnostic,
                )
        }),
{
    let told = terminal_diagnostics(rendered, results, true, deadline_exhausted);
    let errors = file_errors(results, results.len());
    let before: int = if deadline_exhausted > 0 {
        1
    } else {
        0
    };
    if let Some(error) = results[at].error {
        lemma_file_errors(results, results.len(), at);
        let i = choose|i: int| 0 <= i < errors.len() && errors[i] == error;
        assert(told[before + i] == RunDiagnosticRecordView {
            severity: DiagnosticSeverity::Warning,
            diagnostic: error,
        });
        assert(errors.contains(errors[0]));
        lemma_file_errors_come_from_files(results, results.len(), errors[0]);
        if rendered.included_file_count == 0 {
            assert(told.last().diagnostic == errors[0]);
        }
    }
}

/// A projection is of what was recorded: each warning and each error that it reports is one
/// of the records, but for the one that stands for those that were folded, and the errors
/// are reported in full.
pub proof fn law_projection_reports_what_was_recorded(
    records: Seq<RunDiagnosticRecordView>,
    at: int,
)
    requires
        0 <= at < records.len(),
    ensures
        records[at].severity == DiagnosticSeverity::Error ==> projected(records).contains(
            records[at],
        ),
        records[at].severity == DiagnosticSeverity::Warning && records.len()
            <= MAX_DETAIL_WARNINGS ==> projected(records).contains(records[at]),
        records.len() <= MAX_DETAIL_WARNINGS ==> forall|i: int|
            0 <= i < projected(records).len() ==> records.contains(
                #[trigger] projected(records)[i],
            ),
{
    let warns = |record: RunDiagnosticRecordView| record.severity == DiagnosticSeverity::Warning;
    let errs = |record: RunDiagnosticRecordView| record.severity == DiagnosticSeverity::Error;
    let shown = projected(records);
    records.lemma_filter_len(warns);
    if records[at].severity == DiagnosticSeverity::Error {
        records.lemma_filter_contains(errs, at);
        let errors = errors_of(records);
        let i = choose|i: int| 0 <= i < errors.len() && errors[i] == records[at];
        assert(shown[shown.len() - errors.len() + i] == errors[i]);
    } else if records.len() <= MAX_DETAIL_WARNINGS {
        records.lemma_filter_contains(warns, at);
        let warnings = warnings_of(records);
        let i = choose|i: int| 0 <= i < warnings.len() && warnings[i] == records[at];
        assert(shown[i] == warnings[i]);
    }
    if records.len() <= MAX_DETAIL_WARNINGS {
        assert forall|i: int| 0 <= i < shown.len() implies records.contains(
            #[trigger] shown[i],
        ) by {
            let warnings = warnings_of(records);
            if i < warnings.len() {
                assert(warnings.contains(shown[i]));
                records.lemma_filter_contains_rev(warns, shown[i]);
            } else {
                assert(errors_of(records)[i - warnings.len()] == shown[i]);
                assert(errors_of(records).contains(shown[i]));
                records.lemma_filter_contains_rev(errs, shown[i]);
            }
        }
    }
}

/// Diagnostics that are folded into one are told as a warning of their number that may be
/// retried exactly where one of them may.
pub proof fn law_folded_diagnostics_are_counted(folded: Seq<RunDiagnosticRecordView>)
    ensures
        ({
            let one = aggregate_of(folded);
            &&& one.severity == DiagnosticSeverity::Warning
            &&& one.diagnostic.error_code == ErrorCode::DiagnosticsAggregated
            &&& one.diagnostic.retryable <==> exists|i: int|
                0 <= i < folded.len() && (#[trigger] folded[i]).diagnostic.retryable
            &&& one.diagnostic.message.len() <= MAX_MESSAGE_CHARS
            &&& one.diagnostic.file_path is None
        }),
        ({
            let start = "aggregated "@ + decimal(folded.len()) + " diagnostics: "@;
            folded_message(folded).take(start.len() as int) == start
        }),
{
    let start = "aggregated "@ + decimal(folded.len()) + " diagnostics: "@;
    assert(folded_message(folded).take(start.len() as int) =~= start);
}

/// Groups of diagnostics are told by stage, then by code, then with those first that are not
/// worth another try; of two different groups one comes first.
pub proof fn law_groups_have_an_order(left: GroupKey, right: GroupKey)
    ensures
        text_less(left.stage.text_spec(), right.stage.text_spec()) ==> key_before(left, right),
        left.stage == right.stage && text_less(
            left.error_code.text_spec(),
            right.error_code.text_spec(),
        ) ==> key_before(left, right),
        left.stage == right.stage && left.error_code == right.error_code ==> (key_before(
            left,
            right,
        ) <==> !left.retryable && right.retryable),
        key_before(left, right) ==> !key_before(right, left),
{
    crate::ordered::law_order_irreflexive(left.stage.text_spec());
    crate::ordered::law_order_irreflexive(left.error_code.text_spec());
    if key_before(left, right) && key_before(right, left) {
        if left.stage.text_spec() != right.stage.text_spec() {
            crate::ordered::law_order_transitive(
                left.stage.text_spec(),
                right.stage.text_spec(),
                left.stage.text_spec(),
            );
        } else if left.error_code.text_spec() != right.error_code.text_spec() {
            crate::ordered::law_order_transitive(
                left.error_code.text_spec(),
                right.error_code.text_spec(),
                left.error_code.text_spec(),
            );
        }
    }
}

} // verus!
