//! How the rows of a finished run hang together: its context, its files, its
//! decisions and its metrics.
use crate::contract::{
    views, ContextAction, ContextDecisionRecord, ContextDecisionRecordView, ContextRunRecord,
    ContextRunRecordView, ContextSummary, ExtensionMetric, ExtensionMetricView, ParseStatus,
    RunStatus, StageMetric, StageName,
};
use crate::hash::{content_hash, content_sha256};
use crate::ordered::{lemma_position, position, TextIndex, TextMap};
use crate::store::inventory::{
    FileResultRecord, FileResultRecordView, InventoryRecord, InventoryRecordView, MAX_STORED,
};
use crate::store::run::{stored_terminal_status, terminal_status, StoreError, StoreErrorView};
use crate::text::{char_count, is_sha256, is_sha256_text, text_eq};
use vstd::prelude::*;

verus! {

/// The most rows of a kind that one run commits.
pub const MAX_FINAL_ROWS: usize = 1_000_000;

/// A check passed, or the request was refused with the given message.
pub open spec fn refused_with(verdict: Result<(), StoreError>, fault: Option<Seq<char>>) -> bool {
    match fault {
        None => verdict is Ok,
        Some(message) => verdict is Err && verdict->Err_0@ == StoreErrorView::InvalidRequest(
            message,
        ),
    }
}

/// The first fault of two checks that are made in order.
pub open spec fn first_fault(first: Option<Seq<char>>, second: Option<Seq<char>>) -> Option<
    Seq<char>,
> {
    if first is Some {
        first
    } else {
        second
    }
}

/// What a verdict of the wire contract objects to.
pub open spec fn objection(verdict: Result<(), String>) -> Option<Seq<char>> {
    match verdict {
        Ok(_) => None,
        Err(message) => Some(message@),
    }
}

/// The identities of the inventory rows.
pub open spec fn inventory_ids(rows: Seq<InventoryRecordView>) -> Seq<Seq<char>> {
    rows.map_values(|row: InventoryRecordView| row.file_identity)
}

/// The identities of the file results.
pub open spec fn result_ids(rows: Seq<FileResultRecordView>) -> Seq<Seq<char>> {
    rows.map_values(|row: FileResultRecordView| row.file_identity)
}

/// The identities of the decisions.
pub open spec fn decision_ids(rows: Seq<ContextDecisionRecordView>) -> Seq<Seq<char>> {
    rows.map_values(|row: ContextDecisionRecordView| row.file_identity)
}

// ---------------------------------------------------------------------------
// The context by itself
// ---------------------------------------------------------------------------

/// Every number of the summary fits into a stored integer.
pub open spec fn summary_fits(summary: ContextSummary) -> bool {
    &&& summary.source_file_count <= MAX_STORED
    &&& summary.success_count <= MAX_STORED
    &&& summary.timeout_count <= MAX_STORED
    &&& summary.included_file_count <= MAX_STORED
    &&& summary.omitted_file_count <= MAX_STORED
    &&& summary.error_file_count <= MAX_STORED
    &&& summary.input_chars <= MAX_STORED
    &&& summary.output_chars <= MAX_STORED
    &&& summary.total_duration_ms <= MAX_STORED
    &&& summary.discovery_duration_ms <= MAX_STORED
    &&& summary.parse_duration_ms <= MAX_STORED
    &&& summary.compression_duration_ms <= MAX_STORED
}

/// Whether every number of the summary fits into a stored integer.
pub fn summary_fits_sqlite(summary: &ContextSummary) -> (fits: bool)
    ensures
        fits == summary_fits(*summary),
{
    summary.source_file_count <= MAX_STORED && summary.success_count <= MAX_STORED
        && summary.timeout_count <= MAX_STORED && summary.included_file_count <= MAX_STORED
        && summary.omitted_file_count <= MAX_STORED && summary.error_file_count <= MAX_STORED
        && summary.input_chars <= MAX_STORED && summary.output_chars <= MAX_STORED
        && summary.total_duration_ms <= MAX_STORED && summary.discovery_duration_ms <= MAX_STORED
        && summary.parse_duration_ms <= MAX_STORED && summary.compression_duration_ms <= MAX_STORED
}

/// What is wrong with the decisions from `from` on.
pub open spec fn decisions_fault(
    decisions: Seq<ContextDecisionRecordView>,
    verdicts: Seq<Result<(), String>>,
    from: int,
) -> Option<Seq<char>>
    decreases decisions.len() - from,
{
    if from < 0 || from >= decisions.len() {
        None
    } else {
        let record = decisions[from];
        if objection(verdicts[from]) is Some {
            objection(verdicts[from])
        } else if record.file_identity.len() == 0 || position(
            decision_ids(decisions.take(from)),
            record.file_identity,
            0,
        ) is Some {
            Some("context decision identity is invalid or duplicate"@)
        } else if record.decision.priority > MAX_STORED || record.decision.input_chars > MAX_STORED
            || record.decision.output_chars > MAX_STORED {
            Some("context decision exceeds SQLite integer range"@)
        } else {
            decisions_fault(decisions, verdicts, from + 1)
        }
    }
}

/// What is wrong with a context by itself, given the verdicts of the wire contract
/// on its summary and on its decisions.
pub open spec fn context_fault(
    context: ContextRunRecordView,
    summary_verdict: Result<(), String>,
    decision_verdicts: Seq<Result<(), String>>,
) -> Option<Seq<char>> {
    if terminal_status(context.status) is Err {
        Some("final status must be success, partial, or error"@)
    } else if context.decisions.len() > MAX_FINAL_ROWS {
        Some("context decision count exceeds the v1 limit"@)
    } else if objection(summary_verdict) is Some {
        objection(summary_verdict)
    } else if !is_sha256_text(context.context_profile_hash) || !is_sha256_text(
        context.context_sha256,
    ) || content_sha256(context.final_context) != context.context_sha256 || !summary_fits(
        context.summary,
    ) {
        Some("context fingerprint is invalid"@)
    } else {
        decisions_fault(context.decisions, decision_verdicts, 0)
    }
}

/// Checks a context by itself.
pub fn validate_context(
    context: &ContextRunRecord,
    summary_verdict: &Result<(), String>,
    decision_verdicts: &Vec<Result<(), String>>,
) -> (verdict: Result<(), StoreError>)
    requires
        decision_verdicts@.len() == context.decisions@.len(),
    ensures
        refused_with(
            verdict,
            context_fault(context@, *summary_verdict, decision_verdicts@),
        ),
{
    assert(context@.decisions.len() == context.decisions.len());
    if let Err(error) = stored_terminal_status(context.status) {
        return Err(error);
    }
    if context.decisions.len() > MAX_FINAL_ROWS {
        return Err(StoreError::invalid("context decision count exceeds the v1 limit"));
    }
    if let Err(message) = summary_verdict {
        return Err(StoreError::invalid(message.as_str()));
    }
    let hash: String = content_hash(context.final_context.as_str());
    if !is_sha256(context.context_profile_hash.as_str()) || !is_sha256(
        context.context_sha256.as_str(),
    ) || !text_eq(hash.as_str(), context.context_sha256.as_str()) || !summary_fits_sqlite(
        &context.summary,
    ) {
        return Err(StoreError::invalid("context fingerprint is invalid"));
    }
    let ghost decisions = context@.decisions;
    let mut seen = TextIndex::new();
    let mut i: usize = 0;
    assert(decision_ids(decisions.take(0)) =~= Seq::<Seq<char>>::empty());
    while i < context.decisions.len()
        invariant
            i <= context.decisions.len(),
            context.decisions.len() <= MAX_FINAL_ROWS,
            decision_verdicts@.len() == context.decisions@.len(),
            decisions == context@.decisions,
            context_fault(context@, *summary_verdict, decision_verdicts@) == decisions_fault(
                decisions,
                decision_verdicts@,
                0,
            ),
            seen@ == decision_ids(decisions.take(i as int)),
            decisions_fault(decisions, decision_verdicts@, 0) == decisions_fault(
                decisions,
                decision_verdicts@,
                i as int,
            ),
        decreases context.decisions.len() - i,
    {
        let record: &ContextDecisionRecord = &context.decisions[i];
        assert(decisions[i as int] == record@);
        if let Err(message) = &decision_verdicts[i] {
            return Err(StoreError::invalid(message.as_str()));
        }
        if record.file_identity.as_str().is_empty() {
            return Err(StoreError::invalid("context decision identity is invalid or duplicate"));
        }
        assert(seen@.len() == i);
        let added: bool = seen.add_at(record.file_identity.as_str(), i);
        if !added {
            return Err(StoreError::invalid("context decision identity is invalid or duplicate"));
        }
        if record.decision.priority > MAX_STORED || record.decision.input_chars > MAX_STORED
            || record.decision.output_chars > MAX_STORED {
            return Err(StoreError::invalid("context decision exceeds SQLite integer range"));
        }
        assert(decision_ids(decisions.take(i + 1)) =~= decision_ids(decisions.take(i as int)).push(
            record@.file_identity,
        ));
        i = i + 1;
    }
    Ok(())
}

// ---------------------------------------------------------------------------
// Counts
// ---------------------------------------------------------------------------

/// How many of the first `count` results have the status.
pub open spec fn count_status(
    results: Seq<FileResultRecordView>,
    status: ParseStatus,
    count: nat,
) -> nat
    decreases count,
{
    if count == 0 {
        0
    } else {
        count_status(results, status, (count - 1) as nat) + if results[count - 1].parse_status
            == status {
            1nat
        } else {
            0
        }
    }
}

/// A file with this action is in the context.
pub open spec fn is_included(action: ContextAction) -> bool {
    action == ContextAction::Keep || action == ContextAction::Compress || action
        == ContextAction::MetadataOnly
}

/// How many of the first `count` decisions put their file into the context.
pub open spec fn count_included(decisions: Seq<ContextDecisionRecordView>, count: nat) -> nat
    decreases count,
{
    if count == 0 {
        0
    } else {
        count_included(decisions, (count - 1) as nat) + if is_included(
            decisions[count - 1].decision.action,
        ) {
            1nat
        } else {
            0
        }
    }
}

/// How many of the first `count` decisions have the action.
pub open spec fn count_action(
    decisions: Seq<ContextDecisionRecordView>,
    action: ContextAction,
    count: nat,
) -> nat
    decreases count,
{
    if count == 0 {
        0
    } else {
        count_action(decisions, action, (count - 1) as nat) + if decisions[count
            - 1].decision.action == action {
            1nat
        } else {
            0
        }
    }
}

/// The input characters of the first `count` decisions.
pub open spec fn input_total(decisions: Seq<ContextDecisionRecordView>, count: nat) -> nat
    decreases count,
{
    if count == 0 {
        0
    } else {
        input_total(decisions, (count - 1) as nat) + decisions[count
            - 1].decision.input_chars as nat
    }
}

proof fn lemma_input_grows(decisions: Seq<ContextDecisionRecordView>, low: nat, high: nat)
    requires
        low <= high <= decisions.len(),
    ensures
        input_total(decisions, low) <= input_total(decisions, high),
    decreases high,
{
    if low < high {
        lemma_input_grows(decisions, low, (high - 1) as nat);
    }
}

proof fn lemma_status_counts(results: Seq<FileResultRecordView>, count: nat)
    ensures
        count_status(results, ParseStatus::Success, count) + count_status(
            results,
            ParseStatus::Timeout,
            count,
        ) + count_status(results, ParseStatus::Error, count) + count_status(
            results,
            ParseStatus::NotParsed,
            count,
        ) == count,
    decreases count,
{
    if count > 0 {
        lemma_status_counts(results, (count - 1) as nat);
    }
}

proof fn lemma_action_counts(decisions: Seq<ContextDecisionRecordView>, count: nat)
    ensures
        count_included(decisions, count) + count_action(decisions, ContextAction::Omit, count)
            + count_action(decisions, ContextAction::Error, count) == count,
    decreases count,
{
    if count > 0 {
        lemma_action_counts(decisions, (count - 1) as nat);
    }
}

#[derive(Clone, Copy)]
struct StatusCounts {
    success: u64,
    timeout: u64,
    error: u64,
    not_parsed: u64,
}

fn count_results(results: &Vec<FileResultRecord>) -> (counts: StatusCounts)
    ensures
        counts.success == count_status(views(results@), ParseStatus::Success, results@.len()),
        counts.timeout == count_status(views(results@), ParseStatus::Timeout, results@.len()),
        counts.error == count_status(views(results@), ParseStatus::Error, results@.len()),
        counts.not_parsed == count_status(views(results@), ParseStatus::NotParsed, results@.len()),
        counts.success + counts.timeout + counts.error + counts.not_parsed == results@.len(),
{
    let ghost rows = views(results@);
    let mut counts = StatusCounts { success: 0, timeout: 0, error: 0, not_parsed: 0 };
    let mut i: usize = 0;
    while i < results.len()
        invariant
            i <= results.len(),
            rows == views(results@),
            counts.success == count_status(rows, ParseStatus::Success, i as nat),
            counts.timeout == count_status(rows, ParseStatus::Timeout, i as nat),
            counts.error == count_status(rows, ParseStatus::Error, i as nat),
            counts.not_parsed == count_status(rows, ParseStatus::NotParsed, i as nat),
        decreases results.len() - i,
    {
        assert(rows[i as int] == results@[i as int]@);
        proof {
            lemma_status_counts(rows, i as nat);
        }
        match results[i].parse_status {
            ParseStatus::Success => {
                counts.success = counts.success + 1;
            },
            ParseStatus::Timeout => {
                counts.timeout = counts.timeout + 1;
            },
            ParseStatus::Error => {
                counts.error = counts.error + 1;
            },
            ParseStatus::NotParsed => {
                counts.not_parsed = counts.not_parsed + 1;
            },
        }
        i = i + 1;
    }
    proof {
        lemma_status_counts(rows, rows.len());
    }
    counts
}

#[derive(Clone, Copy)]
struct DecisionCounts {
    included: u64,
    omitted: u64,
    error: u64,
    input_chars: Option<u64>,
}

fn count_decisions(decisions: &Vec<ContextDecisionRecord>) -> (counts: DecisionCounts)
    ensures
        counts.included == count_included(views(decisions@), decisions@.len()),
        counts.omitted == count_action(views(decisions@), ContextAction::Omit, decisions@.len()),
        counts.error == count_action(views(decisions@), ContextAction::Error, decisions@.len()),
        match counts.input_chars {
            Some(total) => total == input_total(views(decisions@), decisions@.len()),
            None => input_total(views(decisions@), decisions@.len()) > u64::MAX,
        },
{
    let ghost rows = views(decisions@);
    let mut included: u64 = 0;
    let mut omitted: u64 = 0;
    let mut error: u64 = 0;
    let mut input_chars: Option<u64> = Some(0);
    let mut i: usize = 0;
    while i < decisions.len()
        invariant
            i <= decisions.len(),
            rows == views(decisions@),
            included == count_included(rows, i as nat),
            omitted == count_action(rows, ContextAction::Omit, i as nat),
            error == count_action(rows, ContextAction::Error, i as nat),
            match input_chars {
                Some(total) => total == input_total(rows, i as nat),
                None => input_total(rows, i as nat) > u64::MAX,
            },
        decreases decisions.len() - i,
    {
        assert(rows[i as int] == decisions@[i as int]@);
        proof {
            lemma_action_counts(rows, i as nat);
        }
        match decisions[i].decision.action {
            ContextAction::Omit => {
                omitted = omitted + 1;
            },
            ContextAction::Error => {
                error = error + 1;
            },
            _ => {
                included = included + 1;
            },
        }
        input_chars = match input_chars {
            Some(total) => total.checked_add(decisions[i].decision.input_chars),
            None => None,
        };
        i = i + 1;
    }
    DecisionCounts { included, omitted, error, input_chars }
}

/// The first decision, counted from `from`, whose file is not in the inventory, or
/// is there under another path.
pub open spec fn decision_paths_fault(
    decisions: Seq<ContextDecisionRecordView>,
    inventory: Seq<InventoryRecordView>,
    from: int,
) -> Option<Seq<char>>
    decreases decisions.len() - from,
{
    if from < 0 || from >= decisions.len() {
        None
    } else {
        match position(inventory_ids(inventory), decisions[from].file_identity, 0) {
            None => Some("decision inventory is missing"@),
            Some(at) => if inventory[at].relative_path != decisions[from].decision.relative_path {
                Some("decision path disagrees with inventory"@)
            } else {
                decision_paths_fault(decisions, inventory, from + 1)
            },
        }
    }
}

fn check_decision_paths(
    decisions: &Vec<ContextDecisionRecord>,
    inventory: &Vec<InventoryRecord>,
    index: &TextIndex,
) -> (verdict: Result<(), StoreError>)
    requires
        index@ == inventory_ids(views(inventory@)),
    ensures
        refused_with(
            verdict,
            decision_paths_fault(views(decisions@), views(inventory@), 0),
        ),
{
    let ghost rows = views(decisions@);
    let ghost known = views(inventory@);
    let mut i: usize = 0;
    while i < decisions.len()
        invariant
            i <= decisions.len(),
            rows == views(decisions@),
            known == views(inventory@),
            index@ == inventory_ids(known),
            decision_paths_fault(rows, known, 0) == decision_paths_fault(rows, known, i as int),
        decreases decisions.len() - i,
    {
        let record: &ContextDecisionRecord = &decisions[i];
        assert(rows[i as int] == record@);
        match index.get(record.file_identity.as_str()) {
            None => {
                return Err(StoreError::invalid("decision inventory is missing"));
            },
            Some(at) => {
                assert(known[at as int] == inventory@[at as int]@);
                if !text_eq(
                    inventory[at].relative_path.as_str(),
                    record.decision.relative_path.as_str(),
                ) {
                    return Err(StoreError::invalid("decision path disagrees with inventory"));
                }
            },
        }
        i = i + 1;
    }
    Ok(())
}

/// The summary of a context counts what its files and decisions are: every file
/// that was parsed is included, every file that was not is omitted, and every one
/// that failed or timed out is reported as an error.
pub open spec fn summary_counts_hold(
    context: ContextRunRecordView,
    results: Seq<FileResultRecordView>,
) -> bool {
    let summary = context.summary;
    let success = count_status(results, ParseStatus::Success, results.len());
    let timeout = count_status(results, ParseStatus::Timeout, results.len());
    let error = count_status(results, ParseStatus::Error, results.len());
    let not_parsed = results.len() - success - timeout - error;
    let included = count_included(context.decisions, context.decisions.len());
    let omitted = count_action(context.decisions, ContextAction::Omit, context.decisions.len());
    let failed = count_action(context.decisions, ContextAction::Error, context.decisions.len());
    &&& summary.success_count == success
    &&& summary.timeout_count == timeout
    &&& summary.error_file_count == error
    &&& summary.included_file_count == included
    &&& summary.omitted_file_count == omitted
    &&& included == success
    &&& omitted == not_parsed
    &&& failed == error + timeout
    &&& included + omitted + failed == context.decisions.len()
    &&& summary.input_chars == input_total(context.decisions, context.decisions.len())
    &&& summary.output_chars == context.final_context.len()
}

// ---------------------------------------------------------------------------
// Stage metrics
// ---------------------------------------------------------------------------

/// The first metric of the stage.
pub open spec fn stage_metric(metrics: Seq<StageMetric>, stage: StageName, from: int) -> Option<
    StageMetric,
>
    decreases metrics.len() - from,
{
    if from < 0 || from >= metrics.len() {
        None
    } else if metrics[from].stage == stage {
        Some(metrics[from])
    } else {
        stage_metric(metrics, stage, from + 1)
    }
}

fn find_stage(metrics: &Vec<StageMetric>, stage: StageName) -> (metric: Option<StageMetric>)
    ensures
        metric == stage_metric(metrics@, stage, 0),
{
    let mut i: usize = 0;
    while i < metrics.len()
        invariant
            i <= metrics.len(),
            stage_metric(metrics@, stage, 0) == stage_metric(metrics@, stage, i as int),
        decreases metrics.len() - i,
    {
        if metrics[i].stage == stage {
            return Some(metrics[i]);
        }
        i = i + 1;
    }
    None
}

/// There is one metric for each of the four stages, and they tell of as many items
/// and as long a time as the summary does.
pub open spec fn stage_metrics_hold(
    metrics: Seq<StageMetric>,
    summary: ContextSummary,
    decision_count: nat,
) -> bool {
    &&& metrics.len() == 4
    &&& stage_metric(metrics, StageName::Discovery, 0) matches Some(discovery)
        && discovery.item_count == summary.source_file_count && discovery.duration_ms
        == summary.discovery_duration_ms
    &&& stage_metric(metrics, StageName::Cache, 0) matches Some(cache) && cache.item_count
        == summary.source_file_count
    &&& stage_metric(metrics, StageName::Parse, 0) matches Some(parse) && parse.duration_ms
        == summary.parse_duration_ms
    &&& stage_metric(metrics, StageName::Context, 0) matches Some(context) && context.item_count
        == decision_count && context.duration_ms == summary.compression_duration_ms
}

/// Milliseconds of the first `count` stages together.
pub open spec fn stage_total(metrics: Seq<StageMetric>, count: nat) -> nat
    decreases count,
{
    if count == 0 {
        0
    } else {
        stage_total(metrics, (count - 1) as nat) + metrics[count - 1].duration_ms as nat
    }
}

/// What is wrong with the stage metrics of a context.
pub open spec fn stages_fault(
    metrics: Seq<StageMetric>,
    summary: ContextSummary,
    decision_count: nat,
) -> Option<Seq<char>> {
    if !stage_metrics_hold(metrics, summary, decision_count) {
        Some("context summary disagrees with stage metrics"@)
    } else if stage_total(metrics, metrics.len()) > u64::MAX {
        Some("stage durations overflow"@)
    } else if summary.total_duration_ms < stage_total(metrics, metrics.len()) {
        Some("total duration is shorter than its stages"@)
    } else {
        None
    }
}

fn check_stages(metrics: &Vec<StageMetric>, summary: &ContextSummary, decision_count: u64) -> (
verdict: Result<(), StoreError>)
    ensures
        refused_with(verdict, stages_fault(metrics@, *summary, decision_count as nat)),
{
    let discovery: bool = match find_stage(metrics, StageName::Discovery) {
        Some(metric) => metric.item_count == summary.source_file_count && metric.duration_ms
            == summary.discovery_duration_ms,
        None => false,
    };
    let cache: bool = match find_stage(metrics, StageName::Cache) {
        Some(metric) => metric.item_count == summary.source_file_count,
        None => false,
    };
    let parse: bool = match find_stage(metrics, StageName::Parse) {
        Some(metric) => metric.duration_ms == summary.parse_duration_ms,
        None => false,
    };
    let context: bool = match find_stage(metrics, StageName::Context) {
        Some(metric) => metric.item_count == decision_count && metric.duration_ms
            == summary.compression_duration_ms,
        None => false,
    };
    if metrics.len() != 4 || !discovery || !cache || !parse || !context {
        return Err(StoreError::invalid("context summary disagrees with stage metrics"));
    }
    let mut total: u128 = 0;
    let mut i: usize = 0;
    while i < 4
        invariant
            i <= 4,
            metrics@.len() == 4,
            total == stage_total(metrics@, i as nat),
            total <= i * u64::MAX,
        decreases 4 - i,
    {
        total = total + metrics[i].duration_ms as u128;
        i = i + 1;
    }
    if total > u64::MAX as u128 {
        return Err(StoreError::invalid("stage durations overflow"));
    }
    if (summary.total_duration_ms as u128) < total {
        return Err(StoreError::invalid("total duration is shorter than its stages"));
    }
    Ok(())
}

// ---------------------------------------------------------------------------
// Extension metrics
// ---------------------------------------------------------------------------

/// What the files of one extension come to.
pub struct Tally {
    pub files: nat,
    pub duration_ms: nat,
    pub success: nat,
    pub error: nat,
    pub timeout: nat,
}

/// What the files of the extension among the first `count` inventory rows come to.
pub open spec fn tally_of(
    inventory: Seq<InventoryRecordView>,
    results: Seq<FileResultRecordView>,
    extension: Seq<char>,
    count: nat,
) -> Tally
    decreases count,
{
    if count == 0 {
        Tally { files: 0, duration_ms: 0, success: 0, error: 0, timeout: 0 }
    } else {
        let earlier = tally_of(inventory, results, extension, (count - 1) as nat);
        if inventory[count - 1].file_type != extension {
            earlier
        } else {
            let result = results[position(
                result_ids(results),
                inventory[count - 1].file_identity,
                0,
            )->0];
            Tally {
                files: earlier.files + 1,
                duration_ms: earlier.duration_ms + result.parse_duration_ms as nat,
                success: earlier.success + if result.parse_status == ParseStatus::Success {
                    1nat
                } else {
                    0
                },
                error: earlier.error + if result.parse_status == ParseStatus::Error {
                    1nat
                } else {
                    0
                },
                timeout: earlier.timeout + if result.parse_status == ParseStatus::Timeout {
                    1nat
                } else {
                    0
                },
            }
        }
    }
}

proof fn lemma_tally_grows(
    inventory: Seq<InventoryRecordView>,
    results: Seq<FileResultRecordView>,
    extension: Seq<char>,
    low: nat,
    high: nat,
)
    requires
        low <= high <= inventory.len(),
    ensures
        tally_of(inventory, results, extension, low).duration_ms <= tally_of(
            inventory,
            results,
            extension,
            high,
        ).duration_ms,
    decreases high,
{
    if low < high {
        lemma_tally_grows(inventory, results, extension, low, (high - 1) as nat);
    }
}

proof fn lemma_tally_counts(
    inventory: Seq<InventoryRecordView>,
    results: Seq<FileResultRecordView>,
    extension: Seq<char>,
    count: nat,
)
    ensures
        ({
            let tally = tally_of(inventory, results, extension, count);
            &&& tally.files <= count
            &&& tally.success <= tally.files
            &&& tally.error <= tally.files
            &&& tally.timeout <= tally.files
        }),
    decreases count,
{
    if count > 0 {
        lemma_tally_counts(inventory, results, extension, (count - 1) as nat);
    }
}

/// The extensions of the inventory.
pub open spec fn extensions_of(inventory: Seq<InventoryRecordView>) -> Set<Seq<char>> {
    inventory.map_values(|row: InventoryRecordView| row.file_type).to_set()
}

/// The metric tells what the files of its extension come to.
pub open spec fn metric_holds(
    metric: ExtensionMetricView,
    inventory: Seq<InventoryRecordView>,
    results: Seq<FileResultRecordView>,
) -> bool {
    let tally = tally_of(inventory, results, metric.extension, inventory.len());
    &&& extensions_of(inventory).contains(metric.extension)
    &&& metric.file_count == tally.files
    &&& metric.parse_duration_ms == tally.duration_ms
    &&& metric.success_count == tally.success
    &&& metric.error_count == tally.error
    &&& metric.timeout_count == tally.timeout
}

/// Some file of the inventory has no result.
pub open spec fn result_missing(
    inventory: Seq<InventoryRecordView>,
    results: Seq<FileResultRecordView>,
) -> bool {
    exists|i: int|
        0 <= i < inventory.len() && position(
            result_ids(results),
            (#[trigger] inventory[i]).file_identity,
            0,
        ) is None
}

/// The files of some extension took longer than can be told.
pub open spec fn extension_overflows(
    inventory: Seq<InventoryRecordView>,
    results: Seq<FileResultRecordView>,
) -> bool {
    exists|i: int|
        0 <= i < inventory.len() && tally_of(
            inventory,
            results,
            (#[trigger] inventory[i]).file_type,
            inventory.len(),
        ).duration_ms > u64::MAX
}

/// What is wrong with the extension metrics of a context.
pub open spec fn extensions_fault(
    metrics: Seq<ExtensionMetricView>,
    inventory: Seq<InventoryRecordView>,
    results: Seq<FileResultRecordView>,
) -> Option<Seq<char>> {
    if result_missing(inventory, results) {
        Some("extension metric file result is missing"@)
    } else if extension_overflows(inventory, results) {
        Some("extension duration overflows"@)
    } else if metrics.len() != extensions_of(inventory).len() || exists|i: int|
        0 <= i < metrics.len() && !metric_holds(#[trigger] metrics[i], inventory, results) {
        Some("context summary disagrees with extension metrics"@)
    } else {
        None
    }
}

#[derive(Clone, Copy)]
struct ExtensionTally {
    files: u64,
    duration_ms: u64,
    success: u64,
    error: u64,
    timeout: u64,
}

spec fn tells(tally: ExtensionTally, wanted: Tally) -> bool {
    &&& tally.files == wanted.files
    &&& tally.duration_ms == wanted.duration_ms
    &&& tally.success == wanted.success
    &&& tally.error == wanted.error
    &&& tally.timeout == wanted.timeout
}

spec fn tallied(
    tallies: Map<Seq<char>, ExtensionTally>,
    inventory: Seq<InventoryRecordView>,
    results: Seq<FileResultRecordView>,
    count: nat,
) -> bool {
    &&& tallies.dom() =~= extensions_of(inventory.take(count as int))
    &&& forall|extension: Seq<char>| #[trigger]
        tallies.contains_key(extension) ==> tells(
            tallies[extension],
            tally_of(inventory, results, extension, count),
        )
}

proof fn lemma_extensions_step(inventory: Seq<InventoryRecordView>, count: nat)
    requires
        count < inventory.len(),
    ensures
        extensions_of(inventory.take(count as int + 1)) == extensions_of(
            inventory.take(count as int),
        ).insert(inventory[count as int].file_type),
{
    let types = |row: InventoryRecordView| row.file_type;
    let before = inventory.take(count as int).map_values(types);
    let after = inventory.take(count as int + 1).map_values(types);
    let added = inventory[count as int].file_type;
    assert(after =~= before.push(added));
    assert forall|e: Seq<char>| after.contains(e) <==> (before.contains(e) || e == added) by {
        if after.contains(e) {
            let i = choose|i: int| 0 <= i < after.len() && after[i] == e;
            if i < before.len() {
                assert(before[i] == e);
            }
        }
        if before.contains(e) {
            let i = choose|i: int| 0 <= i < before.len() && before[i] == e;
            assert(after[i] == e);
        }
        assert(after[before.len() as int] == added);
    }
    assert(after.to_set() =~= before.to_set().insert(added));
}

proof fn lemma_absent_tally(
    inventory: Seq<InventoryRecordView>,
    results: Seq<FileResultRecordView>,
    extension: Seq<char>,
    count: nat,
)
    requires
        count <= inventory.len(),
        !extensions_of(inventory.take(count as int)).contains(extension),
    ensures
        tally_of(inventory, results, extension, count) == (Tally {
            files: 0,
            duration_ms: 0,
            success: 0,
            error: 0,
            timeout: 0,
        }),
    decreases count,
{
    if count > 0 {
        lemma_extensions_step(inventory, (count - 1) as nat);
        lemma_absent_tally(inventory, results, extension, (count - 1) as nat);
    }
}

fn check_extensions(
    metrics: &Vec<ExtensionMetric>,
    inventory: &Vec<InventoryRecord>,
    results: &Vec<FileResultRecord>,
    result_index: &TextIndex,
) -> (verdict: Result<(), StoreError>)
    requires
        result_index@ == result_ids(views(results@)),
    ensures
        refused_with(
            verdict,
            extensions_fault(views(metrics@), views(inventory@), views(results@)),
        ),
{
    let ghost files = views(inventory@);
    let ghost known = views(results@);
    let ghost told = views(metrics@);
    let mut k: usize = 0;
    while k < inventory.len()
        invariant
            k <= inventory.len(),
            files == views(inventory@),
            known == views(results@),
            result_index@ == result_ids(known),
            forall|i: int|
                0 <= i < k ==> position(
                    result_ids(known),
                    (#[trigger] files[i]).file_identity,
                    0,
                ) is Some,
        decreases inventory.len() - k,
    {
        assert(files[k as int] == inventory@[k as int]@);
        if result_index.get(inventory[k].file_identity.as_str()).is_none() {
            return Err(StoreError::invalid("extension metric file result is missing"));
        }
        k = k + 1;
    }
    assert(!result_missing(files, known));
    let mut tallies: TextMap<ExtensionTally> = TextMap::new();
    let mut i: usize = 0;
    assert(files.take(0).map_values(|row: InventoryRecordView| row.file_type).to_set()
        =~= Set::<Seq<char>>::empty());
    while i < inventory.len()
        invariant
            i <= inventory.len(),
            files == views(inventory@),
            known == views(results@),
            result_index@ == result_ids(known),
            !result_missing(files, known),
            tallied(tallies@, files, known, i as nat),
        decreases inventory.len() - i,
    {
        let row: &InventoryRecord = &inventory[i];
        assert(files[i as int] == row@);
        let ghost e = row@.file_type;
        let at: usize = match result_index.get(row.file_identity.as_str()) {
            Some(at) => at,
            None => {
                assert(result_missing(files, known));
                0
            },
        };
        assert(known[at as int] == results@[at as int]@);
        let result: &FileResultRecord = &results[at];
        let earlier: ExtensionTally = match tallies.get(row.file_type.as_str()) {
            Some(tally) => *tally,
            None => ExtensionTally { files: 0, duration_ms: 0, success: 0, error: 0, timeout: 0 },
        };
        proof {
            if !tallies@.contains_key(e) {
                lemma_absent_tally(files, known, e, i as nat);
            }
            lemma_tally_counts(files, known, e, i as nat);
            lemma_tally_grows(files, known, e, (i + 1) as nat, files.len());
        }
        let duration_ms: u64 = match earlier.duration_ms.checked_add(result.parse_duration_ms) {
            Some(sum) => sum,
            None => {
                assert(extension_overflows(files, known));
                return Err(StoreError::invalid("extension duration overflows"));
            },
        };
        let mut tally: ExtensionTally = earlier;
        tally.files = earlier.files + 1;
        tally.duration_ms = duration_ms;
        match result.parse_status {
            ParseStatus::Success => {
                tally.success = earlier.success + 1;
            },
            ParseStatus::Error => {
                tally.error = earlier.error + 1;
            },
            ParseStatus::Timeout => {
                tally.timeout = earlier.timeout + 1;
            },
            ParseStatus::NotParsed => {},
        }
        let ghost before = tallies@;
        tallies.insert(row.file_type.clone(), tally);
        proof {
            lemma_extensions_step(files, i as nat);
            assert(tells(tally, tally_of(files, known, e, (i + 1) as nat)));
            assert forall|x: Seq<char>| #[trigger] tallies@.contains_key(x) implies tells(
                tallies@[x],
                tally_of(files, known, x, (i + 1) as nat),
            ) by {
                if x != e {
                    assert(before.contains_key(x));
                }
            }
        }
        i = i + 1;
    }
    assert(files.take(i as int) =~= files);
    proof {
        if extension_overflows(files, known) {
            let j = choose|j: int|
                0 <= j < files.len() && tally_of(
                    files,
                    known,
                    (#[trigger] files[j]).file_type,
                    files.len(),
                ).duration_ms > u64::MAX;
            let types = files.map_values(|row: InventoryRecordView| row.file_type);
            assert(types[j] == files[j].file_type);
            assert(types.contains(files[j].file_type));
            assert(tallies@.dom().contains(files[j].file_type));
            assert(tallies@.contains_key(files[j].file_type));
            assert(false);
        }
    }
    let count: usize = tallies.len();
    assert(tallies@.dom() =~= extensions_of(files));
    if metrics.len() != count {
        return Err(StoreError::invalid("context summary disagrees with extension metrics"));
    }
    let mut m: usize = 0;
    while m < metrics.len()
        invariant
            m <= metrics.len(),
            told == views(metrics@),
            files == views(inventory@),
            known == views(results@),
            tallied(tallies@, files, known, files.len()),
            files.take(files.len() as int) == files,
            forall|j: int| 0 <= j < m ==> metric_holds(#[trigger] told[j], files, known),
            !result_missing(files, known),
            !extension_overflows(files, known),
        decreases metrics.len() - m,
    {
        let metric: &ExtensionMetric = &metrics[m];
        assert(told[m as int] == metric@);
        let holds: bool = match tallies.get(metric.extension.as_str()) {
            None => false,
            Some(tally) => tally.files == metric.file_count && tally.duration_ms
                == metric.parse_duration_ms && tally.success == metric.success_count
                && tally.error == metric.error_count && tally.timeout == metric.timeout_count,
        };
        assert(holds == metric_holds(told[m as int], files, known));
        if !holds {
            return Err(StoreError::invalid("context summary disagrees with extension metrics"));
        }
        m = m + 1;
    }
    Ok(())
}

// ---------------------------------------------------------------------------
// All of it
// ---------------------------------------------------------------------------

/// What is wrong with how a context hangs together with its files, its decisions
/// and its metrics.
pub open spec fn relations_fault(
    context: ContextRunRecordView,
    inventory: Seq<InventoryRecordView>,
    results: Seq<FileResultRecordView>,
    stages: Seq<StageMetric>,
    extensions: Seq<ExtensionMetricView>,
) -> Option<Seq<char>> {
    if input_total(context.decisions, context.decisions.len()) > u64::MAX {
        Some("decision input count overflows"@)
    } else if decision_paths_fault(context.decisions, inventory, 0) is Some {
        decision_paths_fault(context.decisions, inventory, 0)
    } else if !summary_counts_hold(context, results) {
        Some("context summary disagrees with file or decision rows"@)
    } else {
        first_fault(
            stages_fault(stages, context.summary, context.decisions.len()),
            extensions_fault(extensions, inventory, results),
        )
    }
}

/// Checks how a context hangs together with its files, its decisions and its
/// metrics.
pub fn validate_context_relations(
    context: &ContextRunRecord,
    inventory: &Vec<InventoryRecord>,
    inventory_index: &TextIndex,
    file_results: &Vec<FileResultRecord>,
    result_index: &TextIndex,
    stage_metrics: &Vec<StageMetric>,
    extension_metrics: &Vec<ExtensionMetric>,
) -> (verdict: Result<(), StoreError>)
    requires
        inventory_index@ == inventory_ids(views(inventory@)),
        result_index@ == result_ids(views(file_results@)),
    ensures
        refused_with(
            verdict,
            relations_fault(
                context@,
                views(inventory@),
                views(file_results@),
                stage_metrics@,
                views(extension_metrics@),
            ),
        ),
{
    let ghost results = views(file_results@);
    assert(results.len() == file_results.len());
    assert(context@.decisions.len() == context.decisions.len());
    let files: StatusCounts = count_results(file_results);
    let decided: DecisionCounts = count_decisions(&context.decisions);
    let input_chars: u64 = match decided.input_chars {
        Some(total) => total,
        None => {
            return Err(StoreError::invalid("decision input count overflows"));
        },
    };
    if let Err(error) = check_decision_paths(&context.decisions, inventory, inventory_index) {
        return Err(error);
    }
    let decision_count: u64 = context.decisions.len() as u64;
    let output_chars: u64 = char_count(context.final_context.as_str()) as u64;
    proof {
        lemma_action_counts(context@.decisions, context@.decisions.len());
    }
    let summary: &ContextSummary = &context.summary;
    if summary.success_count != files.success || summary.timeout_count != files.timeout
        || summary.error_file_count != files.error || summary.included_file_count
        != decided.included || summary.omitted_file_count != decided.omitted || decided.included
        != files.success || decided.omitted != files.not_parsed || decided.error != files.error
        + files.timeout || decided.included + decided.omitted + decided.error != decision_count
        || summary.input_chars != input_chars || summary.output_chars != output_chars {
        return Err(StoreError::invalid("context summary disagrees with file or decision rows"));
    }
    if let Err(error) = check_stages(stage_metrics, summary, decision_count) {
        return Err(error);
    }
    check_extensions(extension_metrics, inventory, file_results, result_index)
}

/// Where the rows of a context hang together, every source file was parsed, failed,
/// timed out or was left unparsed, and every decision is about exactly one of these.
pub proof fn law_accepted_counts_add_up(
    context: ContextRunRecordView,
    inventory: Seq<InventoryRecordView>,
    results: Seq<FileResultRecordView>,
    stages: Seq<StageMetric>,
    extensions: Seq<ExtensionMetricView>,
)
    requires
        relations_fault(context, inventory, results, stages, extensions) is None,
    ensures
        context.summary.success_count + context.summary.timeout_count
            + context.summary.error_file_count + context.summary.omitted_file_count
            == results.len(),
        context.decisions.len() == results.len(),
        context.summary.included_file_count == context.summary.success_count,
{
}

proof fn lemma_count_status(results: Seq<FileResultRecordView>, status: ParseStatus, count: nat)
    requires
        count <= results.len(),
    ensures
        count_status(results, status, count) == results.take(count as int).filter(
            |row: FileResultRecordView| row.parse_status == status,
        ).len(),
    decreases count,
{
    reveal(Seq::filter);
    if count > 0 {
        lemma_count_status(results, status, (count - 1) as nat);
        assert(results.take(count as int).drop_last() =~= results.take(count - 1));
        assert(results.take(count as int).last() == results[count - 1]);
    }
}

proof fn lemma_count_action(
    decisions: Seq<ContextDecisionRecordView>,
    action: ContextAction,
    count: nat,
)
    requires
        count <= decisions.len(),
    ensures
        count_action(decisions, action, count) == decisions.take(count as int).filter(
            |row: ContextDecisionRecordView| row.decision.action == action,
        ).len(),
    decreases count,
{
    reveal(Seq::filter);
    if count > 0 {
        lemma_count_action(decisions, action, (count - 1) as nat);
        assert(decisions.take(count as int).drop_last() =~= decisions.take(count - 1));
        assert(decisions.take(count as int).last() == decisions[count - 1]);
    }
}

proof fn lemma_count_included(decisions: Seq<ContextDecisionRecordView>, count: nat)
    requires
        count <= decisions.len(),
    ensures
        count_included(decisions, count) == decisions.take(count as int).filter(
            |row: ContextDecisionRecordView|
                row.decision.action == ContextAction::Keep || row.decision.action
                    == ContextAction::Compress || row.decision.action
                    == ContextAction::MetadataOnly,
        ).len(),
    decreases count,
{
    reveal(Seq::filter);
    if count > 0 {
        lemma_count_included(decisions, (count - 1) as nat);
        assert(decisions.take(count as int).drop_last() =~= decisions.take(count - 1));
        assert(decisions.take(count as int).last() == decisions[count - 1]);
    }
}

/// The summary of an accepted context counts its files: those that were parsed, that timed
/// out and that failed, those that the context includes and those that it omits; and it
/// tells the length of the context.
pub proof fn law_accepted_summaries_count_the_files(
    context: ContextRunRecordView,
    inventory: Seq<InventoryRecordView>,
    results: Seq<FileResultRecordView>,
    stages: Seq<StageMetric>,
    extensions: Seq<ExtensionMetricView>,
)
    requires
        relations_fault(context, inventory, results, stages, extensions) is None,
    ensures
        context.summary.success_count == results.filter(
            |row: FileResultRecordView| row.parse_status == ParseStatus::Success,
        ).len(),
        context.summary.timeout_count == results.filter(
            |row: FileResultRecordView| row.parse_status == ParseStatus::Timeout,
        ).len(),
        context.summary.error_file_count == results.filter(
            |row: FileResultRecordView| row.parse_status == ParseStatus::Error,
        ).len(),
        context.summary.included_file_count == context.decisions.filter(
            |row: ContextDecisionRecordView|
                row.decision.action == ContextAction::Keep || row.decision.action
                    == ContextAction::Compress || row.decision.action
                    == ContextAction::MetadataOnly,
        ).len(),
        context.summary.omitted_file_count == context.decisions.filter(
            |row: ContextDecisionRecordView| row.decision.action == ContextAction::Omit,
        ).len(),
        context.decisions.filter(
            |row: ContextDecisionRecordView| row.decision.action == ContextAction::Error,
        ).len() == context.summary.error_file_count + context.summary.timeout_count,
        context.summary.output_chars == context.final_context.len(),
{
    lemma_count_status(results, ParseStatus::Success, results.len());
    lemma_count_status(results, ParseStatus::Timeout, results.len());
    lemma_count_status(results, ParseStatus::Error, results.len());
    lemma_count_included(context.decisions, context.decisions.len());
    lemma_count_action(context.decisions, ContextAction::Omit, context.decisions.len());
    lemma_count_action(context.decisions, ContextAction::Error, context.decisions.len());
    assert(results.take(results.len() as int) =~= results);
    assert(context.decisions.take(context.decisions.len() as int) =~= context.decisions);
}

proof fn lemma_decision_path(
    decisions: Seq<ContextDecisionRecordView>,
    inventory: Seq<InventoryRecordView>,
    from: int,
    at: int,
)
    requires
        0 <= from <= at < decisions.len(),
        decision_paths_fault(decisions, inventory, from) is None,
    ensures
        exists|i: int|
            0 <= i < inventory.len() && (#[trigger] inventory[i]).file_identity
                == decisions[at].file_identity && inventory[i].relative_path
                == decisions[at].decision.relative_path,
    decreases at - from,
{
    if from < at {
        lemma_decision_path(decisions, inventory, from + 1, at);
    } else {
        let ids = inventory_ids(inventory);
        lemma_position(ids, decisions[at].file_identity, 0);
        let i = position(ids, decisions[at].file_identity, 0)->0;
        assert(ids[i] == inventory[i].file_identity);
    }
}

/// Each decision of an accepted context is about a file of the inventory, under its path.
pub proof fn law_accepted_decisions_are_about_inventory_files(
    context: ContextRunRecordView,
    inventory: Seq<InventoryRecordView>,
    results: Seq<FileResultRecordView>,
    stages: Seq<StageMetric>,
    extensions: Seq<ExtensionMetricView>,
    at: int,
)
    requires
        relations_fault(context, inventory, results, stages, extensions) is None,
        0 <= at < context.decisions.len(),
    ensures
        exists|i: int|
            0 <= i < inventory.len() && (#[trigger] inventory[i]).file_identity
                == context.decisions[at].file_identity && inventory[i].relative_path
                == context.decisions[at].decision.relative_path,
{
    lemma_decision_path(context.decisions, inventory, 0, at);
}

/// A context that is stored has the hash of its text and a profile hash, and has ended.
pub proof fn law_accepted_contexts_hash_their_text(
    context: ContextRunRecordView,
    summary_verdict: Result<(), String>,
    decision_verdicts: Seq<Result<(), String>>,
)
    requires
        context_fault(context, summary_verdict, decision_verdicts) is None,
    ensures
        context.context_sha256 == content_sha256(context.final_context),
        is_sha256_text(context.context_profile_hash),
        context.status == RunStatus::Success || context.status == RunStatus::Partial
            || context.status == RunStatus::Error,
        summary_verdict is Ok,
        summary_fits(context.summary),
{
}

/// The stages that a run tells are those that its summary tells: rows that were formed with
/// the counts and the durations of the summary are accepted with it.
pub proof fn law_formed_stages_are_accepted(
    summary: ContextSummary,
    parsed: u64,
    decision_count: u64,
    durations: crate::scheduler::outcome::StageDurations,
)
    requires
        summary.discovery_duration_ms == durations.discovery_ms,
        summary.parse_duration_ms == durations.parse_ms,
        summary.compression_duration_ms == durations.compression_ms,
        summary.total_duration_ms == durations.discovery_ms + durations.cache_ms
            + durations.parse_ms + durations.compression_ms,
    ensures
        stages_fault(
            crate::scheduler::outcome::stage_rows(
                summary.source_file_count,
                summary.source_file_count,
                parsed,
                decision_count,
                durations,
            ),
            summary,
            decision_count as nat,
        ) is None,
{
    let rows = crate::scheduler::outcome::stage_rows(
        summary.source_file_count,
        summary.source_file_count,
        parsed,
        decision_count,
        durations,
    );
    reveal_with_fuel(stage_metric, 5);
    reveal_with_fuel(stage_total, 5);
}

/// Stages are refused that disagree with the summary: another number of files, another
/// duration, or a total that is shorter than its stages.
pub proof fn law_accepted_stages_agree_with_the_summary(
    metrics: Seq<StageMetric>,
    summary: ContextSummary,
    decision_count: nat,
)
    requires
        stages_fault(metrics, summary, decision_count) is None,
    ensures
        exists|i: int|
            0 <= i < metrics.len() && (#[trigger] metrics[i]).stage == StageName::Discovery
                && metrics[i].item_count == summary.source_file_count && metrics[i].duration_ms
                == summary.discovery_duration_ms,
        exists|i: int|
            0 <= i < metrics.len() && (#[trigger] metrics[i]).stage == StageName::Cache
                && metrics[i].item_count == summary.source_file_count,
        exists|i: int|
            0 <= i < metrics.len() && (#[trigger] metrics[i]).stage == StageName::Parse
                && metrics[i].duration_ms == summary.parse_duration_ms,
        exists|i: int|
            0 <= i < metrics.len() && (#[trigger] metrics[i]).stage == StageName::Context
                && metrics[i].item_count == decision_count && metrics[i].duration_ms
                == summary.compression_duration_ms,
        metrics.len() == 4,
        stage_total(metrics, metrics.len()) <= summary.total_duration_ms,
{
    lemma_stage_found(metrics, StageName::Discovery, 0);
    lemma_stage_found(metrics, StageName::Cache, 0);
    lemma_stage_found(metrics, StageName::Parse, 0);
    lemma_stage_found(metrics, StageName::Context, 0);
}

proof fn lemma_stage_found(metrics: Seq<StageMetric>, stage: StageName, from: int)
    requires
        0 <= from,
    ensures
        stage_metric(metrics, stage, from) matches Some(found) ==> exists|i: int|
            from <= i < metrics.len() && #[trigger] metrics[i] == found && found.stage == stage,
    decreases metrics.len() - from,
{
    if from < metrics.len() {
        lemma_stage_found(metrics, stage, from + 1);
    }
}

proof fn lemma_tally_of_prefix(
    left: Seq<InventoryRecordView>,
    right: Seq<InventoryRecordView>,
    results: Seq<FileResultRecordView>,
    extension: Seq<char>,
    count: nat,
)
    requires
        count <= left.len(),
        count <= right.len(),
        forall|i: int| 0 <= i < count ==> left[i] == right[i],
    ensures
        tally_of(left, results, extension, count) == tally_of(right, results, extension, count),
    decreases count,
{
    if count > 0 {
        lemma_tally_of_prefix(left, right, results, extension, (count - 1) as nat);
    }
}

/// The files of an extension are tallied by how they fared: a file adds to the tally of its
/// own extension alone, with the status and the time of its result.
pub proof fn law_files_are_tallied_by_extension(
    inventory: Seq<InventoryRecordView>,
    file: InventoryRecordView,
    results: Seq<FileResultRecordView>,
    extension: Seq<char>,
    at: int,
)
    requires
        0 <= at < results.len(),
        results[at].file_identity == file.file_identity,
        forall|i: int|
            0 <= i < at ==> (#[trigger] results[i]).file_identity != file.file_identity,
    ensures
        ({
            let before = tally_of(inventory, results, extension, inventory.len());
            let after = tally_of(inventory.push(file), results, extension, inventory.len() + 1);
            let status = results[at].parse_status;
            &&& file.file_type != extension ==> after == before
            &&& file.file_type == extension ==> {
                &&& after.files == before.files + 1
                &&& after.duration_ms == before.duration_ms + results[at].parse_duration_ms
                &&& status == ParseStatus::Success ==> after.success == before.success + 1
                    && after.error == before.error && after.timeout == before.timeout
                &&& status == ParseStatus::Error ==> after.error == before.error + 1
                    && after.success == before.success && after.timeout == before.timeout
                &&& status == ParseStatus::Timeout ==> after.timeout == before.timeout + 1
                    && after.success == before.success && after.error == before.error
                &&& status == ParseStatus::NotParsed ==> after.success == before.success
                    && after.error == before.error && after.timeout == before.timeout
            }
        }),
{
    lemma_tally_of_prefix(inventory, inventory.push(file), results, extension, inventory.len());
    let ids = result_ids(results);
    lemma_position(ids, file.file_identity, 0);
    assert(ids[at] == file.file_identity);
    assert forall|i: int| 0 <= i < at implies ids[i] != file.file_identity by {
        assert(ids[i] == results[i].file_identity);
    }
    assert(inventory.push(file)[inventory.len() as int] == file);
}

} // verus!
