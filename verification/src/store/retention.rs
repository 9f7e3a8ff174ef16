//! What is dropped so that the store stays within its limits: runs that have ended,
//! and artifacts that no run refers to.
use crate::store::cache::{
    CONTEXT_ARTIFACTS_MAX_BYTES, TERMINAL_AUDIT_MAX_BYTES, TERMINAL_RUN_MAX_AGE_DAYS,
    TERMINAL_RUN_MAX_COUNT,
};
use crate::store::run::{StoreError, StoreErrorView};
use vstd::prelude::*;
use vstd::string::StringExecFns;

verus! {

/// How many rows are dropped at a time.
pub const GC_BATCH: usize = 64;

/// Milliseconds of a day.
pub const DAY_MS: i64 = 86_400_000;

/// A run that has ended, as far as retention looks at it.
#[derive(Clone, Copy, Debug, PartialEq, Eq, Structural)]
pub struct TerminalRun {
    pub scan_run_id: i64,
    pub finished_at_ms: Option<i64>,
    pub audit_size_bytes: i64,
}

/// `left` is dropped before `right`: the run that ended first, and of two that ended
/// together the older one. A run without an end comes first.
pub open spec fn dropped_before(left: TerminalRun, right: TerminalRun) -> bool {
    match (left.finished_at_ms, right.finished_at_ms) {
        (None, Some(_)) => true,
        (Some(_), None) => false,
        (None, None) => left.scan_run_id < right.scan_run_id,
        (Some(a), Some(b)) => a < b || (a == b && left.scan_run_id < right.scan_run_id),
    }
}

fn is_dropped_before(left: &TerminalRun, right: &TerminalRun) -> (before: bool)
    ensures
        before == dropped_before(*left, *right),
{
    match (left.finished_at_ms, right.finished_at_ms) {
        (None, Some(_)) => true,
        (Some(_), None) => false,
        (None, None) => left.scan_run_id < right.scan_run_id,
        (Some(a), Some(b)) => a < b || (a == b && left.scan_run_id < right.scan_run_id),
    }
}

/// The run that is dropped next, among those that are not protected.
pub open spec fn next_dropped(runs: Seq<TerminalRun>, protected: Seq<i64>) -> Option<int>
    decreases runs.len(),
{
    if runs.len() == 0 {
        None
    } else {
        let rest = next_dropped(runs.drop_last(), protected);
        let last = runs.len() - 1;
        if protected.contains(runs[last].scan_run_id) {
            rest
        } else {
            match rest {
                Some(at) => if dropped_before(runs[last], runs[at]) {
                    Some(last)
                } else {
                    Some(at)
                },
                None => Some(last),
            }
        }
    }
}

proof fn lemma_next_dropped(runs: Seq<TerminalRun>, protected: Seq<i64>)
    ensures
        match next_dropped(runs, protected) {
            Some(at) => 0 <= at < runs.len() && !protected.contains(runs[at].scan_run_id)
                && forall|i: int|
                0 <= i < runs.len() && !protected.contains((#[trigger] runs[i]).scan_run_id)
                    ==> !dropped_before(runs[i], runs[at]),
            None => forall|i: int|
                0 <= i < runs.len() ==> protected.contains((#[trigger] runs[i]).scan_run_id),
        },
    decreases runs.len(),
{
    if runs.len() > 0 {
        let rest = runs.drop_last();
        lemma_next_dropped(rest, protected);
        assert forall|i: int| 0 <= i < rest.len() implies rest[i] == #[trigger] runs[i] by {}
    }
}

pub(crate) fn is_among(ids: &Vec<i64>, id: i64) -> (found: bool)
    ensures
        found == ids@.contains(id),
{
    let mut i: usize = 0;
    while i < ids.len()
        invariant
            i <= ids.len(),
            forall|j: int| 0 <= j < i ==> ids@[j] != id,
        decreases ids.len() - i,
    {
        if ids[i] == id {
            return true;
        }
        i = i + 1;
    }
    false
}

fn find_next_dropped(runs: &Vec<TerminalRun>, protected: &Vec<i64>) -> (next: Option<usize>)
    ensures
        match next {
            Some(at) => next_dropped(runs@, protected@) == Some(at as int) && at < runs@.len(),
            None => next_dropped(runs@, protected@) is None,
        },
{
    let mut next: Option<usize> = None;
    let mut i: usize = 0;
    while i < runs.len()
        invariant
            i <= runs.len(),
            match next {
                Some(at) => next_dropped(runs@.take(i as int), protected@) == Some(at as int) && at
                    < i,
                None => next_dropped(runs@.take(i as int), protected@) is None,
            },
        decreases runs.len() - i,
    {
        assert(runs@.take(i + 1).drop_last() =~= runs@.take(i as int));
        if !is_among(protected, runs[i].scan_run_id) {
            next = match next {
                Some(at) => {
                    if is_dropped_before(&runs[i], &runs[at]) {
                        Some(i)
                    } else {
                        Some(at)
                    }
                },
                None => Some(i),
            };
        }
        i = i + 1;
    }
    assert(runs@.take(i as int) =~= runs@);
    next
}

/// Audit bytes of the runs together.
pub open spec fn audit_total(runs: Seq<TerminalRun>) -> int
    decreases runs.len(),
{
    if runs.len() == 0 {
        0
    } else {
        audit_total(runs.drop_last()) + runs.last().audit_size_bytes
    }
}

/// There are more runs, or more audit bytes, than are kept.
pub open spec fn over_limits(runs: Seq<TerminalRun>) -> bool {
    runs.len() > TERMINAL_RUN_MAX_COUNT || audit_total(runs) > TERMINAL_AUDIT_MAX_BYTES
}

fn is_over_limits(runs: &Vec<TerminalRun>) -> (over: bool)
    ensures
        over == over_limits(runs@),
{
    let mut total: i128 = 0;
    let mut i: usize = 0;
    while i < runs.len()
        invariant
            i <= runs.len(),
            total == audit_total(runs@.take(i as int)),
            -(i * 0x8000_0000_0000_0000) <= total <= i * 0x8000_0000_0000_0000,
        decreases runs.len() - i,
    {
        assert(runs@.take(i + 1).drop_last() =~= runs@.take(i as int));
        total = total + runs[i].audit_size_bytes as i128;
        i = i + 1;
    }
    assert(runs@.take(i as int) =~= runs@);
    runs.len() > 500 || total > TERMINAL_AUDIT_MAX_BYTES as i128
}

/// The run ended before the cutoff and is not protected.
pub open spec fn aged(run: TerminalRun, cutoff_ms: i64, protected: Seq<i64>) -> bool {
    &&& run.finished_at_ms matches Some(finished) && finished < cutoff_ms
    &&& !protected.contains(run.scan_run_id)
}

/// The first `count` runs without the aged ones.
pub open spec fn young(
    runs: Seq<TerminalRun>,
    cutoff_ms: i64,
    protected: Seq<i64>,
    count: nat,
) -> Seq<TerminalRun>
    decreases count,
{
    if count == 0 {
        Seq::empty()
    } else {
        let earlier = young(runs, cutoff_ms, protected, (count - 1) as nat);
        if aged(runs[count - 1], cutoff_ms, protected) {
            earlier
        } else {
            earlier.push(runs[count - 1])
        }
    }
}

/// The identities of the aged ones among the first `count` runs.
pub open spec fn aged_ids(
    runs: Seq<TerminalRun>,
    cutoff_ms: i64,
    protected: Seq<i64>,
    count: nat,
) -> Seq<i64>
    decreases count,
{
    if count == 0 {
        Seq::empty()
    } else {
        let earlier = aged_ids(runs, cutoff_ms, protected, (count - 1) as nat);
        if aged(runs[count - 1], cutoff_ms, protected) {
            earlier.push(runs[count - 1].scan_run_id)
        } else {
            earlier
        }
    }
}

/// The oldest time at which a run that is still kept may have ended.
pub open spec fn cutoff_of(now_ms: i64) -> i64 {
    let cutoff = now_ms - TERMINAL_RUN_MAX_AGE_DAYS * DAY_MS;
    if cutoff < i64::MIN {
        i64::MIN
    } else {
        cutoff as i64
    }
}

/// The oldest time at which a run that is still kept may have ended.
pub fn retention_cutoff(now_ms: i64) -> (cutoff_ms: i64)
    ensures
        cutoff_ms == cutoff_of(now_ms),
{
    let age: i64 = 7_776_000_000;
    assert(age == TERMINAL_RUN_MAX_AGE_DAYS * DAY_MS);
    if now_ms < i64::MIN + age {
        i64::MIN
    } else {
        now_ms - age
    }
}

/// The runs that are left when the first ones are dropped until the limits hold, or
/// until only protected ones are left.
pub open spec fn trimmed(runs: Seq<TerminalRun>, protected: Seq<i64>) -> Seq<TerminalRun>
    decreases runs.len(),
{
    match next_dropped(runs, protected) {
        Some(at) => if over_limits(runs) && 0 <= at < runs.len() {
            trimmed(runs.remove(at), protected)
        } else {
            runs
        },
        None => runs,
    }
}

/// The identities of the runs that are dropped on the way, in that order.
pub open spec fn trimmed_ids(runs: Seq<TerminalRun>, protected: Seq<i64>) -> Seq<i64>
    decreases runs.len(),
{
    match next_dropped(runs, protected) {
        Some(at) => if over_limits(runs) && 0 <= at < runs.len() {
            seq![runs[at].scan_run_id] + trimmed_ids(runs.remove(at), protected)
        } else {
            Seq::empty()
        },
        None => Seq::empty(),
    }
}

/// What retention leaves of the runs.
pub open spec fn retained(runs: Seq<TerminalRun>, protected: Seq<i64>, now_ms: i64) -> Seq<
    TerminalRun,
> {
    trimmed(young(runs, cutoff_of(now_ms), protected, runs.len()), protected)
}

/// The identities of the runs that retention drops.
pub open spec fn dropped_ids(runs: Seq<TerminalRun>, protected: Seq<i64>, now_ms: i64) -> Seq<
    i64,
> {
    aged_ids(runs, cutoff_of(now_ms), protected, runs.len()) + trimmed_ids(
        young(runs, cutoff_of(now_ms), protected, runs.len()),
        protected,
    )
}

/// Drops runs: first those that are too old, then the ones that ended first until the
/// limits hold. Tells which were dropped, and whether the limits hold now.
fn retain(runs: &mut Vec<TerminalRun>, protected: &Vec<i64>, now_ms: i64) -> (outcome: (
    Vec<i64>,
    bool,
))
    ensures
        final(runs)@ == retained(old(runs)@, protected@, now_ms),
        outcome.0@ == dropped_ids(old(runs)@, protected@, now_ms),
        outcome.1 == !over_limits(final(runs)@),
{
    let ghost all = runs@;
    let cutoff_ms: i64 = retention_cutoff(now_ms);
    let mut kept: Vec<TerminalRun> = Vec::new();
    let mut dropped: Vec<i64> = Vec::new();
    let mut i: usize = 0;
    while i < runs.len()
        invariant
            i <= runs.len(),
            runs@ == all,
            kept@ == young(all, cutoff_ms, protected@, i as nat),
            dropped@ == aged_ids(all, cutoff_ms, protected@, i as nat),
        decreases runs.len() - i,
    {
        let run: TerminalRun = runs[i];
        let old: bool = match run.finished_at_ms {
            Some(finished) => finished < cutoff_ms,
            None => false,
        };
        if old && !is_among(protected, run.scan_run_id) {
            dropped.push(run.scan_run_id);
        } else {
            kept.push(run);
        }
        i = i + 1;
    }
    let ghost start = kept@;
    let ghost first = dropped@;
    loop
        invariant
            dropped@ + trimmed_ids(kept@, protected@) == first + trimmed_ids(start, protected@),
            trimmed(kept@, protected@) == trimmed(start, protected@),
            start == young(all, cutoff_ms, protected@, all.len()),
            first == aged_ids(all, cutoff_ms, protected@, all.len()),
            cutoff_ms == cutoff_of(now_ms),
            all == old(runs)@,
        decreases kept.len(),
    {
        let over: bool = is_over_limits(&kept);
        let next: Option<usize> = find_next_dropped(&kept, protected);
        match next {
            Some(at) => {
                if !over {
                    assert(dropped@ + trimmed_ids(kept@, protected@) =~= dropped@);
                    *runs = kept;
                    return (dropped, true);
                }
                let ghost before = dropped@;
                let ghost rows = kept@;
                let run: TerminalRun = kept.remove(at);
                dropped.push(run.scan_run_id);
                assert(before + (seq![run.scan_run_id] + trimmed_ids(kept@, protected@))
                    =~= dropped@ + trimmed_ids(kept@, protected@));
            },
            None => {
                assert(dropped@ + trimmed_ids(kept@, protected@) =~= dropped@);
                *runs = kept;
                return (dropped, !over);
            },
        }
    }
}

/// Drops runs that have ended, while the store is held alone: nothing is protected.
/// Tells which were dropped.
pub fn gc_terminal_runs(runs: &mut Vec<TerminalRun>, now_ms: i64) -> (dropped: Vec<i64>)
    ensures
        final(runs)@ == retained(old(runs)@, Seq::empty(), now_ms),
        dropped@ == dropped_ids(old(runs)@, Seq::empty(), now_ms),
{
    let protected: Vec<i64> = Vec::new();
    assert(protected@ =~= Seq::<i64>::empty());
    let (dropped, _) = retain(runs, &protected, now_ms);
    dropped
}

/// What keeps a run from being ended within the limits of the store: it is too large
/// by itself, or it and the protected runs are.
pub open spec fn retention_fault(
    runs: Seq<TerminalRun>,
    protected: Seq<i64>,
    now_ms: i64,
    audit_size: i64,
) -> Option<Seq<char>> {
    if audit_size > TERMINAL_AUDIT_MAX_BYTES {
        Some("current terminal audit exceeds the 2 GiB retention cap"@)
    } else if over_limits(retained(runs, protected, now_ms)) {
        Some("terminal audit retention could not make room for the current record"@)
    } else {
        None
    }
}

/// Drops runs that have ended to make room for one that is ending. The runs hold that
/// one already, and it is among the protected ones. Tells which were dropped; where
/// there is no room, none is.
pub fn retention_gc_for_current_run(
    runs: &mut Vec<TerminalRun>,
    protected: &Vec<i64>,
    now_ms: i64,
    audit_size: i64,
) -> (dropped: Result<Vec<i64>, StoreError>)
    ensures
        match dropped {
            Ok(ids) => retention_fault(old(runs)@, protected@, now_ms, audit_size) is None
                && final(runs)@ == retained(old(runs)@, protected@, now_ms) && ids@ == dropped_ids(
                old(runs)@,
                protected@,
                now_ms,
            ),
            Err(error) => retention_fault(old(runs)@, protected@, now_ms, audit_size) is Some
                && final(runs)@ == old(runs)@ && error@ == StoreErrorView::RunCorrupt(
                retention_fault(old(runs)@, protected@, now_ms, audit_size)->0,
            ),
        },
{
    if audit_size > TERMINAL_AUDIT_MAX_BYTES {
        return Err(
            StoreError::corrupt("current terminal audit exceeds the 2 GiB retention cap"),
        );
    }
    let mut kept: Vec<TerminalRun> = copy_runs(runs);
    let (dropped, fits) = retain(&mut kept, protected, now_ms);
    if !fits {
        return Err(
            StoreError::corrupt(
                "terminal audit retention could not make room for the current record",
            ),
        );
    }
    *runs = kept;
    Ok(dropped)
}

fn copy_runs(runs: &Vec<TerminalRun>) -> (copies: Vec<TerminalRun>)
    ensures
        copies@ == runs@,
{
    let mut copies: Vec<TerminalRun> = Vec::new();
    let mut i: usize = 0;
    while i < runs.len()
        invariant
            i <= runs.len(),
            copies@ == runs@.take(i as int),
        decreases runs.len() - i,
    {
        copies.push(runs[i]);
        assert(copies@ =~= runs@.take(i + 1));
        i = i + 1;
    }
    assert(runs@.take(i as int) =~= runs@);
    copies
}

// ---------------------------------------------------------------------------
// Laws of run retention
// ---------------------------------------------------------------------------

proof fn lemma_young(
    runs: Seq<TerminalRun>,
    cutoff_ms: i64,
    protected: Seq<i64>,
    count: nat,
    run: TerminalRun,
)
    requires
        count <= runs.len(),
    ensures
        young(runs, cutoff_ms, protected, count).contains(run) == (runs.take(
            count as int,
        ).contains(run) && !aged(run, cutoff_ms, protected)),
    decreases count,
{
    let now = young(runs, cutoff_ms, protected, count);
    if count > 0 {
        lemma_young(runs, cutoff_ms, protected, (count - 1) as nat, run);
        let before = young(runs, cutoff_ms, protected, (count - 1) as nat);
        let some = runs.take(count - 1);
        let all = runs.take(count as int);
        assert(all =~= some.push(runs[count - 1]));
        lemma_push_contains(some, runs[count - 1], run);
        if !aged(runs[count - 1], cutoff_ms, protected) {
            lemma_push_contains(before, runs[count - 1], run);
        }
    }
}

proof fn lemma_push_contains<T>(items: Seq<T>, item: T, wanted: T)
    ensures
        items.push(item).contains(wanted) == (items.contains(wanted) || item == wanted),
{
    let more = items.push(item);
    if items.contains(wanted) {
        let i = choose|i: int| 0 <= i < items.len() && items[i] == wanted;
        assert(more[i] == wanted);
    }
    assert(more[items.len() as int] == item);
    if more.contains(wanted) {
        let i = choose|i: int| 0 <= i < more.len() && more[i] == wanted;
        if i < items.len() {
            assert(items[i] == wanted);
        }
    }
}

proof fn lemma_remove_contains<T>(items: Seq<T>, at: int, wanted: T)
    requires
        0 <= at < items.len(),
    ensures
        items.remove(at).contains(wanted) ==> items.contains(wanted),
        items.contains(wanted) && items[at] != wanted ==> items.remove(at).contains(wanted),
{
    let fewer = items.remove(at);
    if fewer.contains(wanted) {
        let i = choose|i: int| 0 <= i < fewer.len() && fewer[i] == wanted;
        if i < at {
            assert(items[i] == wanted);
        } else {
            assert(items[i + 1] == wanted);
        }
    }
    if items.contains(wanted) && items[at] != wanted {
        let i = choose|i: int| 0 <= i < items.len() && items[i] == wanted;
        if i < at {
            assert(fewer[i] == wanted);
        } else {
            assert(fewer[i - 1] == wanted);
        }
    }
}

proof fn lemma_trimmed(runs: Seq<TerminalRun>, protected: Seq<i64>, run: TerminalRun)
    ensures
        trimmed(runs, protected).contains(run) ==> runs.contains(run),
        runs.contains(run) && protected.contains(run.scan_run_id) ==> trimmed(
            runs,
            protected,
        ).contains(run),
        runs.contains(run) && !trimmed(runs, protected).contains(run) ==> over_limits(runs)
            && forall|other: TerminalRun| #[trigger]
            trimmed(runs, protected).contains(other) && !protected.contains(other.scan_run_id)
                ==> !dropped_before(other, run),
    decreases runs.len(),
{
    lemma_next_dropped(runs, protected);
    if let Some(at) = next_dropped(runs, protected) {
        if over_limits(runs) {
            let rest = runs.remove(at);
            lemma_trimmed(rest, protected, run);
            lemma_remove_contains(runs, at, run);
            if runs.contains(run) && !trimmed(runs, protected).contains(run) && runs[at] == run {
                assert forall|other: TerminalRun| #[trigger]
                    trimmed(runs, protected).contains(other) && !protected.contains(
                        other.scan_run_id,
                    ) implies !dropped_before(other, run) by {
                    lemma_trimmed(rest, protected, other);
                    lemma_remove_contains(runs, at, other);
                    let i = choose|i: int| 0 <= i < runs.len() && runs[i] == other;
                    assert(!dropped_before(runs[i], runs[at]));
                }
            }
        }
    }
}

proof fn lemma_trimmed_limits(runs: Seq<TerminalRun>, protected: Seq<i64>)
    ensures
        over_limits(trimmed(runs, protected)) ==> next_dropped(
            trimmed(runs, protected),
            protected,
        ) is None,
    decreases runs.len(),
{
    lemma_next_dropped(runs, protected);
    if let Some(at) = next_dropped(runs, protected) {
        if over_limits(runs) {
            lemma_trimmed_limits(runs.remove(at), protected);
        }
    }
}

/// A protected run is never dropped.
pub proof fn law_protected_runs_are_kept(
    runs: Seq<TerminalRun>,
    protected: Seq<i64>,
    now_ms: i64,
    run: TerminalRun,
)
    requires
        runs.contains(run),
        protected.contains(run.scan_run_id),
    ensures
        retained(runs, protected, now_ms).contains(run),
{
    lemma_young(runs, cutoff_of(now_ms), protected, runs.len(), run);
    assert(runs.take(runs.len() as int) =~= runs);
    lemma_trimmed(young(runs, cutoff_of(now_ms), protected, runs.len()), protected, run);
}

/// Retention keeps no run that it was not given, and none that is too old unless it is
/// protected.
pub proof fn law_aged_runs_are_dropped(
    runs: Seq<TerminalRun>,
    protected: Seq<i64>,
    now_ms: i64,
    run: TerminalRun,
)
    requires
        retained(runs, protected, now_ms).contains(run),
    ensures
        runs.contains(run),
        !aged(run, cutoff_of(now_ms), protected),
{
    lemma_trimmed(young(runs, cutoff_of(now_ms), protected, runs.len()), protected, run);
    lemma_young(runs, cutoff_of(now_ms), protected, runs.len(), run);
    assert(runs.take(runs.len() as int) =~= runs);
}

/// Where a run is dropped though it is not too old, the limits did not hold, and no
/// unprotected run that is kept ended before it.
pub proof fn law_the_first_runs_are_dropped(
    runs: Seq<TerminalRun>,
    protected: Seq<i64>,
    now_ms: i64,
    run: TerminalRun,
    kept: TerminalRun,
)
    requires
        runs.contains(run),
        !aged(run, cutoff_of(now_ms), protected),
        !retained(runs, protected, now_ms).contains(run),
        retained(runs, protected, now_ms).contains(kept),
        !protected.contains(kept.scan_run_id),
    ensures
        over_limits(young(runs, cutoff_of(now_ms), protected, runs.len())),
        !dropped_before(kept, run),
{
    lemma_young(runs, cutoff_of(now_ms), protected, runs.len(), run);
    assert(runs.take(runs.len() as int) =~= runs);
    lemma_trimmed(young(runs, cutoff_of(now_ms), protected, runs.len()), protected, run);
}

/// With nothing protected, retention always gets within the limits.
pub proof fn law_retention_respects_the_limits(runs: Seq<TerminalRun>, now_ms: i64)
    ensures
        !over_limits(retained(runs, Seq::empty(), now_ms)),
{
    let none = Seq::<i64>::empty();
    let kept = retained(runs, none, now_ms);
    lemma_trimmed_limits(young(runs, cutoff_of(now_ms), none, runs.len()), none);
    if over_limits(kept) {
        lemma_next_dropped(kept, none);
        if kept.len() > 0 {
            assert(none.contains(kept[0].scan_run_id));
        }
        assert(false);
    }
}

// ---------------------------------------------------------------------------
// Artifacts
// ---------------------------------------------------------------------------

/// An artifact, as far as retention looks at it.
#[derive(Clone, Copy, Debug, PartialEq, Eq, Structural)]
pub struct ArtifactSize {
    pub artifact_id: i64,
    pub created_at_ms: i64,
    pub artifact_size_bytes: i64,
}

/// The context of a run, and the artifact that it refers to.
#[derive(Clone, Copy, Debug, PartialEq, Eq, Structural)]
pub struct ContextRef {
    pub scan_run_id: i64,
    pub artifact_id: Option<i64>,
}

/// Some context refers to the artifact.
pub open spec fn referenced(contexts: Seq<ContextRef>, artifact_id: i64) -> bool {
    exists|i: int|
        0 <= i < contexts.len() && (#[trigger] contexts[i]).artifact_id == Some(artifact_id)
}

pub(crate) fn is_referenced(contexts: &Vec<ContextRef>, artifact_id: i64) -> (yes: bool)
    ensures
        yes == referenced(contexts@, artifact_id),
{
    let mut i: usize = 0;
    while i < contexts.len()
        invariant
            i <= contexts.len(),
            forall|j: int|
                0 <= j < i ==> (#[trigger] contexts@[j]).artifact_id != Some(artifact_id),
        decreases contexts.len() - i,
    {
        if let Some(id) = contexts[i].artifact_id {
            if id == artifact_id {
                assert(contexts@[i as int].artifact_id == Some(artifact_id));
                return true;
            }
        }
        i = i + 1;
    }
    false
}

/// The first `count` artifacts without those that nothing refers to.
pub open spec fn referenced_artifacts(
    artifacts: Seq<ArtifactSize>,
    contexts: Seq<ContextRef>,
    count: nat,
) -> Seq<ArtifactSize>
    decreases count,
{
    if count == 0 {
        Seq::empty()
    } else {
        let earlier = referenced_artifacts(artifacts, contexts, (count - 1) as nat);
        if referenced(contexts, artifacts[count - 1].artifact_id) {
            earlier.push(artifacts[count - 1])
        } else {
            earlier
        }
    }
}

/// Drops every artifact that nothing refers to.
pub fn gc_orphan_artifacts(artifacts: &mut Vec<ArtifactSize>, contexts: &Vec<ContextRef>)
    ensures
        final(artifacts)@ == referenced_artifacts(
            old(artifacts)@,
            contexts@,
            old(artifacts)@.len(),
        ),
{
    let ghost all = artifacts@;
    let mut kept: Vec<ArtifactSize> = Vec::new();
    let mut i: usize = 0;
    while i < artifacts.len()
        invariant
            i <= artifacts.len(),
            artifacts@ == all,
            kept@ == referenced_artifacts(all, contexts@, i as nat),
        decreases artifacts.len() - i,
    {
        if is_referenced(contexts, artifacts[i].artifact_id) {
            kept.push(artifacts[i]);
        }
        i = i + 1;
    }
    *artifacts = kept;
}

/// An artifact is kept exactly where something refers to it.
pub proof fn law_only_orphans_are_dropped(
    artifacts: Seq<ArtifactSize>,
    contexts: Seq<ContextRef>,
    artifact: ArtifactSize,
)
    requires
        artifacts.contains(artifact),
    ensures
        referenced_artifacts(artifacts, contexts, artifacts.len()).contains(artifact)
            == referenced(contexts, artifact.artifact_id),
{
    lemma_referenced_artifacts(artifacts, contexts, artifacts.len(), artifact);
    assert(artifacts.take(artifacts.len() as int) =~= artifacts);
}

proof fn lemma_referenced_artifacts(
    artifacts: Seq<ArtifactSize>,
    contexts: Seq<ContextRef>,
    count: nat,
    artifact: ArtifactSize,
)
    requires
        count <= artifacts.len(),
    ensures
        referenced_artifacts(artifacts, contexts, count).contains(artifact) == (artifacts.take(
            count as int,
        ).contains(artifact) && referenced(contexts, artifact.artifact_id)),
    decreases count,
{
    if count > 0 {
        lemma_referenced_artifacts(artifacts, contexts, (count - 1) as nat, artifact);
        let before = referenced_artifacts(artifacts, contexts, (count - 1) as nat);
        let some = artifacts.take(count - 1);
        assert(artifacts.take(count as int) =~= some.push(artifacts[count - 1]));
        lemma_push_contains(some, artifacts[count - 1], artifact);
        lemma_push_contains(before, artifacts[count - 1], artifact);
    }
}

// ---------------------------------------------------------------------------
// Room for an artifact
// ---------------------------------------------------------------------------

/// The rows among which room is made for an artifact.
pub struct RoomRows {
    pub artifacts: Vec<ArtifactSize>,
    pub contexts: Vec<ContextRef>,
    pub runs: Vec<TerminalRun>,
}

/// The rows among which room is made for an artifact.
#[verifier::ext_equal]
pub struct RoomRowsView {
    pub artifacts: Seq<ArtifactSize>,
    pub contexts: Seq<ContextRef>,
    pub runs: Seq<TerminalRun>,
}

impl View for RoomRows {
    type V = RoomRowsView;

    open spec fn view(&self) -> RoomRowsView {
        RoomRowsView {
            artifacts: self.artifacts@,
            contexts: self.contexts@,
            runs: self.runs@,
        }
    }
}

/// What is dropped to make room for an artifact.
pub struct RoomPlan {
    pub artifacts: Vec<i64>,
    pub runs: Vec<i64>,
}

/// Bytes of the artifacts together.
pub open spec fn artifacts_total(artifacts: Seq<ArtifactSize>) -> int
    decreases artifacts.len(),
{
    if artifacts.len() == 0 {
        0
    } else {
        artifacts_total(artifacts.drop_last()) + artifacts.last().artifact_size_bytes
    }
}

/// The artifact may go: nothing refers to it, and it is not protected.
pub open spec fn droppable(
    artifact: ArtifactSize,
    contexts: Seq<ContextRef>,
    protected: Seq<i64>,
) -> bool {
    !referenced(contexts, artifact.artifact_id) && !protected.contains(artifact.artifact_id)
}

/// `left` was created before `right`.
pub open spec fn created_before(left: ArtifactSize, right: ArtifactSize) -> bool {
    left.created_at_ms < right.created_at_ms || (left.created_at_ms == right.created_at_ms
        && left.artifact_id < right.artifact_id)
}

/// The artifact that goes next: the first one created of those that may go.
pub open spec fn next_orphan(
    artifacts: Seq<ArtifactSize>,
    contexts: Seq<ContextRef>,
    protected: Seq<i64>,
) -> Option<int>
    decreases artifacts.len(),
{
    if artifacts.len() == 0 {
        None
    } else {
        let rest = next_orphan(artifacts.drop_last(), contexts, protected);
        let last = artifacts.len() - 1;
        if !droppable(artifacts[last], contexts, protected) {
            rest
        } else {
            match rest {
                Some(at) => if created_before(artifacts[last], artifacts[at]) {
                    Some(last)
                } else {
                    Some(at)
                },
                None => Some(last),
            }
        }
    }
}

proof fn lemma_next_orphan(
    artifacts: Seq<ArtifactSize>,
    contexts: Seq<ContextRef>,
    protected: Seq<i64>,
)
    ensures
        match next_orphan(artifacts, contexts, protected) {
            Some(at) => 0 <= at < artifacts.len() && droppable(artifacts[at], contexts, protected),
            None => forall|i: int|
                0 <= i < artifacts.len() ==> !droppable(
                    #[trigger] artifacts[i],
                    contexts,
                    protected,
                ),
        },
    decreases artifacts.len(),
{
    if artifacts.len() > 0 {
        let rest = artifacts.drop_last();
        lemma_next_orphan(rest, contexts, protected);
        assert forall|i: int| 0 <= i < rest.len() implies rest[i] == #[trigger] artifacts[i] by {}
    }
}

fn find_next_orphan(
    artifacts: &Vec<ArtifactSize>,
    contexts: &Vec<ContextRef>,
    protected: &Vec<i64>,
) -> (next: Option<usize>)
    ensures
        match next {
            Some(at) => next_orphan(artifacts@, contexts@, protected@) == Some(at as int) && at
                < artifacts@.len(),
            None => next_orphan(artifacts@, contexts@, protected@) is None,
        },
{
    let mut next: Option<usize> = None;
    let mut i: usize = 0;
    while i < artifacts.len()
        invariant
            i <= artifacts.len(),
            match next {
                Some(at) => next_orphan(artifacts@.take(i as int), contexts@, protected@) == Some(
                    at as int,
                ) && at < i,
                None => next_orphan(artifacts@.take(i as int), contexts@, protected@) is None,
            },
        decreases artifacts.len() - i,
    {
        assert(artifacts@.take(i + 1).drop_last() =~= artifacts@.take(i as int));
        let artifact: ArtifactSize = artifacts[i];
        if !is_referenced(contexts, artifact.artifact_id) && !is_among(
            protected,
            artifact.artifact_id,
        ) {
            next = match next {
                Some(at) => {
                    let other: ArtifactSize = artifacts[at];
                    if artifact.created_at_ms < other.created_at_ms || (artifact.created_at_ms
                        == other.created_at_ms && artifact.artifact_id < other.artifact_id) {
                        Some(i)
                    } else {
                        Some(at)
                    }
                },
                None => Some(i),
            };
        }
        i = i + 1;
    }
    assert(artifacts@.take(i as int) =~= artifacts@);
    next
}

/// The contexts of other runs.
pub open spec fn without_run(contexts: Seq<ContextRef>, scan_run_id: i64, count: nat) -> Seq<
    ContextRef,
>
    decreases count,
{
    if count == 0 {
        Seq::empty()
    } else {
        let earlier = without_run(contexts, scan_run_id, (count - 1) as nat);
        if contexts[count - 1].scan_run_id == scan_run_id {
            earlier
        } else {
            earlier.push(contexts[count - 1])
        }
    }
}

impl RoomRowsView {
    /// The rows without the artifact that goes next, where there is one.
    pub open spec fn without_orphan(self, protected: Seq<i64>) -> RoomRowsView {
        match next_orphan(self.artifacts, self.contexts, protected) {
            Some(at) => RoomRowsView { artifacts: self.artifacts.remove(at), ..self },
            None => self,
        }
    }

    /// The rows without up to `count` artifacts that may go.
    pub open spec fn swept(self, protected: Seq<i64>, count: nat) -> RoomRowsView
        decreases count,
    {
        if count == 0 {
            self
        } else {
            self.without_orphan(protected).swept(protected, (count - 1) as nat)
        }
    }

    /// The rows without the run that ended first, and without its context, where
    /// there is one.
    pub open spec fn without_first_run(self) -> RoomRowsView {
        match next_dropped(self.runs, Seq::empty()) {
            Some(at) => RoomRowsView {
                runs: self.runs.remove(at),
                contexts: without_run(
                    self.contexts,
                    self.runs[at].scan_run_id,
                    self.contexts.len(),
                ),
                ..self
            },
            None => self,
        }
    }

    /// The rows without up to `count` runs that ended first.
    pub open spec fn shortened(self, count: nat) -> RoomRowsView
        decreases count,
    {
        if count == 0 {
            self
        } else {
            self.without_first_run().shortened((count - 1) as nat)
        }
    }

    /// There is room for an artifact of the size.
    pub open spec fn has_room(self, new_size: i64) -> bool {
        artifacts_total(self.artifacts) + new_size <= CONTEXT_ARTIFACTS_MAX_BYTES
    }

    /// One round of making room: artifacts that may go do, and where none may, the
    /// runs that ended first go.
    pub open spec fn round(self, protected: Seq<i64>) -> RoomRowsView {
        if next_orphan(self.artifacts, self.contexts, protected) is Some {
            self.swept(protected, GC_BATCH as nat)
        } else {
            self.shortened(GC_BATCH as nat)
        }
    }

    /// No round can make more room.
    pub open spec fn stuck(self, protected: Seq<i64>) -> bool {
        next_orphan(self.artifacts, self.contexts, protected) is None && self.runs.len() == 0
    }

    /// The rows after as many rounds as it takes, but no more than `rounds`.
    pub open spec fn settled(self, protected: Seq<i64>, new_size: i64, rounds: nat) -> RoomRowsView
        decreases rounds,
    {
        if rounds == 0 || self.has_room(new_size) || self.stuck(protected) {
            self
        } else {
            self.round(protected).settled(protected, new_size, (rounds - 1) as nat)
        }
    }

    /// The artifacts that go when up to `count` do, in that order.
    pub open spec fn swept_ids(self, protected: Seq<i64>, count: nat) -> Seq<i64>
        decreases count,
    {
        if count == 0 {
            Seq::empty()
        } else {
            match next_orphan(self.artifacts, self.contexts, protected) {
                Some(at) => seq![self.artifacts[at].artifact_id] + self.without_orphan(
                    protected,
                ).swept_ids(protected, (count - 1) as nat),
                None => Seq::empty(),
            }
        }
    }

    /// The runs that go when up to `count` do, in that order.
    pub open spec fn shortened_ids(self, count: nat) -> Seq<i64>
        decreases count,
    {
        if count == 0 {
            Seq::empty()
        } else {
            match next_dropped(self.runs, Seq::empty()) {
                Some(at) => seq![self.runs[at].scan_run_id]
                    + self.without_first_run().shortened_ids((count - 1) as nat),
                None => Seq::empty(),
            }
        }
    }

    /// The artifacts that go in the rounds that it takes, but no more than `rounds`.
    pub open spec fn settled_artifacts(
        self,
        protected: Seq<i64>,
        new_size: i64,
        rounds: nat,
    ) -> Seq<i64>
        decreases rounds,
    {
        if rounds == 0 || self.has_room(new_size) || self.stuck(protected) {
            Seq::empty()
        } else {
            let later = self.round(protected).settled_artifacts(
                protected,
                new_size,
                (rounds - 1) as nat,
            );
            if next_orphan(self.artifacts, self.contexts, protected) is Some {
                self.swept_ids(protected, GC_BATCH as nat) + later
            } else {
                later
            }
        }
    }

    /// The runs that go in the rounds that it takes, but no more than `rounds`.
    pub open spec fn settled_runs(self, protected: Seq<i64>, new_size: i64, rounds: nat) -> Seq<i64>
        decreases rounds,
    {
        if rounds == 0 || self.has_room(new_size) || self.stuck(protected) {
            Seq::empty()
        } else {
            let later = self.round(protected).settled_runs(
                protected,
                new_size,
                (rounds - 1) as nat,
            );
            if next_orphan(self.artifacts, self.contexts, protected) is Some {
                later
            } else {
                self.shortened_ids(GC_BATCH as nat) + later
            }
        }
    }

    /// How many rounds there can be: each drops an artifact or a run.
    pub open spec fn rounds(self) -> nat {
        self.artifacts.len() + self.runs.len()
    }

    /// What is left when room is made for an artifact of the size.
    pub open spec fn with_room(self, protected: Seq<i64>, new_size: i64) -> RoomRowsView {
        self.settled(protected, new_size, self.rounds())
    }

    /// What keeps an artifact of the size from being stored.
    pub open spec fn room_fault(self, protected: Seq<i64>, new_size: i64) -> Option<Seq<char>> {
        if new_size > CONTEXT_ARTIFACTS_MAX_BYTES {
            Some("current artifact exceeds the 512 MiB context artifact cap"@)
        } else if !self.with_room(protected, new_size).has_room(new_size) {
            Some("context artifact retention could not make room for the current artifact"@)
        } else {
            None
        }
    }
}

fn total_fits(artifacts: &Vec<ArtifactSize>, new_size: i64) -> (fits: bool)
    ensures
        fits == (artifacts_total(artifacts@) + new_size <= CONTEXT_ARTIFACTS_MAX_BYTES),
{
    let mut total: i128 = 0;
    let mut i: usize = 0;
    while i < artifacts.len()
        invariant
            i <= artifacts.len(),
            total == artifacts_total(artifacts@.take(i as int)),
            -(i * 0x8000_0000_0000_0000) <= total <= i * 0x8000_0000_0000_0000,
        decreases artifacts.len() - i,
    {
        assert(artifacts@.take(i + 1).drop_last() =~= artifacts@.take(i as int));
        total = total + artifacts[i].artifact_size_bytes as i128;
        i = i + 1;
    }
    assert(artifacts@.take(i as int) =~= artifacts@);
    let room: i128 = CONTEXT_ARTIFACTS_MAX_BYTES as i128 - new_size as i128;
    total <= room
}

fn drop_contexts(contexts: &mut Vec<ContextRef>, scan_run_id: i64)
    ensures
        final(contexts)@ == without_run(old(contexts)@, scan_run_id, old(contexts)@.len()),
{
    let ghost all = contexts@;
    let mut kept: Vec<ContextRef> = Vec::new();
    let mut i: usize = 0;
    while i < contexts.len()
        invariant
            i <= contexts.len(),
            contexts@ == all,
            kept@ == without_run(all, scan_run_id, i as nat),
        decreases contexts.len() - i,
    {
        if contexts[i].scan_run_id != scan_run_id {
            kept.push(contexts[i]);
        }
        i = i + 1;
    }
    *contexts = kept;
}

proof fn lemma_sweep_shrinks(rows: RoomRowsView, protected: Seq<i64>, count: nat)
    ensures
        rows.swept(protected, count).artifacts.len() <= rows.artifacts.len(),
        rows.swept(protected, count).runs == rows.runs,
        rows.swept(protected, count).contexts == rows.contexts,
        count > 0 && next_orphan(rows.artifacts, rows.contexts, protected) is Some ==> rows.swept(
            protected,
            count,
        ).artifacts.len() < rows.artifacts.len(),
    decreases count,
{
    lemma_next_orphan(rows.artifacts, rows.contexts, protected);
    if count > 0 {
        lemma_sweep_shrinks(rows.without_orphan(protected), protected, (count - 1) as nat);
    }
}

proof fn lemma_shortening_shrinks(rows: RoomRowsView, count: nat)
    ensures
        rows.shortened(count).runs.len() <= rows.runs.len(),
        rows.shortened(count).artifacts == rows.artifacts,
        count > 0 && rows.runs.len() > 0 ==> rows.shortened(count).runs.len() < rows.runs.len(),
    decreases count,
{
    let none = Seq::<i64>::empty();
    lemma_next_dropped(rows.runs, none);
    if count > 0 {
        lemma_shortening_shrinks(rows.without_first_run(), (count - 1) as nat);
        if rows.runs.len() > 0 && next_dropped(rows.runs, none) is None {
            assert(none.contains(rows.runs[0].scan_run_id));
        }
    }
}

proof fn lemma_round_shrinks(rows: RoomRowsView, protected: Seq<i64>)
    requires
        !rows.stuck(protected),
    ensures
        rows.round(protected).rounds() < rows.rounds(),
{
    lemma_sweep_shrinks(rows, protected, GC_BATCH as nat);
    lemma_shortening_shrinks(rows, GC_BATCH as nat);
}

proof fn lemma_enough_rounds(
    rows: RoomRowsView,
    protected: Seq<i64>,
    new_size: i64,
    rounds: nat,
    more: nat,
)
    requires
        rows.rounds() <= rounds <= more,
    ensures
        rows.settled(protected, new_size, rounds) == rows.settled(protected, new_size, more),
        rows.settled_artifacts(protected, new_size, rounds) == rows.settled_artifacts(
            protected,
            new_size,
            more,
        ),
        rows.settled_runs(protected, new_size, rounds) == rows.settled_runs(
            protected,
            new_size,
            more,
        ),
        rows.settled(protected, new_size, rounds).has_room(new_size) || rows.settled(
            protected,
            new_size,
            rounds,
        ).stuck(protected),
    decreases rounds,
{
    if !rows.has_room(new_size) && !rows.stuck(protected) {
        lemma_round_shrinks(rows, protected);
        lemma_enough_rounds(
            rows.round(protected),
            protected,
            new_size,
            (rounds - 1) as nat,
            (more - 1) as nat,
        );
    } else if rounds == 0 {
        lemma_next_orphan(rows.artifacts, rows.contexts, protected);
    }
}

impl RoomRows {
    fn sweep(&mut self, protected: &Vec<i64>, dropped: &mut Vec<i64>)
        ensures
            final(self)@ == old(self)@.swept(protected@, GC_BATCH as nat),
            final(dropped)@ == old(dropped)@ + old(self)@.swept_ids(protected@, GC_BATCH as nat),
    {
        let ghost start = self@;
        let ghost first = dropped@;
        let mut left: usize = GC_BATCH;
        while left > 0
            invariant
                start.swept(protected@, GC_BATCH as nat) == self@.swept(protected@, left as nat),
                first + start.swept_ids(protected@, GC_BATCH as nat) == dropped@ + self@.swept_ids(
                    protected@,
                    left as nat,
                ),
            decreases left,
        {
            let ghost before = self@;
            let ghost earlier = dropped@;
            if let Some(at) = find_next_orphan(&self.artifacts, &self.contexts, protected) {
                let artifact: ArtifactSize = self.artifacts.remove(at);
                dropped.push(artifact.artifact_id);
                assert(self@ =~= before.without_orphan(protected@));
                let ghost later = self@.swept_ids(protected@, (left - 1) as nat);
                assert(earlier + (seq![artifact.artifact_id] + later) =~= dropped@ + later);
            }
            assert(self@ =~= before.without_orphan(protected@));
            left = left - 1;
        }
        assert(dropped@ + self@.swept_ids(protected@, 0) =~= dropped@);
    }

    fn shorten(&mut self, dropped: &mut Vec<i64>)
        ensures
            final(self)@ == old(self)@.shortened(GC_BATCH as nat),
            final(dropped)@ == old(dropped)@ + old(self)@.shortened_ids(GC_BATCH as nat),
    {
        let ghost start = self@;
        let ghost first = dropped@;
        let none: Vec<i64> = Vec::new();
        assert(none@ =~= Seq::<i64>::empty());
        let mut left: usize = GC_BATCH;
        while left > 0
            invariant
                none@ == Seq::<i64>::empty(),
                start.shortened(GC_BATCH as nat) == self@.shortened(left as nat),
                first + start.shortened_ids(GC_BATCH as nat) == dropped@ + self@.shortened_ids(
                    left as nat,
                ),
            decreases left,
        {
            let ghost before = self@;
            let ghost earlier = dropped@;
            if let Some(at) = find_next_dropped(&self.runs, &none) {
                let run: TerminalRun = self.runs.remove(at);
                drop_contexts(&mut self.contexts, run.scan_run_id);
                dropped.push(run.scan_run_id);
                assert(self@ =~= before.without_first_run());
                let ghost later = self@.shortened_ids((left - 1) as nat);
                assert(earlier + (seq![run.scan_run_id] + later) =~= dropped@ + later);
            }
            assert(self@ =~= before.without_first_run());
            left = left - 1;
        }
        assert(dropped@ + self@.shortened_ids(0) =~= dropped@);
    }

    /// Makes room for an artifact of the size: artifacts that nothing refers to go
    /// first, the first created of them before the others, and where there are none
    /// the runs that ended first go, with their contexts. What is referred to, and
    /// what is protected, stays.
    pub fn make_room_for_artifact(&mut self, protected: &Vec<i64>, new_size: i64) -> (plan: Result<
        RoomPlan,
        StoreError,
    >)
        ensures
            final(self)@ == if new_size > CONTEXT_ARTIFACTS_MAX_BYTES {
                old(self)@
            } else {
                old(self)@.with_room(protected@, new_size)
            },
            match old(self)@.room_fault(protected@, new_size) {
                None => plan is Ok && plan->Ok_0.artifacts@ == old(self)@.settled_artifacts(
                    protected@,
                    new_size,
                    old(self)@.rounds(),
                ) && plan->Ok_0.runs@ == old(self)@.settled_runs(
                    protected@,
                    new_size,
                    old(self)@.rounds(),
                ),
                Some(message) => plan is Err && plan->Err_0@ == StoreErrorView::RunCorrupt(message),
            },
    {
        if new_size > CONTEXT_ARTIFACTS_MAX_BYTES {
            return Err(
                StoreError::corrupt("current artifact exceeds the 512 MiB context artifact cap"),
            );
        }
        let ghost start = self@;
        let mut artifacts: Vec<i64> = Vec::new();
        let mut runs: Vec<i64> = Vec::new();
        assert(artifacts@ + start.settled_artifacts(protected@, new_size, start.rounds())
            =~= start.settled_artifacts(protected@, new_size, start.rounds()));
        assert(runs@ + start.settled_runs(protected@, new_size, start.rounds())
            =~= start.settled_runs(protected@, new_size, start.rounds()));
        loop
            invariant
                new_size <= CONTEXT_ARTIFACTS_MAX_BYTES,
                start == old(self)@,
                start.with_room(protected@, new_size) == self@.with_room(protected@, new_size),
                start.settled_artifacts(protected@, new_size, start.rounds()) == artifacts@
                    + self@.settled_artifacts(protected@, new_size, self@.rounds()),
                start.settled_runs(protected@, new_size, start.rounds()) == runs@
                    + self@.settled_runs(protected@, new_size, self@.rounds()),
            decreases self.artifacts@.len() + self.runs@.len(),
        {
            if total_fits(&self.artifacts, new_size) {
                assert(artifacts@ + self@.settled_artifacts(protected@, new_size, self@.rounds())
                    =~= artifacts@);
                assert(runs@ + self@.settled_runs(protected@, new_size, self@.rounds()) =~= runs@);
                return Ok(RoomPlan { artifacts, runs });
            }
            let ghost before = self@;
            let ghost some_artifacts = artifacts@;
            let ghost some_runs = runs@;
            let ghost after = before.round(protected@);
            proof {
                if !before.stuck(protected@) {
                    lemma_round_shrinks(before, protected@);
                    lemma_enough_rounds(
                        after,
                        protected@,
                        new_size,
                        after.rounds(),
                        (before.rounds() - 1) as nat,
                    );
                }
            }
            if find_next_orphan(&self.artifacts, &self.contexts, protected).is_some() {
                self.sweep(protected, &mut artifacts);
            } else if self.runs.len() > 0 {
                self.shorten(&mut runs);
            } else {
                return Err(
                    StoreError::corrupt(
                        "context artifact retention could not make room for the current artifact",
                    ),
                );
            }
            proof {
                assert(self@ == after);
                let more_artifacts = after.settled_artifacts(protected@, new_size, after.rounds());
                let more_runs = after.settled_runs(protected@, new_size, after.rounds());
                assert(some_artifacts + (before.swept_ids(protected@, GC_BATCH as nat)
                    + more_artifacts) =~= (some_artifacts + before.swept_ids(
                    protected@,
                    GC_BATCH as nat,
                )) + more_artifacts);
                assert(some_runs + (before.shortened_ids(GC_BATCH as nat) + more_runs) =~= (
                some_runs + before.shortened_ids(GC_BATCH as nat)) + more_runs);
            }
        }
    }
}

/// Every context refers to an artifact that is there.
pub open spec fn references_hold(rows: RoomRowsView) -> bool {
    forall|i: int|
        0 <= i < rows.contexts.len() ==> ((#[trigger] rows.contexts[i]).artifact_id matches Some(id)
            ==> exists|k: int|
            0 <= k < rows.artifacts.len() && (#[trigger] rows.artifacts[k]).artifact_id == id)
}

proof fn lemma_orphan_keeps_references(rows: RoomRowsView, protected: Seq<i64>)
    requires
        references_hold(rows),
    ensures
        references_hold(rows.without_orphan(protected)),
{
    lemma_next_orphan(rows.artifacts, rows.contexts, protected);
    if let Some(at) = next_orphan(rows.artifacts, rows.contexts, protected) {
        let after = rows.without_orphan(protected);
        assert forall|i: int| 0 <= i < after.contexts.len() implies ((
        #[trigger] after.contexts[i]).artifact_id matches Some(id) ==> exists|k: int|
            0 <= k < after.artifacts.len() && (#[trigger] after.artifacts[k]).artifact_id == id) by {
            if let Some(id) = after.contexts[i].artifact_id {
                let k = choose|k: int|
                    0 <= k < rows.artifacts.len() && (#[trigger] rows.artifacts[k]).artifact_id
                        == id;
                assert(referenced(rows.contexts, id));
                assert(k != at);
                let moved = if k < at {
                    k
                } else {
                    k - 1
                };
                assert(after.artifacts[moved] == rows.artifacts[k]);
            }
        }
    }
}

proof fn lemma_without_run(contexts: Seq<ContextRef>, scan_run_id: i64, count: nat, i: int)
    requires
        count <= contexts.len(),
        0 <= i < without_run(contexts, scan_run_id, count).len(),
    ensures
        exists|k: int|
            0 <= k < contexts.len() && #[trigger] contexts[k] == without_run(
                contexts,
                scan_run_id,
                count,
            )[i],
    decreases count,
{
    if count > 0 {
        let earlier = without_run(contexts, scan_run_id, (count - 1) as nat);
        if i < earlier.len() {
            lemma_without_run(contexts, scan_run_id, (count - 1) as nat, i);
        } else {
            assert(contexts[count - 1] == without_run(contexts, scan_run_id, count)[i]);
        }
    }
}

proof fn lemma_run_keeps_references(rows: RoomRowsView)
    requires
        references_hold(rows),
    ensures
        references_hold(rows.without_first_run()),
{
    let none = Seq::<i64>::empty();
    lemma_next_dropped(rows.runs, none);
    if let Some(at) = next_dropped(rows.runs, none) {
        let after = rows.without_first_run();
        assert forall|i: int| 0 <= i < after.contexts.len() implies ((
        #[trigger] after.contexts[i]).artifact_id matches Some(id) ==> exists|k: int|
            0 <= k < after.artifacts.len() && (#[trigger] after.artifacts[k]).artifact_id == id) by {
            lemma_without_run(
                rows.contexts,
                rows.runs[at].scan_run_id,
                rows.contexts.len(),
                i,
            );
            let k = choose|k: int|
                0 <= k < rows.contexts.len() && #[trigger] rows.contexts[k] == after.contexts[i];
            if let Some(id) = rows.contexts[k].artifact_id {
                let m = choose|m: int|
                    0 <= m < rows.artifacts.len() && (#[trigger] rows.artifacts[m]).artifact_id
                        == id;
                assert(after.artifacts[m].artifact_id == id);
            }
        }
    }
}

proof fn lemma_sweep_keeps_references(rows: RoomRowsView, protected: Seq<i64>, count: nat)
    requires
        references_hold(rows),
    ensures
        references_hold(rows.swept(protected, count)),
    decreases count,
{
    if count > 0 {
        lemma_orphan_keeps_references(rows, protected);
        lemma_sweep_keeps_references(rows.without_orphan(protected), protected, (count - 1) as nat);
    }
}

proof fn lemma_shortening_keeps_references(rows: RoomRowsView, count: nat)
    requires
        references_hold(rows),
    ensures
        references_hold(rows.shortened(count)),
    decreases count,
{
    if count > 0 {
        lemma_run_keeps_references(rows);
        lemma_shortening_keeps_references(rows.without_first_run(), (count - 1) as nat);
    }
}

proof fn lemma_settling_keeps_references(
    rows: RoomRowsView,
    protected: Seq<i64>,
    new_size: i64,
    rounds: nat,
)
    requires
        references_hold(rows),
    ensures
        references_hold(rows.settled(protected, new_size, rounds)),
    decreases rounds,
{
    if rounds > 0 && !rows.has_room(new_size) && !rows.stuck(protected) {
        lemma_sweep_keeps_references(rows, protected, GC_BATCH as nat);
        lemma_shortening_keeps_references(rows, GC_BATCH as nat);
        lemma_settling_keeps_references(
            rows.round(protected),
            protected,
            new_size,
            (rounds - 1) as nat,
        );
    }
}

/// However much room is made, an artifact that a context refers to is not dropped: if
/// every context refers to an artifact that is there, then so does every context that
/// is left.
pub proof fn law_referenced_artifacts_are_kept(
    rows: RoomRowsView,
    protected: Seq<i64>,
    new_size: i64,
)
    requires
        references_hold(rows),
    ensures
        references_hold(rows.with_room(protected, new_size)),
{
    lemma_settling_keeps_references(rows, protected, new_size, rows.rounds());
}

proof fn lemma_protected_stays(
    rows: RoomRowsView,
    protected: Seq<i64>,
    count: nat,
    artifact: ArtifactSize,
)
    requires
        rows.artifacts.contains(artifact),
        protected.contains(artifact.artifact_id),
    ensures
        rows.swept(protected, count).artifacts.contains(artifact),
    decreases count,
{
    if count > 0 {
        lemma_next_orphan(rows.artifacts, rows.contexts, protected);
        if let Some(at) = next_orphan(rows.artifacts, rows.contexts, protected) {
            lemma_remove_contains(rows.artifacts, at, artifact);
        }
        lemma_protected_stays(
            rows.without_orphan(protected),
            protected,
            (count - 1) as nat,
            artifact,
        );
    }
}

proof fn lemma_settled_keeps_protected(
    rows: RoomRowsView,
    protected: Seq<i64>,
    new_size: i64,
    rounds: nat,
    artifact: ArtifactSize,
)
    requires
        rows.artifacts.contains(artifact),
        protected.contains(artifact.artifact_id),
    ensures
        rows.settled(protected, new_size, rounds).artifacts.contains(artifact),
    decreases rounds,
{
    if rounds > 0 && !rows.has_room(new_size) && !rows.stuck(protected) {
        lemma_protected_stays(rows, protected, GC_BATCH as nat, artifact);
        lemma_shortening_shrinks(rows, GC_BATCH as nat);
        lemma_settled_keeps_protected(
            rows.round(protected),
            protected,
            new_size,
            (rounds - 1) as nat,
            artifact,
        );
    }
}

/// A protected artifact is never dropped to make room.
pub proof fn law_protected_artifacts_are_kept(
    rows: RoomRowsView,
    protected: Seq<i64>,
    new_size: i64,
    artifact: ArtifactSize,
)
    requires
        rows.artifacts.contains(artifact),
        protected.contains(artifact.artifact_id),
    ensures
        rows.with_room(protected, new_size).artifacts.contains(artifact),
{
    lemma_settled_keeps_protected(rows, protected, new_size, rows.rounds(), artifact);
}

/// Where no room can be made, everything that may go has gone: no run that has ended is
/// left, and every artifact that is left is protected or referred to.
pub proof fn law_no_room_means_nothing_may_go(
    rows: RoomRowsView,
    protected: Seq<i64>,
    new_size: i64,
    at: int,
)
    requires
        new_size <= CONTEXT_ARTIFACTS_MAX_BYTES,
        rows.room_fault(protected, new_size) is Some,
        0 <= at < rows.with_room(protected, new_size).artifacts.len(),
    ensures
        rows.with_room(protected, new_size).runs.len() == 0,
        !droppable(
            rows.with_room(protected, new_size).artifacts[at],
            rows.with_room(protected, new_size).contexts,
            protected,
        ),
{
    lemma_enough_rounds(rows, protected, new_size, rows.rounds(), rows.rounds());
    let left = rows.with_room(protected, new_size);
    lemma_next_orphan(left.artifacts, left.contexts, protected);
}

// ---------------------------------------------------------------------------
// Collecting in passing
// ---------------------------------------------------------------------------

/// A step of the collection that runs in what time is left after a run has ended.
#[derive(Clone, Copy, Debug, PartialEq, Eq, Structural)]
pub enum GcStep {
    /// Drops a batch of artifacts that nothing refers to.
    DropOrphans,
    /// Drops a batch of runs that are too old.
    DropAged,
    Finish,
}

/// The step that follows. `last` is the step before and how many rows it dropped.
pub open spec fn next_gc(last: Option<(GcStep, u64)>, remaining_ms: i64) -> GcStep {
    if remaining_ms <= 0 {
        GcStep::Finish
    } else {
        match last {
            None => GcStep::DropOrphans,
            Some((GcStep::DropOrphans, dropped)) => if dropped == 0 {
                GcStep::DropAged
            } else {
                GcStep::DropOrphans
            },
            Some((GcStep::DropAged, dropped)) => if dropped == 0 {
                GcStep::Finish
            } else {
                GcStep::DropAged
            },
            Some((GcStep::Finish, _)) => GcStep::Finish,
        }
    }
}

/// The step that follows. `last` is the step before and how many rows it dropped.
pub fn next_gc_step(last: Option<(GcStep, u64)>, remaining_ms: i64) -> (step: GcStep)
    ensures
        step == next_gc(last, remaining_ms),
{
    if remaining_ms <= 0 {
        return GcStep::Finish;
    }
    match last {
        None => GcStep::DropOrphans,
        Some((GcStep::DropOrphans, dropped)) => {
            if dropped == 0 {
                GcStep::DropAged
            } else {
                GcStep::DropOrphans
            }
        },
        Some((GcStep::DropAged, dropped)) => {
            if dropped == 0 {
                GcStep::Finish
            } else {
                GcStep::DropAged
            }
        },
        Some((GcStep::Finish, _)) => GcStep::Finish,
    }
}

/// No batch is begun once the time is up.
pub proof fn law_collection_stops_in_time(last: Option<(GcStep, u64)>, remaining_ms: i64)
    requires
        remaining_ms <= 0,
    ensures
        next_gc(last, remaining_ms) == GcStep::Finish,
{
}

/// Milliseconds that are left of the budget at `now_ms`.
pub fn remaining_opportunistic_ms(deadline: i64, now_ms: i64) -> (remaining: i64)
    ensures
        remaining == crate::store::run::saturated_difference(deadline as int, now_ms as int),
{
    let exact: i128 = deadline as i128 - now_ms as i128;
    if exact < i64::MIN as i128 {
        i64::MIN
    } else if exact > i64::MAX as i128 {
        i64::MAX
    } else {
        exact as i64
    }
}

// ---------------------------------------------------------------------------
// Clauses
// ---------------------------------------------------------------------------

/// `count` placeholders, parted by commas.
pub open spec fn placeholders(count: nat) -> Seq<char>
    decreases count,
{
    if count == 0 {
        Seq::empty()
    } else if count == 1 {
        seq!['?']
    } else {
        placeholders((count - 1) as nat) + seq![',', '?']
    }
}

/// The condition that a column is none of `count` values; nothing where there are none.
pub open spec fn excluded(column: Seq<char>, count: nat) -> Seq<char> {
    if count == 0 {
        Seq::empty()
    } else {
        " AND "@ + column + " NOT IN ("@ + placeholders(count) + ")"@
    }
}

fn excluding(column: &str, count: usize) -> (clause: String)
    ensures
        clause@ == excluded(column@, count as nat),
{
    proof {
        reveal_strlit("");
    }
    let mut clause: String = "".to_string();
    if count == 0 {
        assert(clause@ =~= Seq::<char>::empty());
        return clause;
    }
    clause.append(" AND ");
    clause.append(column);
    clause.append(" NOT IN (");
    let ghost before = clause@;
    clause.push('?');
    let mut i: usize = 1;
    assert(clause@ =~= before + placeholders(1));
    while i < count
        invariant
            1 <= i <= count,
            clause@ == before + placeholders(i as nat),
        decreases count - i,
    {
        clause.push(',');
        clause.push('?');
        assert(clause@ =~= before + placeholders((i + 1) as nat));
        i = i + 1;
    }
    clause.append(")");
    assert(clause@ =~= excluded(column@, count as nat));
    clause
}

/// The condition that an artifact is none of `count` ones.
pub fn not_in_clause(count: usize) -> (clause: String)
    ensures
        clause@ == excluded("artifact_id"@, count as nat),
{
    excluding("artifact_id", count)
}

/// The condition that a run is none of `count` ones.
pub fn terminal_run_not_in_clause(count: usize) -> (clause: String)
    ensures
        clause@ == excluded("scan_run_id"@, count as nat),
{
    excluding("scan_run_id", count)
}

// ---------------------------------------------------------------------------
// Laws of what goes first
// ---------------------------------------------------------------------------

/// Of two runs the one that ended earlier is dropped first, one that never ended before
/// both, and of two that ended together the older one.
pub proof fn law_older_runs_are_dropped_first(left: TerminalRun, right: TerminalRun)
    ensures
        left.finished_at_ms matches Some(a) && right.finished_at_ms matches Some(b) && a < b
            ==> dropped_before(left, right) && !dropped_before(right, left),
        left.finished_at_ms is None && right.finished_at_ms is Some ==> dropped_before(left, right)
            && !dropped_before(right, left),
        left.finished_at_ms == right.finished_at_ms && left.scan_run_id < right.scan_run_id
            ==> dropped_before(left, right) && !dropped_before(right, left),
        left == right ==> !dropped_before(left, right),
{
}

/// A run that ended within the days that runs are kept stays, as long as the runs of those
/// days are neither too many nor too large; one that ended before goes, unless it is
/// protected.
pub proof fn law_runs_of_the_kept_days_stay(
    runs: Seq<TerminalRun>,
    protected: Seq<i64>,
    now_ms: i64,
    run: TerminalRun,
)
    requires
        runs.contains(run),
        i64::MIN <= now_ms - TERMINAL_RUN_MAX_AGE_DAYS * DAY_MS,
    ensures
        ({
            let kept = retained(runs, protected, now_ms);
            let recent = run.finished_at_ms is None || run.finished_at_ms->0 >= now_ms
                - TERMINAL_RUN_MAX_AGE_DAYS * DAY_MS;
            &&& !recent && !protected.contains(run.scan_run_id) ==> !kept.contains(run)
            &&& recent && runs.len() <= TERMINAL_RUN_MAX_COUNT && audit_total(
                young(runs, cutoff_of(now_ms), protected, runs.len()),
            ) <= TERMINAL_AUDIT_MAX_BYTES ==> kept.contains(run)
        }),
{
    let some = young(runs, cutoff_of(now_ms), protected, runs.len());
    lemma_young(runs, cutoff_of(now_ms), protected, runs.len(), run);
    lemma_young_fewer(runs, cutoff_of(now_ms), protected, runs.len());
    assert(runs.take(runs.len() as int) =~= runs);
    lemma_trimmed(some, protected, run);
}

proof fn lemma_young_fewer(
    runs: Seq<TerminalRun>,
    cutoff_ms: i64,
    protected: Seq<i64>,
    count: nat,
)
    ensures
        young(runs, cutoff_ms, protected, count).len() <= count,
    decreases count,
{
    if count > 0 {
        lemma_young_fewer(runs, cutoff_ms, protected, (count - 1) as nat);
    }
}

/// Retention leaves at most the number of runs and the bytes of audit that are kept, where
/// nothing is protected.
pub proof fn law_retention_leaves_what_is_kept(runs: Seq<TerminalRun>, now_ms: i64)
    ensures
        retained(runs, Seq::empty(), now_ms).len() <= TERMINAL_RUN_MAX_COUNT,
        audit_total(retained(runs, Seq::empty(), now_ms)) <= TERMINAL_AUDIT_MAX_BYTES,
{
    law_retention_respects_the_limits(runs, now_ms);
}

/// Of the runs that are kept and those that are dropped for want of room, a dropped one
/// never ended later than a kept one that was not protected.
pub proof fn law_no_later_run_is_dropped_for_room(
    runs: Seq<TerminalRun>,
    protected: Seq<i64>,
    now_ms: i64,
    run: TerminalRun,
    kept: TerminalRun,
)
    requires
        runs.contains(run),
        !retained(runs, protected, now_ms).contains(run),
        !aged(run, cutoff_of(now_ms), protected),
        retained(runs, protected, now_ms).contains(kept),
        !protected.contains(kept.scan_run_id),
        run.finished_at_ms is Some,
        kept.finished_at_ms is Some,
    ensures
        run.finished_at_ms->0 <= kept.finished_at_ms->0,
{
    law_the_first_runs_are_dropped(runs, protected, now_ms, run, kept);
    law_older_runs_are_dropped_first(kept, run);
}

proof fn lemma_aged_ids(
    runs: Seq<TerminalRun>,
    cutoff_ms: i64,
    protected: Seq<i64>,
    count: nat,
    run: TerminalRun,
)
    requires
        count <= runs.len(),
        runs.take(count as int).contains(run),
        aged(run, cutoff_ms, protected),
    ensures
        aged_ids(runs, cutoff_ms, protected, count).contains(run.scan_run_id),
    decreases count,
{
    let all = runs.take(count as int);
    let i = choose|i: int| 0 <= i < all.len() && all[i] == run;
    let ids = aged_ids(runs, cutoff_ms, protected, count);
    if i < count - 1 {
        assert(runs.take(count - 1)[i] == run);
        lemma_aged_ids(runs, cutoff_ms, protected, (count - 1) as nat, run);
        let earlier = aged_ids(runs, cutoff_ms, protected, (count - 1) as nat);
        let k = choose|k: int| 0 <= k < earlier.len() && earlier[k] == run.scan_run_id;
        assert(ids[k] == run.scan_run_id);
    } else {
        assert(ids.last() == run.scan_run_id);
    }
}

proof fn lemma_trimmed_ids(runs: Seq<TerminalRun>, protected: Seq<i64>, run: TerminalRun)
    requires
        runs.contains(run),
        !trimmed(runs, protected).contains(run),
    ensures
        trimmed_ids(runs, protected).contains(run.scan_run_id),
    decreases runs.len(),
{
    lemma_next_dropped(runs, protected);
    let at = next_dropped(runs, protected)->0;
    let ids = trimmed_ids(runs, protected);
    assert(over_limits(runs) && next_dropped(runs, protected) is Some);
    if runs[at] == run {
        assert(ids[0] == run.scan_run_id);
    } else {
        let rest = runs.remove(at);
        lemma_remove_contains(runs, at, run);
        lemma_trimmed_ids(rest, protected, run);
        let later = trimmed_ids(rest, protected);
        let k = choose|k: int| 0 <= k < later.len() && later[k] == run.scan_run_id;
        assert(ids[k + 1] == run.scan_run_id);
    }
}

/// Every run that is not kept is told as dropped.
pub proof fn law_dropped_runs_are_told(
    runs: Seq<TerminalRun>,
    protected: Seq<i64>,
    now_ms: i64,
    run: TerminalRun,
)
    requires
        runs.contains(run),
        !retained(runs, protected, now_ms).contains(run),
    ensures
        dropped_ids(runs, protected, now_ms).contains(run.scan_run_id),
{
    let cutoff_ms = cutoff_of(now_ms);
    let first = aged_ids(runs, cutoff_ms, protected, runs.len());
    let some = young(runs, cutoff_ms, protected, runs.len());
    let second = trimmed_ids(some, protected);
    let all = dropped_ids(runs, protected, now_ms);
    assert(runs.take(runs.len() as int) =~= runs);
    if aged(run, cutoff_ms, protected) {
        lemma_aged_ids(runs, cutoff_ms, protected, runs.len(), run);
        let k = choose|k: int| 0 <= k < first.len() && first[k] == run.scan_run_id;
        assert(all[k] == run.scan_run_id);
    } else {
        lemma_young(runs, cutoff_ms, protected, runs.len(), run);
        lemma_trimmed_ids(some, protected, run);
        let k = choose|k: int| 0 <= k < second.len() && second[k] == run.scan_run_id;
        assert(all[first.len() + k] == run.scan_run_id);
    }
}

/// The record of a run is refused exactly where it is too large for itself, or where the
/// runs that must stay leave no room for it.
pub proof fn law_records_are_refused_for_want_of_room(
    runs: Seq<TerminalRun>,
    protected: Seq<i64>,
    now_ms: i64,
    audit_size: i64,
)
    ensures
        ({
            let kept = retained(runs, protected, now_ms);
            retention_fault(runs, protected, now_ms, audit_size) is None <==> audit_size
                <= TERMINAL_AUDIT_MAX_BYTES && kept.len() <= TERMINAL_RUN_MAX_COUNT
                && audit_total(kept) <= TERMINAL_AUDIT_MAX_BYTES
        }),
{
}

/// An artifact may go exactly where no context refers to it and it is not protected, and
/// of those that may go the one that was created first goes first.
pub proof fn law_older_orphans_go_first(
    artifacts: Seq<ArtifactSize>,
    contexts: Seq<ContextRef>,
    protected: Seq<i64>,
    other: int,
)
    requires
        0 <= other < artifacts.len(),
        !protected.contains(artifacts[other].artifact_id),
        forall|i: int|
            0 <= i < contexts.len() ==> (#[trigger] contexts[i]).artifact_id != Some(
                artifacts[other].artifact_id,
            ),
    ensures
        next_orphan(artifacts, contexts, protected) matches Some(at) && 0 <= at < artifacts.len()
            && artifacts[at].created_at_ms <= artifacts[other].created_at_ms
            && !protected.contains(artifacts[at].artifact_id) && forall|i: int|
            0 <= i < contexts.len() ==> (#[trigger] contexts[i]).artifact_id != Some(
                artifacts[at].artifact_id,
            ),
    decreases artifacts.len(),
{
    lemma_next_orphan(artifacts, contexts, protected);
    let last = artifacts.len() - 1;
    let rest = artifacts.drop_last();
    lemma_next_orphan(rest, contexts, protected);
    if other < last {
        assert(rest[other] == artifacts[other]);
        law_older_orphans_go_first(rest, contexts, protected, other);
    }
    assert(droppable(artifacts[other], contexts, protected));
}

/// Where there is room for a new artifact nothing is dropped.
pub proof fn law_nothing_is_dropped_where_there_is_room(
    rows: RoomRowsView,
    protected: Seq<i64>,
    new_size: i64,
)
    requires
        artifacts_total(rows.artifacts) + new_size <= CONTEXT_ARTIFACTS_MAX_BYTES,
    ensures
        rows.with_room(protected, new_size) == rows,
        rows.settled_artifacts(protected, new_size, rows.rounds()).len() == 0,
        rows.settled_runs(protected, new_size, rows.rounds()).len() == 0,
        new_size <= CONTEXT_ARTIFACTS_MAX_BYTES ==> rows.room_fault(protected, new_size) is None,
{
}

/// Room is made exactly where a new artifact fits by itself and, once what may go has gone,
/// beside what is left.
pub proof fn law_room_is_made_up_to_the_cap(
    rows: RoomRowsView,
    protected: Seq<i64>,
    new_size: i64,
)
    ensures
        rows.room_fault(protected, new_size) is None <==> new_size <= CONTEXT_ARTIFACTS_MAX_BYTES
            && artifacts_total(rows.with_room(protected, new_size).artifacts) + new_size
            <= CONTEXT_ARTIFACTS_MAX_BYTES,
{
}

/// Dropping a run drops its contexts and no other.
pub proof fn law_contexts_go_with_their_run(
    contexts: Seq<ContextRef>,
    scan_run_id: i64,
    count: nat,
    context: ContextRef,
)
    requires
        count <= contexts.len(),
    ensures
        without_run(contexts, scan_run_id, count).contains(context) <==> contexts.take(
            count as int,
        ).contains(context) && context.scan_run_id != scan_run_id,
    decreases count,
{
    let left = without_run(contexts, scan_run_id, count);
    let all = contexts.take(count as int);
    if count > 0 {
        law_contexts_go_with_their_run(contexts, scan_run_id, (count - 1) as nat, context);
        let earlier = without_run(contexts, scan_run_id, (count - 1) as nat);
        let some = contexts.take(count - 1);
        let last = contexts[count - 1];
        assert(all =~= some.push(last));
        if some.contains(context) {
            let k = choose|k: int| 0 <= k < some.len() && some[k] == context;
            assert(all[k] == context);
        }
        if all.contains(context) && !some.contains(context) {
            let k = choose|k: int| 0 <= k < all.len() && all[k] == context;
            if k < count - 1 {
                assert(some[k] == context);
            }
        }
        if context == last {
            assert(all[count - 1] == context);
        }
        if last.scan_run_id != scan_run_id {
            if earlier.contains(context) {
                let k = choose|k: int| 0 <= k < earlier.len() && earlier[k] == context;
                assert(left[k] == context);
            }
            if left.contains(context) && !earlier.contains(context) {
                let k = choose|k: int| 0 <= k < left.len() && left[k] == context;
                if k < earlier.len() {
                    assert(earlier[k] == context);
                }
            }
            if context == last {
                assert(left[earlier.len() as int] == context);
            }
        }
    }
}

/// Collecting goes on with orphans until none is left, then with aged runs until none is
/// left, and then ends.
pub proof fn law_orphans_are_collected_before_aged_runs(
    last: Option<(GcStep, u64)>,
    remaining_ms: i64,
)
    requires
        remaining_ms > 0,
    ensures
        ({
            let step = next_gc(last, remaining_ms);
            &&& last is None ==> step == GcStep::DropOrphans
            &&& last matches Some((done, dropped)) ==> {
                &&& dropped > 0 && done != GcStep::Finish ==> step == done
                &&& done == GcStep::DropOrphans && dropped == 0 ==> step == GcStep::DropAged
                &&& done == GcStep::DropAged && dropped == 0 ==> step == GcStep::Finish
                &&& done == GcStep::Finish ==> step == GcStep::Finish
            }
        }),
{
}

/// A clause has a place for each of the values that it excludes, and there is none where
/// there is nothing to exclude.
pub proof fn law_clauses_have_a_place_for_each_value(column: Seq<char>, count: nat)
    ensures
        count == 0 ==> excluded(column, count).len() == 0,
        count > 0 ==> placeholders(count).len() == 2 * count - 1,
        forall|i: int|
            0 <= i < placeholders(count).len() ==> #[trigger] placeholders(count)[i] == if i % 2
                == 0 {
                '?'
            } else {
                ','
            },
        count > 0 ==> excluded(column, count) == " AND "@ + column + " NOT IN ("@ + placeholders(
            count,
        ) + ")"@,
    decreases count,
{
    if count > 1 {
        law_clauses_have_a_place_for_each_value(column, (count - 1) as nat);
    }
}

} // verus!
