//! What a cleanup drops from a database that is held alone.
use crate::contract::views;
use crate::store::cache::{
    evict, law_eviction_respects_the_cap, survivors, total_size, victims,
    EvictionRow, EvictionRowView, CLASSIFICATION_CACHE_MAX_BYTES, PARSE_CACHE_MAX_BYTES,
};
use crate::store::retention::{
    aged, aged_ids, cutoff_of, dropped_ids, gc_orphan_artifacts, gc_terminal_runs,
    is_among, is_referenced, law_aged_runs_are_dropped, law_retention_respects_the_limits, over_limits, referenced,
    referenced_artifacts, retained, trimmed, trimmed_ids, young, ArtifactSize, ContextRef,
    TerminalRun,
};
use vstd::prelude::*;

verus! {

/// The rows of a database that a cleanup looks at.
pub struct UpkeepRows {
    /// The runs that are still marked as under way.
    pub running: Vec<i64>,
    /// The runs that have ended.
    pub ended: Vec<TerminalRun>,
    pub contexts: Vec<ContextRef>,
    pub artifacts: Vec<ArtifactSize>,
    pub parses: Vec<EvictionRow>,
    pub classifications: Vec<EvictionRow>,
}

/// The rows of a database that a cleanup looks at.
#[verifier::ext_equal]
pub struct UpkeepRowsView {
    pub running: Seq<i64>,
    pub ended: Seq<TerminalRun>,
    pub contexts: Seq<ContextRef>,
    pub artifacts: Seq<ArtifactSize>,
    pub parses: Seq<EvictionRowView>,
    pub classifications: Seq<EvictionRowView>,
}

impl View for UpkeepRows {
    type V = UpkeepRowsView;

    open spec fn view(&self) -> UpkeepRowsView {
        UpkeepRowsView {
            running: self.running@,
            ended: self.ended@,
            contexts: self.contexts@,
            artifacts: self.artifacts@,
            parses: views(self.parses@),
            classifications: views(self.classifications@),
        }
    }
}

/// What a cleanup changes.
pub struct UpkeepPlan {
    /// The runs that are given up.
    pub expired: Vec<i64>,
    /// The runs that are dropped, in that order.
    pub runs: Vec<i64>,
    /// The artifacts that are dropped.
    pub artifacts: Vec<i64>,
    /// The cached parses that are dropped, by row.
    pub parses: Vec<i64>,
    /// The cached classifications that are dropped, by row.
    pub classifications: Vec<i64>,
}

/// A run that is given up now: it has ended and left no audit.
pub open spec fn given_up_now(scan_run_id: i64, now_ms: i64) -> TerminalRun {
    TerminalRun { scan_run_id, finished_at_ms: Some(now_ms), audit_size_bytes: 0 }
}

/// The first `count` contexts, without those of the dropped runs.
pub open spec fn contexts_left(contexts: Seq<ContextRef>, dropped: Seq<i64>, count: nat) -> Seq<
    ContextRef,
>
    decreases count,
{
    if count == 0 {
        Seq::empty()
    } else {
        let earlier = contexts_left(contexts, dropped, (count - 1) as nat);
        if dropped.contains(contexts[count - 1].scan_run_id) {
            earlier
        } else {
            earlier.push(contexts[count - 1])
        }
    }
}

/// The identities of those of the first `count` artifacts that nothing refers to.
pub open spec fn orphan_ids(
    artifacts: Seq<ArtifactSize>,
    contexts: Seq<ContextRef>,
    count: nat,
) -> Seq<i64>
    decreases count,
{
    if count == 0 {
        Seq::empty()
    } else {
        let earlier = orphan_ids(artifacts, contexts, (count - 1) as nat);
        if referenced(contexts, artifacts[count - 1].artifact_id) {
            earlier
        } else {
            earlier.push(artifacts[count - 1].artifact_id)
        }
    }
}

/// The rows by which cached entries are found.
pub open spec fn row_ids(rows: Seq<EvictionRowView>) -> Seq<i64> {
    rows.map_values(|row: EvictionRowView| row.row_id)
}

impl UpkeepRowsView {
    /// The runs that have ended once those under way are given up.
    pub open spec fn all_ended(self, now_ms: i64) -> Seq<TerminalRun> {
        self.ended + self.running.map_values(|id: i64| given_up_now(id, now_ms))
    }

    /// The runs that are dropped.
    pub open spec fn dropped_runs(self, now_ms: i64) -> Seq<i64> {
        dropped_ids(self.all_ended(now_ms), Seq::empty(), now_ms)
    }

    /// The contexts that are left once the runs are dropped.
    pub open spec fn kept_contexts(self, now_ms: i64) -> Seq<ContextRef> {
        contexts_left(self.contexts, self.dropped_runs(now_ms), self.contexts.len())
    }

    /// The rows after the cleanup: the runs under way are given up, the runs that have
    /// ended are kept within their limits, then the artifacts go that nothing refers to
    /// any more, and both caches are brought under their caps.
    pub open spec fn collected(self, now_ms: i64) -> UpkeepRowsView {
        UpkeepRowsView {
            running: Seq::empty(),
            ended: retained(self.all_ended(now_ms), Seq::empty(), now_ms),
            contexts: self.kept_contexts(now_ms),
            artifacts: referenced_artifacts(
                self.artifacts,
                self.kept_contexts(now_ms),
                self.artifacts.len(),
            ),
            parses: survivors(self.parses, PARSE_CACHE_MAX_BYTES as int),
            classifications: survivors(
                self.classifications,
                CLASSIFICATION_CACHE_MAX_BYTES as int,
            ),
        }
    }
}

fn drop_contexts_of(contexts: &mut Vec<ContextRef>, dropped: &Vec<i64>)
    ensures
        final(contexts)@ == contexts_left(old(contexts)@, dropped@, old(contexts)@.len()),
{
    let ghost all = contexts@;
    let mut kept: Vec<ContextRef> = Vec::new();
    let mut i: usize = 0;
    while i < contexts.len()
        invariant
            i <= contexts.len(),
            contexts@ == all,
            kept@ == contexts_left(all, dropped@, i as nat),
        decreases contexts.len() - i,
    {
        if !is_among(dropped, contexts[i].scan_run_id) {
            kept.push(contexts[i]);
        }
        i = i + 1;
    }
    *contexts = kept;
}

fn list_orphans(artifacts: &Vec<ArtifactSize>, contexts: &Vec<ContextRef>) -> (ids: Vec<i64>)
    ensures
        ids@ == orphan_ids(artifacts@, contexts@, artifacts@.len()),
{
    let mut ids: Vec<i64> = Vec::new();
    let mut i: usize = 0;
    while i < artifacts.len()
        invariant
            i <= artifacts.len(),
            ids@ == orphan_ids(artifacts@, contexts@, i as nat),
        decreases artifacts.len() - i,
    {
        if !is_referenced(contexts, artifacts[i].artifact_id) {
            ids.push(artifacts[i].artifact_id);
        }
        i = i + 1;
    }
    ids
}

fn list_rows(rows: &Vec<EvictionRow>) -> (ids: Vec<i64>)
    ensures
        ids@ == row_ids(views(rows@)),
{
    let ghost all = views(rows@);
    let mut ids: Vec<i64> = Vec::new();
    let mut i: usize = 0;
    while i < rows.len()
        invariant
            i <= rows.len(),
            all == views(rows@),
            ids@.len() == i,
            forall|k: int| 0 <= k < i ==> #[trigger] ids@[k] == all[k].row_id,
        decreases rows.len() - i,
    {
        assert(all[i as int] == rows@[i as int]@);
        ids.push(rows[i].row_id);
        i = i + 1;
    }
    assert(ids@ =~= row_ids(all));
    ids
}

/// Evicts cached rows until the rest fits under the cap, and tells which ones.
fn evict_in_place(rows: &mut Vec<EvictionRow>, cap: i64) -> (ids: Vec<i64>)
    ensures
        views(final(rows)@) == survivors(views(old(rows)@), cap as int),
        ids@ == row_ids(victims(views(old(rows)@), cap as int)),
{
    let mut all: Vec<EvictionRow> = Vec::new();
    std::mem::swap(&mut all, rows);
    let (kept, gone) = evict(all, cap);
    *rows = kept;
    list_rows(&gone)
}

impl UpkeepRows {
    fn expire(&mut self, now_ms: i64) -> (expired: Vec<i64>)
        ensures
            expired@ == old(self)@.running,
            final(self)@ == (UpkeepRowsView {
                running: Seq::empty(),
                ended: old(self)@.all_ended(now_ms),
                ..old(self)@
            }),
    {
        let ghost start = self@;
        let mut expired: Vec<i64> = Vec::new();
        std::mem::swap(&mut expired, &mut self.running);
        assert(self@ == (UpkeepRowsView { running: Seq::empty(), ..start }));
        let ghost given_up = start.running.map_values(|id: i64| given_up_now(id, now_ms));
        let mut i: usize = 0;
        assert(self.ended@ =~= start.ended + given_up.take(0));
        while i < expired.len()
            invariant
                i <= expired.len(),
                expired@ == start.running,
                given_up == start.running.map_values(|id: i64| given_up_now(id, now_ms)),
                self.ended@ == start.ended + given_up.take(i as int),
                self@ == (UpkeepRowsView {
                    running: Seq::empty(),
                    ended: self.ended@,
                    ..start
                }),
            decreases expired.len() - i,
        {
            self.ended.push(
                TerminalRun {
                    scan_run_id: expired[i],
                    finished_at_ms: Some(now_ms),
                    audit_size_bytes: 0,
                },
            );
            i = i + 1;
            assert(given_up[i - 1] == given_up_now(start.running[i - 1], now_ms));
            assert(self.ended@ =~= start.ended + given_up.take(i as int));
        }
        assert(given_up.take(i as int) =~= given_up);
        expired
    }

    /// Cleans the rows up, and tells what that changes.
    pub fn run_maintenance_gc(&mut self, now_ms: i64) -> (plan: UpkeepPlan)
        ensures
            final(self)@ == old(self)@.collected(now_ms),
            plan.expired@ == old(self)@.running,
            plan.runs@ == old(self)@.dropped_runs(now_ms),
            plan.artifacts@ == orphan_ids(
                old(self)@.artifacts,
                old(self)@.kept_contexts(now_ms),
                old(self)@.artifacts.len(),
            ),
            plan.parses@ == row_ids(victims(old(self)@.parses, PARSE_CACHE_MAX_BYTES as int)),
            plan.classifications@ == row_ids(
                victims(old(self)@.classifications, CLASSIFICATION_CACHE_MAX_BYTES as int),
            ),
    {
        let expired: Vec<i64> = self.expire(now_ms);
        let runs: Vec<i64> = gc_terminal_runs(&mut self.ended, now_ms);
        drop_contexts_of(&mut self.contexts, &runs);
        let artifacts: Vec<i64> = list_orphans(&self.artifacts, &self.contexts);
        gc_orphan_artifacts(&mut self.artifacts, &self.contexts);
        let parses: Vec<i64> = evict_in_place(&mut self.parses, PARSE_CACHE_MAX_BYTES);
        let classifications: Vec<i64> = evict_in_place(
            &mut self.classifications,
            CLASSIFICATION_CACHE_MAX_BYTES,
        );
        UpkeepPlan { expired, runs, artifacts, parses, classifications }
    }
}

// ---------------------------------------------------------------------------
// Laws
// ---------------------------------------------------------------------------

/// After a cleanup no run is under way, the runs are within their limits, every artifact
/// is referred to, and each cache is under its cap.
pub proof fn law_cleaned_databases_are_within_limits(rows: UpkeepRowsView, now_ms: i64)
    ensures
        rows.collected(now_ms).running.len() == 0,
        !over_limits(rows.collected(now_ms).ended),
        forall|i: int|
            0 <= i < rows.collected(now_ms).artifacts.len() ==> referenced(
                rows.collected(now_ms).contexts,
                (#[trigger] rows.collected(now_ms).artifacts[i]).artifact_id,
            ),
        rows.collected(now_ms).parses.len() == 0 || total_size(rows.collected(now_ms).parses)
            <= PARSE_CACHE_MAX_BYTES,
        rows.collected(now_ms).classifications.len() == 0 || total_size(
            rows.collected(now_ms).classifications,
        ) <= CLASSIFICATION_CACHE_MAX_BYTES,
{
    law_retention_respects_the_limits(rows.all_ended(now_ms), now_ms);
    law_eviction_respects_the_cap(rows.parses, PARSE_CACHE_MAX_BYTES as int);
    law_eviction_respects_the_cap(rows.classifications, CLASSIFICATION_CACHE_MAX_BYTES as int);
    lemma_kept_are_referenced(rows.artifacts, rows.kept_contexts(now_ms), rows.artifacts.len());
}

/// A cleanup that follows another at once changes nothing.
pub proof fn law_cleaning_twice_changes_nothing(rows: UpkeepRowsView, now_ms: i64)
    ensures
        rows.collected(now_ms).collected(now_ms) == rows.collected(now_ms),
        rows.collected(now_ms).dropped_runs(now_ms).len() == 0,
{
    let clean = rows.collected(now_ms);
    let none = Seq::<i64>::empty();
    law_cleaned_databases_are_within_limits(rows, now_ms);
    assert(clean.all_ended(now_ms) =~= clean.ended);
    assert forall|i: int| 0 <= i < clean.ended.len() implies !aged(
        #[trigger] clean.ended[i],
        cutoff_of(now_ms),
        none,
    ) by {
        law_aged_runs_are_dropped(rows.all_ended(now_ms), none, now_ms, clean.ended[i]);
    }
    lemma_nothing_aged(clean.ended, cutoff_of(now_ms), clean.ended.len());
    assert(clean.ended.take(clean.ended.len() as int) =~= clean.ended);
    assert(trimmed(clean.ended, none) == clean.ended);
    assert(trimmed_ids(clean.ended, none) =~= none);
    assert(clean.dropped_runs(now_ms) =~= none);
    lemma_nothing_dropped(clean.contexts, none, clean.contexts.len());
    assert(clean.contexts.take(clean.contexts.len() as int) =~= clean.contexts);
    lemma_all_referenced(clean.artifacts, clean.contexts, clean.artifacts.len());
    assert(clean.artifacts.take(clean.artifacts.len() as int) =~= clean.artifacts);
    assert(clean.collected(now_ms) =~= clean);
}

/// A context stays exactly where its run is not dropped: what a kept run refers to is
/// kept.
pub proof fn law_kept_runs_keep_their_artifacts(
    rows: UpkeepRowsView,
    now_ms: i64,
    context: ContextRef,
    artifact: ArtifactSize,
)
    requires
        rows.contexts.contains(context),
        rows.artifacts.contains(artifact),
        context.artifact_id == Some(artifact.artifact_id),
        !rows.dropped_runs(now_ms).contains(context.scan_run_id),
    ensures
        rows.collected(now_ms).contexts.contains(context),
        rows.collected(now_ms).artifacts.contains(artifact),
{
    lemma_context_stays(rows.contexts, rows.dropped_runs(now_ms), rows.contexts.len(), context);
    assert(rows.contexts.take(rows.contexts.len() as int) =~= rows.contexts);
    let kept = rows.kept_contexts(now_ms);
    let at = choose|i: int| 0 <= i < kept.len() && kept[i] == context;
    assert(kept[at].artifact_id == Some(artifact.artifact_id));
    crate::store::retention::law_only_orphans_are_dropped(rows.artifacts, kept, artifact);
}

proof fn lemma_context_stays(
    contexts: Seq<ContextRef>,
    dropped: Seq<i64>,
    count: nat,
    context: ContextRef,
)
    requires
        count <= contexts.len(),
        !dropped.contains(context.scan_run_id),
        contexts.take(count as int).contains(context),
    ensures
        contexts_left(contexts, dropped, count).contains(context),
    decreases count,
{
    let left = contexts_left(contexts, dropped, count);
    if count > 0 {
        if contexts[count - 1] == context {
            assert(left.last() == context);
        } else {
            let at = choose|i: int|
                0 <= i < contexts.take(count as int).len() && contexts.take(count as int)[i]
                    == context;
            assert(contexts.take(count - 1)[at] == context);
            lemma_context_stays(contexts, dropped, (count - 1) as nat, context);
            let earlier = contexts_left(contexts, dropped, (count - 1) as nat);
            let place = choose|i: int| 0 <= i < earlier.len() && earlier[i] == context;
            assert(left[place] == context);
        }
    }
}

proof fn lemma_kept_are_referenced(
    artifacts: Seq<ArtifactSize>,
    contexts: Seq<ContextRef>,
    count: nat,
)
    ensures
        forall|i: int|
            0 <= i < referenced_artifacts(artifacts, contexts, count).len() ==> referenced(
                contexts,
                (#[trigger] referenced_artifacts(artifacts, contexts, count)[i]).artifact_id,
            ),
    decreases count,
{
    if count > 0 {
        lemma_kept_are_referenced(artifacts, contexts, (count - 1) as nat);
        let earlier = referenced_artifacts(artifacts, contexts, (count - 1) as nat);
        let kept = referenced_artifacts(artifacts, contexts, count);
        assert forall|i: int| 0 <= i < kept.len() implies referenced(
            contexts,
            (#[trigger] kept[i]).artifact_id,
        ) by {
            if i < earlier.len() {
                assert(kept[i] == earlier[i]);
            }
        }
    }
}

proof fn lemma_all_referenced(
    artifacts: Seq<ArtifactSize>,
    contexts: Seq<ContextRef>,
    count: nat,
)
    requires
        count <= artifacts.len(),
        forall|i: int|
            0 <= i < artifacts.len() ==> referenced(
                contexts,
                (#[trigger] artifacts[i]).artifact_id,
            ),
    ensures
        referenced_artifacts(artifacts, contexts, count) == artifacts.take(count as int),
    decreases count,
{
    if count > 0 {
        lemma_all_referenced(artifacts, contexts, (count - 1) as nat);
        assert(referenced(contexts, artifacts[count - 1].artifact_id));
        assert(artifacts.take(count as int) =~= artifacts.take(count - 1).push(
            artifacts[count - 1],
        ));
    } else {
        assert(artifacts.take(0) =~= Seq::<ArtifactSize>::empty());
    }
}

proof fn lemma_nothing_dropped(contexts: Seq<ContextRef>, dropped: Seq<i64>, count: nat)
    requires
        count <= contexts.len(),
        dropped.len() == 0,
    ensures
        contexts_left(contexts, dropped, count) == contexts.take(count as int),
    decreases count,
{
    if count > 0 {
        lemma_nothing_dropped(contexts, dropped, (count - 1) as nat);
        assert(contexts.take(count as int) =~= contexts.take(count - 1).push(contexts[count - 1]));
    } else {
        assert(contexts.take(0) =~= Seq::<ContextRef>::empty());
    }
}

proof fn lemma_nothing_aged(runs: Seq<TerminalRun>, cutoff_ms: i64, count: nat)
    requires
        count <= runs.len(),
        forall|i: int|
            0 <= i < runs.len() ==> !aged(#[trigger] runs[i], cutoff_ms, Seq::<i64>::empty()),
    ensures
        young(runs, cutoff_ms, Seq::empty(), count) == runs.take(count as int),
        aged_ids(runs, cutoff_ms, Seq::empty(), count).len() == 0,
    decreases count,
{
    if count > 0 {
        lemma_nothing_aged(runs, cutoff_ms, (count - 1) as nat);
        assert(!aged(runs[count - 1], cutoff_ms, Seq::<i64>::empty()));
        assert(runs.take(count as int) =~= runs.take(count - 1).push(runs[count - 1]));
    } else {
        assert(runs.take(0) =~= Seq::<TerminalRun>::empty());
    }
}

proof fn lemma_left_contexts(contexts: Seq<ContextRef>, dropped: Seq<i64>, count: nat, at: int)
    requires
        count <= contexts.len(),
        0 <= at < contexts_left(contexts, dropped, count).len(),
    ensures
        ({
            let left = contexts_left(contexts, dropped, count)[at];
            contexts.contains(left) && !dropped.contains(left.scan_run_id)
        }),
    decreases count,
{
    let earlier = contexts_left(contexts, dropped, (count - 1) as nat);
    if at < earlier.len() {
        lemma_left_contexts(contexts, dropped, (count - 1) as nat, at);
        assert(contexts_left(contexts, dropped, count)[at] == earlier[at]);
    } else {
        assert(contexts_left(contexts, dropped, count)[at] == contexts[count - 1]);
    }
}

proof fn lemma_listed_orphan(
    artifacts: Seq<ArtifactSize>,
    contexts: Seq<ContextRef>,
    count: nat,
    id: i64,
)
    requires
        count <= artifacts.len(),
    ensures
        orphan_ids(artifacts, contexts, count).contains(id) <==> !referenced(contexts, id)
            && exists|i: int| 0 <= i < count && (#[trigger] artifacts[i]).artifact_id == id,
    decreases count,
{
    if count > 0 {
        lemma_listed_orphan(artifacts, contexts, (count - 1) as nat, id);
        let earlier = orphan_ids(artifacts, contexts, (count - 1) as nat);
        let all = orphan_ids(artifacts, contexts, count);
        let last = artifacts[count - 1];
        if earlier.contains(id) {
            let at = choose|i: int| 0 <= i < earlier.len() && earlier[i] == id;
            assert(all[at] == id);
        }
        if !referenced(contexts, last.artifact_id) && last.artifact_id == id {
            assert(all.last() == id);
        }
        if all.contains(id) && !earlier.contains(id) {
            let at = choose|i: int| 0 <= i < all.len() && all[i] == id;
            assert(at >= earlier.len() || earlier[at] == id);
            assert(artifacts[count - 1].artifact_id == id);
        }
    }
}

/// The contexts that stay are those of the runs that stay, and no others.
pub proof fn law_contexts_stay_with_their_runs(
    rows: UpkeepRowsView,
    now_ms: i64,
    context: ContextRef,
)
    ensures
        rows.collected(now_ms).contexts.contains(context) <==> rows.contexts.contains(context)
            && !rows.dropped_runs(now_ms).contains(context.scan_run_id),
{
    let kept = rows.kept_contexts(now_ms);
    if kept.contains(context) {
        let at = choose|i: int| 0 <= i < kept.len() && kept[i] == context;
        lemma_left_contexts(rows.contexts, rows.dropped_runs(now_ms), rows.contexts.len(), at);
    }
    if rows.contexts.contains(context) && !rows.dropped_runs(now_ms).contains(
        context.scan_run_id,
    ) {
        assert(rows.contexts.take(rows.contexts.len() as int) =~= rows.contexts);
        lemma_context_stays(
            rows.contexts,
            rows.dropped_runs(now_ms),
            rows.contexts.len(),
            context,
        );
    }
}

/// The artifacts that go are those that no context that stays refers to, and no others.
pub proof fn law_artifacts_go_where_no_context_needs_them(
    artifacts: Seq<ArtifactSize>,
    contexts: Seq<ContextRef>,
    artifact: ArtifactSize,
)
    requires
        artifacts.contains(artifact),
    ensures
        orphan_ids(artifacts, contexts, artifacts.len()).contains(artifact.artifact_id)
            <==> forall|i: int|
            0 <= i < contexts.len() ==> (#[trigger] contexts[i]).artifact_id != Some(
                artifact.artifact_id,
            ),
{
    lemma_listed_orphan(artifacts, contexts, artifacts.len(), artifact.artifact_id);
    let at = choose|i: int| 0 <= i < artifacts.len() && artifacts[i] == artifact;
    assert(artifacts[at].artifact_id == artifact.artifact_id);
}

/// A run that was under way is given up now, with no audit of its own, and stands with the
/// runs that ended before.
pub proof fn law_runs_under_way_are_given_up_now(rows: UpkeepRowsView, now_ms: i64, at: int)
    ensures
        rows.all_ended(now_ms).len() == rows.ended.len() + rows.running.len(),
        0 <= at < rows.ended.len() ==> rows.all_ended(now_ms)[at] == rows.ended[at],
        0 <= at < rows.running.len() ==> {
            let run = rows.all_ended(now_ms)[rows.ended.len() + at];
            &&& run.scan_run_id == rows.running[at]
            &&& run.finished_at_ms == Some(now_ms)
            &&& run.audit_size_bytes == 0
        },
{
}

/// The rows that a plan names are the rows that are given up, each by its number.
pub proof fn law_rows_are_named_by_their_number(rows: Seq<EvictionRowView>, at: int)
    requires
        0 <= at < rows.len(),
    ensures
        row_ids(rows).len() == rows.len(),
        row_ids(rows)[at] == rows[at].row_id,
{
}

} // verus!
