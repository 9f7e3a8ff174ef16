//! Where the artifact of a run that is ending goes.
use crate::store::artifact::{
    artifact_size, artifact_size_bytes, dedup_artifact, deduplicated, ArtifactDraftView,
    ExistingArtifact, SnapshotKeyPartsView,
};
use crate::store::cache::CONTEXT_ARTIFACTS_MAX_BYTES;
use crate::store::finalize::{
    artifact_step, artifact_step_of, ArtifactStep, FinalizationBatch, FinalizationBatchView,
};
use crate::store::retention::{artifacts_total, RoomPlan, RoomRows, RoomRowsView};
use crate::store::run::{StoreError, StoreErrorView};
use vstd::prelude::*;

verus! {

/// Where the artifact of a run goes.
pub enum Placement {
    /// The context of the run refers to no artifact.
    Nothing,
    /// The context refers to an artifact that is stored.
    Existing(i64),
    /// The artifact of the run is stored, and takes so many bytes.
    New { size: i64, room: RoomPlan },
}

/// Where the artifact of a run goes.
pub enum PlacementView {
    Nothing,
    Existing(i64),
    New { size: i64 },
}

impl View for Placement {
    type V = PlacementView;

    open spec fn view(&self) -> PlacementView {
        match self {
            Placement::Nothing => PlacementView::Nothing,
            Placement::Existing(artifact_id) => PlacementView::Existing(*artifact_id),
            Placement::New { size, .. } => PlacementView::New { size: *size },
        }
    }
}

/// Payload bytes of an artifact with the given key.
pub open spec fn draft_size(
    draft: ArtifactDraftView,
    key: Option<SnapshotKeyPartsView>,
    summary_json: Seq<char>,
) -> nat {
    artifact_size(
        draft.final_context,
        draft.context_sha256,
        summary_json,
        key,
        draft.file_rows,
        draft.decision_rows,
    )
}

/// The payload of the artifact of the batch can be counted.
pub open spec fn size_fits(batch: FinalizationBatchView, summary_json: Seq<char>) -> bool {
    batch.artifact matches Some(draft) ==> draft_size(draft, batch.snapshot_key, summary_json)
        <= i64::MAX
}

/// Where a new artifact goes: into the store where there is, or can be made, room for it.
pub open spec fn stored_anew(rows: RoomRowsView, size: i64) -> Result<
    PlacementView,
    StoreErrorView,
> {
    match rows.room_fault(Seq::empty(), size) {
        Some(message) => Err(StoreErrorView::RunCorrupt(message)),
        None => Ok(PlacementView::New { size }),
    }
}

/// Where the artifact of the batch goes, or what keeps it from being stored. `existing`
/// is the stored artifact with the hash of its key, and `summary_json` what is stored of
/// its semantic summary.
pub open spec fn placed(
    batch: FinalizationBatchView,
    existing: Option<&ExistingArtifact>,
    summary_json: Seq<char>,
    rows: RoomRowsView,
) -> Result<PlacementView, StoreErrorView> {
    match artifact_step_of(batch) {
        Err(fault) => Err(fault),
        Ok(ArtifactStep::NoContext) | Ok(ArtifactStep::WithoutArtifact) => Ok(
            PlacementView::Nothing,
        ),
        Ok(ArtifactStep::Reuse { artifact_id, .. }) => Ok(PlacementView::Existing(artifact_id)),
        Ok(ArtifactStep::Write { .. }) => {
            let draft = batch.artifact->0;
            let size = draft_size(draft, batch.snapshot_key, summary_json) as i64;
            match batch.snapshot_key {
                None => stored_anew(rows, size),
                Some(key) => match deduplicated(existing, draft, key) {
                    Err(fault) => Err(fault),
                    Ok(Some(artifact_id)) => Ok(PlacementView::Existing(artifact_id)),
                    Ok(None) => stored_anew(rows, size),
                },
            }
        },
    }
}

fn make_place(rows: &mut RoomRows, size: i64) -> (placement: Result<Placement, StoreError>)
    ensures
        match placement {
            Ok(place) => stored_anew(old(rows)@, size) == Ok::<PlacementView, StoreErrorView>(
                place@,
            ) && (place matches Placement::New { room, .. } && room.artifacts@
                == old(rows)@.settled_artifacts(Seq::empty(), size, old(rows)@.rounds())
                && room.runs@ == old(rows)@.settled_runs(
                Seq::empty(),
                size,
                old(rows)@.rounds(),
            )) && final(rows)@ == old(rows)@.with_room(Seq::empty(), size),
            Err(error) => stored_anew(old(rows)@, size) == Err::<PlacementView, StoreErrorView>(
                error@,
            ),
        },
{
    let protected: Vec<i64> = Vec::new();
    assert(protected@ =~= Seq::<i64>::empty());
    match rows.make_room_for_artifact(&protected, size) {
        Ok(room) => Ok(Placement::New { size, room }),
        Err(error) => Err(error),
    }
}

/// Finds out where the artifact of the batch goes. Where it is stored anew, tells also
/// what goes to make room for it; otherwise nothing goes.
pub fn place_artifact(
    batch: &FinalizationBatch,
    existing: Option<&ExistingArtifact>,
    summary_json: &str,
    rows: &mut RoomRows,
) -> (placement: Result<Placement, StoreError>)
    requires
        size_fits(batch@, summary_json@),
    ensures
        match placement {
            Ok(place) => placed(batch@, existing, summary_json@, old(rows)@) == Ok::<
                PlacementView,
                StoreErrorView,
            >(place@),
            Err(error) => placed(batch@, existing, summary_json@, old(rows)@) == Err::<
                PlacementView,
                StoreErrorView,
            >(error@),
        },
        match placement {
            Ok(Placement::New { size, room }) => room.artifacts@ == old(rows)@.settled_artifacts(
                Seq::empty(),
                size,
                old(rows)@.rounds(),
            ) && room.runs@ == old(rows)@.settled_runs(
                Seq::empty(),
                size,
                old(rows)@.rounds(),
            ) && final(rows)@ == old(rows)@.with_room(Seq::empty(), size),
            Ok(_) => final(rows)@ == old(rows)@,
            Err(_) => true,
        },
{
    match artifact_step(batch) {
        Err(error) => Err(error),
        Ok(ArtifactStep::NoContext) => Ok(Placement::Nothing),
        Ok(ArtifactStep::WithoutArtifact) => Ok(Placement::Nothing),
        Ok(ArtifactStep::Reuse { artifact_id, .. }) => Ok(Placement::Existing(artifact_id)),
        Ok(ArtifactStep::Write { .. }) => match &batch.artifact {
            None => Ok(Placement::Nothing),
            Some(draft) => {
                if let Some(key) = &batch.snapshot_key {
                    match dedup_artifact(existing, draft, key) {
                        Err(error) => {
                            return Err(error);
                        },
                        Ok(Some(artifact_id)) => {
                            return Ok(Placement::Existing(artifact_id));
                        },
                        Ok(None) => {},
                    }
                }
                let size: i64 = artifact_size_bytes(
                    draft.final_context.as_str(),
                    draft.context_sha256.as_str(),
                    summary_json,
                    batch.snapshot_key.as_ref(),
                    &draft.file_rows,
                    &draft.decision_rows,
                );
                make_place(rows, size)
            },
        },
    }
}

/// A stored artifact is never written over: where one has the hash of the key, the run
/// takes it as it is, or is refused.
pub proof fn law_stored_artifacts_are_not_replaced(
    batch: FinalizationBatchView,
    existing: Option<&ExistingArtifact>,
    summary_json: Seq<char>,
    rows: RoomRowsView,
)
    requires
        batch.snapshot_key is Some,
        existing is Some,
    ensures
        !(placed(batch, existing, summary_json, rows) matches Ok(PlacementView::New { .. })),
        placed(batch, existing, summary_json, rows) == Ok::<PlacementView, StoreErrorView>(
            PlacementView::Existing(existing->0.artifact_id),
        ) && batch.snapshot_hit is None ==> batch.artifact == Some(existing->0.draft@),
{
}

/// A new artifact is stored only where all artifacts stay within the cap with it.
pub proof fn law_new_artifacts_stay_within_the_cap(
    batch: FinalizationBatchView,
    existing: Option<&ExistingArtifact>,
    summary_json: Seq<char>,
    rows: RoomRowsView,
    size: i64,
)
    requires
        placed(batch, existing, summary_json, rows) == Ok::<PlacementView, StoreErrorView>(
            PlacementView::New { size },
        ),
    ensures
        artifacts_total(rows.with_room(Seq::empty(), size).artifacts) + size
            <= CONTEXT_ARTIFACTS_MAX_BYTES,
{
}

/// Runs that commit no context, or an error, store no artifact and drop nothing.
pub proof fn law_errors_store_no_artifact(
    batch: FinalizationBatchView,
    existing: Option<&ExistingArtifact>,
    summary_json: Seq<char>,
    rows: RoomRowsView,
)
    requires
        batch.context is None || batch.status == crate::contract::RunStatus::Error,
    ensures
        placed(batch, existing, summary_json, rows) == Ok::<PlacementView, StoreErrorView>(
            PlacementView::Nothing,
        ),
{
}

/// A run with a snapshot hit takes the artifact of the hit, and stores none.
pub proof fn law_snapshot_hits_are_taken_over(
    batch: FinalizationBatchView,
    existing: Option<&ExistingArtifact>,
    summary_json: Seq<char>,
    rows: RoomRowsView,
)
    requires
        batch.context is Some,
        batch.status != crate::contract::RunStatus::Error,
        batch.snapshot_hit is Some,
    ensures
        placed(batch, existing, summary_json, rows) == Ok::<PlacementView, StoreErrorView>(
            PlacementView::Existing(batch.snapshot_hit->0.artifact_id),
        ),
{
}

/// An artifact that is stored anew is counted with its size: that of its context, its key
/// and its rows.
pub proof fn law_new_artifacts_are_counted_with_their_size(
    batch: FinalizationBatchView,
    existing: Option<&ExistingArtifact>,
    summary_json: Seq<char>,
    rows: RoomRowsView,
    size: i64,
)
    requires
        size_fits(batch, summary_json),
        placed(batch, existing, summary_json, rows) == Ok::<PlacementView, StoreErrorView>(
            PlacementView::New { size },
        ),
    ensures
        batch.artifact matches Some(draft) && size == artifact_size(
            draft.final_context,
            draft.context_sha256,
            summary_json,
            batch.snapshot_key,
            draft.file_rows,
            draft.decision_rows,
        ),
        batch.snapshot_hit is None,
        batch.context is Some,
        batch.status != crate::contract::RunStatus::Error,
        batch.snapshot_key is Some ==> existing is None,
{
}

/// An artifact that no stored one has the key of is stored anew where there is room for it.
pub proof fn law_artifacts_of_new_keys_are_stored(
    batch: FinalizationBatchView,
    summary_json: Seq<char>,
    rows: RoomRowsView,
)
    requires
        batch.context is Some,
        batch.status != crate::contract::RunStatus::Error,
        batch.snapshot_hit is None,
        batch.artifact is Some,
        batch.artifact->0.snapshot_eligible == (batch.snapshot_key is Some),
        rows.room_fault(
            Seq::empty(),
            draft_size(batch.artifact->0, batch.snapshot_key, summary_json) as i64,
        ) is None,
    ensures
        placed(batch, None, summary_json, rows) matches Ok(PlacementView::New { .. }),
{
}

} // verus!
