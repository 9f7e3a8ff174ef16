//! Answers that are stored without their text, and put together again.
use crate::contract::{
    clone_all, opt_view, views, ContextSummary, Diagnostic, DiagnosticView, EngineStatus,
};
use crate::store::artifact::{ArtifactDraft, ArtifactDraftView};
use crate::store::run::{
    law_repeated_requests_are_answered, outcome_view, run_of_request, ActiveRunView, BeginRequest,
    BeginRunOutcomeView, ContextEnvelope, ContextEnvelopeView, EngineFingerprintView,
    PersistedRunStatus, RunLedgerView, StoreError, StoreErrorView,
};
use vstd::prelude::*;
use vstd::string::StringExecFns;

verus! {

/// An answer without its text.
#[derive(Debug, PartialEq, Eq)]
pub struct EnvelopeMetadata {
    pub contract: String,
    pub protocol_version: u64,
    pub request_id: String,
    pub engine_version: String,
    pub engine_build: String,
    pub status: EngineStatus,
    pub summary: ContextSummary,
    pub scan_run_id: Option<u64>,
    pub context_run_id: Option<u64>,
    pub warnings: Vec<Diagnostic>,
    pub error: Option<Diagnostic>,
}

/// What an [`EnvelopeMetadata`] says.
#[verifier::ext_equal]
pub struct EnvelopeMetadataView {
    pub contract: Seq<char>,
    pub protocol_version: u64,
    pub request_id: Seq<char>,
    pub engine_version: Seq<char>,
    pub engine_build: Seq<char>,
    pub status: EngineStatus,
    pub summary: ContextSummary,
    pub scan_run_id: Option<u64>,
    pub context_run_id: Option<u64>,
    pub warnings: Seq<DiagnosticView>,
    pub error: Option<DiagnosticView>,
}

impl View for EnvelopeMetadata {
    type V = EnvelopeMetadataView;

    open spec fn view(&self) -> EnvelopeMetadataView {
        EnvelopeMetadataView {
            contract: self.contract@,
            protocol_version: self.protocol_version,
            request_id: self.request_id@,
            engine_version: self.engine_version@,
            engine_build: self.engine_build@,
            status: self.status,
            summary: self.summary,
            scan_run_id: self.scan_run_id,
            context_run_id: self.context_run_id,
            warnings: views(self.warnings@),
            error: opt_view(self.error),
        }
    }
}

impl Clone for EnvelopeMetadata {
    fn clone(&self) -> (copy: Self)
        ensures
            copy@ == self@,
    {
        let copy = EnvelopeMetadata {
            contract: self.contract.clone(),
            protocol_version: self.protocol_version,
            request_id: self.request_id.clone(),
            engine_version: self.engine_version.clone(),
            engine_build: self.engine_build.clone(),
            status: self.status,
            summary: self.summary,
            scan_run_id: self.scan_run_id,
            context_run_id: self.context_run_id,
            warnings: clone_all(&self.warnings),
            error: self.error.clone(),
        };
        assert(copy@ =~= self@);
        copy
    }
}

/// An answer without its text.
pub open spec fn metadata_of(envelope: ContextEnvelopeView) -> EnvelopeMetadataView {
    EnvelopeMetadataView {
        contract: envelope.contract,
        protocol_version: envelope.protocol_version,
        request_id: envelope.request_id,
        engine_version: envelope.engine_version,
        engine_build: envelope.engine_build,
        status: envelope.status,
        summary: envelope.summary,
        scan_run_id: envelope.scan_run_id,
        context_run_id: envelope.context_run_id,
        warnings: envelope.warnings,
        error: envelope.error,
    }
}

/// Takes the text out of an answer. The text is stored once, with the artifact.
pub fn envelope_metadata(envelope: &ContextEnvelope) -> (metadata: EnvelopeMetadata)
    ensures
        metadata@ == metadata_of(envelope@),
{
    EnvelopeMetadata {
        contract: envelope.contract.clone(),
        protocol_version: envelope.protocol_version,
        request_id: envelope.request_id.clone(),
        engine_version: envelope.engine_version.clone(),
        engine_build: envelope.engine_build.clone(),
        status: envelope.status,
        summary: envelope.summary,
        scan_run_id: envelope.scan_run_id,
        context_run_id: envelope.context_run_id,
        warnings: clone_all(&envelope.warnings),
        error: envelope.error.clone(),
    }
}

/// The answer with the text of the artifact, or with none where there is no artifact.
pub open spec fn rebuilt(
    metadata: EnvelopeMetadataView,
    artifact: Option<ArtifactDraftView>,
) -> ContextEnvelopeView {
    ContextEnvelopeView {
        contract: metadata.contract,
        protocol_version: metadata.protocol_version,
        request_id: metadata.request_id,
        engine_version: metadata.engine_version,
        engine_build: metadata.engine_build,
        status: metadata.status,
        file_context: match artifact {
            Some(draft) => draft.final_context,
            None => Seq::empty(),
        },
        summary: metadata.summary,
        scan_run_id: metadata.scan_run_id,
        context_run_id: metadata.context_run_id,
        warnings: metadata.warnings,
        error: metadata.error,
    }
}

/// Puts an answer together again.
pub fn rebuild_envelope(metadata: &EnvelopeMetadata, artifact: Option<&ArtifactDraft>) -> (envelope:
    ContextEnvelope)
    ensures
        envelope@ == rebuilt(metadata@, opt_view(artifact)),
{
    let envelope = ContextEnvelope {
        contract: metadata.contract.clone(),
        protocol_version: metadata.protocol_version,
        request_id: metadata.request_id.clone(),
        engine_version: metadata.engine_version.clone(),
        engine_build: metadata.engine_build.clone(),
        status: metadata.status,
        file_context: match artifact {
            Some(draft) => draft.final_context.clone(),
            None => String::new(),
        },
        summary: metadata.summary,
        scan_run_id: metadata.scan_run_id,
        context_run_id: metadata.context_run_id,
        warnings: clone_all(&metadata.warnings),
        error: metadata.error.clone(),
    };
    assert(envelope@ =~= rebuilt(metadata@, opt_view(artifact)));
    envelope
}

/// An answer whose text is that of its artifact, or that has neither, is the same after it
/// was stored without its text and put together again.
pub proof fn law_stored_answers_are_put_together_again(
    envelope: ContextEnvelopeView,
    artifact: Option<ArtifactDraftView>,
)
    requires
        match artifact {
            Some(draft) => draft.final_context == envelope.file_context,
            None => envelope.file_context.len() == 0,
        },
    ensures
        rebuilt(metadata_of(envelope), artifact) == envelope,
{
    assert(rebuilt(metadata_of(envelope), artifact) =~= envelope);
}

/// A request that is repeated after its run has ended gets the answer that the run ended
/// with: the run is found by the request, the metadata that it holds is the stored one, and
/// the answer put together from that metadata and the artifact is the same as it was.
pub proof fn law_repeated_requests_get_the_stored_answer(
    ledger: RunLedgerView,
    active: ActiveRunView,
    json: Seq<char>,
    status: PersistedRunStatus,
    engine: Option<EngineFingerprintView>,
    envelope: ContextEnvelopeView,
    artifact: Option<ArtifactDraftView>,
    workers_required: bool,
    metadata_json: Seq<char>,
    audit_size: i64,
    now_ms: i64,
    again: BeginRequest,
)
    requires
        ledger.sound(),
        ledger.works_on(active, json),
        status.terminal(),
        again.fault() is None,
        again.request_id == active.request_id,
        again.canonical.json == json,
        match artifact {
            Some(draft) => draft.final_context == envelope.file_context,
            None => envelope.file_context.len() == 0,
        },
    ensures
        ledger.ended(
            active,
            status,
            engine,
            envelope,
            workers_required,
            metadata_json,
            audit_size,
            now_ms,
        ) matches Ok(ended) ==> {
            &&& ended.begun(again) == Ok::<(RunLedgerView, BeginRunOutcomeView), StoreErrorView>(
                (ended, BeginRunOutcomeView::Stored(active.scan_run_id)),
            )
            &&& run_of_request(ended.runs, again.request_id, 0) matches Some(at)
                && ended.runs[at].scan_run_id == active.scan_run_id
                && ended.runs[at].final_envelope_metadata_json == Some(metadata_json)
            &&& rebuilt(metadata_of(envelope), artifact) == envelope
        },
{
    law_repeated_requests_are_answered(
        ledger,
        active,
        json,
        status,
        engine,
        envelope,
        workers_required,
        metadata_json,
        audit_size,
        now_ms,
        again,
    );
    law_stored_answers_are_put_together_again(envelope, artifact);
}

/// What was read of the parts that an answer is put together from.
pub struct ReplayParts {
    /// Whether the stored metadata is JSON.
    pub json_read: bool,
    /// Whether the metadata holds a summary at all.
    pub has_summary: bool,
    /// Whether the summary could be read.
    pub summary_read: bool,
    /// The artifact of the run, or why it could not be loaded.
    pub artifact: Result<Option<ArtifactDraft>, StoreError>,
    /// The metadata, or what is wrong with it.
    pub metadata: Result<EnvelopeMetadata, String>,
}

/// Why an answer could not be put together from what was read.
pub open spec fn replay_parts_fault(parts: ReplayParts) -> Option<StoreErrorView> {
    if !parts.json_read {
        Some(StoreErrorView::RunCorrupt("envelope metadata JSON is invalid"@))
    } else if !parts.has_summary {
        Some(StoreErrorView::RunCorrupt("envelope metadata missing summary"@))
    } else if !parts.summary_read {
        Some(StoreErrorView::RunCorrupt("envelope metadata summary is invalid"@))
    } else if let Err(fault) = parts.artifact {
        Some(fault@)
    } else if let Err(message) = parts.metadata {
        Some(StoreErrorView::RunCorrupt("rebuilt envelope is invalid: "@ + message@))
    } else {
        None
    }
}

/// Puts an answer together from what was read.
pub fn replay_envelope(parts: ReplayParts) -> (envelope: Result<ContextEnvelope, StoreError>)
    ensures
        match replay_parts_fault(parts) {
            Some(fault) => envelope is Err && envelope->Err_0@ == fault,
            None => envelope is Ok && envelope->Ok_0@ == rebuilt(
                parts.metadata->Ok_0@,
                opt_view(parts.artifact->Ok_0),
            ),
        },
{
    if !parts.json_read {
        return Err(StoreError::corrupt("envelope metadata JSON is invalid"));
    }
    if !parts.has_summary {
        return Err(StoreError::corrupt("envelope metadata missing summary"));
    }
    if !parts.summary_read {
        return Err(StoreError::corrupt("envelope metadata summary is invalid"));
    }
    let artifact: Option<ArtifactDraft> = match parts.artifact {
        Ok(artifact) => artifact,
        Err(error) => {
            return Err(error);
        },
    };
    match parts.metadata {
        Err(message) => {
            let mut text: String = "rebuilt envelope is invalid: ".to_string();
            text.append(message.as_str());
            Err(StoreError::RunCorrupt(text))
        },
        Ok(metadata) => Ok(
            match &artifact {
                Some(draft) => rebuild_envelope(&metadata, Some(draft)),
                None => rebuild_envelope(&metadata, None),
            },
        ),
    }
}

/// Accepts an answer that was put together where the wire contract does.
pub fn accept_rebuilt(accepted: bool) -> (verdict: Result<(), StoreError>)
    ensures
        outcome_view(verdict) == if accepted {
            Ok(())
        } else {
            Err(StoreErrorView::RunCorrupt("rebuilt envelope violates the contract"@))
        },
{
    if accepted {
        Ok(())
    } else {
        Err(StoreError::corrupt("rebuilt envelope violates the contract"))
    }
}

/// What is stored of an answer is all of it but its text, and what is put together from it is
/// that and the text of the artifact.
pub proof fn law_stored_metadata_is_of_the_answer(
    envelope: ContextEnvelopeView,
    metadata: EnvelopeMetadataView,
    artifact: Option<ArtifactDraftView>,
)
    ensures
        ({
            let stored = metadata_of(envelope);
            &&& stored.contract == envelope.contract
            &&& stored.protocol_version == envelope.protocol_version
            &&& stored.request_id == envelope.request_id
            &&& stored.engine_version == envelope.engine_version
            &&& stored.engine_build == envelope.engine_build
            &&& stored.status == envelope.status
            &&& stored.summary == envelope.summary
            &&& stored.scan_run_id == envelope.scan_run_id
            &&& stored.context_run_id == envelope.context_run_id
            &&& stored.warnings == envelope.warnings
            &&& stored.error == envelope.error
        }),
        metadata_of(rebuilt(metadata, artifact)) == metadata,
        artifact matches Some(draft) ==> rebuilt(metadata, artifact).file_context
            == draft.final_context,
        artifact is None ==> rebuilt(metadata, artifact).file_context.len() == 0,
{
    assert(metadata_of(rebuilt(metadata, artifact)) =~= metadata);
}

/// An answer is put together only where each of its parts was read; what is amiss is told,
/// and is a corrupt run wherever it is not the artifact's own fault.
pub proof fn law_answers_need_all_their_parts(parts: ReplayParts)
    ensures
        replay_parts_fault(parts) is None <==> parts.json_read && parts.has_summary
            && parts.summary_read && parts.artifact is Ok && parts.metadata is Ok,
        parts.json_read && parts.has_summary && parts.summary_read ==> (
        parts.artifact matches Err(fault) ==> replay_parts_fault(parts) == Some(fault@)),
        replay_parts_fault(parts) is Some && parts.artifact is Ok ==> replay_parts_fault(
            parts,
        )->0 is RunCorrupt,
        !parts.json_read || !parts.has_summary || !parts.summary_read ==> replay_parts_fault(
            parts,
        ) is Some && replay_parts_fault(parts)->0 is RunCorrupt,
{
}

} // verus!
