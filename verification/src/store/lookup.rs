//! Reading the store: keys, cache evidence, accesses, snapshots and diagnostics.
use crate::contract::{
    opt_view, views, Diagnostic, DiagnosticSeverity, DiagnosticStage, DiagnosticView,
    DiscoveredFileOut, DiscoveredFileOutView, ErrorCode, ParserRoute, RunDiagnosticRecord,
    RunDiagnosticRecordView,
};
use crate::ordered::TextSet;
use crate::profile::{NormalizedScannerProfileV1, NormalizedScannerProfileV1View};
use crate::store::artifact::{SnapshotKeyParts, SnapshotKeyPartsView};
use crate::store::cache::{
    classification_lookup, is_cache_guard_kind, lookup_cache, lookup_classification_cache,
    parse_lookup, parse_profile_digest, parse_profile_hash, CacheLookup, CacheLookupView,
    ClassificationCacheLookup, ClassificationCacheLookupView, ClassificationCacheRow,
    ClassificationCacheRowView, ParseCacheRow, ParseCacheRowView, RouteStackFingerprints,
    RouteStackFingerprintsView,
};
use crate::store::finalize::SnapshotHit;
use crate::store::inventory::{
    parse_source_version, source_version, InventoryRecord, InventoryRecordView,
};
use crate::store::run::{outcome_view, StoreError, StoreErrorView};
use crate::text::{is_sha256, is_sha256_text, text_eq};
use vstd::prelude::*;

verus! {

/// Milliseconds since the epoch. `since_epoch_ms` is what the clock reads, where it reads
/// a time after the epoch.
pub fn current_time_millis(since_epoch_ms: Option<u128>) -> (millis: Result<u64, StoreError>)
    ensures
        outcome_view(millis) == match since_epoch_ms {
            Some(millis) => Ok(millis as u64),
            None => Err(StoreErrorView::InvalidRequest("system clock is invalid"@)),
        },
{
    match since_epoch_ms {
        Some(millis) => Ok(
            #[verifier::truncate]
            (millis as u64),
        ),
        None => Err(StoreError::invalid("system clock is invalid")),
    }
}

// ---------------------------------------------------------------------------
// Keys
// ---------------------------------------------------------------------------

/// The guard names what a file is, by an available kind and a hash.
pub open spec fn guard_names_a_file(kind: Seq<char>, hash: Seq<char>) -> bool {
    is_cache_guard_kind(kind) && is_sha256_text(hash)
}

/// Whether the guard names what a file is.
pub fn valid_guard_wire(kind: &str, hash: &str) -> (valid: bool)
    ensures
        valid == guard_names_a_file(kind@, hash@),
{
    (text_eq(kind, "windows_file_id_change_time_v1") || text_eq(kind, "unix_inode_ctime_v1")
        || text_eq(kind, "content_sha256_v1")) && is_sha256(hash)
}

/// The key may be looked up in the parse cache.
pub open spec fn parse_key_valid(
    identity: Seq<char>,
    version: Seq<char>,
    kind: Seq<char>,
    guard: Seq<char>,
    profile_hash: Seq<char>,
) -> bool {
    &&& identity.len() > 0
    &&& version.len() > 0
    &&& source_version(version) is Ok
    &&& guard_names_a_file(kind, guard)
    &&& is_sha256_text(profile_hash)
}

/// What a lookup in the parse cache finds, or that the key is no key.
pub open spec fn checked_parse_lookup(
    rows: Seq<ParseCacheRowView>,
    identity: Seq<char>,
    version: Seq<char>,
    kind: Seq<char>,
    guard: Seq<char>,
    profile_hash: Seq<char>,
) -> Result<CacheLookupView, StoreErrorView> {
    if parse_key_valid(identity, version, kind, guard, profile_hash) {
        Ok(parse_lookup(rows, identity, version, kind, guard, profile_hash))
    } else {
        Err(StoreErrorView::InvalidRequest("cache lookup key is invalid"@))
    }
}

/// Looks a key up in the parse cache, where it is one. Whether the file was known before
/// makes no difference to what is found.
pub fn checked_lookup_cache(
    rows: &Vec<ParseCacheRow>,
    file_identity: &str,
    source_version: &str,
    source_guard_kind: &str,
    source_guard_sha256: &str,
    parse_profile_hash: &str,
    _inventory_existed_before: bool,
) -> (lookup: Result<CacheLookup, StoreError>)
    ensures
        ({
            let wanted = checked_parse_lookup(
                views(rows@),
                file_identity@,
                source_version@,
                source_guard_kind@,
                source_guard_sha256@,
                parse_profile_hash@,
            );
            match lookup {
                Ok(found) => wanted == Ok::<CacheLookupView, StoreErrorView>(found@),
                Err(error) => wanted == Err::<CacheLookupView, StoreErrorView>(error@),
            }
        }),
{
    if file_identity.is_empty() || source_version.is_empty() || parse_source_version(
        source_version,
    ).is_err() || !valid_guard_wire(source_guard_kind, source_guard_sha256) || !is_sha256(
        parse_profile_hash,
    ) {
        return Err(StoreError::invalid("cache lookup key is invalid"));
    }
    Ok(
        lookup_cache(
            rows,
            file_identity,
            source_version,
            source_guard_kind,
            source_guard_sha256,
            parse_profile_hash,
        ),
    )
}

/// The key may be looked up in the classification cache.
pub open spec fn classification_key_valid(
    identity: Seq<char>,
    version: Seq<char>,
    profile_hash: Seq<char>,
    build: Seq<char>,
) -> bool {
    &&& identity.len() > 0
    &&& version.len() > 0
    &&& source_version(version) is Ok
    &&& is_sha256_text(profile_hash)
    &&& is_sha256_text(build)
}

/// What a lookup in the classification cache finds, or that the key is no key.
pub open spec fn checked_classification_lookup(
    rows: Seq<ClassificationCacheRowView>,
    identity: Seq<char>,
    version: Seq<char>,
    kind: Seq<char>,
    guard: Seq<char>,
    profile_hash: Seq<char>,
    build: Seq<char>,
    existed_before: bool,
) -> Result<ClassificationCacheLookupView, StoreErrorView> {
    if classification_key_valid(identity, version, profile_hash, build) {
        Ok(
            classification_lookup(
                rows,
                identity,
                version,
                kind,
                guard,
                profile_hash,
                build,
                existed_before,
            ),
        )
    } else {
        Err(StoreErrorView::InvalidRequest("classification cache lookup key is invalid"@))
    }
}

/// Looks a key up in the classification cache, where it is one.
pub fn checked_lookup_classification_cache(
    rows: &Vec<ClassificationCacheRow>,
    file_identity: &str,
    source_version: &str,
    source_guard_kind: &str,
    source_guard_sha256: &str,
    classifier_profile_hash: &str,
    classifier_build: &str,
    inventory_existed_before: bool,
) -> (lookup: Result<ClassificationCacheLookup, StoreError>)
    ensures
        ({
            let wanted = checked_classification_lookup(
                views(rows@),
                file_identity@,
                source_version@,
                source_guard_kind@,
                source_guard_sha256@,
                classifier_profile_hash@,
                classifier_build@,
                inventory_existed_before,
            );
            match lookup {
                Ok(found) => wanted == Ok::<ClassificationCacheLookupView, StoreErrorView>(found@),
                Err(error) => wanted == Err::<ClassificationCacheLookupView, StoreErrorView>(
                    error@,
                ),
            }
        }),
{
    if file_identity.is_empty() || source_version.is_empty() || parse_source_version(
        source_version,
    ).is_err() || !is_sha256(classifier_profile_hash) || !is_sha256(classifier_build) {
        return Err(StoreError::invalid("classification cache lookup key is invalid"));
    }
    Ok(
        lookup_classification_cache(
            rows,
            file_identity,
            source_version,
            source_guard_kind,
            source_guard_sha256,
            classifier_profile_hash,
            classifier_build,
            inventory_existed_before,
        ),
    )
}

// ---------------------------------------------------------------------------
// Evidence
// ---------------------------------------------------------------------------

/// What is planned for a file.
#[derive(Debug, PartialEq, Eq)]
pub enum PlannedAction {
    Parse(ParserRoute),
    Reject,
}

/// A file with what is planned for it.
pub struct PlannedFile {
    pub file: DiscoveredFileOut,
    pub action: PlannedAction,
}

/// A planned file with what the cache says of it.
pub struct CacheAwarePlanEntry {
    pub planned: PlannedFile,
    pub parse_profile_hash: Option<String>,
    pub cache_lookup: Option<CacheLookup>,
}

/// A planned file with what the cache says of it.
#[verifier::ext_equal]
pub struct CacheAwarePlanEntryView {
    pub file: DiscoveredFileOutView,
    pub action: PlannedAction,
    pub parse_profile_hash: Option<Seq<char>>,
    pub cache_lookup: Option<CacheLookupView>,
}

impl View for CacheAwarePlanEntry {
    type V = CacheAwarePlanEntryView;

    open spec fn view(&self) -> CacheAwarePlanEntryView {
        CacheAwarePlanEntryView {
            file: self.planned.file@,
            action: self.planned.action,
            parse_profile_hash: opt_view(self.parse_profile_hash),
            cache_lookup: opt_view(self.cache_lookup),
        }
    }
}

/// The guard that a planned file is looked up with: its content is not read for it.
pub open spec fn no_content_guard() -> Seq<char> {
    Seq::new(64, |i: int| '0')
}

/// What the cache says of a planned file.
pub open spec fn evidence_of(
    planned: PlannedFile,
    rows: Seq<ParseCacheRowView>,
    stacks: RouteStackFingerprintsView,
    profile: NormalizedScannerProfileV1View,
    accepted: Result<(), String>,
) -> Result<CacheAwarePlanEntryView, StoreErrorView> {
    match planned.action {
        PlannedAction::Reject => Ok(
            CacheAwarePlanEntryView {
                file: planned.file@,
                action: planned.action,
                parse_profile_hash: None,
                cache_lookup: None,
            },
        ),
        PlannedAction::Parse(route) => if let Err(message) = accepted {
            Err(StoreErrorView::InvalidRequest(message@))
        } else {
            let digest = parse_profile_digest(stacks.of(route), profile);
            match checked_parse_lookup(
                rows,
                planned.file.file_identity@,
                planned.file.source_version@,
                "content_sha256_v1"@,
                no_content_guard(),
                digest,
            ) {
                Err(fault) => Err(fault),
                Ok(lookup) => Ok(
                    CacheAwarePlanEntryView {
                        file: planned.file@,
                        action: planned.action,
                        parse_profile_hash: Some(digest),
                        cache_lookup: Some(lookup),
                    },
                ),
            }
        },
    }
}

fn zeros() -> (text: String)
    ensures
        text@ == no_content_guard(),
{
    proof {
        reveal_strlit("0000000000000000000000000000000000000000000000000000000000000000");
    }
    let text: String =
        "0000000000000000000000000000000000000000000000000000000000000000".to_string();
    assert(text@ =~= no_content_guard());
    text
}

fn attach_evidence(
    planned: PlannedFile,
    rows: &Vec<ParseCacheRow>,
    stacks: &RouteStackFingerprints,
    profile: &NormalizedScannerProfileV1,
    accepted: &Result<(), String>,
) -> (entry: Result<CacheAwarePlanEntry, StoreError>)
    ensures
        match entry {
            Ok(found) => evidence_of(planned, views(rows@), stacks@, profile@, *accepted) == Ok::<
                CacheAwarePlanEntryView,
                StoreErrorView,
            >(found@),
            Err(error) => evidence_of(planned, views(rows@), stacks@, profile@, *accepted) == Err::<
                CacheAwarePlanEntryView,
                StoreErrorView,
            >(error@),
        },
{
    let route: ParserRoute = match &planned.action {
        PlannedAction::Reject => {
            return Ok(
                CacheAwarePlanEntry { planned, parse_profile_hash: None, cache_lookup: None },
            );
        },
        PlannedAction::Parse(route) => *route,
    };
    if let Err(message) = accepted {
        return Err(StoreError::invalid(message.as_str()));
    }
    let digest: String = match parse_profile_hash(1, stacks.for_route(route), profile, Ok(())) {
        Ok(digest) => digest,
        Err(message) => {
            return Err(StoreError::InvalidRequest(message));
        },
    };
    let guard: String = zeros();
    let lookup: Result<CacheLookup, StoreError> = checked_lookup_cache(
        rows,
        planned.file.file_identity.as_str(),
        planned.file.source_version.as_str(),
        "content_sha256_v1",
        guard.as_str(),
        digest.as_str(),
        false,
    );
    match lookup {
        Ok(found) => Ok(
            CacheAwarePlanEntry {
                planned,
                parse_profile_hash: Some(digest),
                cache_lookup: Some(found),
            },
        ),
        Err(error) => Err(error),
    }
}

/// The first planned file, counted from `from`, whose evidence cannot be had.
pub open spec fn first_without_evidence(
    planned: Seq<PlannedFile>,
    rows: Seq<ParseCacheRowView>,
    stacks: RouteStackFingerprintsView,
    profile: NormalizedScannerProfileV1View,
    accepted: Result<(), String>,
    from: int,
) -> Option<int>
    decreases planned.len() - from,
{
    if from < 0 || from >= planned.len() {
        None
    } else if evidence_of(planned[from], rows, stacks, profile, accepted) is Err {
        Some(from)
    } else {
        first_without_evidence(planned, rows, stacks, profile, accepted, from + 1)
    }
}

/// Adds to each planned file what the cache says of it. `accepted` is the verdict of the
/// wire contract on the profile; it matters only where a file is to be parsed.
pub fn attach_cache_evidence(
    planned_files: Vec<PlannedFile>,
    rows: &Vec<ParseCacheRow>,
    stacks: &RouteStackFingerprints,
    profile: &NormalizedScannerProfileV1,
    accepted: &Result<(), String>,
) -> (entries: Result<Vec<CacheAwarePlanEntry>, StoreError>)
    ensures
        match first_without_evidence(planned_files@, views(rows@), stacks@, profile@, *accepted, 0) {
            None => entries is Ok && entries->Ok_0@.len() == planned_files@.len() && forall|i: int|
                0 <= i < planned_files@.len() ==> evidence_of(
                    planned_files@[i],
                    views(rows@),
                    stacks@,
                    profile@,
                    *accepted,
                ) == Ok::<CacheAwarePlanEntryView, StoreErrorView>(
                    (#[trigger] entries->Ok_0@[i])@,
                ),
            Some(at) => entries is Err && evidence_of(
                planned_files@[at],
                views(rows@),
                stacks@,
                profile@,
                *accepted,
            ) == Err::<CacheAwarePlanEntryView, StoreErrorView>(entries->Err_0@),
        },
{
    let ghost all = planned_files@;
    let ghost cached = views(rows@);
    let mut left: Vec<PlannedFile> = planned_files;
    let mut entries: Vec<CacheAwarePlanEntry> = Vec::new();
    assert(all.skip(0) =~= all);
    while left.len() > 0
        invariant
            all == planned_files@,
            cached == views(rows@),
            entries@.len() + left@.len() == all.len(),
            left@ == all.skip(entries@.len() as int),
            first_without_evidence(all, cached, stacks@, profile@, *accepted, 0) == first_without_evidence(
                all,
                cached,
                stacks@,
                profile@,
                *accepted,
                entries@.len() as int,
            ),
            forall|i: int|
                0 <= i < entries@.len() ==> evidence_of(all[i], cached, stacks@, profile@, *accepted) == Ok::<
                    CacheAwarePlanEntryView,
                    StoreErrorView,
                >((#[trigger] entries@[i])@),
        decreases left@.len(),
    {
        let ghost at = entries@.len() as int;
        let planned: PlannedFile = left.remove(0);
        assert(planned == all[at]);
        assert(left@ =~= all.skip(at + 1));
        match attach_evidence(planned, rows, stacks, profile, accepted) {
            Ok(entry) => {
                entries.push(entry);
            },
            Err(error) => {
                return Err(error);
            },
        }
    }
    Ok(entries)
}

// ---------------------------------------------------------------------------
// Accesses
// ---------------------------------------------------------------------------

/// The row, last used on the given day where its file is among the hits.
pub open spec fn touched(row: ParseCacheRowView, hits: Seq<Seq<char>>, bucket: Seq<char>) -> ParseCacheRowView {
    if hits.contains(row.file_identity) {
        ParseCacheRowView { last_accessed_bucket: bucket, ..row }
    } else {
        row
    }
}

fn is_hit(hits: &Vec<String>, identity: &str) -> (hit: bool)
    ensures
        hit == views(hits@).contains(identity@),
{
    let ghost all = views(hits@);
    let mut i: usize = 0;
    while i < hits.len()
        invariant
            i <= hits.len(),
            all == views(hits@),
            forall|k: int| 0 <= k < i ==> #[trigger] all[k] != identity@,
        decreases hits.len() - i,
    {
        assert(all[i as int] == hits@[i as int]@);
        if text_eq(hits[i].as_str(), identity) {
            return true;
        }
        i = i + 1;
    }
    false
}

/// Notes the day on which the entries of the given files were last used.
pub fn touch_parse_cache_access(rows: &mut Vec<ParseCacheRow>, hits: &Vec<String>, bucket: &str)
    ensures
        views(final(rows)@) == views(old(rows)@).map_values(
            |row: ParseCacheRowView| touched(row, views(hits@), bucket@),
        ),
{
    let ghost before = views(rows@);
    let ghost wanted = before.map_values(
        |row: ParseCacheRowView| touched(row, views(hits@), bucket@),
    );
    let mut i: usize = 0;
    while i < rows.len()
        invariant
            i <= rows.len(),
            rows@.len() == before.len(),
            wanted.len() == before.len(),
            forall|k: int| 0 <= k < i ==> (#[trigger] rows@[k])@ == wanted[k],
            forall|k: int| i <= k < before.len() ==> (#[trigger] rows@[k])@ == before[k],
            forall|k: int|
                0 <= k < before.len() ==> #[trigger] wanted[k] == touched(
                    before[k],
                    views(hits@),
                    bucket@,
                ),
        decreases rows.len() - i,
    {
        if is_hit(hits, rows[i].file_identity.as_str()) {
            let mut row: ParseCacheRow = rows[i].clone();
            row.last_accessed_bucket = bucket.to_string();
            rows.set(i, row);
        }
        i = i + 1;
    }
    assert(views(rows@) =~= wanted);
}

/// The row, last used on the given day where its file is among the hits.
pub open spec fn classified_touched(
    row: ClassificationCacheRowView,
    hits: Seq<Seq<char>>,
    bucket: Seq<char>,
) -> ClassificationCacheRowView {
    if hits.contains(row.file_identity) {
        ClassificationCacheRowView { last_accessed_bucket: bucket, ..row }
    } else {
        row
    }
}

/// Notes the day on which the classifications of the given files were last used.
pub fn touch_classification_cache_access(
    rows: &mut Vec<ClassificationCacheRow>,
    hits: &Vec<String>,
    bucket: &str,
)
    ensures
        views(final(rows)@) == views(old(rows)@).map_values(
            |row: ClassificationCacheRowView| classified_touched(row, views(hits@), bucket@),
        ),
{
    let ghost before = views(rows@);
    let ghost wanted = before.map_values(
        |row: ClassificationCacheRowView| classified_touched(row, views(hits@), bucket@),
    );
    let mut i: usize = 0;
    while i < rows.len()
        invariant
            i <= rows.len(),
            rows@.len() == before.len(),
            wanted.len() == before.len(),
            forall|k: int| 0 <= k < i ==> (#[trigger] rows@[k])@ == wanted[k],
            forall|k: int| i <= k < before.len() ==> (#[trigger] rows@[k])@ == before[k],
            forall|k: int|
                0 <= k < before.len() ==> #[trigger] wanted[k] == classified_touched(
                    before[k],
                    views(hits@),
                    bucket@,
                ),
        decreases rows.len() - i,
    {
        if is_hit(hits, rows[i].file_identity.as_str()) {
            let mut row: ClassificationCacheRow = rows[i].clone();
            row.last_accessed_bucket = bucket.to_string();
            rows.set(i, row);
        }
        i = i + 1;
    }
    assert(views(rows@) =~= wanted);
}

/// Noting an access twice on the same day is noting it once.
pub proof fn law_accesses_are_noted_once_a_day(
    row: ParseCacheRowView,
    hits: Seq<Seq<char>>,
    bucket: Seq<char>,
)
    ensures
        touched(touched(row, hits, bucket), hits, bucket) == touched(row, hits, bucket),
{
}

/// Noting accesses changes nothing of what the parse cache answers.
pub proof fn law_accesses_change_no_answer(
    rows: Seq<ParseCacheRowView>,
    hits: Seq<Seq<char>>,
    bucket: Seq<char>,
    identity: Seq<char>,
    version: Seq<char>,
    kind: Seq<char>,
    guard: Seq<char>,
    profile_hash: Seq<char>,
)
    ensures
        parse_lookup(
            rows.map_values(|row: ParseCacheRowView| touched(row, hits, bucket)),
            identity,
            version,
            kind,
            guard,
            profile_hash,
        ) == parse_lookup(rows, identity, version, kind, guard, profile_hash),
{
    let after = rows.map_values(|row: ParseCacheRowView| touched(row, hits, bucket));
    lemma_touched_key(rows, after, hits, bucket, identity, version, kind, guard, profile_hash, 0);
    crate::store::cache::lemma_row_with_key(
        rows,
        0,
        identity,
        version,
        kind,
        guard,
        profile_hash,
    );
    assert forall|i: int| 0 <= i < rows.len() implies crate::store::cache::same_source(
        #[trigger] after[i],
        identity,
        version,
        kind,
        guard,
    ) == crate::store::cache::same_source(rows[i], identity, version, kind, guard) by {}
    assert forall|i: int| 0 <= i < rows.len() implies crate::store::cache::same_source(
        #[trigger] rows[i],
        identity,
        version,
        kind,
        guard,
    ) == crate::store::cache::same_source(after[i], identity, version, kind, guard) by {}
    assert forall|i: int| 0 <= i < rows.len() implies (#[trigger] rows[i]).file_identity
        == after[i].file_identity by {}
    assert forall|i: int| 0 <= i < rows.len() implies (#[trigger] after[i]).file_identity
        == rows[i].file_identity by {}
}

proof fn lemma_touched_key(
    rows: Seq<ParseCacheRowView>,
    after: Seq<ParseCacheRowView>,
    hits: Seq<Seq<char>>,
    bucket: Seq<char>,
    identity: Seq<char>,
    version: Seq<char>,
    kind: Seq<char>,
    guard: Seq<char>,
    profile_hash: Seq<char>,
    from: int,
)
    requires
        0 <= from,
        after == rows.map_values(|row: ParseCacheRowView| touched(row, hits, bucket)),
    ensures
        crate::store::cache::row_with_key(
            after,
            from,
            identity,
            version,
            kind,
            guard,
            profile_hash,
        ) == crate::store::cache::row_with_key(
            rows,
            from,
            identity,
            version,
            kind,
            guard,
            profile_hash,
        ),
    decreases rows.len() - from,
{
    if from < rows.len() {
        assert(after[from] == touched(rows[from], hits, bucket));
        lemma_touched_key(
            rows,
            after,
            hits,
            bucket,
            identity,
            version,
            kind,
            guard,
            profile_hash,
            from + 1,
        );
    }
}

// ---------------------------------------------------------------------------
// Inventory
// ---------------------------------------------------------------------------

/// The files of the records that were known before.
pub open spec fn known_before(known: Set<Seq<char>>, records: Seq<InventoryRecordView>) -> Set<
    Seq<char>,
> {
    known.intersect(
        records.map_values(|record: InventoryRecordView| record.file_identity).to_set(),
    )
}

/// Tells which files of the records were known before.
pub fn identities_known_before(known: &TextSet, records: &Vec<InventoryRecord>) -> (existed:
    TextSet)
    ensures
        existed@ == known_before(known@, views(records@)),
{
    let ghost ids = views(records@).map_values(
        |record: InventoryRecordView| record.file_identity,
    );
    let mut existed = TextSet::new();
    let mut i: usize = 0;
    while i < records.len()
        invariant
            i <= records.len(),
            ids == views(records@).map_values(
                |record: InventoryRecordView| record.file_identity,
            ),
            forall|text: Seq<char>| #[trigger]
                existed@.contains(text) <==> (known@.contains(text) && exists|k: int|
                    0 <= k < i && ids[k] == text),
        decreases records.len() - i,
    {
        let identity: &String = &records[i].file_identity;
        assert(views(records@)[i as int] == records@[i as int]@);
        assert(ids[i as int] == identity@);
        let ghost before = existed@;
        if known.contains(identity.as_str()) {
            existed.insert(identity.clone());
        }
        proof {
            assert forall|text: Seq<char>| #[trigger] existed@.contains(text) <==> (
            known@.contains(text) && exists|k: int| 0 <= k < i + 1 && ids[k] == text) by {
                if existed@.contains(text) {
                    if before.contains(text) {
                        let k = choose|k: int| 0 <= k < i && ids[k] == text;
                        assert(0 <= k < i + 1 && ids[k] == text);
                    } else {
                        assert(ids[i as int] == text);
                    }
                }
                if known@.contains(text) && exists|k: int| 0 <= k < i + 1 && ids[k] == text {
                    let k = choose|k: int| 0 <= k < i + 1 && ids[k] == text;
                    if k < i {
                        assert(before.contains(text));
                    }
                }
            }
        }
        i = i + 1;
    }
    proof {
        assert forall|text: Seq<char>| existed@.contains(text) <==> known_before(
            known@,
            views(records@),
        ).contains(text) by {
            if ids.to_set().contains(text) {
                let k = choose|k: int| 0 <= k < ids.len() && ids[k] == text;
                assert(0 <= k < i && ids[k] == text);
            }
            if existed@.contains(text) {
                let k = choose|k: int| 0 <= k < i && ids[k] == text;
                assert(ids.contains(text));
            }
        }
        assert(existed@ =~= known_before(known@, views(records@)));
    }
    existed
}

// ---------------------------------------------------------------------------
// Snapshots
// ---------------------------------------------------------------------------

/// A run whose context refers to an artifact that may answer for a snapshot key.
pub struct SnapshotCandidate {
    pub artifact_id: i64,
    pub context_run_id: i64,
    pub snapshot_eligible: bool,
    pub snapshot_key_sha256: Option<String>,
    pub snapshot_key_json: Option<String>,
    /// Whether the context of the run is a success.
    pub context_succeeded: bool,
    /// Whether the run is a success.
    pub run_succeeded: bool,
    pub finished_at_ms: i64,
}

impl SnapshotCandidate {
    /// The artifact answers for the key, and the run that it is from was a success. The
    /// key is compared as a whole, not by its hash alone.
    pub open spec fn answers(self, key: SnapshotKeyPartsView) -> bool {
        &&& self.snapshot_eligible
        &&& opt_view(self.snapshot_key_sha256) == Some(key.sha256)
        &&& opt_view(self.snapshot_key_json) == Some(key.canonical_json)
        &&& self.context_succeeded
        &&& self.run_succeeded
    }

    /// The run ended after the other, or together with it and began later.
    pub open spec fn is_later_than(self, other: SnapshotCandidate) -> bool {
        self.finished_at_ms > other.finished_at_ms || (self.finished_at_ms == other.finished_at_ms
            && self.context_run_id > other.context_run_id)
    }
}

/// The candidate that answers for the key: the latest one of the first `count`.
pub open spec fn latest_answer(
    candidates: Seq<SnapshotCandidate>,
    key: SnapshotKeyPartsView,
    count: nat,
) -> Option<int>
    decreases count,
{
    if count == 0 {
        None
    } else {
        let earlier = latest_answer(candidates, key, (count - 1) as nat);
        let last = count - 1;
        if !candidates[last].answers(key) {
            earlier
        } else {
            match earlier {
                None => Some(last),
                Some(at) => if candidates[last].is_later_than(candidates[at]) {
                    Some(last)
                } else {
                    Some(at)
                },
            }
        }
    }
}

fn opt_is(text: &Option<String>, wanted: &str) -> (same: bool)
    ensures
        same == (opt_view(*text) == Some(wanted@)),
{
    match text {
        Some(value) => text_eq(value.as_str(), wanted),
        None => false,
    }
}

/// Looks for an artifact that answers for the key, and the latest run that it is from.
pub fn snapshot_lookup(candidates: &Vec<SnapshotCandidate>, key: &SnapshotKeyParts) -> (hit: Option<
    SnapshotHit,
>)
    ensures
        match latest_answer(candidates@, key@, candidates@.len()) {
            None => hit is None,
            Some(at) => hit == Some(
                SnapshotHit {
                    artifact_id: candidates@[at].artifact_id,
                    source_context_run_id: candidates@[at].context_run_id,
                },
            ),
        },
{
    let mut best: Option<usize> = None;
    let mut i: usize = 0;
    while i < candidates.len()
        invariant
            i <= candidates.len(),
            match best {
                None => latest_answer(candidates@, key@, i as nat) is None,
                Some(at) => latest_answer(candidates@, key@, i as nat) == Some(at as int) && at < i,
            },
        decreases candidates.len() - i,
    {
        let candidate: &SnapshotCandidate = &candidates[i];
        if candidate.snapshot_eligible && opt_is(
            &candidate.snapshot_key_sha256,
            key.sha256.as_str(),
        ) && opt_is(&candidate.snapshot_key_json, key.canonical_json.as_str())
            && candidate.context_succeeded && candidate.run_succeeded {
            best = match best {
                None => Some(i),
                Some(at) => {
                    let other: &SnapshotCandidate = &candidates[at];
                    if candidate.finished_at_ms > other.finished_at_ms || (candidate.finished_at_ms
                        == other.finished_at_ms && candidate.context_run_id
                        > other.context_run_id) {
                        Some(i)
                    } else {
                        Some(at)
                    }
                },
            };
        }
        i = i + 1;
    }
    match best {
        None => None,
        Some(at) => Some(
            SnapshotHit {
                artifact_id: candidates[at].artifact_id,
                source_context_run_id: candidates[at].context_run_id,
            },
        ),
    }
}

/// A snapshot is answered exactly where some candidate answers for its key, and then by
/// one that does and that no other answer is later than.
pub proof fn law_snapshots_are_answered_by_the_latest(
    candidates: Seq<SnapshotCandidate>,
    key: SnapshotKeyPartsView,
    count: nat,
    i: int,
)
    requires
        count <= candidates.len(),
        0 <= i < count,
        candidates[i].answers(key),
    ensures
        latest_answer(candidates, key, count) matches Some(at) && 0 <= at < count
            && candidates[at].answers(key) && !candidates[i].is_later_than(candidates[at]),
    decreases count,
{
    lemma_answer_answers(candidates, key, (count - 1) as nat);
    if i < count - 1 {
        law_snapshots_are_answered_by_the_latest(candidates, key, (count - 1) as nat, i);
    }
}

proof fn lemma_answer_answers(
    candidates: Seq<SnapshotCandidate>,
    key: SnapshotKeyPartsView,
    count: nat,
)
    requires
        count <= candidates.len(),
    ensures
        latest_answer(candidates, key, count) matches Some(at) ==> 0 <= at < count
            && candidates[at].answers(key),
    decreases count,
{
    if count > 0 {
        lemma_answer_answers(candidates, key, (count - 1) as nat);
    }
}

// ---------------------------------------------------------------------------
// Diagnostics
// ---------------------------------------------------------------------------

/// A stored diagnostic.
pub struct RawDiagnosticRow {
    pub severity: String,
    /// The code, where its stored text is that of one.
    pub error_code: Option<ErrorCode>,
    pub message: String,
    pub retryable: i64,
    /// The stage, where its stored text is that of one.
    pub stage: Option<DiagnosticStage>,
    pub file_path: Option<String>,
    pub backend: Option<String>,
}

impl RawDiagnosticRow {
    /// The diagnostic, as it is read.
    pub open spec fn diagnostic(self) -> DiagnosticView {
        DiagnosticView {
            error_code: self.error_code->0,
            message: self.message@,
            retryable: self.retryable != 0,
            stage: self.stage->0,
            file_path: opt_view(self.file_path),
            backend: opt_view(self.backend),
        }
    }

    /// The record that the row holds, or why it holds none. `accepted` is the verdict of
    /// the wire contract on the diagnostic.
    pub open spec fn record(self, accepted: bool) -> Result<
        RunDiagnosticRecordView,
        StoreErrorView,
    > {
        if self.severity@ != "warning"@ && self.severity@ != "error"@ {
            Err(StoreErrorView::RunCorrupt("diagnostic severity is invalid"@))
        } else if self.error_code is None || self.stage is None {
            Err(StoreErrorView::RunCorrupt("persisted contract enum is invalid"@))
        } else if !accepted {
            Err(StoreErrorView::RunCorrupt("persisted diagnostic is invalid"@))
        } else {
            Ok(
                RunDiagnosticRecordView {
                    severity: if self.severity@ == "warning"@ {
                        DiagnosticSeverity::Warning
                    } else {
                        DiagnosticSeverity::Error
                    },
                    diagnostic: self.diagnostic(),
                },
            )
        }
    }
}

/// Reads a stored diagnostic.
pub fn restore_diagnostic(row: RawDiagnosticRow, accepted: bool) -> (record: Result<
    RunDiagnosticRecord,
    StoreError,
>)
    ensures
        match record {
            Ok(found) => row.record(accepted) == Ok::<RunDiagnosticRecordView, StoreErrorView>(
                found@,
            ),
            Err(error) => row.record(accepted) == Err::<RunDiagnosticRecordView, StoreErrorView>(
                error@,
            ),
        },
{
    proof {
        reveal_strlit("warning");
        reveal_strlit("error");
    }
    assert("warning"@.len() == 7 && "error"@.len() == 5);
    let severity: DiagnosticSeverity = if text_eq(row.severity.as_str(), "warning") {
        DiagnosticSeverity::Warning
    } else if text_eq(row.severity.as_str(), "error") {
        DiagnosticSeverity::Error
    } else {
        return Err(StoreError::corrupt("diagnostic severity is invalid"));
    };
    let error_code: ErrorCode = match row.error_code {
        Some(code) => code,
        None => {
            return Err(StoreError::corrupt("persisted contract enum is invalid"));
        },
    };
    let stage: DiagnosticStage = match row.stage {
        Some(stage) => stage,
        None => {
            return Err(StoreError::corrupt("persisted contract enum is invalid"));
        },
    };
    if !accepted {
        return Err(StoreError::corrupt("persisted diagnostic is invalid"));
    }
    Ok(
        RunDiagnosticRecord {
            severity,
            diagnostic: Diagnostic {
                error_code,
                message: row.message,
                retryable: row.retryable != 0,
                stage,
                file_path: row.file_path,
                backend: row.backend,
            },
        },
    )
}

/// The row that a diagnostic is stored as.
pub open spec fn row_holds(row: RawDiagnosticRow, record: RunDiagnosticRecordView) -> bool {
    &&& row.severity@ == record.severity.as_str_spec()
    &&& row.error_code == Some(record.diagnostic.error_code)
    &&& row.message@ == record.diagnostic.message
    &&& row.retryable == if record.diagnostic.retryable {
        1i64
    } else {
        0
    }
    &&& row.stage == Some(record.diagnostic.stage)
    &&& opt_view(row.file_path) == record.diagnostic.file_path
    &&& opt_view(row.backend) == record.diagnostic.backend
}

/// Stores a diagnostic.
pub fn store_diagnostic(record: &RunDiagnosticRecord) -> (row: RawDiagnosticRow)
    ensures
        row_holds(row, record@),
{
    RawDiagnosticRow {
        severity: record.severity.as_str().to_string(),
        error_code: Some(record.diagnostic.error_code),
        message: record.diagnostic.message.clone(),
        retryable: if record.diagnostic.retryable {
            1
        } else {
            0
        },
        stage: Some(record.diagnostic.stage),
        file_path: record.diagnostic.file_path.clone(),
        backend: record.diagnostic.backend.clone(),
    }
}

/// A diagnostic that was stored is read back as it was.
pub proof fn law_diagnostics_round_trip(row: RawDiagnosticRow, record: RunDiagnosticRecordView)
    requires
        row_holds(row, record),
    ensures
        row.record(true) == Ok::<RunDiagnosticRecordView, StoreErrorView>(record),
{
    reveal_strlit("warning");
    reveal_strlit("error");
    assert("warning"@.len() == 7 && "error"@.len() == 5);
    assert(row.diagnostic() =~= record.diagnostic);
}

/// The rows, in the order of their sequence, hold the records.
pub open spec fn rows_hold(
    rows: Seq<RawDiagnosticRow>,
    records: Seq<RunDiagnosticRecordView>,
) -> bool {
    rows.len() == records.len() && forall|i: int|
        0 <= i < rows.len() ==> row_holds(#[trigger] rows[i], records[i])
}

/// Stores the diagnostics of a run: the place of a row is its sequence.
pub fn store_diagnostics(records: &Vec<RunDiagnosticRecord>) -> (rows: Vec<RawDiagnosticRow>)
    ensures
        rows_hold(rows@, views(records@)),
{
    let ghost all = views(records@);
    let mut rows: Vec<RawDiagnosticRow> = Vec::new();
    let mut i: usize = 0;
    while i < records.len()
        invariant
            i <= records.len(),
            all == views(records@),
            rows@.len() == i,
            forall|j: int| 0 <= j < i ==> row_holds(#[trigger] rows@[j], all[j]),
        decreases records.len() - i,
    {
        let ghost so_far = rows@;
        assert(all[i as int] == records@[i as int]@);
        rows.push(store_diagnostic(&records[i]));
        assert forall|j: int| 0 <= j < i + 1 implies row_holds(#[trigger] rows@[j], all[j]) by {
            if j < i {
                assert(rows@[j] == so_far[j]);
            }
        }
        i = i + 1;
    }
    rows
}

/// The records that the first rows hold, or the first reason why one of them holds none.
pub open spec fn records_read(
    rows: Seq<RawDiagnosticRow>,
    accepted: Seq<bool>,
    count: nat,
) -> Result<Seq<RunDiagnosticRecordView>, StoreErrorView>
    decreases count,
{
    if count == 0 {
        Ok(Seq::empty())
    } else {
        match records_read(rows, accepted, (count - 1) as nat) {
            Err(fault) => Err(fault),
            Ok(earlier) => match rows[count - 1].record(accepted[count - 1]) {
                Err(fault) => Err(fault),
                Ok(record) => Ok(earlier.push(record)),
            },
        }
    }
}

proof fn lemma_fault_stays(
    rows: Seq<RawDiagnosticRow>,
    accepted: Seq<bool>,
    count: nat,
    more: nat,
)
    requires
        count <= more,
        records_read(rows, accepted, count) is Err,
    ensures
        records_read(rows, accepted, more) == records_read(rows, accepted, count),
    decreases more,
{
    if count < more {
        lemma_fault_stays(rows, accepted, count, (more - 1) as nat);
    }
}

/// Reads the diagnostics of a run from its rows, in the order of their sequence.
/// `accepted` holds the verdict of the wire contract on each of them.
pub fn load_diagnostics(
    run_found: bool,
    rows: Vec<RawDiagnosticRow>,
    accepted: &Vec<bool>,
) -> (records: Result<Vec<RunDiagnosticRecord>, StoreError>)
    requires
        accepted@.len() == rows@.len(),
    ensures
        match records {
            Ok(found) => run_found && records_read(rows@, accepted@, rows@.len()) == Ok::<
                Seq<RunDiagnosticRecordView>,
                StoreErrorView,
            >(views(found@)),
            Err(error) => if run_found {
                records_read(rows@, accepted@, rows@.len()) == Err::<
                    Seq<RunDiagnosticRecordView>,
                    StoreErrorView,
                >(error@)
            } else {
                error@ == StoreErrorView::RunNotFound
            },
        },
        !run_found ==> records is Err,
{
    if !run_found {
        return Err(StoreError::RunNotFound);
    }
    let ghost all = rows@;
    let mut left: Vec<RawDiagnosticRow> = rows;
    let mut found: Vec<RunDiagnosticRecord> = Vec::new();
    let count: usize = left.len();
    let mut i: usize = 0;
    assert(views(found@) =~= Seq::<RunDiagnosticRecordView>::empty());
    while i < count
        invariant
            i <= count,
            run_found,
            all == rows@,
            count == all.len(),
            accepted@.len() == count,
            left@ == all.skip(i as int),
            records_read(all, accepted@, i as nat) == Ok::<
                Seq<RunDiagnosticRecordView>,
                StoreErrorView,
            >(views(found@)),
        decreases count - i,
    {
        let ghost so_far = views(found@);
        let ghost rest = left@;
        assert(rest[0] == all[i as int]);
        let row: RawDiagnosticRow = left.remove(0);
        assert(left@ =~= all.skip(i + 1));
        match restore_diagnostic(row, accepted[i]) {
            Err(error) => {
                proof {
                    lemma_fault_stays(all, accepted@, (i + 1) as nat, count as nat);
                }
                return Err(error);
            },
            Ok(record) => {
                found.push(record);
                assert(views(found@) =~= so_far.push(record@));
            },
        }
        i = i + 1;
    }
    Ok(found)
}

proof fn lemma_records_read(
    rows: Seq<RawDiagnosticRow>,
    accepted: Seq<bool>,
    records: Seq<RunDiagnosticRecordView>,
    count: nat,
)
    requires
        rows_hold(rows, records),
        accepted.len() == rows.len(),
        forall|i: int| 0 <= i < accepted.len() ==> accepted[i],
        count <= rows.len(),
    ensures
        records_read(rows, accepted, count) == Ok::<Seq<RunDiagnosticRecordView>, StoreErrorView>(
            records.take(count as int),
        ),
    decreases count,
{
    if count == 0 {
        assert(records.take(0) =~= Seq::<RunDiagnosticRecordView>::empty());
    } else {
        lemma_records_read(rows, accepted, records, (count - 1) as nat);
        assert(row_holds(rows[count - 1], records[count - 1]));
        law_diagnostics_round_trip(rows[count - 1], records[count - 1]);
        assert(records.take(count as int) =~= records.take(count - 1).push(records[count - 1]));
    }
}

/// The diagnostics of a run are read back as they were stored: the same records in the same
/// order.
pub proof fn law_run_diagnostics_round_trip(
    rows: Seq<RawDiagnosticRow>,
    accepted: Seq<bool>,
    records: Seq<RunDiagnosticRecordView>,
)
    requires
        rows_hold(rows, records),
        accepted.len() == rows.len(),
        forall|i: int| 0 <= i < accepted.len() ==> accepted[i],
    ensures
        records_read(rows, accepted, rows.len()) == Ok::<
            Seq<RunDiagnosticRecordView>,
            StoreErrorView,
        >(records),
{
    lemma_records_read(rows, accepted, records, rows.len());
    assert(records.take(rows.len() as int) =~= records);
}

/// The parse cache is asked under any key that names a file, in a version that can be read,
/// under a guard that carries a hash and a profile hash; under any other it is not.
pub proof fn law_whole_keys_are_looked_up(
    rows: Seq<ParseCacheRowView>,
    classified: Seq<ClassificationCacheRowView>,
    identity: Seq<char>,
    version: Seq<char>,
    kind: Seq<char>,
    guard: Seq<char>,
    profile_hash: Seq<char>,
    build: Seq<char>,
    existed_before: bool,
)
    ensures
        ({
            let answer = checked_parse_lookup(
                rows,
                identity,
                version,
                kind,
                guard,
                profile_hash,
            );
            &&& answer is Ok <==> identity.len() > 0 && version.len() > 0 && source_version(
                version,
            ) is Ok && is_cache_guard_kind(kind) && is_sha256_text(guard) && is_sha256_text(
                profile_hash,
            )
            &&& answer matches Ok(lookup) ==> lookup == parse_lookup(
                rows,
                identity,
                version,
                kind,
                guard,
                profile_hash,
            )
        }),
        ({
            let answer = checked_classification_lookup(
                classified,
                identity,
                version,
                kind,
                guard,
                profile_hash,
                build,
                existed_before,
            );
            &&& answer is Ok <==> identity.len() > 0 && version.len() > 0 && source_version(
                version,
            ) is Ok && is_sha256_text(profile_hash) && is_sha256_text(build)
            &&& answer matches Ok(lookup) ==> lookup == classification_lookup(
                classified,
                identity,
                version,
                kind,
                guard,
                profile_hash,
                build,
                existed_before,
            )
        }),
{
}

/// A planned file keeps its plan: one that is parsed gets what the cache says under the
/// fingerprint of its route, and one that is rejected is not looked up.
pub proof fn law_plans_keep_their_file_and_action(
    planned: PlannedFile,
    rows: Seq<ParseCacheRowView>,
    stacks: RouteStackFingerprintsView,
    profile: NormalizedScannerProfileV1View,
    accepted: Result<(), String>,
)
    ensures
        evidence_of(planned, rows, stacks, profile, accepted) matches Ok(entry) ==> {
            &&& entry.file == planned.file@
            &&& entry.action == planned.action
            &&& planned.action is Reject ==> entry.parse_profile_hash is None
                && entry.cache_lookup is None
            &&& planned.action matches PlannedAction::Parse(route) ==> accepted is Ok
                && entry.parse_profile_hash == Some(
                parse_profile_digest(stacks.of(route), profile),
            ) && entry.cache_lookup is Some
        },
        planned.action is Reject ==> evidence_of(planned, rows, stacks, profile, accepted) is Ok,
{
}

/// An access is noted on the entries of the files that were hit and on no other, and notes
/// nothing but the day.
pub proof fn law_accesses_are_noted_on_hits_alone(
    row: ParseCacheRowView,
    classified: ClassificationCacheRowView,
    hits: Seq<Seq<char>>,
    bucket: Seq<char>,
)
    ensures
        ({
            let after = touched(row, hits, bucket);
            &&& hits.contains(row.file_identity) ==> after.last_accessed_bucket == bucket
            &&& !hits.contains(row.file_identity) ==> after == row
            &&& after.entry == row.entry && after.file_identity == row.file_identity
                && after.source_version == row.source_version && after.source_guard_kind
                == row.source_guard_kind && after.source_guard_sha256 == row.source_guard_sha256
                && after.parse_profile_hash == row.parse_profile_hash && after.cached_at_ms
                == row.cached_at_ms && after.entry_size_bytes == row.entry_size_bytes
                && after.generation_rank == row.generation_rank
        }),
        ({
            let after = classified_touched(classified, hits, bucket);
            &&& hits.contains(classified.file_identity) ==> after.last_accessed_bucket == bucket
            &&& !hits.contains(classified.file_identity) ==> after == classified
            &&& after.entry == classified.entry && after.file_identity == classified.file_identity
                && after.cached_at_ms == classified.cached_at_ms && after.entry_size_bytes
                == classified.entry_size_bytes
        }),
{
}

/// A file was known before exactly where it is of this inventory and was in the last.
pub proof fn law_files_are_known_before_by_identity(
    known: Set<Seq<char>>,
    records: Seq<InventoryRecordView>,
    at: int,
)
    requires
        0 <= at < records.len(),
    ensures
        known_before(known, records).contains(records[at].file_identity) <==> known.contains(
            records[at].file_identity,
        ),
        known_before(known, records).subset_of(known),
{
    let ids = records.map_values(|record: InventoryRecordView| record.file_identity);
    assert(ids[at] == records[at].file_identity);
    assert(ids.to_set().contains(records[at].file_identity));
}

/// A snapshot is taken over only from a run that succeeded as a whole, whose artifact may
/// be taken over and has the very key that was asked for.
pub proof fn law_snapshots_are_of_successful_runs(
    candidates: Seq<SnapshotCandidate>,
    key: SnapshotKeyPartsView,
    count: nat,
)
    requires
        count <= candidates.len(),
    ensures
        latest_answer(candidates, key, count) matches Some(at) ==> {
            &&& 0 <= at < count
            &&& candidates[at].snapshot_eligible
            &&& candidates[at].context_succeeded && candidates[at].run_succeeded
            &&& opt_view(candidates[at].snapshot_key_sha256) == Some(key.sha256)
            &&& opt_view(candidates[at].snapshot_key_json) == Some(key.canonical_json)
        },
    decreases count,
{
    if count > 0 {
        law_snapshots_are_of_successful_runs(candidates, key, (count - 1) as nat);
    }
}

/// Of the runs that may answer for a key none finished later than the one that does.
pub proof fn law_no_later_run_is_passed_over(
    candidates: Seq<SnapshotCandidate>,
    key: SnapshotKeyPartsView,
    count: nat,
    other: int,
)
    requires
        count <= candidates.len(),
        0 <= other < count,
        candidates[other].snapshot_eligible,
        candidates[other].context_succeeded && candidates[other].run_succeeded,
        opt_view(candidates[other].snapshot_key_sha256) == Some(key.sha256),
        opt_view(candidates[other].snapshot_key_json) == Some(key.canonical_json),
    ensures
        latest_answer(candidates, key, count) matches Some(at)
            && candidates[at].finished_at_ms >= candidates[other].finished_at_ms,
    decreases count,
{
    if other < count - 1 {
        law_no_later_run_is_passed_over(candidates, key, (count - 1) as nat, other);
    }
}

/// A stored diagnostic is read by its severity: a warning as a warning, an error as an
/// error, and any other not at all.
pub proof fn law_stored_severities_are_read(row: RawDiagnosticRow, accepted: bool)
    ensures
        row.record(accepted) matches Ok(record) ==> {
            &&& record.severity == DiagnosticSeverity::Warning <==> row.severity@ == "warning"@
            &&& record.severity == DiagnosticSeverity::Error <==> row.severity@ == "error"@
            &&& record.diagnostic.message == row.message@
            &&& Some(record.diagnostic.error_code) == row.error_code
            &&& Some(record.diagnostic.stage) == row.stage
            &&& record.diagnostic.retryable <==> row.retryable != 0
        },
        row.record(accepted) is Ok <==> (row.severity@ == "warning"@ || row.severity@ == "error"@)
            && row.error_code is Some && row.stage is Some && accepted,
{
    reveal_strlit("warning");
    reveal_strlit("error");
    assert("warning"@.len() == 7 && "error"@.len() == 5);
}

/// The time is that of the clock, and a clock before its epoch is refused.
pub proof fn law_the_time_is_that_of_the_clock(
    since_epoch_ms: Option<u128>,
    millis: Result<u64, StoreError>,
)
    requires
        call_ensures(current_time_millis, (since_epoch_ms,), millis),
    ensures
        millis is Ok <==> since_epoch_ms is Some,
        since_epoch_ms is Some && since_epoch_ms->0 <= u64::MAX ==> millis is Ok && millis->Ok_0
            == since_epoch_ms->0,
        millis matches Err(error) ==> error@ is InvalidRequest,
{
}

} // verus!
