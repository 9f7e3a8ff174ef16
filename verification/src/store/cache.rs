//! Parse cache and classification cache: keys, fingerprints, lookup and eviction.
use crate::contract::{clone_all, views, CacheMissReason, ParserRoute};
use crate::hash::{content_hash, content_sha256, domain_hash, sha256_text};
use crate::ordered::{
    bytes_less_from, is_before, law_order_irreflexive, law_order_total, law_order_transitive,
    text_less,
};
use crate::json::{json_bool, json_text, JsonWriter};
use crate::profile::{
    ExtensionTimeout, ExtensionTimeoutView, NormalizedScannerProfileV1,
    NormalizedScannerProfileV1View, NormalizedScannerProfileV2, NormalizedScannerProfileV2View,
    ParseProfile, ParseProfileView,
};
use crate::store::inventory::{parse_source_version, source_version};
use crate::text::{
    byte_len, char_count, decimal, digit, is_digit, is_sha256, is_sha256_text, is_within, text_eq,
    u64_text, utf8_len, within,
};
use vstd::prelude::*;
use vstd::string::StringExecFns;
use vstd::utf8::{encode_utf8, is_ascii_chars, is_ascii_chars_encode_utf8};

verus! {

pub const PARSE_PROFILE_HASH_ALGORITHM: &'static str = "sha256-parse-profile-v1";

pub const CLASSIFIER_PROFILE_HASH_ALGORITHM: &'static str = "sha256-classifier-profile-v1";

/// Bytes that the parse cache may hold.
pub const PARSE_CACHE_MAX_BYTES: i64 = 1_073_741_824;

/// Bytes that the classification cache may hold.
pub const CLASSIFICATION_CACHE_MAX_BYTES: i64 = 134_217_728;

/// Bytes that context artifacts may take.
pub const CONTEXT_ARTIFACTS_MAX_BYTES: i64 = 536_870_912;

/// Bytes that terminal run audits may take.
pub const TERMINAL_AUDIT_MAX_BYTES: i64 = 2_147_483_648;

/// Terminal runs that are kept.
pub const TERMINAL_RUN_MAX_COUNT: i64 = 500;

/// Days that a terminal run is kept.
pub const TERMINAL_RUN_MAX_AGE_DAYS: i64 = 90;

/// Milliseconds that the opportunistic collection may take.
pub const OPPORTUNISTIC_GC_BUDGET_MS: u64 = 10;

/// The limits under which cached and audited rows are kept.
#[derive(Debug, PartialEq, Eq)]
pub struct CacheRetentionPolicy {
    pub policy_version: String,
    pub parse_cache_max_bytes: u64,
    pub classification_cache_max_bytes: u64,
    pub context_artifacts_max_bytes: u64,
    pub terminal_audit_max_bytes: u64,
    pub terminal_run_max_count: u64,
    pub terminal_run_max_age_days: u64,
    pub opportunistic_gc_budget_ms: u64,
}

/// What a [`CacheRetentionPolicy`] says.
#[verifier::ext_equal]
pub struct CacheRetentionPolicyView {
    pub policy_version: Seq<char>,
    pub parse_cache_max_bytes: u64,
    pub classification_cache_max_bytes: u64,
    pub context_artifacts_max_bytes: u64,
    pub terminal_audit_max_bytes: u64,
    pub terminal_run_max_count: u64,
    pub terminal_run_max_age_days: u64,
    pub opportunistic_gc_budget_ms: u64,
}

impl View for CacheRetentionPolicy {
    type V = CacheRetentionPolicyView;

    open spec fn view(&self) -> CacheRetentionPolicyView {
        CacheRetentionPolicyView {
            policy_version: self.policy_version@,
            parse_cache_max_bytes: self.parse_cache_max_bytes,
            classification_cache_max_bytes: self.classification_cache_max_bytes,
            context_artifacts_max_bytes: self.context_artifacts_max_bytes,
            terminal_audit_max_bytes: self.terminal_audit_max_bytes,
            terminal_run_max_count: self.terminal_run_max_count,
            terminal_run_max_age_days: self.terminal_run_max_age_days,
            opportunistic_gc_budget_ms: self.opportunistic_gc_budget_ms,
        }
    }
}

impl Clone for CacheRetentionPolicy {
    fn clone(&self) -> (copy: Self)
        ensures
            copy@ == self@,
            copy == *self,
    {
        CacheRetentionPolicy {
            policy_version: self.policy_version.clone(),
            parse_cache_max_bytes: self.parse_cache_max_bytes,
            classification_cache_max_bytes: self.classification_cache_max_bytes,
            context_artifacts_max_bytes: self.context_artifacts_max_bytes,
            terminal_audit_max_bytes: self.terminal_audit_max_bytes,
            terminal_run_max_count: self.terminal_run_max_count,
            terminal_run_max_age_days: self.terminal_run_max_age_days,
            opportunistic_gc_budget_ms: self.opportunistic_gc_budget_ms,
        }
    }
}

/// The retention policy in force.
pub fn cache_retention_policy() -> (policy: CacheRetentionPolicy)
    ensures
        policy@ == (CacheRetentionPolicyView {
            policy_version: "cache_retention_v1"@,
            parse_cache_max_bytes: PARSE_CACHE_MAX_BYTES as u64,
            classification_cache_max_bytes: CLASSIFICATION_CACHE_MAX_BYTES as u64,
            context_artifacts_max_bytes: CONTEXT_ARTIFACTS_MAX_BYTES as u64,
            terminal_audit_max_bytes: TERMINAL_AUDIT_MAX_BYTES as u64,
            terminal_run_max_count: TERMINAL_RUN_MAX_COUNT as u64,
            terminal_run_max_age_days: TERMINAL_RUN_MAX_AGE_DAYS as u64,
            opportunistic_gc_budget_ms: OPPORTUNISTIC_GC_BUDGET_MS,
        }),
{
    CacheRetentionPolicy {
        policy_version: "cache_retention_v1".to_string(),
        parse_cache_max_bytes: PARSE_CACHE_MAX_BYTES as u64,
        classification_cache_max_bytes: CLASSIFICATION_CACHE_MAX_BYTES as u64,
        context_artifacts_max_bytes: CONTEXT_ARTIFACTS_MAX_BYTES as u64,
        terminal_audit_max_bytes: TERMINAL_AUDIT_MAX_BYTES as u64,
        terminal_run_max_count: TERMINAL_RUN_MAX_COUNT as u64,
        terminal_run_max_age_days: TERMINAL_RUN_MAX_AGE_DAYS as u64,
        opportunistic_gc_budget_ms: OPPORTUNISTIC_GC_BUDGET_MS,
    }
}

/// One component that takes part in a parse route.
#[derive(Debug, PartialEq, Eq)]
pub struct RouteStackMember {
    component: String,
    contract: String,
    build: String,
}

/// What a [`RouteStackMember`] says.
#[verifier::ext_equal]
pub struct RouteStackMemberView {
    pub component: Seq<char>,
    pub contract: Seq<char>,
    pub build: Seq<char>,
}

impl View for RouteStackMember {
    type V = RouteStackMemberView;

    closed spec fn view(&self) -> RouteStackMemberView {
        RouteStackMemberView {
            component: self.component@,
            contract: self.contract@,
            build: self.build@,
        }
    }
}

impl Clone for RouteStackMember {
    fn clone(&self) -> (copy: Self)
        ensures
            copy@ == self@,
            copy == *self,
    {
        RouteStackMember {
            component: self.component.clone(),
            contract: self.contract.clone(),
            build: self.build.clone(),
        }
    }
}

/// The components of a parse route, with their contracts and builds.
#[derive(Debug, PartialEq, Eq)]
pub struct RouteStackFingerprint {
    route: String,
    members: Vec<RouteStackMember>,
}

/// What a [`RouteStackFingerprint`] says.
#[verifier::ext_equal]
pub struct RouteStackFingerprintView {
    pub route: Seq<char>,
    pub members: Seq<RouteStackMemberView>,
}

impl View for RouteStackFingerprint {
    type V = RouteStackFingerprintView;

    closed spec fn view(&self) -> RouteStackFingerprintView {
        RouteStackFingerprintView {
            route: self.route@,
            members: views(self.members@),
        }
    }
}

impl Clone for RouteStackFingerprint {
    fn clone(&self) -> (copy: Self)
        ensures
            copy@ == self@,
    {
        RouteStackFingerprint {
            route: self.route.clone(),
            members: clone_all(&self.members),
        }
    }
}

/// The fingerprints of all parse routes.
#[derive(Debug, PartialEq, Eq)]
pub struct RouteStackFingerprints {
    pub text_like: RouteStackFingerprint,
    pub modern_office: RouteStackFingerprint,
    pub python_document: RouteStackFingerprint,
}

/// What a [`RouteStackFingerprints`] says.
#[verifier::ext_equal]
pub struct RouteStackFingerprintsView {
    pub text_like: RouteStackFingerprintView,
    pub modern_office: RouteStackFingerprintView,
    pub python_document: RouteStackFingerprintView,
}

impl View for RouteStackFingerprints {
    type V = RouteStackFingerprintsView;

    open spec fn view(&self) -> RouteStackFingerprintsView {
        RouteStackFingerprintsView {
            text_like: self.text_like@,
            modern_office: self.modern_office@,
            python_document: self.python_document@,
        }
    }
}

impl Clone for RouteStackFingerprints {
    fn clone(&self) -> (copy: Self)
        ensures
            copy@ == self@,
    {
        RouteStackFingerprints {
            text_like: self.text_like.clone(),
            modern_office: self.modern_office.clone(),
            python_document: self.python_document.clone(),
        }
    }
}

/// A successful parse that is to be cached. The key is the file identity, its
/// source version, its guard and the parse profile hash.
#[derive(Debug, PartialEq, Eq)]
pub struct CacheWriteRecord {
    pub file_identity: String,
    pub source_version: String,
    pub source_guard_kind: String,
    pub source_guard_sha256: String,
    pub parse_profile_hash: String,
    pub content: String,
    pub content_sha256: String,
    pub parser_backend: String,
    pub worker_lane: String,
    pub truncated: bool,
    pub worker_contract_version: String,
    pub worker_version: String,
    pub worker_build: String,
}

/// What a [`CacheWriteRecord`] says.
#[verifier::ext_equal]
pub struct CacheWriteRecordView {
    pub file_identity: Seq<char>,
    pub source_version: Seq<char>,
    pub source_guard_kind: Seq<char>,
    pub source_guard_sha256: Seq<char>,
    pub parse_profile_hash: Seq<char>,
    pub content: Seq<char>,
    pub content_sha256: Seq<char>,
    pub parser_backend: Seq<char>,
    pub worker_lane: Seq<char>,
    pub truncated: bool,
    pub worker_contract_version: Seq<char>,
    pub worker_version: Seq<char>,
    pub worker_build: Seq<char>,
}

impl View for CacheWriteRecord {
    type V = CacheWriteRecordView;

    open spec fn view(&self) -> CacheWriteRecordView {
        CacheWriteRecordView {
            file_identity: self.file_identity@,
            source_version: self.source_version@,
            source_guard_kind: self.source_guard_kind@,
            source_guard_sha256: self.source_guard_sha256@,
            parse_profile_hash: self.parse_profile_hash@,
            content: self.content@,
            content_sha256: self.content_sha256@,
            parser_backend: self.parser_backend@,
            worker_lane: self.worker_lane@,
            truncated: self.truncated,
            worker_contract_version: self.worker_contract_version@,
            worker_version: self.worker_version@,
            worker_build: self.worker_build@,
        }
    }
}

impl Clone for CacheWriteRecord {
    fn clone(&self) -> (copy: Self)
        ensures
            copy@ == self@,
            copy == *self,
    {
        CacheWriteRecord {
            file_identity: self.file_identity.clone(),
            source_version: self.source_version.clone(),
            source_guard_kind: self.source_guard_kind.clone(),
            source_guard_sha256: self.source_guard_sha256.clone(),
            parse_profile_hash: self.parse_profile_hash.clone(),
            content: self.content.clone(),
            content_sha256: self.content_sha256.clone(),
            parser_backend: self.parser_backend.clone(),
            worker_lane: self.worker_lane.clone(),
            truncated: self.truncated,
            worker_contract_version: self.worker_contract_version.clone(),
            worker_version: self.worker_version.clone(),
            worker_build: self.worker_build.clone(),
        }
    }
}

/// A cached parse.
#[derive(Debug, PartialEq, Eq)]
pub struct CacheEntry {
    pub content: String,
    pub content_sha256: String,
    pub parser_backend: String,
    pub worker_lane: String,
    pub truncated: bool,
    pub worker_contract_version: String,
    pub worker_version: String,
    pub worker_build: String,
}

/// What a [`CacheEntry`] says.
#[verifier::ext_equal]
pub struct CacheEntryView {
    pub content: Seq<char>,
    pub content_sha256: Seq<char>,
    pub parser_backend: Seq<char>,
    pub worker_lane: Seq<char>,
    pub truncated: bool,
    pub worker_contract_version: Seq<char>,
    pub worker_version: Seq<char>,
    pub worker_build: Seq<char>,
}

impl View for CacheEntry {
    type V = CacheEntryView;

    open spec fn view(&self) -> CacheEntryView {
        CacheEntryView {
            content: self.content@,
            content_sha256: self.content_sha256@,
            parser_backend: self.parser_backend@,
            worker_lane: self.worker_lane@,
            truncated: self.truncated,
            worker_contract_version: self.worker_contract_version@,
            worker_version: self.worker_version@,
            worker_build: self.worker_build@,
        }
    }
}

impl Clone for CacheEntry {
    fn clone(&self) -> (copy: Self)
        ensures
            copy@ == self@,
            copy == *self,
    {
        CacheEntry {
            content: self.content.clone(),
            content_sha256: self.content_sha256.clone(),
            parser_backend: self.parser_backend.clone(),
            worker_lane: self.worker_lane.clone(),
            truncated: self.truncated,
            worker_contract_version: self.worker_contract_version.clone(),
            worker_version: self.worker_version.clone(),
            worker_build: self.worker_build.clone(),
        }
    }
}

/// A row of the parse cache.
#[derive(Debug, PartialEq, Eq)]
pub struct ParseCacheRow {
    pub file_identity: String,
    pub source_version: String,
    pub source_guard_kind: String,
    pub source_guard_sha256: String,
    pub parse_profile_hash: String,
    pub entry: CacheEntry,
    pub cached_at_ms: i64,
    pub entry_size_bytes: i64,
    pub generation_rank: i64,
    pub last_accessed_bucket: String,
}

/// What a [`ParseCacheRow`] says.
#[verifier::ext_equal]
pub struct ParseCacheRowView {
    pub file_identity: Seq<char>,
    pub source_version: Seq<char>,
    pub source_guard_kind: Seq<char>,
    pub source_guard_sha256: Seq<char>,
    pub parse_profile_hash: Seq<char>,
    pub entry: CacheEntryView,
    pub cached_at_ms: i64,
    pub entry_size_bytes: i64,
    pub generation_rank: i64,
    pub last_accessed_bucket: Seq<char>,
}

impl View for ParseCacheRow {
    type V = ParseCacheRowView;

    open spec fn view(&self) -> ParseCacheRowView {
        ParseCacheRowView {
            file_identity: self.file_identity@,
            source_version: self.source_version@,
            source_guard_kind: self.source_guard_kind@,
            source_guard_sha256: self.source_guard_sha256@,
            parse_profile_hash: self.parse_profile_hash@,
            entry: self.entry@,
            cached_at_ms: self.cached_at_ms,
            entry_size_bytes: self.entry_size_bytes,
            generation_rank: self.generation_rank,
            last_accessed_bucket: self.last_accessed_bucket@,
        }
    }
}

impl Clone for ParseCacheRow {
    fn clone(&self) -> (copy: Self)
        ensures
            copy@ == self@,
            copy == *self,
    {
        ParseCacheRow {
            file_identity: self.file_identity.clone(),
            source_version: self.source_version.clone(),
            source_guard_kind: self.source_guard_kind.clone(),
            source_guard_sha256: self.source_guard_sha256.clone(),
            parse_profile_hash: self.parse_profile_hash.clone(),
            entry: self.entry.clone(),
            cached_at_ms: self.cached_at_ms,
            entry_size_bytes: self.entry_size_bytes,
            generation_rank: self.generation_rank,
            last_accessed_bucket: self.last_accessed_bucket.clone(),
        }
    }
}

/// A cached classification.
#[derive(Debug, PartialEq, Eq)]
pub struct ClassificationCacheEntry {
    pub status: String,
    pub page_count: u64,
    pub result_examined_pages: u64,
}

/// What a [`ClassificationCacheEntry`] says.
#[verifier::ext_equal]
pub struct ClassificationCacheEntryView {
    pub status: Seq<char>,
    pub page_count: u64,
    pub result_examined_pages: u64,
}

impl View for ClassificationCacheEntry {
    type V = ClassificationCacheEntryView;

    open spec fn view(&self) -> ClassificationCacheEntryView {
        ClassificationCacheEntryView {
            status: self.status@,
            page_count: self.page_count,
            result_examined_pages: self.result_examined_pages,
        }
    }
}

impl Clone for ClassificationCacheEntry {
    fn clone(&self) -> (copy: Self)
        ensures
            copy@ == self@,
            copy == *self,
    {
        ClassificationCacheEntry {
            status: self.status.clone(),
            page_count: self.page_count,
            result_examined_pages: self.result_examined_pages,
        }
    }
}

/// A successful classification that is to be cached.
#[derive(Debug, PartialEq, Eq)]
pub struct ClassificationCacheWriteRecord {
    pub file_identity: String,
    pub source_version: String,
    pub source_guard_kind: String,
    pub source_guard_sha256: String,
    pub classifier_profile_hash: String,
    pub classifier_build: String,
    pub status: String,
    pub page_count: u64,
    pub result_examined_pages: u64,
}

/// What a [`ClassificationCacheWriteRecord`] says.
#[verifier::ext_equal]
pub struct ClassificationCacheWriteRecordView {
    pub file_identity: Seq<char>,
    pub source_version: Seq<char>,
    pub source_guard_kind: Seq<char>,
    pub source_guard_sha256: Seq<char>,
    pub classifier_profile_hash: Seq<char>,
    pub classifier_build: Seq<char>,
    pub status: Seq<char>,
    pub page_count: u64,
    pub result_examined_pages: u64,
}

impl View for ClassificationCacheWriteRecord {
    type V = ClassificationCacheWriteRecordView;

    open spec fn view(&self) -> ClassificationCacheWriteRecordView {
        ClassificationCacheWriteRecordView {
            file_identity: self.file_identity@,
            source_version: self.source_version@,
            source_guard_kind: self.source_guard_kind@,
            source_guard_sha256: self.source_guard_sha256@,
            classifier_profile_hash: self.classifier_profile_hash@,
            classifier_build: self.classifier_build@,
            status: self.status@,
            page_count: self.page_count,
            result_examined_pages: self.result_examined_pages,
        }
    }
}

impl Clone for ClassificationCacheWriteRecord {
    fn clone(&self) -> (copy: Self)
        ensures
            copy@ == self@,
            copy == *self,
    {
        ClassificationCacheWriteRecord {
            file_identity: self.file_identity.clone(),
            source_version: self.source_version.clone(),
            source_guard_kind: self.source_guard_kind.clone(),
            source_guard_sha256: self.source_guard_sha256.clone(),
            classifier_profile_hash: self.classifier_profile_hash.clone(),
            classifier_build: self.classifier_build.clone(),
            status: self.status.clone(),
            page_count: self.page_count,
            result_examined_pages: self.result_examined_pages,
        }
    }
}

/// A row of the classification cache.
#[derive(Debug, PartialEq, Eq)]
pub struct ClassificationCacheRow {
    pub file_identity: String,
    pub source_version: String,
    pub source_guard_kind: String,
    pub source_guard_sha256: String,
    pub classifier_profile_hash: String,
    pub classifier_build: String,
    pub entry: ClassificationCacheEntry,
    pub cached_at_ms: i64,
    pub entry_size_bytes: i64,
    pub generation_rank: i64,
    pub last_accessed_bucket: String,
}

/// What a [`ClassificationCacheRow`] says.
#[verifier::ext_equal]
pub struct ClassificationCacheRowView {
    pub file_identity: Seq<char>,
    pub source_version: Seq<char>,
    pub source_guard_kind: Seq<char>,
    pub source_guard_sha256: Seq<char>,
    pub classifier_profile_hash: Seq<char>,
    pub classifier_build: Seq<char>,
    pub entry: ClassificationCacheEntryView,
    pub cached_at_ms: i64,
    pub entry_size_bytes: i64,
    pub generation_rank: i64,
    pub last_accessed_bucket: Seq<char>,
}

impl View for ClassificationCacheRow {
    type V = ClassificationCacheRowView;

    open spec fn view(&self) -> ClassificationCacheRowView {
        ClassificationCacheRowView {
            file_identity: self.file_identity@,
            source_version: self.source_version@,
            source_guard_kind: self.source_guard_kind@,
            source_guard_sha256: self.source_guard_sha256@,
            classifier_profile_hash: self.classifier_profile_hash@,
            classifier_build: self.classifier_build@,
            entry: self.entry@,
            cached_at_ms: self.cached_at_ms,
            entry_size_bytes: self.entry_size_bytes,
            generation_rank: self.generation_rank,
            last_accessed_bucket: self.last_accessed_bucket@,
        }
    }
}

impl Clone for ClassificationCacheRow {
    fn clone(&self) -> (copy: Self)
        ensures
            copy@ == self@,
            copy == *self,
    {
        ClassificationCacheRow {
            file_identity: self.file_identity.clone(),
            source_version: self.source_version.clone(),
            source_guard_kind: self.source_guard_kind.clone(),
            source_guard_sha256: self.source_guard_sha256.clone(),
            classifier_profile_hash: self.classifier_profile_hash.clone(),
            classifier_build: self.classifier_build.clone(),
            entry: self.entry.clone(),
            cached_at_ms: self.cached_at_ms,
            entry_size_bytes: self.entry_size_bytes,
            generation_rank: self.generation_rank,
            last_accessed_bucket: self.last_accessed_bucket.clone(),
        }
    }
}

/// Why the classification cache held no usable entry.
#[derive(Clone, Copy, Debug, PartialEq, Eq, Structural)]
pub enum ClassificationCacheMissReason {
    NewFile,
    SourceVersionChanged,
    ClassifierIdentityChanged,
    EntryAbsentOrEvicted,
}

impl ClassificationCacheMissReason {
    /// The wire text of the reason.
    pub open spec fn as_str_spec(self) -> Seq<char> {
        match self {
            ClassificationCacheMissReason::NewFile => "new_file"@,
            ClassificationCacheMissReason::SourceVersionChanged => "source_version_changed"@,
            ClassificationCacheMissReason::ClassifierIdentityChanged => "classifier_identity_changed"@,
            ClassificationCacheMissReason::EntryAbsentOrEvicted => "entry_absent_or_evicted"@,
        }
    }

    /// The wire text of the reason.
    pub fn as_str(self) -> (text: &'static str)
        ensures
            text@ == self.as_str_spec(),
    {
        match self {
            ClassificationCacheMissReason::NewFile => "new_file",
            ClassificationCacheMissReason::SourceVersionChanged => "source_version_changed",
            ClassificationCacheMissReason::ClassifierIdentityChanged => "classifier_identity_changed",
            ClassificationCacheMissReason::EntryAbsentOrEvicted => "entry_absent_or_evicted",
        }
    }
}

/// What the parse cache holds for a key.
#[derive(Debug, PartialEq, Eq)]
pub enum CacheLookup {
    Fresh(CacheEntry),
    Miss(CacheMissReason),
}

/// What the parse cache holds for a key.
#[verifier::ext_equal]
pub enum CacheLookupView {
    Fresh(CacheEntryView),
    Miss(CacheMissReason),
}

impl View for CacheLookup {
    type V = CacheLookupView;

    open spec fn view(&self) -> CacheLookupView {
        match self {
            CacheLookup::Fresh(entry) => CacheLookupView::Fresh(entry@),
            CacheLookup::Miss(reason) => CacheLookupView::Miss(*reason),
        }
    }
}

/// What the classification cache holds for a key.
#[derive(Debug, PartialEq, Eq)]
pub enum ClassificationCacheLookup {
    Fresh(ClassificationCacheEntry),
    Miss(ClassificationCacheMissReason),
}

/// What the classification cache holds for a key.
#[verifier::ext_equal]
pub enum ClassificationCacheLookupView {
    Fresh(ClassificationCacheEntryView),
    Miss(ClassificationCacheMissReason),
}

impl View for ClassificationCacheLookup {
    type V = ClassificationCacheLookupView;

    open spec fn view(&self) -> ClassificationCacheLookupView {
        match self {
            ClassificationCacheLookup::Fresh(entry) => ClassificationCacheLookupView::Fresh(entry@),
            ClassificationCacheLookup::Miss(reason) => ClassificationCacheLookupView::Miss(*reason),
        }
    }
}

// ---------------------------------------------------------------------------
// Route stack fingerprints
// ---------------------------------------------------------------------------

/// A member names its component, contract and build, within their lengths.
pub open spec fn member_complete(member: RouteStackMemberView) -> bool {
    within(member.component, 1_024) && within(member.contract, 1_024) && within(
        member.build,
        4_096,
    )
}

/// A route stack is named, has members, and every member is complete.
pub open spec fn stack_complete(stack: RouteStackFingerprintView) -> bool {
    &&& within(stack.route, 1_024)
    &&& stack.members.len() > 0
    &&& forall|i: int| 0 <= i < stack.members.len() ==> member_complete(#[trigger] stack.members[i])
}

/// No component takes part twice.
pub open spec fn components_distinct(members: Seq<RouteStackMemberView>) -> bool {
    forall|i: int, j: int|
        0 <= i < j < members.len() ==> (#[trigger] members[i]).component != (
        #[trigger] members[j]).component
}

/// The outcome of forming a route stack.
pub open spec fn formed_stack(stack: RouteStackFingerprintView) -> Result<
    RouteStackFingerprintView,
    Seq<char>,
> {
    if !stack_complete(stack) {
        Err("route stack fingerprint is incomplete"@)
    } else if !components_distinct(stack.members) {
        Err("route stack fingerprint components must be unique"@)
    } else {
        Ok(stack)
    }
}

/// The engine as a member of a route stack.
pub open spec fn engine_member(build: Seq<char>) -> RouteStackMemberView {
    RouteStackMemberView { component: "engine"@, contract: "ai_daily_context_v1"@, build }
}

/// A worker as a member of a route stack.
pub open spec fn worker_member(
    component: Seq<char>,
    contract: Seq<char>,
    build: Seq<char>,
) -> RouteStackMemberView {
    RouteStackMemberView { component, contract, build }
}

impl RouteStackMember {
    /// The engine as a member of a route stack.
    pub fn engine(build: &str) -> (member: Self)
        ensures
            member@ == engine_member(build@),
    {
        Self::worker("engine", "ai_daily_context_v1", build)
    }

    /// A worker as a member of a route stack.
    pub fn worker(component: &str, contract: &str, build: &str) -> (member: Self)
        ensures
            member@ == worker_member(component@, contract@, build@),
    {
        RouteStackMember {
            component: component.to_string(),
            contract: contract.to_string(),
            build: build.to_string(),
        }
    }
}

impl RouteStackFingerprint {
    /// The stack of the text route: the engine alone.
    pub fn text(engine_build: &str) -> (stack: Result<Self, String>)
        ensures
            stack_result_is(
                stack,
                (RouteStackFingerprintView {
                    route: "text_like"@,
                    members: seq![engine_member(engine_build@)],
                }),
            ),
    {
        let members: Vec<RouteStackMember> = vec![RouteStackMember::engine(engine_build)];
        assert(views(members@) =~= seq![engine_member(engine_build@)]);
        Self::from_members("text_like", members)
    }

    /// The stack of the office route: engine, office worker and, as a fallback,
    /// the Python worker.
    pub fn modern_office(
        engine_build: &str,
        office_contract: &str,
        office_build: &str,
        python_fallback: Option<(&str, &str)>,
    ) -> (stack: Result<Self, String>)
        ensures
            stack_result_is(
                stack,
                (RouteStackFingerprintView {
                    route: "modern_office"@,
                    members: match python_fallback {
                        None => seq![
                            engine_member(engine_build@),
                            worker_member("office_worker"@, office_contract@, office_build@),
                        ],
                        Some((contract, build)) => seq![
                            engine_member(engine_build@),
                            worker_member("office_worker"@, office_contract@, office_build@),
                            worker_member("python_worker"@, contract@, build@),
                        ],
                    },
                }),
            ),
    {
        let mut members: Vec<RouteStackMember> = vec![
            RouteStackMember::engine(engine_build),
            RouteStackMember::worker("office_worker", office_contract, office_build),
        ];
        assert(views(members@) =~= seq![
            engine_member(engine_build@),
            worker_member("office_worker"@, office_contract@, office_build@),
        ]);
        if let Some((contract, build)) = python_fallback {
            members.push(RouteStackMember::worker("python_worker", contract, build));
            assert(views(members@) =~= seq![
                engine_member(engine_build@),
                worker_member("office_worker"@, office_contract@, office_build@),
                worker_member("python_worker"@, contract@, build@),
            ]);
        }
        Self::from_members("modern_office", members)
    }

    /// The stack of the document route: engine and Python worker.
    pub fn python_document(
        engine_build: &str,
        python_contract: &str,
        python_build: &str,
    ) -> (stack: Result<Self, String>)
        ensures
            stack_result_is(
                stack,
                (RouteStackFingerprintView {
                    route: "python_document"@,
                    members: seq![
                        engine_member(engine_build@),
                        worker_member("python_worker"@, python_contract@, python_build@),
                    ],
                }),
            ),
    {
        let members: Vec<RouteStackMember> = vec![
            RouteStackMember::engine(engine_build),
            RouteStackMember::worker("python_worker", python_contract, python_build),
        ];
        assert(views(members@) =~= seq![
            engine_member(engine_build@),
            worker_member("python_worker"@, python_contract@, python_build@),
        ]);
        Self::from_members("python_document", members)
    }

    /// Forms a route stack from its members.
    pub fn from_members(route: &str, members: Vec<RouteStackMember>) -> (stack: Result<
        Self,
        String,
    >)
        ensures
            stack_result_is(
                stack,
                (RouteStackFingerprintView { route: route@, members: views(members@) }),
            ),
    {
        let ghost wanted = RouteStackFingerprintView { route: route@, members: views(members@) };
        if !is_within(route, 1_024) || members.len() == 0 {
            return Err("route stack fingerprint is incomplete".to_string());
        }
        let mut i: usize = 0;
        while i < members.len()
            invariant
                i <= members.len(),
                wanted.members == views(members@),
                forall|k: int| 0 <= k < i ==> member_complete(#[trigger] wanted.members[k]),
            decreases members.len() - i,
        {
            let member: &RouteStackMember = &members[i];
            assert(wanted.members[i as int] == member@);
            if !is_within(member.component.as_str(), 1_024) || !is_within(
                member.contract.as_str(),
                1_024,
            ) || !is_within(member.build.as_str(), 4_096) {
                assert(!member_complete(wanted.members[i as int]));
                return Err("route stack fingerprint is incomplete".to_string());
            }
            i = i + 1;
        }
        let mut j: usize = 0;
        while j < members.len()
            invariant
                j <= members.len(),
                stack_complete(wanted),
                wanted == (RouteStackFingerprintView { route: route@, members: views(members@) }),
                forall|a: int, b: int|
                    0 <= a < b < j ==> (#[trigger] wanted.members[a]).component != (
                    #[trigger] wanted.members[b]).component,
            decreases members.len() - j,
        {
            let mut k: usize = 0;
            while k < j
                invariant
                    k <= j < members.len(),
                    stack_complete(wanted),
                    wanted == (RouteStackFingerprintView {
                        route: route@,
                        members: views(members@),
                    }),
                    forall|a: int|
                        0 <= a < k ==> (#[trigger] wanted.members[a]).component
                            != wanted.members[j as int].component,
                decreases j - k,
            {
                assert(wanted.members[k as int] == members@[k as int]@);
                assert(wanted.members[j as int] == members@[j as int]@);
                if text_eq(members[k].component.as_str(), members[j].component.as_str()) {
                    assert(!components_distinct(wanted.members));
                    return Err("route stack fingerprint components must be unique".to_string());
                }
                k = k + 1;
            }
            j = j + 1;
        }
        Ok(RouteStackFingerprint { route: route.to_string(), members })
    }
}

/// `result` is the outcome of forming `stack`.
pub open spec fn stack_result_is(
    result: Result<RouteStackFingerprint, String>,
    stack: RouteStackFingerprintView,
) -> bool {
    match result {
        Ok(formed) => formed_stack(stack) == Ok::<RouteStackFingerprintView, Seq<char>>(formed@),
        Err(message) => formed_stack(stack) == Err::<RouteStackFingerprintView, Seq<char>>(
            message@,
        ),
    }
}

impl RouteStackFingerprints {
    /// The stack that a route runs on.
    pub fn for_route(&self, route: ParserRoute) -> (stack: &RouteStackFingerprint)
        ensures
            stack@ == self@.of(route),
    {
        match route {
            ParserRoute::LightText => &self.text_like,
            ParserRoute::RustOffice => &self.modern_office,
            ParserRoute::RustXlsx => &self.modern_office,
            _ => &self.python_document,
        }
    }
}

impl RouteStackFingerprintsView {
    /// The stack that a route runs on.
    pub open spec fn of(self, route: ParserRoute) -> RouteStackFingerprintView {
        match route {
            ParserRoute::LightText => self.text_like,
            ParserRoute::RustOffice => self.modern_office,
            ParserRoute::RustXlsx => self.modern_office,
            ParserRoute::Pdf => self.python_document,
            ParserRoute::PythonOffice => self.python_document,
            ParserRoute::PythonSharepointText => self.python_document,
        }
    }
}


// ---------------------------------------------------------------------------
// Profile fingerprints
// ---------------------------------------------------------------------------

/// The canonical JSON of a route stack member.
pub open spec fn member_json(member: RouteStackMemberView) -> Seq<char> {
    "{\"component\":"@ + json_text(member.component) + ",\"contract\":"@ + json_text(
        member.contract,
    ) + ",\"build\":"@ + json_text(member.build) + "}"@
}

/// The canonical JSON of the first `count` members, separated by commas.
pub open spec fn members_json(members: Seq<RouteStackMemberView>, count: nat) -> Seq<char>
    decreases count,
{
    if count == 0 {
        Seq::empty()
    } else if count == 1 {
        member_json(members[0])
    } else {
        members_json(members, (count - 1) as nat) + ","@ + member_json(members[count - 1])
    }
}

/// The canonical JSON of a route stack.
pub open spec fn stack_json(stack: RouteStackFingerprintView) -> Seq<char> {
    "{\"route\":"@ + json_text(stack.route) + ",\"members\":["@ + members_json(
        stack.members,
        stack.members.len(),
    ) + "]}"@
}

/// The canonical JSON of one extension timeout.
pub open spec fn timeout_json(entry: ExtensionTimeoutView) -> Seq<char> {
    json_text(entry.extension) + ":"@ + decimal(entry.timeout_ms as nat)
}

/// The canonical JSON of the first `count` extension timeouts.
pub open spec fn timeouts_json(entries: Seq<ExtensionTimeoutView>, count: nat) -> Seq<char>
    decreases count,
{
    if count == 0 {
        Seq::empty()
    } else if count == 1 {
        timeout_json(entries[0])
    } else {
        timeouts_json(entries, (count - 1) as nat) + ","@ + timeout_json(entries[count - 1])
    }
}

/// The canonical JSON of the first `count` texts.
pub open spec fn texts_json(texts: Seq<Seq<char>>, count: nat) -> Seq<char>
    decreases count,
{
    if count == 0 {
        Seq::empty()
    } else if count == 1 {
        json_text(texts[0])
    } else {
        texts_json(texts, (count - 1) as nat) + ","@ + json_text(texts[count - 1])
    }
}

/// The canonical JSON of the settings that shape parsed content.
pub open spec fn parse_json(parse: ParseProfileView) -> Seq<char> {
    "{\"text\":{\"max_chars\":"@ + decimal(parse.text.max_chars as nat)
        + "},\"pdf\":{\"max_pages\":"@ + decimal(parse.pdf.max_pages as nat)
        + "},\"office\":{\"primary_backend\":"@ + json_text(parse.office.primary_backend)
        + ",\"fallback_after_timeout\":"@ + json_bool(parse.office.fallback_after_timeout)
        + ",\"fallback_order\":["@ + texts_json(
        parse.office.fallback_order,
        parse.office.fallback_order.len(),
    ) + "]}}"@
}

/// The canonical JSON that a parse profile hash is taken of: the protocol, the
/// route stack and every setting that shapes parsed content.
pub open spec fn parse_fingerprint_json(
    stack: RouteStackFingerprintView,
    profile: NormalizedScannerProfileV1View,
) -> Seq<char> {
    "{\"protocol_version\":1,\"route_stack\":"@ + stack_json(stack)
        + ",\"parser_profile_version\":"@ + json_text(profile.parser_profile_version)
        + ",\"max_file_size_bytes\":"@ + decimal(profile.execution.max_file_size_bytes as nat)
        + ",\"default_timeout_ms\":"@ + decimal(profile.execution.file_timeout_ms as nat)
        + ",\"timeout_by_extension_ms\":{"@ + timeouts_json(
        profile.execution.file_timeout_by_extension_ms,
        profile.execution.file_timeout_by_extension_ms.len(),
    ) + "},\"parse\":"@ + parse_json(profile.parse) + "}"@
}

/// `parse-profile-v1` and a zero byte.
pub open spec fn parse_profile_domain() -> Seq<u8> {
    seq![
        112u8, 97u8, 114u8, 115u8, 101u8, 45u8, 112u8, 114u8, 111u8, 102u8, 105u8, 108u8, 101u8,
        45u8, 118u8, 49u8, 0u8,
    ]
}

/// The parse profile hash of a route stack and a profile.
pub open spec fn parse_profile_digest(
    stack: RouteStackFingerprintView,
    profile: NormalizedScannerProfileV1View,
) -> Seq<char> {
    sha256_text(parse_profile_domain() + encode_utf8(parse_fingerprint_json(stack, profile)))
}

fn write_member(writer: &mut JsonWriter, member: &RouteStackMember)
    ensures
        final(writer)@ == old(writer)@ + member_json(member@),
{
    let ghost before = writer@;
    writer.raw("{\"component\":");
    writer.text(member.component.as_str());
    writer.raw(",\"contract\":");
    writer.text(member.contract.as_str());
    writer.raw(",\"build\":");
    writer.text(member.build.as_str());
    writer.raw("}");
    assert(writer@ =~= before + member_json(member@));
}

fn write_stack(writer: &mut JsonWriter, stack: &RouteStackFingerprint)
    ensures
        final(writer)@ == old(writer)@ + stack_json(stack@),
{
    let ghost before = writer@;
    let ghost members = stack@.members;
    writer.raw("{\"route\":");
    writer.text(stack.route.as_str());
    writer.raw(",\"members\":[");
    let ghost open = writer@;
    let mut i: usize = 0;
    while i < stack.members.len()
        invariant
            i <= stack.members.len(),
            members == views(stack.members@),
            writer@ == open + members_json(members, i as nat),
        decreases stack.members.len() - i,
    {
        assert(members[i as int] == stack.members@[i as int]@);
        if i > 0 {
            writer.raw(",");
        }
        write_member(writer, &stack.members[i]);
        assert(writer@ =~= open + members_json(members, (i + 1) as nat));
        i = i + 1;
    }
    writer.raw("]}");
    assert(writer@ =~= before + stack_json(stack@));
}

fn write_timeouts(writer: &mut JsonWriter, entries: &Vec<ExtensionTimeout>)
    ensures
        final(writer)@ == old(writer)@ + timeouts_json(views(entries@), entries@.len()),
{
    let ghost open = writer@;
    let ghost listed = views(entries@);
    let mut i: usize = 0;
    while i < entries.len()
        invariant
            i <= entries.len(),
            listed == views(entries@),
            writer@ == open + timeouts_json(listed, i as nat),
        decreases entries.len() - i,
    {
        assert(listed[i as int] == entries@[i as int]@);
        if i > 0 {
            writer.raw(",");
        }
        writer.text(entries[i].extension.as_str());
        writer.raw(":");
        writer.number(entries[i].timeout_ms);
        assert(writer@ =~= open + timeouts_json(listed, (i + 1) as nat));
        i = i + 1;
    }
}

fn write_texts(writer: &mut JsonWriter, texts: &Vec<String>)
    ensures
        final(writer)@ == old(writer)@ + texts_json(views(texts@), texts@.len()),
{
    let ghost open = writer@;
    let ghost listed = views(texts@);
    let mut i: usize = 0;
    while i < texts.len()
        invariant
            i <= texts.len(),
            listed == views(texts@),
            writer@ == open + texts_json(listed, i as nat),
        decreases texts.len() - i,
    {
        assert(listed[i as int] == texts@[i as int]@);
        if i > 0 {
            writer.raw(",");
        }
        writer.text(texts[i].as_str());
        assert(writer@ =~= open + texts_json(listed, (i + 1) as nat));
        i = i + 1;
    }
}

pub(crate) fn write_parse(writer: &mut JsonWriter, parse: &ParseProfile)
    ensures
        final(writer)@ == old(writer)@ + parse_json(parse@),
{
    let ghost before = writer@;
    writer.raw("{\"text\":{\"max_chars\":");
    writer.number(parse.text.max_chars);
    writer.raw("},\"pdf\":{\"max_pages\":");
    writer.number(parse.pdf.max_pages);
    writer.raw("},\"office\":{\"primary_backend\":");
    writer.text(parse.office.primary_backend.as_str());
    writer.raw(",\"fallback_after_timeout\":");
    writer.boolean(parse.office.fallback_after_timeout);
    writer.raw(",\"fallback_order\":[");
    write_texts(writer, &parse.office.fallback_order);
    writer.raw("]}}");
    assert(writer@ =~= before + parse_json(parse@));
}

/// Fingerprints a parse profile. `accepted` is the verdict of the wire contract
/// on the profile; only protocol version 1 is known. Which profiles have the same
/// fingerprint is said in [`crate::store::fingerprint`].
pub fn parse_profile_hash(
    protocol_version: u64,
    route_stack: &RouteStackFingerprint,
    profile: &NormalizedScannerProfileV1,
    accepted: Result<(), String>,
) -> (hash: Result<String, String>)
    ensures
        match hash {
            Ok(text) => protocol_version == 1 && accepted is Ok && text@ == parse_profile_digest(
                route_stack@,
                profile@,
            ) && is_sha256_text(text@),
            Err(message) => if protocol_version != 1 {
                message@ == "parse profile hash protocol must be v1"@
            } else {
                accepted == Err::<(), String>(message)
            },
        },
        hash is Ok <==> protocol_version == 1 && accepted is Ok,
{
    if protocol_version != 1 {
        return Err("parse profile hash protocol must be v1".to_string());
    }
    if let Err(message) = accepted {
        return Err(message);
    }
    let mut writer = JsonWriter::new();
    writer.raw("{\"protocol_version\":1,\"route_stack\":");
    write_stack(&mut writer, route_stack);
    writer.raw(",\"parser_profile_version\":");
    writer.text(profile.parser_profile_version.as_str());
    writer.raw(",\"max_file_size_bytes\":");
    writer.number(profile.execution.max_file_size_bytes);
    writer.raw(",\"default_timeout_ms\":");
    writer.number(profile.execution.file_timeout_ms);
    writer.raw(",\"timeout_by_extension_ms\":{");
    write_timeouts(&mut writer, &profile.execution.file_timeout_by_extension_ms);
    writer.raw("},\"parse\":");
    write_parse(&mut writer, &profile.parse);
    writer.raw("}");
    assert(writer@ =~= parse_fingerprint_json(route_stack@, profile@));
    let json: String = writer.finish();
    let domain: Vec<u8> = vec![
        112u8, 97u8, 114u8, 115u8, 101u8, 45u8, 112u8, 114u8, 111u8, 102u8, 105u8, 108u8, 101u8,
        45u8, 118u8, 49u8, 0u8,
    ];
    assert(domain@ =~= parse_profile_domain());
    Ok(domain_hash(domain.as_slice(), json.as_str().as_bytes()))
}

/// The canonical JSON that a classifier profile hash is taken of: the policy, the
/// page limit and the timeout, and no quota or session setting.
pub open spec fn classifier_fingerprint_json(profile: NormalizedScannerProfileV2View) -> Seq<char> {
    "{\"policy_version\":"@ + json_text(profile.classifier_policy_version) + ",\"pdf_max_pages\":"@
        + decimal(profile.parse.pdf.max_pages as nat) + ",\"pdf_classification_timeout_ms\":"@
        + decimal(profile.pdf_classification_timeout_ms as nat) + "}"@
}

/// `classifier-profile-v1` and a zero byte.
pub open spec fn classifier_profile_domain() -> Seq<u8> {
    seq![
        99u8, 108u8, 97u8, 115u8, 115u8, 105u8, 102u8, 105u8, 101u8, 114u8, 45u8, 112u8, 114u8,
        111u8, 102u8, 105u8, 108u8, 101u8, 45u8, 118u8, 49u8, 0u8,
    ]
}

/// The classifier profile hash of a profile.
pub open spec fn classifier_profile_digest(profile: NormalizedScannerProfileV2View) -> Seq<char> {
    sha256_text(classifier_profile_domain() + encode_utf8(classifier_fingerprint_json(profile)))
}

/// Fingerprints the settings of the classifier. `accepted` is the verdict of the
/// wire contract on the profile. Which profiles have the same fingerprint is said in
/// [`crate::store::fingerprint`].
pub fn classifier_profile_hash(
    profile: &NormalizedScannerProfileV2,
    accepted: Result<(), String>,
) -> (hash: Result<String, String>)
    ensures
        match hash {
            Ok(text) => accepted is Ok && text@ == classifier_profile_digest(profile@)
                && is_sha256_text(text@),
            Err(message) => accepted == Err::<(), String>(message),
        },
{
    if let Err(message) = accepted {
        return Err(message);
    }
    let mut writer = JsonWriter::new();
    writer.raw("{\"policy_version\":");
    writer.text(profile.classifier_policy_version.as_str());
    writer.raw(",\"pdf_max_pages\":");
    writer.number(profile.parse.pdf.max_pages);
    writer.raw(",\"pdf_classification_timeout_ms\":");
    writer.number(profile.pdf_classification_timeout_ms);
    writer.raw("}");
    assert(writer@ =~= classifier_fingerprint_json(profile@));
    let json: String = writer.finish();
    let domain: Vec<u8> = vec![
        99u8, 108u8, 97u8, 115u8, 115u8, 105u8, 102u8, 105u8, 101u8, 114u8, 45u8, 112u8, 114u8,
        111u8, 102u8, 105u8, 108u8, 101u8, 45u8, 118u8, 49u8, 0u8,
    ];
    assert(domain@ =~= classifier_profile_domain());
    Ok(domain_hash(domain.as_slice(), json.as_str().as_bytes()))
}

/// The number of workers does not change the parse profile hash.
pub proof fn law_worker_count_is_not_fingerprinted(
    stack: RouteStackFingerprintView,
    profile: NormalizedScannerProfileV1View,
    max_workers: u64,
)
    ensures
        parse_profile_digest(
            stack,
            NormalizedScannerProfileV1View {
                execution: crate::profile::ExecutionProfileView {
                    max_workers,
                    ..profile.execution
                },
                ..profile
            },
        ) == parse_profile_digest(stack, profile),
{
}

/// Quotas, session settings and the deadline do not change the classifier profile
/// hash.
pub proof fn law_quotas_are_not_fingerprinted(
    profile: NormalizedScannerProfileV2View,
    other: NormalizedScannerProfileV2View,
)
    requires
        other.classifier_policy_version == profile.classifier_policy_version,
        other.parse.pdf.max_pages == profile.parse.pdf.max_pages,
        other.pdf_classification_timeout_ms == profile.pdf_classification_timeout_ms,
    ensures
        classifier_profile_digest(other) == classifier_profile_digest(profile),
{
}


// ---------------------------------------------------------------------------
// Parse cache
// ---------------------------------------------------------------------------

/// `kind` is the wire text of a guard kind that names an identity.
pub open spec fn is_cache_guard_kind(kind: Seq<char>) -> bool {
    kind == "windows_file_id_change_time_v1"@ || kind == "unix_inode_ctime_v1"@ || kind
        == "content_sha256_v1"@
}

fn cache_guard_kind(kind: &str) -> (ok: bool)
    ensures
        ok == is_cache_guard_kind(kind@),
{
    text_eq(kind, "windows_file_id_change_time_v1") || text_eq(kind, "unix_inode_ctime_v1")
        || text_eq(kind, "content_sha256_v1")
}

impl CacheWriteRecordView {
    /// The record may be cached: its key is complete and its content has the
    /// stated hash.
    pub open spec fn valid(self) -> bool {
        &&& within(self.file_identity, 4_096)
        &&& source_version(self.source_version) is Ok
        &&& is_cache_guard_kind(self.source_guard_kind)
        &&& is_sha256_text(self.source_guard_sha256)
        &&& is_sha256_text(self.parse_profile_hash)
        &&& self.content_sha256 == content_sha256(self.content)
        &&& within(self.parser_backend, 1_024)
        &&& within(self.worker_lane, 1_024)
        &&& within(self.worker_contract_version, 1_024)
        &&& within(self.worker_version, 1_024)
        &&& within(self.worker_build, 4_096)
    }

    /// The cached parse of the record.
    pub open spec fn entry(self) -> CacheEntryView {
        CacheEntryView {
            content: self.content,
            content_sha256: self.content_sha256,
            parser_backend: self.parser_backend,
            worker_lane: self.worker_lane,
            truncated: self.truncated,
            worker_contract_version: self.worker_contract_version,
            worker_version: self.worker_version,
            worker_build: self.worker_build,
        }
    }

    /// Payload bytes of the record: its texts, and eight bytes for the flag.
    pub open spec fn size_bytes(self) -> nat {
        utf8_len(self.file_identity) + utf8_len(self.source_version) + utf8_len(
            self.source_guard_kind,
        ) + utf8_len(self.source_guard_sha256) + utf8_len(self.parse_profile_hash) + utf8_len(
            self.content,
        ) + utf8_len(self.content_sha256) + utf8_len(self.parser_backend) + utf8_len(
            self.worker_lane,
        ) + utf8_len(self.worker_contract_version) + utf8_len(self.worker_version) + utf8_len(
            self.worker_build,
        ) + 8
    }
}

impl CacheWriteRecord {
    /// Checks the record before it is cached.
    pub fn validate(&self) -> (verdict: Result<(), String>)
        ensures
            verdict is Ok <==> self@.valid(),
            verdict matches Err(message) ==> message@ == "invalid successful cache record"@,
    {
        let actual: String = content_hash(self.content.as_str());
        if !is_within(self.file_identity.as_str(), 4_096) || self.source_version.as_str().is_empty()
            || parse_source_version(self.source_version.as_str()).is_err() || !cache_guard_kind(
            self.source_guard_kind.as_str(),
        ) || !is_sha256(self.source_guard_sha256.as_str()) || !is_sha256(
            self.parse_profile_hash.as_str(),
        ) || !is_sha256(self.content_sha256.as_str()) || !text_eq(
            actual.as_str(),
            self.content_sha256.as_str(),
        ) || !is_within(self.parser_backend.as_str(), 1_024) || !is_within(
            self.worker_lane.as_str(),
            1_024,
        ) || !is_within(self.worker_contract_version.as_str(), 1_024) || !is_within(
            self.worker_version.as_str(),
            1_024,
        ) || !is_within(self.worker_build.as_str(), 4_096) {
            proof {
                if self.source_version@.len() == 0 {
                    lemma_empty_version();
                    assert(self.source_version@ =~= Seq::<char>::empty());
                }
            }
            return Err("invalid successful cache record".to_string());
        }
        Ok(())
    }

    /// The cached parse of the record.
    pub fn entry(&self) -> (entry: CacheEntry)
        ensures
            entry@ == self@.entry(),
    {
        CacheEntry {
            content: self.content.clone(),
            content_sha256: self.content_sha256.clone(),
            parser_backend: self.parser_backend.clone(),
            worker_lane: self.worker_lane.clone(),
            truncated: self.truncated,
            worker_contract_version: self.worker_contract_version.clone(),
            worker_version: self.worker_version.clone(),
            worker_build: self.worker_build.clone(),
        }
    }
}

proof fn lemma_empty_version()
    ensures
        source_version(Seq::<char>::empty()) is Err,
{
    reveal_strlit("mtime_ns=");
}

/// What recomputing a parse of the given backend costs, relative to others.
pub open spec fn backend_rank(backend: Seq<char>) -> Option<i64> {
    if backend == "light_text_v1"@ || backend == "light_text_v2"@ {
        Some(1)
    } else if backend == "rust_xlsx_bounded_v1"@ || backend == "rust_xlsx_bounded_v2"@ {
        Some(2)
    } else if backend == "rust_office_oxide_v1"@ || backend == "rust_office_oxide_v2"@ {
        Some(2)
    } else if backend == "python_sharepoint_text_v1"@ || backend == "python_sharepoint_text_v2"@ {
        Some(3)
    } else if backend == "python_office_v1"@ || backend == "python_office_v2"@ {
        Some(4)
    } else if backend == "pdf_text_v1"@ || backend == "python_pdf_text_v2"@ {
        Some(10)
    } else {
        None
    }
}

/// What recomputing a parse of the given backend costs; a backend without a rank
/// is not known to the retention policy.
pub fn recompute_rank(parser_backend: &str) -> (rank: Option<i64>)
    ensures
        rank == backend_rank(parser_backend@),
{
    if text_eq(parser_backend, "light_text_v1") || text_eq(parser_backend, "light_text_v2") {
        Some(1)
    } else if text_eq(parser_backend, "rust_xlsx_bounded_v1") || text_eq(
        parser_backend,
        "rust_xlsx_bounded_v2",
    ) {
        Some(2)
    } else if text_eq(parser_backend, "rust_office_oxide_v1") || text_eq(
        parser_backend,
        "rust_office_oxide_v2",
    ) {
        Some(2)
    } else if text_eq(parser_backend, "python_sharepoint_text_v1") || text_eq(
        parser_backend,
        "python_sharepoint_text_v2",
    ) {
        Some(3)
    } else if text_eq(parser_backend, "python_office_v1") || text_eq(
        parser_backend,
        "python_office_v2",
    ) {
        Some(4)
    } else if text_eq(parser_backend, "pdf_text_v1") || text_eq(
        parser_backend,
        "python_pdf_text_v2",
    ) {
        Some(10)
    } else {
        None
    }
}

/// The sum of two sizes, or the largest size when it does not fit.
pub open spec fn size_sum(left: int, right: int) -> int {
    if left + right > i64::MAX {
        i64::MAX as int
    } else {
        left + right
    }
}

fn add_size(total: i64, text: &str) -> (sum: i64)
    requires
        total >= 0,
    ensures
        sum == size_sum(total as int, utf8_len(text@) as int),
{
    let len: usize = byte_len(text);
    if len as u64 > i64::MAX as u64 {
        return i64::MAX;
    }
    let part: i64 = len as i64;
    if part > i64::MAX - total {
        i64::MAX
    } else {
        total + part
    }
}

/// Payload bytes of a parse that is to be cached, capped at the largest size.
pub fn parse_entry_size_bytes(record: &CacheWriteRecord) -> (size: i64)
    ensures
        size == size_sum(0, record@.size_bytes() as int),
{
    let mut total: i64 = 8;
    total = add_size(total, record.file_identity.as_str());
    total = add_size(total, record.source_version.as_str());
    total = add_size(total, record.source_guard_kind.as_str());
    total = add_size(total, record.source_guard_sha256.as_str());
    total = add_size(total, record.parse_profile_hash.as_str());
    total = add_size(total, record.content.as_str());
    total = add_size(total, record.content_sha256.as_str());
    total = add_size(total, record.parser_backend.as_str());
    total = add_size(total, record.worker_lane.as_str());
    total = add_size(total, record.worker_contract_version.as_str());
    total = add_size(total, record.worker_version.as_str());
    total = add_size(total, record.worker_build.as_str());
    total
}

/// Why a parse is not cached.
pub open spec fn parse_write_fault(record: CacheWriteRecordView) -> Option<Seq<char>> {
    if backend_rank(record.parser_backend) is None {
        Some(
            "parse cache backend '"@ + record.parser_backend
                + "' has no retention recompute_rank"@,
        )
    } else if record.size_bytes() > PARSE_CACHE_MAX_BYTES {
        Some("parse cache entry exceeds the 1073741824 byte hard cap"@)
    } else {
        None
    }
}

/// Admits a parse to the cache and gives its payload size. A backend that the
/// retention policy does not know and an entry above the cap are turned away.
pub fn admit_parse_write(record: &CacheWriteRecord) -> (size: Result<i64, String>)
    ensures
        match size {
            Ok(bytes) => parse_write_fault(record@) is None && bytes == record@.size_bytes(),
            Err(message) => parse_write_fault(record@) == Some(message@),
        },
{
    if recompute_rank(record.parser_backend.as_str()).is_none() {
        let mut message: String = "parse cache backend '".to_string();
        message.append(record.parser_backend.as_str());
        message.append("' has no retention recompute_rank");
        return Err(message);
    }
    let size: i64 = parse_entry_size_bytes(record);
    if size > PARSE_CACHE_MAX_BYTES {
        return Err("parse cache entry exceeds the 1073741824 byte hard cap".to_string());
    }
    Ok(size)
}

/// A row has the identity, version and guard of a key.
pub open spec fn same_source(
    row: ParseCacheRowView,
    identity: Seq<char>,
    version: Seq<char>,
    kind: Seq<char>,
    guard: Seq<char>,
) -> bool {
    row.file_identity == identity && row.source_version == version && row.source_guard_kind == kind
        && row.source_guard_sha256 == guard
}

/// A row has all parts of a key.
pub open spec fn same_key(
    row: ParseCacheRowView,
    identity: Seq<char>,
    version: Seq<char>,
    kind: Seq<char>,
    guard: Seq<char>,
    profile_hash: Seq<char>,
) -> bool {
    same_source(row, identity, version, kind, guard) && row.parse_profile_hash == profile_hash
}

/// The first row with the given key, counted from `from`.
pub open spec fn row_with_key(
    rows: Seq<ParseCacheRowView>,
    from: int,
    identity: Seq<char>,
    version: Seq<char>,
    kind: Seq<char>,
    guard: Seq<char>,
    profile_hash: Seq<char>,
) -> Option<int>
    decreases rows.len() - from,
{
    if from < 0 || from >= rows.len() {
        None
    } else if same_key(rows[from], identity, version, kind, guard, profile_hash) {
        Some(from)
    } else {
        row_with_key(rows, from + 1, identity, version, kind, guard, profile_hash)
    }
}

/// What the rows of the parse cache say about a key. An entry whose content does
/// not have the stated hash is never returned; without an entry the reason tells
/// whether the parser, the source or the whole file is new to the cache.
pub open spec fn parse_lookup(
    rows: Seq<ParseCacheRowView>,
    identity: Seq<char>,
    version: Seq<char>,
    kind: Seq<char>,
    guard: Seq<char>,
    profile_hash: Seq<char>,
) -> CacheLookupView {
    match row_with_key(rows, 0, identity, version, kind, guard, profile_hash) {
        Some(at) => if content_sha256(rows[at].entry.content) == rows[at].entry.content_sha256 {
            CacheLookupView::Fresh(rows[at].entry)
        } else {
            CacheLookupView::Miss(CacheMissReason::ErrorCache)
        },
        None => if exists|i: int|
            0 <= i < rows.len() && same_source(
                #[trigger] rows[i],
                identity,
                version,
                kind,
                guard,
            ) {
            CacheLookupView::Miss(CacheMissReason::ParserIdentityChanged)
        } else if exists|i: int|
            0 <= i < rows.len() && (#[trigger] rows[i]).file_identity == identity {
            CacheLookupView::Miss(CacheMissReason::SourceVersionChanged)
        } else {
            CacheLookupView::Miss(CacheMissReason::NewFile)
        },
    }
}

/// Looks a key up in the rows of the parse cache.
pub fn lookup_cache(
    rows: &Vec<ParseCacheRow>,
    file_identity: &str,
    source_version: &str,
    source_guard_kind: &str,
    source_guard_sha256: &str,
    parse_profile_hash: &str,
) -> (lookup: CacheLookup)
    ensures
        lookup@ == parse_lookup(
            views(rows@),
            file_identity@,
            source_version@,
            source_guard_kind@,
            source_guard_sha256@,
            parse_profile_hash@,
        ),
{
    let ghost all = views(rows@);
    let mut any_source: bool = false;
    let mut any_identity: bool = false;
    let mut i: usize = 0;
    while i < rows.len()
        invariant
            i <= rows.len(),
            all == views(rows@),
            row_with_key(
                all,
                0,
                file_identity@,
                source_version@,
                source_guard_kind@,
                source_guard_sha256@,
                parse_profile_hash@,
            ) == row_with_key(
                all,
                i as int,
                file_identity@,
                source_version@,
                source_guard_kind@,
                source_guard_sha256@,
                parse_profile_hash@,
            ),
            any_source <==> exists|k: int|
                0 <= k < i && same_source(
                    #[trigger] all[k],
                    file_identity@,
                    source_version@,
                    source_guard_kind@,
                    source_guard_sha256@,
                ),
            any_identity <==> exists|k: int|
                0 <= k < i && (#[trigger] all[k]).file_identity == file_identity@,
        decreases rows.len() - i,
    {
        let row: &ParseCacheRow = &rows[i];
        assert(all[i as int] == row@);
        if text_eq(row.file_identity.as_str(), file_identity) {
            any_identity = true;
            if text_eq(row.source_version.as_str(), source_version) && text_eq(
                row.source_guard_kind.as_str(),
                source_guard_kind,
            ) && text_eq(row.source_guard_sha256.as_str(), source_guard_sha256) {
                any_source = true;
                if text_eq(row.parse_profile_hash.as_str(), parse_profile_hash) {
                    let actual: String = content_hash(row.entry.content.as_str());
                    return if text_eq(actual.as_str(), row.entry.content_sha256.as_str()) {
                        CacheLookup::Fresh(row.entry.clone())
                    } else {
                        CacheLookup::Miss(CacheMissReason::ErrorCache)
                    };
                }
            }
        }
        i = i + 1;
    }
    if any_source {
        CacheLookup::Miss(CacheMissReason::ParserIdentityChanged)
    } else if any_identity {
        CacheLookup::Miss(CacheMissReason::SourceVersionChanged)
    } else {
        CacheLookup::Miss(CacheMissReason::NewFile)
    }
}

/// The row that caching `record` leaves behind. A row with the same key keeps its
/// generation.
pub open spec fn cached_row(
    record: CacheWriteRecordView,
    cached_at_ms: i64,
    bucket: Seq<char>,
    generation_rank: i64,
) -> ParseCacheRowView {
    ParseCacheRowView {
        file_identity: record.file_identity,
        source_version: record.source_version,
        source_guard_kind: record.source_guard_kind,
        source_guard_sha256: record.source_guard_sha256,
        parse_profile_hash: record.parse_profile_hash,
        entry: record.entry(),
        cached_at_ms,
        entry_size_bytes: record.size_bytes() as i64,
        generation_rank,
        last_accessed_bucket: bucket,
    }
}

/// The rows after caching `record`: its row replaces the one with the same key,
/// or is added.
pub open spec fn rows_after_write(
    rows: Seq<ParseCacheRowView>,
    record: CacheWriteRecordView,
    cached_at_ms: i64,
    bucket: Seq<char>,
) -> Seq<ParseCacheRowView> {
    match row_with_key(
        rows,
        0,
        record.file_identity,
        record.source_version,
        record.source_guard_kind,
        record.source_guard_sha256,
        record.parse_profile_hash,
    ) {
        Some(at) => rows.update(
            at,
            cached_row(record, cached_at_ms, bucket, rows[at].generation_rank),
        ),
        None => rows.push(cached_row(record, cached_at_ms, bucket, 1)),
    }
}

pub(crate) proof fn lemma_row_with_key(
    rows: Seq<ParseCacheRowView>,
    from: int,
    identity: Seq<char>,
    version: Seq<char>,
    kind: Seq<char>,
    guard: Seq<char>,
    profile_hash: Seq<char>,
)
    requires
        0 <= from,
    ensures
        match row_with_key(rows, from, identity, version, kind, guard, profile_hash) {
            Some(at) => from <= at < rows.len() && same_key(
                rows[at],
                identity,
                version,
                kind,
                guard,
                profile_hash,
            ) && forall|k: int|
                from <= k < at ==> !same_key(
                    #[trigger] rows[k],
                    identity,
                    version,
                    kind,
                    guard,
                    profile_hash,
                ),
            None => forall|k: int|
                from <= k < rows.len() ==> !same_key(
                    #[trigger] rows[k],
                    identity,
                    version,
                    kind,
                    guard,
                    profile_hash,
                ),
        },
    decreases rows.len() - from,
{
    if from < rows.len() && !same_key(rows[from], identity, version, kind, guard, profile_hash) {
        lemma_row_with_key(rows, from + 1, identity, version, kind, guard, profile_hash);
    }
}

/// A parse that was cached is found again under its key, whatever the cache held
/// before.
pub proof fn law_written_parse_is_found(
    rows: Seq<ParseCacheRowView>,
    record: CacheWriteRecordView,
    cached_at_ms: i64,
    bucket: Seq<char>,
)
    requires
        record.valid(),
    ensures
        parse_lookup(
            rows_after_write(rows, record, cached_at_ms, bucket),
            record.file_identity,
            record.source_version,
            record.source_guard_kind,
            record.source_guard_sha256,
            record.parse_profile_hash,
        ) == CacheLookupView::Fresh(record.entry()),
{
    let i = record.file_identity;
    let v = record.source_version;
    let k = record.source_guard_kind;
    let g = record.source_guard_sha256;
    let p = record.parse_profile_hash;
    let after = rows_after_write(rows, record, cached_at_ms, bucket);
    lemma_row_with_key(rows, 0, i, v, k, g, p);
    lemma_row_with_key(after, 0, i, v, k, g, p);
    match row_with_key(rows, 0, i, v, k, g, p) {
        Some(at) => {
            assert(same_key(after[at], i, v, k, g, p));
            assert forall|j: int| 0 <= j < at implies !same_key(#[trigger] after[j], i, v, k, g, p) by {
                assert(after[j] == rows[j]);
            }
        },
        None => {
            let at = rows.len() as int;
            assert(same_key(after[at], i, v, k, g, p));
            assert forall|j: int| 0 <= j < at implies !same_key(#[trigger] after[j], i, v, k, g, p) by {
                assert(after[j] == rows[j]);
            }
        },
    }
}

/// Whatever a lookup returns as fresh content has the hash that was stored with
/// it, and was stored under the very key that was asked for.
pub proof fn law_fresh_content_is_authentic(
    rows: Seq<ParseCacheRowView>,
    identity: Seq<char>,
    version: Seq<char>,
    kind: Seq<char>,
    guard: Seq<char>,
    profile_hash: Seq<char>,
    entry: CacheEntryView,
)
    requires
        parse_lookup(rows, identity, version, kind, guard, profile_hash) == CacheLookupView::Fresh(
            entry,
        ),
    ensures
        content_sha256(entry.content) == entry.content_sha256,
        exists|at: int|
            0 <= at < rows.len() && same_key(
                #[trigger] rows[at],
                identity,
                version,
                kind,
                guard,
                profile_hash,
            ) && rows[at].entry == entry,
{
    lemma_row_with_key(rows, 0, identity, version, kind, guard, profile_hash);
    let at = row_with_key(rows, 0, identity, version, kind, guard, profile_hash)->0;
    assert(same_key(rows[at], identity, version, kind, guard, profile_hash));
}

/// Caching one file does not change what the cache says about another file.
pub proof fn law_write_leaves_other_files_alone(
    rows: Seq<ParseCacheRowView>,
    record: CacheWriteRecordView,
    cached_at_ms: i64,
    bucket: Seq<char>,
    identity: Seq<char>,
    version: Seq<char>,
    kind: Seq<char>,
    guard: Seq<char>,
    profile_hash: Seq<char>,
)
    requires
        identity != record.file_identity,
    ensures
        parse_lookup(
            rows_after_write(rows, record, cached_at_ms, bucket),
            identity,
            version,
            kind,
            guard,
            profile_hash,
        ) == parse_lookup(rows, identity, version, kind, guard, profile_hash),
{
    let after = rows_after_write(rows, record, cached_at_ms, bucket);
    lemma_row_with_key(
        rows,
        0,
        record.file_identity,
        record.source_version,
        record.source_guard_kind,
        record.source_guard_sha256,
        record.parse_profile_hash,
    );
    lemma_row_with_key(rows, 0, identity, version, kind, guard, profile_hash);
    lemma_row_with_key(after, 0, identity, version, kind, guard, profile_hash);
    assert forall|j: int| 0 <= j < after.len() && (#[trigger] after[j]).file_identity == identity implies j
        < rows.len() && rows[j] == after[j] by {}
    assert forall|j: int| 0 <= j < rows.len() && (#[trigger] rows[j]).file_identity == identity implies rows[j]
        == after[j] by {}
    match row_with_key(rows, 0, identity, version, kind, guard, profile_hash) {
        Some(at) => {
            assert(rows[at] == after[at]);
            let found = row_with_key(after, 0, identity, version, kind, guard, profile_hash);
            assert(same_key(after[at], identity, version, kind, guard, profile_hash));
            assert(found is Some);
            let b = found->0;
            assert(same_key(rows[b], identity, version, kind, guard, profile_hash));
            assert(b == at);
        },
        None => {
            let found = row_with_key(after, 0, identity, version, kind, guard, profile_hash);
            if found is Some {
                assert(same_key(rows[found->0], identity, version, kind, guard, profile_hash));
            }
        },
    }
    if exists|i: int|
        0 <= i < rows.len() && same_source(#[trigger] rows[i], identity, version, kind, guard) {
        let i = choose|i: int|
            0 <= i < rows.len() && same_source(#[trigger] rows[i], identity, version, kind, guard);
        assert(same_source(after[i], identity, version, kind, guard));
    }
    if exists|i: int|
        0 <= i < after.len() && same_source(#[trigger] after[i], identity, version, kind, guard) {
        let i = choose|i: int|
            0 <= i < after.len() && same_source(#[trigger] after[i], identity, version, kind, guard);
        assert(same_source(rows[i], identity, version, kind, guard));
    }
    if exists|i: int| 0 <= i < rows.len() && (#[trigger] rows[i]).file_identity == identity {
        let i = choose|i: int| 0 <= i < rows.len() && (#[trigger] rows[i]).file_identity == identity;
        assert(after[i].file_identity == identity);
    }
    if exists|i: int| 0 <= i < after.len() && (#[trigger] after[i]).file_identity == identity {
        let i = choose|i: int|
            0 <= i < after.len() && (#[trigger] after[i]).file_identity == identity;
        assert(rows[i].file_identity == identity);
    }
}


// ---------------------------------------------------------------------------
// Eviction
// ---------------------------------------------------------------------------

/// What decides when a cached row is evicted.
#[derive(Debug, PartialEq, Eq)]
pub struct EvictionRow {
    pub row_id: i64,
    pub generation_rank: i64,
    /// What it costs to compute the entry again.
    pub cost_rank: i64,
    pub last_accessed_bucket: String,
    pub cached_at_ms: i64,
    /// Characters of the primary key.
    pub key_chars: u64,
    pub entry_size_bytes: i64,
}

/// What decides when a cached row is evicted.
#[verifier::ext_equal]
pub struct EvictionRowView {
    pub row_id: i64,
    pub generation_rank: i64,
    pub cost_rank: i64,
    pub last_accessed_bucket: Seq<char>,
    pub cached_at_ms: i64,
    pub key_chars: u64,
    pub entry_size_bytes: i64,
}

impl View for EvictionRow {
    type V = EvictionRowView;

    open spec fn view(&self) -> EvictionRowView {
        EvictionRowView {
            row_id: self.row_id,
            generation_rank: self.generation_rank,
            cost_rank: self.cost_rank,
            last_accessed_bucket: self.last_accessed_bucket@,
            cached_at_ms: self.cached_at_ms,
            key_chars: self.key_chars,
            entry_size_bytes: self.entry_size_bytes,
        }
    }
}

/// `left` is evicted before `right`: by generation, then by cost, then by the day
/// of the last access, then by the time of caching, then by the key length.
pub open spec fn evicted_before(left: EvictionRowView, right: EvictionRowView) -> bool {
    if left.generation_rank != right.generation_rank {
        left.generation_rank < right.generation_rank
    } else if left.cost_rank != right.cost_rank {
        left.cost_rank < right.cost_rank
    } else if left.last_accessed_bucket != right.last_accessed_bucket {
        text_less(left.last_accessed_bucket, right.last_accessed_bucket)
    } else if left.cached_at_ms != right.cached_at_ms {
        left.cached_at_ms < right.cached_at_ms
    } else {
        left.key_chars < right.key_chars
    }
}

fn goes_before(left: &EvictionRow, right: &EvictionRow) -> (before: bool)
    ensures
        before == evicted_before(left@, right@),
{
    if left.generation_rank != right.generation_rank {
        left.generation_rank < right.generation_rank
    } else if left.cost_rank != right.cost_rank {
        left.cost_rank < right.cost_rank
    } else if !text_eq(left.last_accessed_bucket.as_str(), right.last_accessed_bucket.as_str()) {
        is_before(left.last_accessed_bucket.as_str(), right.last_accessed_bucket.as_str())
    } else if left.cached_at_ms != right.cached_at_ms {
        left.cached_at_ms < right.cached_at_ms
    } else {
        left.key_chars < right.key_chars
    }
}

/// The position of the row that goes first: the earliest one that no other row
/// goes before.
pub open spec fn first_victim(rows: Seq<EvictionRowView>) -> int
    decreases rows.len(),
{
    if rows.len() <= 1 {
        0
    } else {
        let best = first_victim(rows.drop_last());
        if evicted_before(rows.last(), rows[best]) {
            rows.len() - 1
        } else {
            best
        }
    }
}

/// Bytes that the rows take together.
pub open spec fn total_size(rows: Seq<EvictionRowView>) -> int
    decreases rows.len(),
{
    if rows.len() == 0 {
        0
    } else {
        total_size(rows.drop_last()) + rows.last().entry_size_bytes
    }
}

/// The rows that stay when rows are evicted, first victim first, until the rest
/// fits under `cap`.
pub open spec fn survivors(rows: Seq<EvictionRowView>, cap: int) -> Seq<EvictionRowView>
    decreases rows.len(),
{
    if rows.len() == 0 || total_size(rows) <= cap {
        rows
    } else {
        let at = first_victim(rows);
        if 0 <= at < rows.len() {
            survivors(rows.remove(at), cap)
        } else {
            rows
        }
    }
}

/// The rows that are evicted until the rest fits under `cap`, in order.
pub open spec fn victims(rows: Seq<EvictionRowView>, cap: int) -> Seq<EvictionRowView>
    decreases rows.len(),
{
    if rows.len() == 0 || total_size(rows) <= cap {
        Seq::empty()
    } else {
        let at = first_victim(rows);
        if 0 <= at < rows.len() {
            seq![rows[at]] + victims(rows.remove(at), cap)
        } else {
            Seq::empty()
        }
    }
}

proof fn lemma_before_irreflexive(row: EvictionRowView)
    ensures
        !evicted_before(row, row),
{
}

proof fn lemma_before_transitive(a: EvictionRowView, b: EvictionRowView, c: EvictionRowView)
    requires
        !evicted_before(b, a),
        !evicted_before(c, b),
    ensures
        !evicted_before(c, a),
{
    let x = a.last_accessed_bucket;
    let y = b.last_accessed_bucket;
    let z = c.last_accessed_bucket;
    law_order_total(x, y);
    law_order_total(y, z);
    law_order_total(x, z);
    law_order_irreflexive(x);
    law_order_irreflexive(y);
    law_order_irreflexive(z);
    if text_less(x, y) && text_less(y, z) {
        law_order_transitive(x, y, z);
    }
    if text_less(z, x) && text_less(x, y) {
        law_order_transitive(z, x, y);
    }
    if text_less(y, z) && text_less(z, x) {
        law_order_transitive(y, z, x);
    }
}

proof fn lemma_first_victim(rows: Seq<EvictionRowView>)
    requires
        rows.len() > 0,
    ensures
        0 <= first_victim(rows) < rows.len(),
        forall|i: int|
            0 <= i < rows.len() ==> !evicted_before(#[trigger] rows[i], rows[first_victim(rows)]),
    decreases rows.len(),
{
    if rows.len() == 1 {
        lemma_before_irreflexive(rows[0]);
    } else {
        let front = rows.drop_last();
        lemma_first_victim(front);
        let best = first_victim(front);
        let at = first_victim(rows);
        lemma_before_irreflexive(rows.last());
        assert forall|i: int| 0 <= i < rows.len() implies !evicted_before(
            #[trigger] rows[i],
            rows[at],
        ) by {
            if i < rows.len() - 1 {
                assert(rows[i] == front[i]);
                assert(!evicted_before(front[i], front[best]));
                if evicted_before(rows.last(), rows[best]) {
                    lemma_before_asymmetric(rows.last(), rows[best]);
                    lemma_before_transitive(rows.last(), rows[best], rows[i]);
                }
            }
        }
    }
}

proof fn lemma_before_asymmetric(a: EvictionRowView, b: EvictionRowView)
    requires
        evicted_before(a, b),
    ensures
        !evicted_before(b, a),
{
    let x = a.last_accessed_bucket;
    let y = b.last_accessed_bucket;
    law_order_irreflexive(x);
    if text_less(x, y) && text_less(y, x) {
        law_order_transitive(x, y, x);
    }
}

proof fn lemma_total_remove(rows: Seq<EvictionRowView>, at: int)
    requires
        0 <= at < rows.len(),
    ensures
        total_size(rows.remove(at)) == total_size(rows) - rows[at].entry_size_bytes,
    decreases rows.len(),
{
    if at == rows.len() - 1 {
        assert(rows.remove(at) =~= rows.drop_last());
    } else {
        lemma_total_remove(rows.drop_last(), at);
        assert(rows.remove(at).drop_last() =~= rows.drop_last().remove(at));
        assert(rows.remove(at).last() == rows.last());
    }
}

proof fn lemma_total_bound(rows: Seq<EvictionRowView>)
    ensures
        -(rows.len() * 0x8000_0000_0000_0000) <= total_size(rows) <= rows.len()
            * 0x8000_0000_0000_0000,
    decreases rows.len(),
{
    if rows.len() > 0 {
        lemma_total_bound(rows.drop_last());
    }
}

fn find_first_victim(rows: &Vec<EvictionRow>) -> (at: usize)
    requires
        rows.len() > 0,
    ensures
        at == first_victim(views(rows@)),
        at < rows.len(),
{
    let ghost all = views(rows@);
    let mut best: usize = 0;
    let mut i: usize = 1;
    while i < rows.len()
        invariant
            1 <= i <= rows.len(),
            best < i,
            all == views(rows@),
            best == first_victim(all.take(i as int)),
        decreases rows.len() - i,
    {
        let ghost next = all.take(i + 1);
        assert(next.drop_last() =~= all.take(i as int));
        assert(next.last() == rows@[i as int]@);
        assert(next[best as int] == rows@[best as int]@);
        if goes_before(&rows[i], &rows[best]) {
            best = i;
        }
        i = i + 1;
    }
    assert(all.take(i as int) =~= all);
    best
}

/// Evicts rows, first victim first, until the rest fits under `cap`. Gives what
/// stays and what goes.
pub fn evict(rows: Vec<EvictionRow>, cap: i64) -> (parted: (Vec<EvictionRow>, Vec<EvictionRow>))
    ensures
        views(parted.0@) == survivors(views(rows@), cap as int),
        views(parted.1@) == victims(views(rows@), cap as int),
{
    let ghost all = views(rows@);
    let mut rest: Vec<EvictionRow> = rows;
    let mut gone: Vec<EvictionRow> = Vec::new();
    let mut total: i128 = 0;
    let mut i: usize = 0;
    while i < rest.len()
        invariant
            i <= rest.len(),
            all == views(rest@),
            total == total_size(all.take(i as int)),
            -(i * 0x8000_0000_0000_0000) <= total <= i * 0x8000_0000_0000_0000,
        decreases rest.len() - i,
    {
        assert(all.take(i + 1).drop_last() =~= all.take(i as int));
        assert(all.take(i + 1).last() == rest@[i as int]@);
        total = total + rest[i].entry_size_bytes as i128;
        i = i + 1;
    }
    assert(all.take(i as int) =~= all);
    assert(views(gone@) =~= Seq::<EvictionRowView>::empty());
    assert(Seq::<EvictionRowView>::empty() + victims(all, cap as int) =~= victims(all, cap as int));
    while total > cap as i128 && rest.len() > 0
        invariant
            total == total_size(views(rest@)),
            survivors(all, cap as int) == survivors(views(rest@), cap as int),
            victims(all, cap as int) == views(gone@) + victims(views(rest@), cap as int),
        decreases rest.len(),
    {
        let ghost before = views(rest@);
        let ghost gone_before = views(gone@);
        proof {
            lemma_first_victim(before);
        }
        let at: usize = find_first_victim(&rest);
        proof {
            lemma_total_remove(before, at as int);
            lemma_total_bound(before.remove(at as int));
        }
        let row: EvictionRow = rest.remove(at);
        total = total - row.entry_size_bytes as i128;
        gone.push(row);
        proof {
            assert(views(rest@) =~= before.remove(at as int));
            assert(views(gone@) =~= gone_before.push(before[at as int]));
            assert(gone_before + (seq![before[at as int]] + victims(
                before.remove(at as int),
                cap as int,
            )) =~= gone_before.push(before[at as int]) + victims(before.remove(at as int), cap as int));
        }
    }
    assert(views(gone@) + Seq::<EvictionRowView>::empty() =~= views(gone@));
    (rest, gone)
}

/// After an eviction the rest fits under the cap, or nothing is left.
pub proof fn law_eviction_respects_the_cap(rows: Seq<EvictionRowView>, cap: int)
    ensures
        survivors(rows, cap).len() == 0 || total_size(survivors(rows, cap)) <= cap,
    decreases rows.len(),
{
    if rows.len() > 0 && total_size(rows) > cap {
        lemma_first_victim(rows);
        law_eviction_respects_the_cap(rows.remove(first_victim(rows)), cap);
    }
}

/// No row that stays goes before a row that was evicted.
pub proof fn law_eviction_takes_the_first_rows(rows: Seq<EvictionRowView>, cap: int, v: int, s: int)
    requires
        0 <= v < victims(rows, cap).len(),
        0 <= s < survivors(rows, cap).len(),
    ensures
        !evicted_before(survivors(rows, cap)[s], victims(rows, cap)[v]),
    decreases rows.len(),
{
    lemma_first_victim(rows);
    let at = first_victim(rows);
    let rest = rows.remove(at);
    if v == 0 {
        lemma_survivor_is_a_row(rest, cap, s);
        let i = choose|i: int| 0 <= i < rest.len() && rest[i] == survivors(rest, cap)[s];
        let j = if i < at { i } else { i + 1 };
        assert(rest[i] == rows[j]);
    } else {
        assert(victims(rows, cap)[v] == victims(rest, cap)[v - 1]);
        law_eviction_takes_the_first_rows(rest, cap, v - 1, s);
    }
}

proof fn lemma_survivor_is_a_row(rows: Seq<EvictionRowView>, cap: int, s: int)
    requires
        0 <= s < survivors(rows, cap).len(),
    ensures
        exists|i: int| 0 <= i < rows.len() && #[trigger] rows[i] == survivors(rows, cap)[s],
    decreases rows.len(),
{
    if rows.len() == 0 || total_size(rows) <= cap {
        assert(rows[s] == survivors(rows, cap)[s]);
    } else {
        lemma_first_victim(rows);
        let at = first_victim(rows);
        let rest = rows.remove(at);
        lemma_survivor_is_a_row(rest, cap, s);
        let i = choose|i: int| 0 <= i < rest.len() && #[trigger] rest[i] == survivors(rest, cap)[s];
        let j = if i < at { i } else { i + 1 };
        assert(rows[j] == rest[i]);
    }
}

/// An eviction stops as soon as the cap is met: with the last victim still there
/// the rows would exceed it.
pub proof fn law_eviction_is_minimal(rows: Seq<EvictionRowView>, cap: int)
    requires
        victims(rows, cap).len() > 0,
    ensures
        total_size(survivors(rows, cap)) + victims(rows, cap).last().entry_size_bytes > cap,
    decreases rows.len(),
{
    lemma_first_victim(rows);
    let at = first_victim(rows);
    let rest = rows.remove(at);
    lemma_total_remove(rows, at);
    if victims(rest, cap).len() > 0 {
        law_eviction_is_minimal(rest, cap);
        assert(victims(rows, cap).last() == victims(rest, cap).last());
    } else {
        assert(survivors(rest, cap) == rest) by {
            if rest.len() > 0 && total_size(rest) > cap {
                lemma_first_victim(rest);
            }
        }
        assert(victims(rows, cap).last() == rows[at]);
    }
}

/// Every row either stays or is evicted, once.
pub proof fn law_eviction_loses_no_row(rows: Seq<EvictionRowView>, cap: int)
    ensures
        rows.to_multiset() == survivors(rows, cap).to_multiset().add(
            victims(rows, cap).to_multiset(),
        ),
    decreases rows.len(),
{
    broadcast use vstd::seq_lib::group_to_multiset_ensures;
    if rows.len() == 0 || total_size(rows) <= cap {
        assert(victims(rows, cap).to_multiset() =~= vstd::multiset::Multiset::empty());
        assert(rows.to_multiset() =~= rows.to_multiset().add(victims(rows, cap).to_multiset()));
    } else {
        lemma_first_victim(rows);
        let at = first_victim(rows);
        let rest = rows.remove(at);
        law_eviction_loses_no_row(rest, cap);
        let tail = victims(rest, cap);
        let first = seq![rows[at]];
        vstd::seq_lib::lemma_multiset_commutative(first, tail);
        assert(first.to_multiset() =~= vstd::multiset::Multiset::singleton(rows[at])) by {
            assert(first =~= Seq::<EvictionRowView>::empty().push(rows[at]));
            assert(Seq::<EvictionRowView>::empty().to_multiset() =~= vstd::multiset::Multiset::empty());
        }
        assert(rows.to_multiset() =~= rest.to_multiset().insert(rows[at])) by {
            assert(rows[at] == rows.index(at));
            assert(rows.contains(rows[at]));
            assert(rows.to_multiset().count(rows[at]) > 0);
        }
        assert(rows.to_multiset() =~= survivors(rows, cap).to_multiset().add(
            victims(rows, cap).to_multiset(),
        ));
    }
}

/// The eviction rank of a row of the parse cache; a backend that the policy does
/// not know goes last.
pub fn parse_eviction_row(row_id: i64, row: &ParseCacheRow) -> (eviction: EvictionRow)
    requires
        row.key_chars_fit(),
    ensures
        eviction@ == (EvictionRowView {
            row_id,
            generation_rank: row.generation_rank,
            cost_rank: match backend_rank(row.entry.parser_backend@) {
                Some(rank) => rank,
                None => 99,
            },
            last_accessed_bucket: row.last_accessed_bucket@,
            cached_at_ms: row.cached_at_ms,
            key_chars: row@.key_chars() as u64,
            entry_size_bytes: row.entry_size_bytes,
        }),
{
    let cost_rank: i64 = match recompute_rank(row.entry.parser_backend.as_str()) {
        Some(rank) => rank,
        None => 99,
    };
    let key_chars: u64 = char_count(row.file_identity.as_str()) as u64 + char_count(
        row.source_version.as_str(),
    ) as u64 + char_count(row.source_guard_kind.as_str()) as u64 + char_count(
        row.source_guard_sha256.as_str(),
    ) as u64 + char_count(row.parse_profile_hash.as_str()) as u64;
    EvictionRow {
        row_id,
        generation_rank: row.generation_rank,
        cost_rank,
        last_accessed_bucket: row.last_accessed_bucket.clone(),
        cached_at_ms: row.cached_at_ms,
        key_chars,
        entry_size_bytes: row.entry_size_bytes,
    }
}

impl ParseCacheRowView {
    /// Characters of the primary key of the row.
    pub open spec fn key_chars(self) -> nat {
        self.file_identity.len() + self.source_version.len() + self.source_guard_kind.len()
            + self.source_guard_sha256.len() + self.parse_profile_hash.len()
    }
}

impl ParseCacheRow {
    /// The key length fits in a machine word.
    pub open spec fn key_chars_fit(&self) -> bool {
        self@.key_chars() <= u64::MAX
    }
}

impl ClassificationCacheRowView {
    /// Characters of the primary key of the row.
    pub open spec fn key_chars(self) -> nat {
        self.file_identity.len() + self.source_version.len() + self.source_guard_kind.len()
            + self.source_guard_sha256.len() + self.classifier_profile_hash.len()
            + self.classifier_build.len()
    }
}

impl ClassificationCacheRow {
    /// The key length and the page count fit in the stored numbers.
    pub open spec fn eviction_fits(&self) -> bool {
        self@.key_chars() <= u64::MAX && self.entry.result_examined_pages <= i64::MAX
    }
}

/// The eviction rank of a row of the classification cache: the fewer pages were
/// examined, the earlier it goes.
pub fn classification_eviction_row(row_id: i64, row: &ClassificationCacheRow) -> (eviction:
    EvictionRow)
    requires
        row.eviction_fits(),
    ensures
        eviction@ == (EvictionRowView {
            row_id,
            generation_rank: row.generation_rank,
            cost_rank: row.entry.result_examined_pages as i64,
            last_accessed_bucket: row.last_accessed_bucket@,
            cached_at_ms: row.cached_at_ms,
            key_chars: row@.key_chars() as u64,
            entry_size_bytes: row.entry_size_bytes,
        }),
{
    let key_chars: u64 = char_count(row.file_identity.as_str()) as u64 + char_count(
        row.source_version.as_str(),
    ) as u64 + char_count(row.source_guard_kind.as_str()) as u64 + char_count(
        row.source_guard_sha256.as_str(),
    ) as u64 + char_count(row.classifier_profile_hash.as_str()) as u64 + char_count(
        row.classifier_build.as_str(),
    ) as u64;
    EvictionRow {
        row_id,
        generation_rank: row.generation_rank,
        cost_rank: row.entry.result_examined_pages as i64,
        last_accessed_bucket: row.last_accessed_bucket.clone(),
        cached_at_ms: row.cached_at_ms,
        key_chars,
        entry_size_bytes: row.entry_size_bytes,
    }
}


// ---------------------------------------------------------------------------
// Writing the parse cache
// ---------------------------------------------------------------------------

/// Rows in the order in which they are looked at by an eviction.
pub open spec fn parse_eviction_rows(rows: Seq<ParseCacheRowView>) -> Seq<EvictionRowView> {
    Seq::new(
        rows.len(),
        |i: int|
            EvictionRowView {
                row_id: i as i64,
                generation_rank: rows[i].generation_rank,
                cost_rank: match backend_rank(rows[i].entry.parser_backend) {
                    Some(rank) => rank,
                    None => 99,
                },
                last_accessed_bucket: rows[i].last_accessed_bucket,
                cached_at_ms: rows[i].cached_at_ms,
                key_chars: rows[i].key_chars() as u64,
                entry_size_bytes: rows[i].entry_size_bytes,
            },
    )
}

/// Caches one admitted record: its row replaces the one with the same key, or is
/// added.
pub fn write_row(
    rows: &mut Vec<ParseCacheRow>,
    cached_at_ms: i64,
    bucket: &str,
    record: &CacheWriteRecord,
) -> (written: Result<(), String>)
    ensures
        match written {
            Ok(()) => parse_write_fault(record@) is None && views(final(rows)@) == rows_after_write(
                views(old(rows)@),
                record@,
                cached_at_ms,
                bucket@,
            ),
            Err(message) => parse_write_fault(record@) == Some(message@) && final(rows)@ == old(rows)@,
        },
{
    let size: i64 = match admit_parse_write(record) {
        Ok(size) => size,
        Err(message) => {
            return Err(message);
        },
    };
    let ghost before = views(rows@);
    let mut row = ParseCacheRow {
        file_identity: record.file_identity.clone(),
        source_version: record.source_version.clone(),
        source_guard_kind: record.source_guard_kind.clone(),
        source_guard_sha256: record.source_guard_sha256.clone(),
        parse_profile_hash: record.parse_profile_hash.clone(),
        entry: record.entry(),
        cached_at_ms,
        entry_size_bytes: size,
        generation_rank: 1,
        last_accessed_bucket: bucket.to_string(),
    };
    let mut i: usize = 0;
    while i < rows.len()
        invariant
            i <= rows.len(),
            rows@ == old(rows)@,
            before == views(rows@),
            row@ == cached_row(record@, cached_at_ms, bucket@, 1),
            parse_write_fault(record@) is None,
            row_with_key(
                before,
                0,
                record@.file_identity,
                record@.source_version,
                record@.source_guard_kind,
                record@.source_guard_sha256,
                record@.parse_profile_hash,
            ) == row_with_key(
                before,
                i as int,
                record@.file_identity,
                record@.source_version,
                record@.source_guard_kind,
                record@.source_guard_sha256,
                record@.parse_profile_hash,
            ),
        decreases rows.len() - i,
    {
        let held: &ParseCacheRow = &rows[i];
        assert(before[i as int] == held@);
        if text_eq(held.file_identity.as_str(), record.file_identity.as_str()) && text_eq(
            held.source_version.as_str(),
            record.source_version.as_str(),
        ) && text_eq(held.source_guard_kind.as_str(), record.source_guard_kind.as_str())
            && text_eq(held.source_guard_sha256.as_str(), record.source_guard_sha256.as_str())
            && text_eq(held.parse_profile_hash.as_str(), record.parse_profile_hash.as_str()) {
            row.generation_rank = held.generation_rank;
            rows.set(i, row);
            assert(views(rows@) =~= before.update(i as int, row@));
            return Ok(());
        }
        i = i + 1;
    }
    rows.push(row);
    assert(views(rows@) =~= before.push(row@));
    Ok(())
}

/// The rows after caching the first `count` records.
pub open spec fn rows_after_writes(
    rows: Seq<ParseCacheRowView>,
    records: Seq<CacheWriteRecordView>,
    count: nat,
    cached_at_ms: i64,
    bucket: Seq<char>,
) -> Seq<ParseCacheRowView>
    decreases count,
{
    if count == 0 {
        rows
    } else {
        rows_after_write(
            rows_after_writes(rows, records, (count - 1) as nat, cached_at_ms, bucket),
            records[count - 1],
            cached_at_ms,
            bucket,
        )
    }
}

/// The position of the first record that is not admitted.
pub open spec fn first_refused(records: Seq<CacheWriteRecordView>, from: int) -> Option<int>
    decreases records.len() - from,
{
    if from < 0 || from >= records.len() {
        None
    } else if parse_write_fault(records[from]) is Some {
        Some(from)
    } else {
        first_refused(records, from + 1)
    }
}

/// Stores `records` in order. The first record that is not admitted stops the
/// write; the records before it stay stored.
fn write_rows(
    rows: &mut Vec<ParseCacheRow>,
    cached_at_ms: i64,
    records: &Vec<CacheWriteRecord>,
) -> (written: Result<(), String>)
    ensures
        match written {
            Ok(()) => first_refused(views(records@), 0) is None && views(final(rows)@)
                == rows_after_writes(
                views(old(rows)@),
                views(records@),
                records@.len(),
                cached_at_ms,
                date_bucket(cached_at_ms as int),
            ),
            Err(message) => first_refused(views(records@), 0) matches Some(at)
                && parse_write_fault(views(records@)[at]) == Some(message@) && views(final(rows)@)
                == rows_after_writes(
                views(old(rows)@),
                views(records@),
                at as nat,
                cached_at_ms,
                date_bucket(cached_at_ms as int),
            ),
        },
{
    let bucket: String = date_bucket_for_ms(cached_at_ms);
    let ghost start = views(rows@);
    let ghost all = views(records@);
    let mut i: usize = 0;
    while i < records.len()
        invariant
            i <= records.len(),
            all == views(records@),
            start == views(old(rows)@),
            bucket@ == date_bucket(cached_at_ms as int),
            views(rows@) == rows_after_writes(start, all, i as nat, cached_at_ms, bucket@),
            first_refused(all, 0) == first_refused(all, i as int),
        decreases records.len() - i,
    {
        assert(all[i as int] == records@[i as int]@);
        match write_row(rows, cached_at_ms, bucket.as_str(), &records[i]) {
            Ok(()) => {},
            Err(message) => {
                return Err(message);
            },
        }
        i = i + 1;
    }
    Ok(())
}

// ---------------------------------------------------------------------------
// Classification cache
// ---------------------------------------------------------------------------

/// `status` is a classification that may be cached.
pub open spec fn is_cached_status(status: Seq<char>) -> bool {
    status == "text_in_parse_window"@ || status == "no_text_in_parse_window"@
}

fn cached_status(status: &str) -> (ok: bool)
    ensures
        ok == is_cached_status(status@),
{
    text_eq(status, "text_in_parse_window") || text_eq(status, "no_text_in_parse_window")
}

impl ClassificationCacheWriteRecordView {
    /// The record may be cached. Only a classification with an outcome is ever
    /// valid: there is no negative cache.
    pub open spec fn valid(self) -> bool {
        &&& within(self.file_identity, 4_096)
        &&& source_version(self.source_version) is Ok
        &&& is_cache_guard_kind(self.source_guard_kind)
        &&& is_sha256_text(self.source_guard_sha256)
        &&& is_sha256_text(self.classifier_profile_hash)
        &&& is_sha256_text(self.classifier_build)
        &&& is_cached_status(self.status)
        &&& self.page_count > 0
        &&& self.result_examined_pages > 0
    }

    /// The cached classification of the record.
    pub open spec fn entry(self) -> ClassificationCacheEntryView {
        ClassificationCacheEntryView {
            status: self.status,
            page_count: self.page_count,
            result_examined_pages: self.result_examined_pages,
        }
    }

    /// Payload bytes of the record: its texts and eight bytes for each number.
    pub open spec fn size_bytes(self) -> nat {
        utf8_len(self.file_identity) + utf8_len(self.source_version) + utf8_len(
            self.source_guard_kind,
        ) + utf8_len(self.source_guard_sha256) + utf8_len(self.classifier_profile_hash) + utf8_len(
            self.classifier_build,
        ) + utf8_len(self.status) + 16
    }
}

impl ClassificationCacheWriteRecord {
    /// Checks the record before it is cached.
    pub fn validate(&self) -> (verdict: Result<(), String>)
        ensures
            verdict is Ok <==> self@.valid(),
            verdict matches Err(message) ==> message@ == "invalid classification cache record"@,
    {
        if !is_within(self.file_identity.as_str(), 4_096) || parse_source_version(
            self.source_version.as_str(),
        ).is_err() || !cache_guard_kind(self.source_guard_kind.as_str()) || !is_sha256(
            self.source_guard_sha256.as_str(),
        ) || !is_sha256(self.classifier_profile_hash.as_str()) || !is_sha256(
            self.classifier_build.as_str(),
        ) || !cached_status(self.status.as_str()) || self.page_count == 0
            || self.result_examined_pages == 0 {
            return Err("invalid classification cache record".to_string());
        }
        Ok(())
    }
}

/// Payload bytes of a classification that is to be cached, capped at the largest
/// size.
pub fn classification_entry_size_bytes(record: &ClassificationCacheWriteRecord) -> (size: i64)
    ensures
        size == size_sum(0, record@.size_bytes() as int),
{
    let mut total: i64 = 16;
    total = add_size(total, record.file_identity.as_str());
    total = add_size(total, record.source_version.as_str());
    total = add_size(total, record.source_guard_kind.as_str());
    total = add_size(total, record.source_guard_sha256.as_str());
    total = add_size(total, record.classifier_profile_hash.as_str());
    total = add_size(total, record.classifier_build.as_str());
    total = add_size(total, record.status.as_str());
    total
}

/// Admits a classification to the cache and gives its payload size. An entry
/// above the cap is turned away.
pub fn admit_classification_write(record: &ClassificationCacheWriteRecord) -> (size: Result<
    i64,
    String,
>)
    ensures
        match size {
            Ok(bytes) => record@.size_bytes() <= CLASSIFICATION_CACHE_MAX_BYTES && bytes
                == record@.size_bytes(),
            Err(message) => record@.size_bytes() > CLASSIFICATION_CACHE_MAX_BYTES && message@
                == "classification cache entry exceeds the 134217728 byte hard cap"@,
        },
{
    let size: i64 = classification_entry_size_bytes(record);
    if size > CLASSIFICATION_CACHE_MAX_BYTES {
        return Err("classification cache entry exceeds the 134217728 byte hard cap".to_string());
    }
    Ok(size)
}

/// A row has the identity, version and guard of a key.
pub open spec fn same_classified_source(
    row: ClassificationCacheRowView,
    identity: Seq<char>,
    version: Seq<char>,
    kind: Seq<char>,
    guard: Seq<char>,
) -> bool {
    row.file_identity == identity && row.source_version == version && row.source_guard_kind == kind
        && row.source_guard_sha256 == guard
}

/// A row has all parts of a key.
pub open spec fn same_classified_key(
    row: ClassificationCacheRowView,
    identity: Seq<char>,
    version: Seq<char>,
    kind: Seq<char>,
    guard: Seq<char>,
    profile_hash: Seq<char>,
    build: Seq<char>,
) -> bool {
    same_classified_source(row, identity, version, kind, guard) && row.classifier_profile_hash
        == profile_hash && row.classifier_build == build
}

/// The first row with the given key, counted from `from`.
pub open spec fn classified_row_with_key(
    rows: Seq<ClassificationCacheRowView>,
    from: int,
    identity: Seq<char>,
    version: Seq<char>,
    kind: Seq<char>,
    guard: Seq<char>,
    profile_hash: Seq<char>,
    build: Seq<char>,
) -> Option<int>
    decreases rows.len() - from,
{
    if from < 0 || from >= rows.len() {
        None
    } else if same_classified_key(rows[from], identity, version, kind, guard, profile_hash, build) {
        Some(from)
    } else {
        classified_row_with_key(
            rows,
            from + 1,
            identity,
            version,
            kind,
            guard,
            profile_hash,
            build,
        )
    }
}

/// An entry that may be returned: a classification with an outcome, of a document
/// with pages.
pub open spec fn is_usable_entry(entry: ClassificationCacheEntryView) -> bool {
    is_cached_status(entry.status) && entry.page_count > 0
}

/// What the rows of the classification cache say about a key.
pub open spec fn classification_lookup(
    rows: Seq<ClassificationCacheRowView>,
    identity: Seq<char>,
    version: Seq<char>,
    kind: Seq<char>,
    guard: Seq<char>,
    profile_hash: Seq<char>,
    build: Seq<char>,
    existed_before: bool,
) -> ClassificationCacheLookupView {
    let found = classified_row_with_key(
        rows,
        0,
        identity,
        version,
        kind,
        guard,
        profile_hash,
        build,
    );
    if found is Some && is_usable_entry(rows[found->0].entry) {
        ClassificationCacheLookupView::Fresh(rows[found->0].entry)
    } else if exists|i: int|
        0 <= i < rows.len() && same_classified_source(
            #[trigger] rows[i],
            identity,
            version,
            kind,
            guard,
        ) {
        ClassificationCacheLookupView::Miss(
            ClassificationCacheMissReason::ClassifierIdentityChanged,
        )
    } else if exists|i: int|
        0 <= i < rows.len() && (#[trigger] rows[i]).file_identity == identity {
        ClassificationCacheLookupView::Miss(ClassificationCacheMissReason::SourceVersionChanged)
    } else if existed_before {
        ClassificationCacheLookupView::Miss(ClassificationCacheMissReason::EntryAbsentOrEvicted)
    } else {
        ClassificationCacheLookupView::Miss(ClassificationCacheMissReason::NewFile)
    }
}

/// Looks a key up in the rows of the classification cache. `inventory_existed_before`
/// tells a file that lost its entry from a file that is new.
pub fn lookup_classification_cache(
    rows: &Vec<ClassificationCacheRow>,
    file_identity: &str,
    source_version: &str,
    source_guard_kind: &str,
    source_guard_sha256: &str,
    classifier_profile_hash: &str,
    classifier_build: &str,
    inventory_existed_before: bool,
) -> (lookup: ClassificationCacheLookup)
    ensures
        lookup@ == classification_lookup(
            views(rows@),
            file_identity@,
            source_version@,
            source_guard_kind@,
            source_guard_sha256@,
            classifier_profile_hash@,
            classifier_build@,
            inventory_existed_before,
        ),
{
    let ghost all = views(rows@);
    let ghost found = classified_row_with_key(
        all,
        0,
        file_identity@,
        source_version@,
        source_guard_kind@,
        source_guard_sha256@,
        classifier_profile_hash@,
        classifier_build@,
    );
    let mut any_source: bool = false;
    let mut any_identity: bool = false;
    let mut seen: bool = false;
    let mut i: usize = 0;
    while i < rows.len()
        invariant
            i <= rows.len(),
            all == views(rows@),
            !seen ==> found == classified_row_with_key(
                all,
                i as int,
                file_identity@,
                source_version@,
                source_guard_kind@,
                source_guard_sha256@,
                classifier_profile_hash@,
                classifier_build@,
            ),
            seen ==> found is Some && !is_usable_entry(all[found->0].entry),
            found == classified_row_with_key(
                all,
                0,
                file_identity@,
                source_version@,
                source_guard_kind@,
                source_guard_sha256@,
                classifier_profile_hash@,
                classifier_build@,
            ),
            any_source <==> exists|k: int|
                0 <= k < i && same_classified_source(
                    #[trigger] all[k],
                    file_identity@,
                    source_version@,
                    source_guard_kind@,
                    source_guard_sha256@,
                ),
            any_identity <==> exists|k: int|
                0 <= k < i && (#[trigger] all[k]).file_identity == file_identity@,
        decreases rows.len() - i,
    {
        let row: &ClassificationCacheRow = &rows[i];
        assert(all[i as int] == row@);
        if text_eq(row.file_identity.as_str(), file_identity) {
            any_identity = true;
            if text_eq(row.source_version.as_str(), source_version) && text_eq(
                row.source_guard_kind.as_str(),
                source_guard_kind,
            ) && text_eq(row.source_guard_sha256.as_str(), source_guard_sha256) {
                any_source = true;
                if !seen && text_eq(row.classifier_profile_hash.as_str(), classifier_profile_hash)
                    && text_eq(row.classifier_build.as_str(), classifier_build) {
                    if cached_status(row.entry.status.as_str()) && row.entry.page_count > 0 {
                        return ClassificationCacheLookup::Fresh(row.entry.clone());
                    }
                    seen = true;
                }
            }
        }
        i = i + 1;
    }
    if any_source {
        ClassificationCacheLookup::Miss(ClassificationCacheMissReason::ClassifierIdentityChanged)
    } else if any_identity {
        ClassificationCacheLookup::Miss(ClassificationCacheMissReason::SourceVersionChanged)
    } else if inventory_existed_before {
        ClassificationCacheLookup::Miss(ClassificationCacheMissReason::EntryAbsentOrEvicted)
    } else {
        ClassificationCacheLookup::Miss(ClassificationCacheMissReason::NewFile)
    }
}

/// The row that caching `record` leaves behind.
pub open spec fn classified_row(
    record: ClassificationCacheWriteRecordView,
    cached_at_ms: i64,
    bucket: Seq<char>,
    generation_rank: i64,
) -> ClassificationCacheRowView {
    ClassificationCacheRowView {
        file_identity: record.file_identity,
        source_version: record.source_version,
        source_guard_kind: record.source_guard_kind,
        source_guard_sha256: record.source_guard_sha256,
        classifier_profile_hash: record.classifier_profile_hash,
        classifier_build: record.classifier_build,
        entry: record.entry(),
        cached_at_ms,
        entry_size_bytes: record.size_bytes() as i64,
        generation_rank,
        last_accessed_bucket: bucket,
    }
}

/// The rows after caching `record`: its row replaces the one with the same key,
/// or is added.
pub open spec fn classified_rows_after_write(
    rows: Seq<ClassificationCacheRowView>,
    record: ClassificationCacheWriteRecordView,
    cached_at_ms: i64,
    bucket: Seq<char>,
) -> Seq<ClassificationCacheRowView> {
    match classified_row_with_key(
        rows,
        0,
        record.file_identity,
        record.source_version,
        record.source_guard_kind,
        record.source_guard_sha256,
        record.classifier_profile_hash,
        record.classifier_build,
    ) {
        Some(at) => rows.update(
            at,
            classified_row(record, cached_at_ms, bucket, rows[at].generation_rank),
        ),
        None => rows.push(classified_row(record, cached_at_ms, bucket, 1)),
    }
}

/// Caches one classification: its row replaces the one with the same key, or is
/// added.
pub fn write_classification_row(
    rows: &mut Vec<ClassificationCacheRow>,
    cached_at_ms: i64,
    record: &ClassificationCacheWriteRecord,
) -> (written: Result<(), String>)
    ensures
        match written {
            Ok(()) => record@.size_bytes() <= CLASSIFICATION_CACHE_MAX_BYTES && views(final(rows)@)
                == classified_rows_after_write(
                views(old(rows)@),
                record@,
                cached_at_ms,
                date_bucket(cached_at_ms as int),
            ),
            Err(message) => record@.size_bytes() > CLASSIFICATION_CACHE_MAX_BYTES && message@
                == "classification cache entry exceeds the 134217728 byte hard cap"@ && final(rows)@ == old(rows)@,
        },
{
    let size: i64 = match admit_classification_write(record) {
        Ok(size) => size,
        Err(message) => {
            return Err(message);
        },
    };
    let bucket: String = date_bucket_for_ms(cached_at_ms);
    let ghost before = views(rows@);
    let mut row = ClassificationCacheRow {
        file_identity: record.file_identity.clone(),
        source_version: record.source_version.clone(),
        source_guard_kind: record.source_guard_kind.clone(),
        source_guard_sha256: record.source_guard_sha256.clone(),
        classifier_profile_hash: record.classifier_profile_hash.clone(),
        classifier_build: record.classifier_build.clone(),
        entry: ClassificationCacheEntry {
            status: record.status.clone(),
            page_count: record.page_count,
            result_examined_pages: record.result_examined_pages,
        },
        cached_at_ms,
        entry_size_bytes: size,
        generation_rank: 1,
        last_accessed_bucket: bucket,
    };
    let mut i: usize = 0;
    while i < rows.len()
        invariant
            i <= rows.len(),
            rows@ == old(rows)@,
            before == views(rows@),
            row@ == classified_row(record@, cached_at_ms, date_bucket(cached_at_ms as int), 1),
            record@.size_bytes() <= CLASSIFICATION_CACHE_MAX_BYTES,
            classified_row_with_key(
                before,
                0,
                record@.file_identity,
                record@.source_version,
                record@.source_guard_kind,
                record@.source_guard_sha256,
                record@.classifier_profile_hash,
                record@.classifier_build,
            ) == classified_row_with_key(
                before,
                i as int,
                record@.file_identity,
                record@.source_version,
                record@.source_guard_kind,
                record@.source_guard_sha256,
                record@.classifier_profile_hash,
                record@.classifier_build,
            ),
        decreases rows.len() - i,
    {
        let held: &ClassificationCacheRow = &rows[i];
        assert(before[i as int] == held@);
        if text_eq(held.file_identity.as_str(), record.file_identity.as_str()) && text_eq(
            held.source_version.as_str(),
            record.source_version.as_str(),
        ) && text_eq(held.source_guard_kind.as_str(), record.source_guard_kind.as_str())
            && text_eq(held.source_guard_sha256.as_str(), record.source_guard_sha256.as_str())
            && text_eq(
            held.classifier_profile_hash.as_str(),
            record.classifier_profile_hash.as_str(),
        ) && text_eq(held.classifier_build.as_str(), record.classifier_build.as_str()) {
            row.generation_rank = held.generation_rank;
            rows.set(i, row);
            assert(views(rows@) =~= before.update(i as int, row@));
            return Ok(());
        }
        i = i + 1;
    }
    rows.push(row);
    assert(views(rows@) =~= before.push(row@));
    Ok(())
}

pub(crate) proof fn lemma_classified_row_with_key(
    rows: Seq<ClassificationCacheRowView>,
    from: int,
    identity: Seq<char>,
    version: Seq<char>,
    kind: Seq<char>,
    guard: Seq<char>,
    profile_hash: Seq<char>,
    build: Seq<char>,
)
    requires
        0 <= from,
    ensures
        match classified_row_with_key(
            rows,
            from,
            identity,
            version,
            kind,
            guard,
            profile_hash,
            build,
        ) {
            Some(at) => from <= at < rows.len() && same_classified_key(
                rows[at],
                identity,
                version,
                kind,
                guard,
                profile_hash,
                build,
            ) && forall|k: int|
                from <= k < at ==> !same_classified_key(
                    #[trigger] rows[k],
                    identity,
                    version,
                    kind,
                    guard,
                    profile_hash,
                    build,
                ),
            None => forall|k: int|
                from <= k < rows.len() ==> !same_classified_key(
                    #[trigger] rows[k],
                    identity,
                    version,
                    kind,
                    guard,
                    profile_hash,
                    build,
                ),
        },
    decreases rows.len() - from,
{
    if from < rows.len() && !same_classified_key(
        rows[from],
        identity,
        version,
        kind,
        guard,
        profile_hash,
        build,
    ) {
        lemma_classified_row_with_key(
            rows,
            from + 1,
            identity,
            version,
            kind,
            guard,
            profile_hash,
            build,
        );
    }
}

/// A classification that was cached is found again under its key.
pub proof fn law_written_classification_is_found(
    rows: Seq<ClassificationCacheRowView>,
    record: ClassificationCacheWriteRecordView,
    cached_at_ms: i64,
    bucket: Seq<char>,
    existed_before: bool,
)
    requires
        record.valid(),
    ensures
        classification_lookup(
            classified_rows_after_write(rows, record, cached_at_ms, bucket),
            record.file_identity,
            record.source_version,
            record.source_guard_kind,
            record.source_guard_sha256,
            record.classifier_profile_hash,
            record.classifier_build,
            existed_before,
        ) == ClassificationCacheLookupView::Fresh(record.entry()),
{
    let i = record.file_identity;
    let v = record.source_version;
    let k = record.source_guard_kind;
    let g = record.source_guard_sha256;
    let p = record.classifier_profile_hash;
    let b = record.classifier_build;
    let after = classified_rows_after_write(rows, record, cached_at_ms, bucket);
    lemma_classified_row_with_key(rows, 0, i, v, k, g, p, b);
    lemma_classified_row_with_key(after, 0, i, v, k, g, p, b);
    let at = match classified_row_with_key(rows, 0, i, v, k, g, p, b) {
        Some(at) => at,
        None => rows.len() as int,
    };
    assert(same_classified_key(after[at], i, v, k, g, p, b));
    assert forall|j: int| 0 <= j < at implies !same_classified_key(
        #[trigger] after[j],
        i,
        v,
        k,
        g,
        p,
        b,
    ) by {
        assert(after[j] == rows[j]);
    }
}

/// A classification without an outcome is never valid for the cache, and the
/// cache never returns one.
pub proof fn law_no_negative_classification_cache(
    record: ClassificationCacheWriteRecordView,
    rows: Seq<ClassificationCacheRowView>,
    identity: Seq<char>,
    version: Seq<char>,
    kind: Seq<char>,
    guard: Seq<char>,
    profile_hash: Seq<char>,
    build: Seq<char>,
    existed_before: bool,
)
    ensures
        !is_cached_status(record.status) ==> !record.valid(),
        classification_lookup(
            rows,
            identity,
            version,
            kind,
            guard,
            profile_hash,
            build,
            existed_before,
        ) matches ClassificationCacheLookupView::Fresh(entry) ==> is_cached_status(entry.status)
            && entry.page_count > 0,
{
}

// ---------------------------------------------------------------------------
// Access days
// ---------------------------------------------------------------------------

/// `year` is a leap year of the Gregorian calendar.
pub open spec fn is_leap(year: int) -> bool {
    year % 4 == 0 && (year % 100 != 0 || year % 400 == 0)
}

/// Days of a month, counted from 1 for January.
pub open spec fn days_in_month(year: int, month: int) -> int {
    if month == 2 {
        if is_leap(year) {
            29
        } else {
            28
        }
    } else if month == 4 || month == 6 || month == 9 || month == 11 {
        30
    } else {
        31
    }
}

/// Days between the first of January of year 1 and that of `year`.
pub open spec fn days_before_year(year: int) -> int {
    365 * (year - 1) + (year - 1) / 4 - (year - 1) / 100 + (year - 1) / 400
}

/// Days of `year` before the given month.
pub open spec fn days_before_month(year: int, month: int) -> int
    decreases month,
{
    if month <= 1 {
        0
    } else {
        days_before_month(year, month - 1) + days_in_month(year, month - 1)
    }
}

/// The day of a date, counted from 0 for the first of January 1970.
pub open spec fn day_number(year: int, month: int, day: int) -> int {
    days_before_year(year) + days_before_month(year, month) + day - 1 - 719_162
}

/// The date exists and is the given day.
pub open spec fn is_date_of(year: int, month: int, day: int, number: int) -> bool {
    1 <= month <= 12 && 1 <= day <= days_in_month(year, month) && day_number(year, month, day)
        == number
}

/// `value` in decimal, with zeros in front up to `width` digits.
pub open spec fn padded(value: nat, width: nat) -> Seq<char> {
    let digits = decimal(value);
    if digits.len() >= width {
        digits
    } else {
        Seq::new((width - digits.len()) as nat, |i: int| '0') + digits
    }
}

/// A date as year, month and day with dashes between; the year has at least four
/// characters, its sign included.
pub open spec fn date_text(year: int, month: int, day: int) -> Seq<char> {
    let y = if year >= 0 {
        padded(year as nat, 4)
    } else {
        "-"@ + padded((-year) as nat, 3)
    };
    y + "-"@ + padded(month as nat, 2) + "-"@ + padded(day as nat, 2)
}

/// The date of a day.
pub open spec fn date_of_day(number: int) -> (int, int, int) {
    choose|date: (int, int, int)| is_date_of(date.0, date.1, date.2, number)
}

/// The UTC date of a time in milliseconds since the epoch.
#[verifier::opaque]
pub open spec fn date_bucket(ms: int) -> Seq<char> {
    let date = date_of_day(ms / 86_400_000);
    date_text(date.0, date.1, date.2)
}

fn padded_text(value: u64, width: usize) -> (text: String)
    ensures
        text@ == padded(value as nat, width as nat),
{
    let digits: String = u64_text(value);
    let count: usize = char_count(digits.as_str());
    if count >= width {
        return digits;
    }
    let mut text: String = String::new();
    let mut i: usize = count;
    while i < width
        invariant
            count <= i <= width,
            text@ == Seq::new((i - count) as nat, |k: int| '0'),
        decreases width - i,
    {
        text.push('0');
        i = i + 1;
        assert(text@ =~= Seq::new((i - count) as nat, |k: int| '0'));
    }
    text.append(digits.as_str());
    text
}

/// Rounds `value` divided by a positive `by` down.
fn floor_div(value: i64, by: i64) -> (quotient: i64)
    requires
        by > 0,
    ensures
        quotient == value as int / by as int,
{
    if value >= 0 {
        let q: u64 = (value as u64) / (by as u64);
        proof {
            vstd::arithmetic::div_mod::lemma_div_is_ordered_by_denominator(
                value as int,
                1,
                by as int,
            );
        }
        q as i64
    } else {
        let shifted: u64 = (-(value + 1)) as u64;
        let q: u64 = shifted / (by as u64);
        proof {
            let s = -(value as int + 1);
            let b = by as int;
            vstd::arithmetic::div_mod::lemma_div_is_ordered_by_denominator(s, 1, b);
            vstd::arithmetic::div_mod::lemma_fundamental_div_mod(s, b);
            let r = s % b;
            assert(0 <= r < b);
            let q = s / b;
            assert((-q - 1) * b + (b - 1 - r) == -(b * q + r) - 1) by (nonlinear_arith);
            vstd::arithmetic::div_mod::lemma_fundamental_div_mod_converse(
                value as int,
                b,
                -q - 1,
                b - 1 - r,
            );
        }
        -(q as i64) - 1
    }
}


/// A position in an era of 146097 days, split into year and day of the year that
/// starts in March.
proof fn lemma_era(doe: int)
    requires
        0 <= doe <= 146_096,
    ensures
        ({
            let yoe = (doe - doe / 1_460 + doe / 36_524 - doe / 146_096) / 365;
            let doy = doe - (365 * yoe + yoe / 4 - yoe / 100);
            &&& 0 <= yoe <= 399
            &&& 0 <= doy <= 365
            &&& (doy == 365 ==> is_leap(yoe + 1))
        }),
{
    // Which century and four-year cycle of the era the day lies in decides how many
    // leap days came before it.
    let a = doe / 1_460;
    let b = doe / 36_524;
    let c = doe / 146_096;
    let yoe = (doe - a + b - c) / 365;
}

proof fn lemma_quotient_step(value: int, by: int)
    requires
        by > 1,
    ensures
        (value + 1) / by == value / by + if (value + 1) % by == 0 {
            1int
        } else {
            0int
        },
{
    vstd::arithmetic::div_mod::lemma_fundamental_div_mod(value, by);
    let q = value / by;
    let r = value % by;
    vstd::arithmetic::mul::lemma_mul_is_commutative(q, by);
    if r + 1 < by {
        vstd::arithmetic::div_mod::lemma_fundamental_div_mod_converse(value + 1, by, q, r + 1);
    } else {
        assert((q + 1) * by == q * by + by) by (nonlinear_arith);
        vstd::arithmetic::div_mod::lemma_fundamental_div_mod_converse(value + 1, by, q + 1, 0);
    }
}

proof fn lemma_divides_by_part(value: int, part: int, times: int)
    requires
        part > 0,
        times > 0,
        value % (part * times) == 0,
    ensures
        value % part == 0,
{
    assert(part * times > 0) by (nonlinear_arith)
        requires
            part > 0,
            times > 0,
    ;
    let q = value / (part * times);
    vstd::arithmetic::div_mod::lemma_fundamental_div_mod(value, part * times);
    assert(value == (times * q) * part + 0) by (nonlinear_arith)
        requires
            value == (part * times) * q + 0,
    ;
    vstd::arithmetic::div_mod::lemma_fundamental_div_mod_converse(value, part, times * q, 0);
}

#[verifier::spinoff_prover]
proof fn lemma_year_step(year: int)
    ensures
        days_before_year(year + 1) == days_before_year(year) + if is_leap(year) {
            366int
        } else {
            365int
        },
{
    lemma_quotient_step(year - 1, 4);
    lemma_quotient_step(year - 1, 100);
    lemma_quotient_step(year - 1, 400);
    if year % 400 == 0 {
        lemma_divides_by_part(year, 100, 4);
    }
    if year % 100 == 0 {
        lemma_divides_by_part(year, 4, 25);
    }
}

proof fn lemma_years_in_order(earlier: int, later: int)
    requires
        earlier < later,
    ensures
        days_before_year(earlier + 1) <= days_before_year(later),
    decreases later - earlier,
{
    if earlier + 1 < later {
        lemma_years_in_order(earlier, later - 1);
        lemma_year_step(later - 1);
    }
}

proof fn lemma_months_in_order(year: int, earlier: int, later: int)
    requires
        1 <= earlier < later <= 13,
    ensures
        days_before_month(year, earlier) + days_in_month(year, earlier) <= days_before_month(
            year,
            later,
        ),
    decreases later - earlier,
{
    if earlier + 1 < later {
        lemma_months_in_order(year, earlier, later - 1);
    }
}

proof fn lemma_months_fill_the_year(year: int)
    ensures
        days_before_month(year, 13) == if is_leap(year) {
            366int
        } else {
            365int
        },
{
    reveal_with_fuel(days_before_month, 13);
}

/// A day has one date.
pub proof fn law_dates_are_unique(
    year: int,
    month: int,
    day: int,
    other_year: int,
    other_month: int,
    other_day: int,
    number: int,
)
    requires
        is_date_of(year, month, day, number),
        is_date_of(other_year, other_month, other_day, number),
    ensures
        year == other_year,
        month == other_month,
        day == other_day,
{
    lemma_months_fill_the_year(year);
    lemma_months_fill_the_year(other_year);
    lemma_year_step(year);
    lemma_year_step(other_year);
    lemma_months_in_order(year, month, 13);
    lemma_months_in_order(other_year, other_month, 13);
    lemma_months_not_negative(year, month);
    lemma_months_not_negative(other_year, other_month);
    if year < other_year {
        lemma_years_in_order(year, other_year);
    } else if other_year < year {
        lemma_years_in_order(other_year, year);
    } else if month < other_month {
        lemma_months_in_order(year, month, other_month);
    } else if other_month < month {
        lemma_months_in_order(year, other_month, month);
    }
}

proof fn lemma_months_not_negative(year: int, month: int)
    requires
        1 <= month <= 13,
    ensures
        days_before_month(year, month) >= 0,
    decreases month,
{
    if month > 1 {
        lemma_months_not_negative(year, month - 1);
    }
}

/// Days from the first of March to the first of a month, counted from 0 for March.
spec fn march_days(mp: int) -> int {
    (153 * mp + 2) / 5
}

proof fn lemma_month_of_march_year(year: int, doy: int)
    requires
        0 <= doy <= 365,
    ensures
        ({
            let mp = (5 * doy + 2) / 153;
            let day = doy - march_days(mp) + 1;
            &&& 0 <= mp <= 11
            &&& 1 <= day
            &&& mp < 10 ==> day <= days_in_month(year, mp + 3) && days_before_month(year, mp + 3)
                == 59 + march_days(mp) + if is_leap(year) {
                1int
            } else {
                0int
            }
            &&& mp >= 10 ==> days_before_month(year, mp - 9) == march_days(mp) - 306
            &&& mp == 10 ==> day <= 31
            &&& mp == 11 ==> day <= 29 && (day == 29 ==> doy == 365)
        }),
{
    reveal_with_fuel(days_before_month, 13);
    let mp = (5 * doy + 2) / 153;
    assert(0 <= mp <= 11);
    if mp == 0 {
    } else if mp == 1 {
    } else if mp == 2 {
    } else if mp == 3 {
    } else if mp == 4 {
    } else if mp == 5 {
    } else if mp == 6 {
    } else if mp == 7 {
    } else if mp == 8 {
    } else if mp == 9 {
    } else if mp == 10 {
    } else {
    }
}

proof fn lemma_leap_cycle(year: int, era: int)
    ensures
        is_leap(year + 400 * era) == is_leap(year),
        (year + 400 * era) / 4 == year / 4 + 100 * era,
        (year + 400 * era) / 100 == year / 100 + 4 * era,
        (year + 400 * era) / 400 == year / 400 + era,
{
}

proof fn lemma_civil(days: int, era: int, yoe: int, doy: int)
    requires
        0 <= yoe <= 399,
        0 <= doy <= 365,
        doy == 365 ==> is_leap(yoe + 1),
        days + 719_468 == 146_097 * era + 365 * yoe + yoe / 4 - yoe / 100 + doy,
    ensures
        ({
            let mp = (5 * doy + 2) / 153;
            let day = doy - march_days(mp) + 1;
            let month = if mp < 10 {
                mp + 3
            } else {
                mp - 9
            };
            let year = yoe + era * 400 + if month <= 2 {
                1int
            } else {
                0int
            };
            is_date_of(year, month, day, days)
        }),
{
    let march_year = yoe + 400 * era;
    lemma_leap_cycle(yoe, era);
    lemma_leap_cycle(yoe + 1, era);
    lemma_year_step(march_year);
    assert(days_before_year(march_year + 1) == 146_097 * era + 365 * yoe + yoe / 4 - yoe / 100);
    lemma_month_of_march_year(march_year, doy);
    lemma_month_of_march_year(march_year + 1, doy);
}

/// The date of a day, counted from 0 for the first of January 1970.
fn civil_date(days: i64) -> (date: (i64, u64, u64))
    requires
        -200_000_000_000 <= days <= 200_000_000_000,
    ensures
        is_date_of(date.0 as int, date.1 as int, date.2 as int, days as int),
        -1_000_000_000 <= date.0 <= 1_000_000_000,
{
    let z: i64 = days + 719_468;
    let era: i64 = floor_div(z, 146_097);
    assert(0 <= z - era * 146_097 <= 146_096);
    let d: u64 = (z - era * 146_097) as u64;
    proof {
        lemma_era(d as int);
    }
    let yoe: u64 = (d - d / 1_460 + d / 36_524 - d / 146_096) / 365;
    let doy: u64 = d - (365 * yoe + yoe / 4 - yoe / 100);
    let mp: u64 = (5 * doy + 2) / 153;
    proof {
        lemma_month_of_march_year(0, doy as int);
        lemma_civil(days as int, era as int, yoe as int, doy as int);
    }
    let day: u64 = doy - (153 * mp + 2) / 5 + 1;
    let month: u64 = if mp < 10 {
        mp + 3
    } else {
        mp - 9
    };
    let next: i64 = if month <= 2 {
        1
    } else {
        0
    };
    (yoe as i64 + era * 400 + next, month, day)
}

/// Writes a date.
fn write_date(year: i64, month: u64, day: u64) -> (text: String)
    requires
        year > i64::MIN,
    ensures
        text@ == date_text(year as int, month as int, day as int),
{
    let mut text: String = if year >= 0 {
        padded_text(year as u64, 4)
    } else {
        let mut signed: String = "-".to_string();
        let digits: String = padded_text((-year) as u64, 3);
        signed.append(digits.as_str());
        signed
    };
    text.append("-");
    let month_text: String = padded_text(month, 2);
    text.append(month_text.as_str());
    text.append("-");
    let day_text: String = padded_text(day, 2);
    text.append(day_text.as_str());
    text
}

/// The UTC date of a time, as `YYYY-MM-DD`.
pub fn date_bucket_for_ms(ms: i64) -> (bucket: String)
    ensures
        bucket@ == date_bucket(ms as int),
{
    let days: i64 = floor_div(floor_div(ms, 1_000), 86_400);
    assert(days == ms as int / 86_400_000);
    let (year, month, day): (i64, u64, u64) = civil_date(days);
    proof {
        let number = ms as int / 86_400_000;
        let date = (year as int, month as int, day as int);
        assert(is_date_of(date.0, date.1, date.2, number));
        let chosen = date_of_day(number);
        reveal(date_bucket);
        law_dates_are_unique(
            year as int,
            month as int,
            day as int,
            chosen.0,
            chosen.1,
            chosen.2,
            number,
        );
    }
    write_date(year, month, day)
}

proof fn lemma_day_has_a_date(number: int)
    ensures
        ({
            let date = date_of_day(number);
            is_date_of(date.0, date.1, date.2, number)
        }),
{
    let z = number + 719_468;
    let era = z / 146_097;
    let doe = z % 146_097;
    lemma_era(doe);
    let yoe = (doe - doe / 1_460 + doe / 36_524 - doe / 146_096) / 365;
    let doy = doe - (365 * yoe + yoe / 4 - yoe / 100);
    lemma_civil(number, era, yoe, doy);
    let mp = (5 * doy + 2) / 153;
    let month = if mp < 10 {
        mp + 3
    } else {
        mp - 9
    };
    let year = yoe + era * 400 + if month <= 2 {
        1int
    } else {
        0int
    };
    let date = (year, month, doy - march_days(mp) + 1);
    assert(is_date_of(date.0, date.1, date.2, number));
}

/// One date comes before another.
pub open spec fn date_before(left: (int, int, int), right: (int, int, int)) -> bool {
    left.0 < right.0 || left.0 == right.0 && (left.1 < right.1 || left.1 == right.1 && left.2
        < right.2)
}

proof fn lemma_dates_in_order(left: (int, int, int), right: (int, int, int), from: int, to: int)
    requires
        is_date_of(left.0, left.1, left.2, from),
        is_date_of(right.0, right.1, right.2, to),
        from < to,
    ensures
        date_before(left, right),
{
    lemma_months_fill_the_year(left.0);
    lemma_months_fill_the_year(right.0);
    lemma_year_step(left.0);
    lemma_year_step(right.0);
    lemma_months_in_order(left.0, left.1, 13);
    lemma_months_in_order(right.0, right.1, 13);
    lemma_months_not_negative(left.0, left.1);
    lemma_months_not_negative(right.0, right.1);
    if right.0 < left.0 {
        lemma_years_in_order(right.0, left.0);
    } else if right.0 == left.0 && right.1 < left.1 {
        lemma_months_in_order(left.0, right.1, left.1);
    }
}

proof fn lemma_four_digit_year(number: int)
    requires
        -719_528 <= number <= 2_932_896,
    ensures
        0 <= date_of_day(number).0 <= 9_999,
{
    lemma_day_has_a_date(number);
    let date = date_of_day(number);
    lemma_months_fill_the_year(date.0);
    lemma_year_step(date.0);
    lemma_months_in_order(date.0, date.1, 13);
    lemma_months_not_negative(date.0, date.1);
    if date.0 < 0 {
        lemma_years_in_order(date.0, 0);
    } else if date.0 > 9_999 {
        lemma_years_in_order(9_999, date.0);
    }
}

/// A date of ten characters.
spec fn short_date(date: (int, int, int)) -> Seq<char> {
    seq![
        digit((date.0 / 1_000) as nat),
        digit((date.0 / 100 % 10) as nat),
        digit((date.0 / 10 % 10) as nat),
        digit((date.0 % 10) as nat),
        '-',
        digit((date.1 / 10) as nat),
        digit((date.1 % 10) as nat),
        '-',
        digit((date.2 / 10) as nat),
        digit((date.2 % 10) as nat),
    ]
}

proof fn lemma_two_digits(value: nat)
    requires
        value < 100,
    ensures
        padded(value, 2) == seq![digit(value / 10), digit(value % 10)],
{
    reveal_with_fuel(decimal, 3);
    assert(padded(value, 2) =~= seq![digit(value / 10), digit(value % 10)]);
}

proof fn lemma_four_digits(value: nat)
    requires
        value < 10_000,
    ensures
        padded(value, 4) == seq![
            digit(value / 1_000),
            digit(value / 100 % 10),
            digit(value / 10 % 10),
            digit(value % 10),
        ],
{
    reveal_with_fuel(decimal, 5);
    assert(value / 10 / 10 == value / 100);
    assert(value / 10 / 10 / 10 == value / 1_000);
    assert(padded(value, 4) =~= seq![
        digit(value / 1_000),
        digit(value / 100 % 10),
        digit(value / 10 % 10),
        digit(value % 10),
    ]);
}

proof fn lemma_short_date(date: (int, int, int))
    requires
        0 <= date.0 <= 9_999,
        1 <= date.1 <= 12,
        1 <= date.2 <= 31,
    ensures
        date_text(date.0, date.1, date.2) == short_date(date),
{
    reveal_strlit("-");
    lemma_four_digits(date.0 as nat);
    lemma_two_digits(date.1 as nat);
    lemma_two_digits(date.2 as nat);
    assert(date_text(date.0, date.1, date.2) =~= short_date(date));
}

proof fn lemma_first_difference(left: Seq<char>, right: Seq<char>, at: int)
    requires
        left.len() == right.len(),
        is_ascii_chars(left),
        is_ascii_chars(right),
        0 <= at < left.len(),
        forall|i: int| 0 <= i < at ==> left[i] == right[i],
        left[at] < right[at],
    ensures
        text_less(left, right),
{
    broadcast use is_ascii_chars_encode_utf8;

    let l = encode_utf8(left);
    let r = encode_utf8(right);
    assert forall|i: int| 0 <= i < at implies l[i] == r[i] by {
        assert(left[i] == right[i]);
    }
    lemma_bytes_differ(l, r, at, 0);
}

proof fn lemma_bytes_differ(left: Seq<u8>, right: Seq<u8>, at: int, from: nat)
    requires
        from <= at < left.len(),
        at < right.len(),
        forall|i: int| 0 <= i < at ==> left[i] == right[i],
        left[at] < right[at],
    ensures
        bytes_less_from(left, right, from),
    decreases at - from,
{
    if from < at {
        lemma_bytes_differ(left, right, at, from + 1);
    }
}

#[verifier::spinoff_prover]
proof fn lemma_year_is_its_digits(value: int)
    requires
        0 <= value <= 9_999,
    ensures
        value == 1_000 * (value / 1_000) + 100 * (value / 100 % 10) + 10 * (value / 10 % 10)
            + value % 10,
        0 <= value / 1_000 <= 9,
        0 <= value / 100 % 10 <= 9,
        0 <= value / 10 % 10 <= 9,
        0 <= value % 10 <= 9,
{
    let tens = value / 10;
    let hundreds = value / 100;
    assert(value == 10 * tens + value % 10);
    assert(hundreds == tens / 10);
    assert(tens == 10 * hundreds + tens % 10);
    assert(value / 1_000 == hundreds / 10);
    assert(hundreds == 10 * (hundreds / 10) + hundreds % 10);
}

#[verifier::spinoff_prover]
proof fn lemma_year_digits(left: int, right: int)
    requires
        0 <= left < right <= 9_999,
    ensures
        left / 1_000 <= right / 1_000,
        left / 1_000 == right / 1_000 ==> left / 100 % 10 <= right / 100 % 10,
        left / 1_000 == right / 1_000 && left / 100 % 10 == right / 100 % 10 ==> left / 10 % 10
            <= right / 10 % 10,
        left / 1_000 == right / 1_000 && left / 100 % 10 == right / 100 % 10 && left / 10 % 10
            == right / 10 % 10 ==> left % 10 < right % 10,
{
    lemma_year_is_its_digits(left);
    lemma_year_is_its_digits(right);
}

/// The parts of a date are digits.
spec fn is_short(date: (int, int, int)) -> bool {
    0 <= date.0 <= 9_999 && 1 <= date.1 <= 12 && 1 <= date.2 <= 31
}

proof fn lemma_short_date_is_ascii(date: (int, int, int))
    requires
        is_short(date),
    ensures
        is_ascii_chars(short_date(date)),
{
    lemma_short_date_is_day_text(date);
}

#[verifier::spinoff_prover]
proof fn lemma_short_dates_in_order(left: (int, int, int), right: (int, int, int))
    requires
        is_short(left),
        is_short(right),
        date_before(left, right),
    ensures
        text_less(short_date(left), short_date(right)),
{
    let l = short_date(left);
    let r = short_date(right);
    lemma_short_date_is_ascii(left);
    lemma_short_date_is_ascii(right);
    if left.0 < right.0 {
        lemma_year_digits(left.0, right.0);
        if left.0 / 1_000 != right.0 / 1_000 {
            lemma_first_difference(l, r, 0);
        } else if left.0 / 100 % 10 != right.0 / 100 % 10 {
            lemma_first_difference(l, r, 1);
        } else if left.0 / 10 % 10 != right.0 / 10 % 10 {
            lemma_first_difference(l, r, 2);
        } else {
            lemma_first_difference(l, r, 3);
        }
    } else if left.1 < right.1 {
        if left.1 / 10 != right.1 / 10 {
            lemma_first_difference(l, r, 5);
        } else {
            lemma_first_difference(l, r, 6);
        }
    } else {
        if left.2 / 10 != right.2 / 10 {
            lemma_first_difference(l, r, 8);
        } else {
            lemma_first_difference(l, r, 9);
        }
    }
}

/// `text` is a year of four digits, a month of two and a day of two, with dashes between.
pub open spec fn is_day_text(text: Seq<char>) -> bool {
    &&& text.len() == 10
    &&& forall|i: int|
        0 <= i < 10 ==> if i == 4 || i == 7 {
            #[trigger] text[i] == '-'
        } else {
            is_digit(text[i])
        }
}

proof fn lemma_short_date_is_day_text(date: (int, int, int))
    requires
        is_short(date),
    ensures
        is_day_text(short_date(date)),
{
    let text = short_date(date);
    assert forall|i: int| 0 <= i < 10 implies if i == 4 || i == 7 {
        #[trigger] text[i] == '-'
    } else {
        is_digit(text[i])
    } by {
        if i == 0 {
        } else if i == 1 {
        } else if i == 2 {
        } else if i == 3 {
        } else if i == 5 {
        } else if i == 6 {
        } else if i == 8 {
        } else if i == 9 {
        }
    }
}

/// Access days of the years 0000 to 9999 are texts of a year, a month and a day that tell
/// days apart and are ordered as the days are.
pub proof fn law_buckets_are_ordered_as_the_days(earlier: int, later: int)
    requires
        -62_167_219_200_000 <= earlier <= later <= 253_402_300_799_999,
    ensures
        is_day_text(date_bucket(earlier)),
        is_day_text(date_bucket(later)),
        date_bucket(earlier) == date_bucket(later) <==> earlier / 86_400_000 == later
            / 86_400_000,
        date_bucket(earlier) == date_bucket(later) || text_less(
            date_bucket(earlier),
            date_bucket(later),
        ),
{
    reveal(date_bucket);
    let from = earlier / 86_400_000;
    let to = later / 86_400_000;
    let left = date_of_day(from);
    let right = date_of_day(to);
    lemma_day_has_a_date(from);
    lemma_day_has_a_date(to);
    lemma_four_digit_year(from);
    lemma_four_digit_year(to);
    lemma_short_date(left);
    lemma_short_date(right);
    lemma_short_date_is_day_text(left);
    lemma_short_date_is_day_text(right);
    if from < to {
        lemma_dates_in_order(left, right, from, to);
        lemma_short_dates_in_order(left, right);
        law_order_irreflexive(date_bucket(later));
    }
}

/// All times of one UTC day are put on the same access day.
pub proof fn law_bucket_is_the_utc_day(left: int, right: int)
    requires
        left / 86_400_000 == right / 86_400_000,
    ensures
        date_bucket(left) == date_bucket(right),
{
    reveal(date_bucket);
}


// ---------------------------------------------------------------------------
// Caches under their caps
// ---------------------------------------------------------------------------

/// The rows of the parse cache that an eviction leaves, in their order.
pub open spec fn parse_rows_under(rows: Seq<ParseCacheRowView>, cap: int) -> Seq<ParseCacheRowView> {
    let kept = survivors(parse_eviction_rows(rows), cap);
    Seq::new(kept.len(), |i: int| rows[kept[i].row_id as int])
}

/// The rows can be numbered and their keys measured.
pub open spec fn parse_rows_fit(rows: Seq<ParseCacheRowView>) -> bool {
    rows.len() <= i64::MAX && forall|i: int|
        0 <= i < rows.len() ==> (#[trigger] rows[i]).key_chars() <= u64::MAX
}

proof fn lemma_survivor_ids(rows: Seq<EvictionRowView>, cap: int, bound: int)
    requires
        forall|i: int| 0 <= i < rows.len() ==> 0 <= (#[trigger] rows[i]).row_id < bound,
    ensures
        forall|i: int|
            0 <= i < survivors(rows, cap).len() ==> 0 <= (#[trigger] survivors(rows, cap)[i]).row_id
                < bound,
{
    assert forall|s: int| 0 <= s < survivors(rows, cap).len() implies 0 <= (
    #[trigger] survivors(rows, cap)[s]).row_id < bound by {
        lemma_survivor_is_a_row(rows, cap, s);
        let i = choose|i: int| 0 <= i < rows.len() && #[trigger] rows[i] == survivors(rows, cap)[s];
        assert(0 <= rows[i].row_id < bound);
    }
}

/// Evicts rows of the parse cache until the rest fits under `cap`.
pub fn evict_parse_cache(rows: &mut Vec<ParseCacheRow>, cap: i64)
    requires
        parse_rows_fit(views(old(rows)@)),
    ensures
        views(final(rows)@) == parse_rows_under(views(old(rows)@), cap as int),
{
    let ghost all = views(rows@);
    let mut ranks: Vec<EvictionRow> = Vec::new();
    let mut i: usize = 0;
    while i < rows.len()
        invariant
            i <= rows.len(),
            rows@ == old(rows)@,
            all == views(rows@),
            parse_rows_fit(all),
            views(ranks@) == parse_eviction_rows(all).take(i as int),
        decreases rows.len() - i,
    {
        assert(all[i as int] == rows@[i as int]@);
        let ghost ranked = views(ranks@);
        let rank: EvictionRow = parse_eviction_row(i as i64, &rows[i]);
        ranks.push(rank);
        assert(rank@ == parse_eviction_rows(all)[i as int]);
        assert(views(ranks@) =~= ranked.push(rank@));
        assert(views(ranks@) =~= parse_eviction_rows(all).take(i + 1));
        i = i + 1;
    }
    assert(parse_eviction_rows(all).take(i as int) =~= parse_eviction_rows(all));
    let (kept, _gone): (Vec<EvictionRow>, Vec<EvictionRow>) = evict(ranks, cap);
    let ghost left = views(kept@);
    proof {
        lemma_survivor_ids(parse_eviction_rows(all), cap as int, all.len() as int);
    }
    let mut rest: Vec<ParseCacheRow> = Vec::new();
    let mut j: usize = 0;
    while j < kept.len()
        invariant
            j <= kept.len(),
            rows@ == old(rows)@,
            all == views(rows@),
            left == views(kept@),
            left == survivors(parse_eviction_rows(all), cap as int),
            forall|k: int| 0 <= k < left.len() ==> 0 <= (#[trigger] left[k]).row_id < all.len(),
            views(rest@) == parse_rows_under(all, cap as int).take(j as int),
        decreases kept.len() - j,
    {
        assert(left[j as int] == kept@[j as int]@);
        assert(0 <= kept@[j as int].row_id < rows.len());
        let at: usize = kept[j].row_id as usize;
        assert(all[at as int] == rows@[at as int]@);
        let ghost before = views(rest@);
        let row = rows[at].clone();
        rest.push(row);
        assert(views(rest@) =~= before.push(row@));
        assert(row@ == parse_rows_under(all, cap as int)[j as int]);
        assert(views(rest@) =~= parse_rows_under(all, cap as int).take(j + 1));
        j = j + 1;
    }
    assert(parse_rows_under(all, cap as int).take(j as int) =~= parse_rows_under(all, cap as int));
    *rows = rest;
}

/// Caches `records` in order and evicts rows until the cache fits under its cap.
/// The first record that is not admitted stops the write; the records before it
/// stay stored and nothing is evicted.
pub fn write_success_cache(
    rows: &mut Vec<ParseCacheRow>,
    cached_at_ms: i64,
    records: &Vec<CacheWriteRecord>,
) -> (written: Result<(), String>)
    requires
        parse_rows_fit(
            rows_after_writes(
                views(old(rows)@),
                views(records@),
                records@.len(),
                cached_at_ms,
                date_bucket(cached_at_ms as int),
            ),
        ),
    ensures
        match written {
            Ok(()) => first_refused(views(records@), 0) is None && views(final(rows)@)
                == parse_rows_under(
                rows_after_writes(
                    views(old(rows)@),
                    views(records@),
                    records@.len(),
                    cached_at_ms,
                    date_bucket(cached_at_ms as int),
                ),
                PARSE_CACHE_MAX_BYTES as int,
            ),
            Err(message) => first_refused(views(records@), 0) matches Some(at)
                && parse_write_fault(views(records@)[at]) == Some(message@) && views(final(rows)@)
                == rows_after_writes(
                views(old(rows)@),
                views(records@),
                at as nat,
                cached_at_ms,
                date_bucket(cached_at_ms as int),
            ),
        },
{
    match write_rows(rows, cached_at_ms, records) {
        Ok(()) => {
            evict_parse_cache(rows, PARSE_CACHE_MAX_BYTES);
            Ok(())
        },
        Err(message) => Err(message),
    }
}

/// Rows in the order in which they are looked at by an eviction.
pub open spec fn classification_eviction_rows(rows: Seq<ClassificationCacheRowView>) -> Seq<
    EvictionRowView,
> {
    Seq::new(
        rows.len(),
        |i: int|
            EvictionRowView {
                row_id: i as i64,
                generation_rank: rows[i].generation_rank,
                cost_rank: rows[i].entry.result_examined_pages as i64,
                last_accessed_bucket: rows[i].last_accessed_bucket,
                cached_at_ms: rows[i].cached_at_ms,
                key_chars: rows[i].key_chars() as u64,
                entry_size_bytes: rows[i].entry_size_bytes,
            },
    )
}

/// The rows of the classification cache that an eviction leaves, in their order.
pub open spec fn classified_rows_under(
    rows: Seq<ClassificationCacheRowView>,
    cap: int,
) -> Seq<ClassificationCacheRowView> {
    let kept = survivors(classification_eviction_rows(rows), cap);
    Seq::new(kept.len(), |i: int| rows[kept[i].row_id as int])
}

/// The rows can be numbered, their keys measured and their pages ranked.
pub open spec fn classified_rows_fit(rows: Seq<ClassificationCacheRowView>) -> bool {
    rows.len() <= i64::MAX && forall|i: int|
        0 <= i < rows.len() ==> (#[trigger] rows[i]).key_chars() <= u64::MAX
            && rows[i].entry.result_examined_pages <= i64::MAX
}

/// Evicts rows of the classification cache until the rest fits under `cap`.
pub fn evict_classification_cache(rows: &mut Vec<ClassificationCacheRow>, cap: i64)
    requires
        classified_rows_fit(views(old(rows)@)),
    ensures
        views(final(rows)@) == classified_rows_under(views(old(rows)@), cap as int),
{
    let ghost all = views(rows@);
    let mut ranks: Vec<EvictionRow> = Vec::new();
    let mut i: usize = 0;
    while i < rows.len()
        invariant
            i <= rows.len(),
            rows@ == old(rows)@,
            all == views(rows@),
            classified_rows_fit(all),
            views(ranks@) == classification_eviction_rows(all).take(i as int),
        decreases rows.len() - i,
    {
        assert(all[i as int] == rows@[i as int]@);
        let ghost ranked = views(ranks@);
        let rank: EvictionRow = classification_eviction_row(i as i64, &rows[i]);
        ranks.push(rank);
        assert(rank@ == classification_eviction_rows(all)[i as int]);
        assert(views(ranks@) =~= ranked.push(rank@));
        assert(views(ranks@) =~= classification_eviction_rows(all).take(i + 1));
        i = i + 1;
    }
    assert(classification_eviction_rows(all).take(i as int) =~= classification_eviction_rows(all));
    let (kept, _gone): (Vec<EvictionRow>, Vec<EvictionRow>) = evict(ranks, cap);
    let ghost left = views(kept@);
    proof {
        lemma_survivor_ids(classification_eviction_rows(all), cap as int, all.len() as int);
    }
    let mut rest: Vec<ClassificationCacheRow> = Vec::new();
    let mut j: usize = 0;
    while j < kept.len()
        invariant
            j <= kept.len(),
            rows@ == old(rows)@,
            all == views(rows@),
            left == views(kept@),
            left == survivors(classification_eviction_rows(all), cap as int),
            forall|k: int| 0 <= k < left.len() ==> 0 <= (#[trigger] left[k]).row_id < all.len(),
            views(rest@) == classified_rows_under(all, cap as int).take(j as int),
        decreases kept.len() - j,
    {
        assert(left[j as int] == kept@[j as int]@);
        assert(0 <= kept@[j as int].row_id < rows.len());
        let at: usize = kept[j].row_id as usize;
        assert(all[at as int] == rows@[at as int]@);
        let ghost before = views(rest@);
        let row = rows[at].clone();
        rest.push(row);
        assert(views(rest@) =~= before.push(row@));
        assert(row@ == classified_rows_under(all, cap as int)[j as int]);
        assert(views(rest@) =~= classified_rows_under(all, cap as int).take(j + 1));
        j = j + 1;
    }
    assert(classified_rows_under(all, cap as int).take(j as int) =~= classified_rows_under(
        all,
        cap as int,
    ));
    *rows = rest;
}

/// The rows after caching the first `count` classifications.
pub open spec fn classified_rows_after_writes(
    rows: Seq<ClassificationCacheRowView>,
    records: Seq<ClassificationCacheWriteRecordView>,
    count: nat,
    cached_at_ms: i64,
) -> Seq<ClassificationCacheRowView>
    decreases count,
{
    if count == 0 {
        rows
    } else {
        classified_rows_after_write(
            classified_rows_after_writes(rows, records, (count - 1) as nat, cached_at_ms),
            records[count - 1],
            cached_at_ms,
            date_bucket(cached_at_ms as int),
        )
    }
}

/// The position of the first classification above the cap.
pub open spec fn first_oversized(
    records: Seq<ClassificationCacheWriteRecordView>,
    from: int,
) -> Option<int>
    decreases records.len() - from,
{
    if from < 0 || from >= records.len() {
        None
    } else if records[from].size_bytes() > CLASSIFICATION_CACHE_MAX_BYTES {
        Some(from)
    } else {
        first_oversized(records, from + 1)
    }
}

/// Caches `records` in order and evicts rows until the cache fits under its cap.
/// The first record above the cap stops the write; the records before it stay
/// stored and nothing is evicted.
pub fn write_success_classification_cache(
    rows: &mut Vec<ClassificationCacheRow>,
    cached_at_ms: i64,
    records: &Vec<ClassificationCacheWriteRecord>,
) -> (written: Result<(), String>)
    requires
        classified_rows_fit(
            classified_rows_after_writes(
                views(old(rows)@),
                views(records@),
                records@.len(),
                cached_at_ms,
            ),
        ),
    ensures
        match written {
            Ok(()) => first_oversized(views(records@), 0) is None && views(final(rows)@)
                == classified_rows_under(
                classified_rows_after_writes(
                    views(old(rows)@),
                    views(records@),
                    records@.len(),
                    cached_at_ms,
                ),
                CLASSIFICATION_CACHE_MAX_BYTES as int,
            ),
            Err(message) => first_oversized(views(records@), 0) matches Some(at) && message@
                == "classification cache entry exceeds the 134217728 byte hard cap"@ && views(
                final(rows)@,
            ) == classified_rows_after_writes(
                views(old(rows)@),
                views(records@),
                at as nat,
                cached_at_ms,
            ),
        },
{
    let ghost start = views(rows@);
    let ghost all = views(records@);
    let mut i: usize = 0;
    while i < records.len()
        invariant
            i <= records.len(),
            all == views(records@),
            start == views(old(rows)@),
            views(rows@) == classified_rows_after_writes(start, all, i as nat, cached_at_ms),
            first_oversized(all, 0) == first_oversized(all, i as int),
        decreases records.len() - i,
    {
        assert(all[i as int] == records@[i as int]@);
        match write_classification_row(rows, cached_at_ms, &records[i]) {
            Ok(()) => {},
            Err(message) => {
                return Err(message);
            },
        }
        i = i + 1;
    }
    evict_classification_cache(rows, CLASSIFICATION_CACHE_MAX_BYTES);
    Ok(())
}

// ---------------------------------------------------------------------------
// Laws of the caches
// ---------------------------------------------------------------------------

/// What is read from the parse cache is what was written: the content with its hash, its
/// backend, its lane, its truncation mark and its worker.
pub proof fn law_cached_parses_are_read_as_written(
    rows: Seq<ParseCacheRowView>,
    record: CacheWriteRecordView,
    cached_at_ms: i64,
    bucket: Seq<char>,
)
    requires
        record.valid(),
    ensures
        parse_lookup(
            rows_after_write(rows, record, cached_at_ms, bucket),
            record.file_identity,
            record.source_version,
            record.source_guard_kind,
            record.source_guard_sha256,
            record.parse_profile_hash,
        ) matches CacheLookupView::Fresh(entry) && entry.content == record.content
            && entry.content_sha256 == record.content_sha256 && entry.parser_backend
            == record.parser_backend && entry.worker_lane == record.worker_lane && entry.truncated
            == record.truncated && entry.worker_contract_version == record.worker_contract_version
            && entry.worker_version == record.worker_version && entry.worker_build
            == record.worker_build,
{
    law_written_parse_is_found(rows, record, cached_at_ms, bucket);
}

/// What is read from the classification cache is what was written: the outcome with its
/// pages.
pub proof fn law_cached_classifications_are_read_as_written(
    rows: Seq<ClassificationCacheRowView>,
    record: ClassificationCacheWriteRecordView,
    cached_at_ms: i64,
    bucket: Seq<char>,
    existed_before: bool,
)
    requires
        record.valid(),
    ensures
        classification_lookup(
            classified_rows_after_write(rows, record, cached_at_ms, bucket),
            record.file_identity,
            record.source_version,
            record.source_guard_kind,
            record.source_guard_sha256,
            record.classifier_profile_hash,
            record.classifier_build,
            existed_before,
        ) matches ClassificationCacheLookupView::Fresh(entry) && entry.status == record.status
            && entry.page_count == record.page_count && entry.result_examined_pages
            == record.result_examined_pages,
{
    law_written_classification_is_found(rows, record, cached_at_ms, bucket, existed_before);
}

/// The parse cache answers only for the very file, version, guard and profile that it was
/// asked for, with content that has the hash it was stored with.
pub proof fn law_parses_are_found_only_under_their_key(
    rows: Seq<ParseCacheRowView>,
    identity: Seq<char>,
    version: Seq<char>,
    kind: Seq<char>,
    guard: Seq<char>,
    profile_hash: Seq<char>,
)
    ensures
        parse_lookup(rows, identity, version, kind, guard, profile_hash)
            matches CacheLookupView::Fresh(entry) ==> {
            &&& content_sha256(entry.content) == entry.content_sha256
            &&& exists|at: int|
                0 <= at < rows.len() && (#[trigger] rows[at]).entry == entry
                    && rows[at].file_identity == identity && rows[at].source_version == version
                    && rows[at].source_guard_kind == kind && rows[at].source_guard_sha256 == guard
                    && rows[at].parse_profile_hash == profile_hash
        },
{
    lemma_row_with_key(rows, 0, identity, version, kind, guard, profile_hash);
    if let Some(at) = row_with_key(rows, 0, identity, version, kind, guard, profile_hash) {
        assert(same_key(rows[at], identity, version, kind, guard, profile_hash));
    }
}

/// A miss of the parse cache tells why: a file that the cache never held is new, one that
/// it holds in another version or under another guard has changed, one that it holds under
/// another profile was parsed otherwise, and an entry whose content has not its hash is
/// spoiled.
pub proof fn law_parse_misses_tell_why(
    rows: Seq<ParseCacheRowView>,
    identity: Seq<char>,
    version: Seq<char>,
    kind: Seq<char>,
    guard: Seq<char>,
    profile_hash: Seq<char>,
)
    ensures
        ({
            let answer = parse_lookup(rows, identity, version, kind, guard, profile_hash);
            let known = exists|i: int|
                0 <= i < rows.len() && (#[trigger] rows[i]).file_identity == identity;
            let same = exists|i: int|
                0 <= i < rows.len() && (#[trigger] rows[i]).file_identity == identity
                    && rows[i].source_version == version && rows[i].source_guard_kind == kind
                    && rows[i].source_guard_sha256 == guard;
            let held = exists|i: int|
                0 <= i < rows.len() && (#[trigger] rows[i]).file_identity == identity
                    && rows[i].source_version == version && rows[i].source_guard_kind == kind
                    && rows[i].source_guard_sha256 == guard && rows[i].parse_profile_hash
                    == profile_hash;
            &&& answer == CacheLookupView::Miss(CacheMissReason::NewFile) <==> !known
            &&& answer == CacheLookupView::Miss(CacheMissReason::SourceVersionChanged) <==> known
                && !same
            &&& answer == CacheLookupView::Miss(CacheMissReason::ParserIdentityChanged) <==> same
                && !held
            &&& answer is Fresh || answer == CacheLookupView::Miss(CacheMissReason::ErrorCache)
                <==> held
        }),
{
    lemma_row_with_key(rows, 0, identity, version, kind, guard, profile_hash);
    let found = row_with_key(rows, 0, identity, version, kind, guard, profile_hash);
    assert forall|i: int| 0 <= i < rows.len() implies #[trigger] same_source(
        rows[i],
        identity,
        version,
        kind,
        guard,
    ) == (rows[i].file_identity == identity && rows[i].source_version == version
        && rows[i].source_guard_kind == kind && rows[i].source_guard_sha256 == guard) by {}
    if let Some(at) = found {
        assert(same_key(rows[at], identity, version, kind, guard, profile_hash));
        assert(same_source(rows[at], identity, version, kind, guard));
    } else {
        assert forall|i: int| 0 <= i < rows.len() implies !same_key(
            #[trigger] rows[i],
            identity,
            version,
            kind,
            guard,
            profile_hash,
        ) by {}
        if exists|i: int|
            0 <= i < rows.len() && (#[trigger] rows[i]).file_identity == identity
                && rows[i].source_version == version && rows[i].source_guard_kind == kind
                && rows[i].source_guard_sha256 == guard {
            let i = choose|i: int|
                0 <= i < rows.len() && (#[trigger] rows[i]).file_identity == identity
                    && rows[i].source_version == version && rows[i].source_guard_kind == kind
                    && rows[i].source_guard_sha256 == guard;
            assert(same_source(rows[i], identity, version, kind, guard));
        }
    }
}

/// The classification cache answers only for the very file, version, guard, profile and
/// classifier that it was asked for. A miss tells why: a file that it holds as it is was
/// classified otherwise, one that it holds otherwise has changed, and one that it does not
/// hold was evicted where it was known before and is new where it was not.
pub proof fn law_classification_answers_tell_why(
    rows: Seq<ClassificationCacheRowView>,
    identity: Seq<char>,
    version: Seq<char>,
    kind: Seq<char>,
    guard: Seq<char>,
    profile_hash: Seq<char>,
    build: Seq<char>,
    existed_before: bool,
)
    ensures
        ({
            let answer = classification_lookup(
                rows,
                identity,
                version,
                kind,
                guard,
                profile_hash,
                build,
                existed_before,
            );
            let known = exists|i: int|
                0 <= i < rows.len() && (#[trigger] rows[i]).file_identity == identity;
            let same = exists|i: int|
                0 <= i < rows.len() && (#[trigger] rows[i]).file_identity == identity
                    && rows[i].source_version == version && rows[i].source_guard_kind == kind
                    && rows[i].source_guard_sha256 == guard;
            &&& answer matches ClassificationCacheLookupView::Fresh(entry) ==> same && exists|
                at: int,
            |
                0 <= at < rows.len() && (#[trigger] rows[at]).entry == entry
                    && rows[at].file_identity == identity && rows[at].source_version == version
                    && rows[at].source_guard_kind == kind && rows[at].source_guard_sha256 == guard
                    && rows[at].classifier_profile_hash == profile_hash
                    && rows[at].classifier_build == build
            &&& answer == ClassificationCacheLookupView::Miss(
                ClassificationCacheMissReason::NewFile,
            ) <==> !known && !existed_before
            &&& answer == ClassificationCacheLookupView::Miss(
                ClassificationCacheMissReason::EntryAbsentOrEvicted,
            ) <==> !known && existed_before
            &&& answer == ClassificationCacheLookupView::Miss(
                ClassificationCacheMissReason::SourceVersionChanged,
            ) <==> known && !same
            &&& answer is Fresh || answer == ClassificationCacheLookupView::Miss(
                ClassificationCacheMissReason::ClassifierIdentityChanged,
            ) <==> same
        }),
{
    lemma_classified_row_with_key(
        rows,
        0,
        identity,
        version,
        kind,
        guard,
        profile_hash,
        build,
    );
    let found = classified_row_with_key(
        rows,
        0,
        identity,
        version,
        kind,
        guard,
        profile_hash,
        build,
    );
    if let Some(at) = found {
        assert(same_classified_key(
            rows[at],
            identity,
            version,
            kind,
            guard,
            profile_hash,
            build,
        ));
        assert(same_classified_source(rows[at], identity, version, kind, guard));
    }
    if exists|i: int|
        0 <= i < rows.len() && (#[trigger] rows[i]).file_identity == identity
            && rows[i].source_version == version && rows[i].source_guard_kind == kind
            && rows[i].source_guard_sha256 == guard {
        let i = choose|i: int|
            0 <= i < rows.len() && (#[trigger] rows[i]).file_identity == identity
                && rows[i].source_version == version && rows[i].source_guard_kind == kind
                && rows[i].source_guard_sha256 == guard;
        assert(same_classified_source(rows[i], identity, version, kind, guard));
    }
}

/// Entries are given up in this order: those of an older generation first, then those that
/// cost less to make again, then those that were used on an earlier day, then those that
/// were cached earlier.
pub proof fn law_entries_are_given_up_by_worth(left: EvictionRowView, right: EvictionRowView)
    ensures
        left.generation_rank < right.generation_rank ==> evicted_before(left, right),
        left.generation_rank == right.generation_rank && left.cost_rank < right.cost_rank
            ==> evicted_before(left, right),
        left.generation_rank == right.generation_rank && left.cost_rank == right.cost_rank
            && text_less(left.last_accessed_bucket, right.last_accessed_bucket) ==> evicted_before(
            left,
            right,
        ),
        left.generation_rank == right.generation_rank && left.cost_rank == right.cost_rank
            && left.last_accessed_bucket == right.last_accessed_bucket && left.cached_at_ms
            < right.cached_at_ms ==> evicted_before(left, right),
        !(evicted_before(left, right) && evicted_before(right, left)),
{
    let l = left.last_accessed_bucket;
    let r = right.last_accessed_bucket;
    law_order_irreflexive(l);
    if text_less(l, r) && text_less(r, l) {
        law_order_transitive(l, r, l);
    }
}

/// A plain text costs least to make again, then what the office worker reads, then what the
/// document worker reads, and a PDF most; the version of a backend does not matter.
pub proof fn law_costs_rise_with_the_work()
    ensures
        backend_rank("light_text_v1"@) == backend_rank("light_text_v2"@),
        backend_rank("rust_xlsx_bounded_v1"@) == backend_rank("rust_xlsx_bounded_v2"@),
        backend_rank("rust_office_oxide_v1"@) == backend_rank("rust_office_oxide_v2"@),
        backend_rank("python_sharepoint_text_v1"@) == backend_rank("python_sharepoint_text_v2"@),
        backend_rank("python_office_v1"@) == backend_rank("python_office_v2"@),
        backend_rank("pdf_text_v1"@) == backend_rank("python_pdf_text_v2"@),
        ({
            let text = backend_rank("light_text_v2"@);
            let xlsx = backend_rank("rust_xlsx_bounded_v2"@);
            let office = backend_rank("rust_office_oxide_v2"@);
            let sharepoint = backend_rank("python_sharepoint_text_v2"@);
            let python = backend_rank("python_office_v2"@);
            let pdf = backend_rank("python_pdf_text_v2"@);
            &&& text is Some && office is Some && sharepoint is Some && python is Some && pdf
                is Some
            &&& xlsx == office
            &&& text->0 < office->0 < sharepoint->0 < python->0 < pdf->0
        }),
{
    reveal_strlit("light_text_v1");
    reveal_strlit("light_text_v2");
    reveal_strlit("rust_xlsx_bounded_v1");
    reveal_strlit("rust_xlsx_bounded_v2");
    reveal_strlit("rust_office_oxide_v1");
    reveal_strlit("rust_office_oxide_v2");
    reveal_strlit("python_sharepoint_text_v1");
    reveal_strlit("python_sharepoint_text_v2");
    reveal_strlit("python_office_v1");
    reveal_strlit("python_office_v2");
    reveal_strlit("pdf_text_v1");
    reveal_strlit("python_pdf_text_v2");
    assert("light_text_v1"@.len() == 13 && "light_text_v2"@.len() == 13);
    assert("rust_xlsx_bounded_v1"@.len() == 20 && "rust_xlsx_bounded_v2"@.len() == 20);
    assert("rust_office_oxide_v1"@.len() == 20 && "rust_office_oxide_v2"@.len() == 20);
    assert("rust_xlsx_bounded_v1"@[5] == 'x' && "rust_xlsx_bounded_v2"@[5] == 'x');
    assert("rust_office_oxide_v1"@[5] == 'o' && "rust_office_oxide_v2"@[5] == 'o');
    assert("python_sharepoint_text_v1"@.len() == 25 && "python_sharepoint_text_v2"@.len() == 25);
    assert("python_office_v1"@.len() == 16 && "python_office_v2"@.len() == 16);
    assert("pdf_text_v1"@.len() == 11 && "python_pdf_text_v2"@.len() == 18);
}

/// A parse is taken into the cache exactly where its backend has a known cost and it fits.
pub proof fn law_parses_of_known_cost_that_fit_are_cached(record: CacheWriteRecordView)
    ensures
        parse_write_fault(record) is None <==> backend_rank(record.parser_backend) is Some
            && record.size_bytes() <= PARSE_CACHE_MAX_BYTES,
{
}

/// Each route is fingerprinted by the stack that parses it: plain texts by the engine's
/// own, modern office files by the office worker's, and the others by the document
/// worker's.
pub proof fn law_routes_are_fingerprinted_by_their_stack(
    stacks: RouteStackFingerprintsView,
    route: ParserRoute,
)
    ensures
        route == ParserRoute::LightText ==> stacks.of(route) == stacks.text_like,
        route == ParserRoute::RustOffice || route == ParserRoute::RustXlsx ==> stacks.of(route)
            == stacks.modern_office,
        route == ParserRoute::Pdf || route == ParserRoute::PythonOffice || route
            == ParserRoute::PythonSharepointText ==> stacks.of(route) == stacks.python_document,
{
}

/// Cache entries are bound to exactly the guards that carry a hash.
pub proof fn law_caches_know_the_available_guards(kind: Seq<char>)
    ensures
        is_cache_guard_kind(kind) <==> (crate::source_guard::kind_of_text(kind) is Some
            && crate::source_guard::kind_of_text(kind) != Some(
            crate::source_guard::SourceGuardKind::Unavailable,
        )),
{
    reveal_strlit("windows_file_id_change_time_v1");
    reveal_strlit("unix_inode_ctime_v1");
    reveal_strlit("content_sha256_v1");
    reveal_strlit("unavailable");
    assert("windows_file_id_change_time_v1"@.len() == 30 && "unix_inode_ctime_v1"@.len() == 19);
    assert("content_sha256_v1"@.len() == 17 && "unavailable"@.len() == 11);
}

/// A record is valid for the parse cache exactly where its key is whole, its guard is one
/// that carries a hash, its hash is that of its content and its worker is named.
pub proof fn law_valid_parses_hash_their_content(record: CacheWriteRecordView)
    ensures
        record.valid() ==> record.content_sha256 == content_sha256(record.content)
            && is_sha256_text(record.source_guard_sha256) && is_sha256_text(
            record.parse_profile_hash,
        ) && source_version(record.source_version) is Ok && is_cache_guard_kind(
            record.source_guard_kind,
        ),
        record.valid() <== record.content_sha256 == content_sha256(record.content)
            && is_sha256_text(record.source_guard_sha256) && is_sha256_text(
            record.parse_profile_hash,
        ) && source_version(record.source_version) is Ok && is_cache_guard_kind(
            record.source_guard_kind,
        ) && within(record.file_identity, 4_096) && within(record.parser_backend, 1_024) && within(
            record.worker_lane,
            1_024,
        ) && within(record.worker_contract_version, 1_024) && within(record.worker_version, 1_024)
            && within(record.worker_build, 4_096),
{
}

/// No two records are of the same file.
pub open spec fn written_once(records: Seq<CacheWriteRecordView>) -> bool {
    forall|i: int, j: int|
        0 <= i < j < records.len() ==> (#[trigger] records[i]).file_identity != (
        #[trigger] records[j]).file_identity
}

/// All parses that are written together are found again, each under its own key.
pub proof fn law_all_written_parses_are_found(
    rows: Seq<ParseCacheRowView>,
    records: Seq<CacheWriteRecordView>,
    count: nat,
    cached_at_ms: i64,
    bucket: Seq<char>,
    at: int,
)
    requires
        written_once(records),
        0 <= at < count <= records.len(),
        records[at].valid(),
    ensures
        parse_lookup(
            rows_after_writes(rows, records, count, cached_at_ms, bucket),
            records[at].file_identity,
            records[at].source_version,
            records[at].source_guard_kind,
            records[at].source_guard_sha256,
            records[at].parse_profile_hash,
        ) == CacheLookupView::Fresh(records[at].entry()),
    decreases count,
{
    let before = rows_after_writes(rows, records, (count - 1) as nat, cached_at_ms, bucket);
    let record = records[at];
    if at == count - 1 {
        law_written_parse_is_found(before, record, cached_at_ms, bucket);
    } else {
        law_all_written_parses_are_found(
            rows,
            records,
            (count - 1) as nat,
            cached_at_ms,
            bucket,
            at,
        );
        assert(records[at].file_identity != records[count - 1].file_identity);
        law_write_leaves_other_files_alone(
            before,
            records[count - 1],
            cached_at_ms,
            bucket,
            record.file_identity,
            record.source_version,
            record.source_guard_kind,
            record.source_guard_sha256,
            record.parse_profile_hash,
        );
    }
}

/// A cache that is under its cap loses no row.
pub proof fn law_caches_under_their_cap_lose_nothing(
    parses: Seq<ParseCacheRowView>,
    classifications: Seq<ClassificationCacheRowView>,
    cap: int,
)
    requires
        parses.len() <= i64::MAX,
        classifications.len() <= i64::MAX,
    ensures
        total_size(parse_eviction_rows(parses)) <= cap ==> parse_rows_under(parses, cap) == parses,
        total_size(classification_eviction_rows(classifications)) <= cap ==> classified_rows_under(
            classifications,
            cap,
        ) == classifications,
{
    if total_size(parse_eviction_rows(parses)) <= cap {
        assert(parse_rows_under(parses, cap) =~= parses);
    }
    if total_size(classification_eviction_rows(classifications)) <= cap {
        assert(classified_rows_under(classifications, cap) =~= classifications);
    }
}

/// Rows are weighed for eviction by what they hold: their generation, the cost of their
/// backend or the pages that were examined for them, their last day, their time and their
/// size.
pub proof fn law_rows_are_weighed_by_what_they_hold(
    parses: Seq<ParseCacheRowView>,
    classifications: Seq<ClassificationCacheRowView>,
    at: int,
)
    ensures
        0 <= at < parses.len() ==> {
            let weighed = parse_eviction_rows(parses)[at];
            &&& parse_eviction_rows(parses).len() == parses.len()
            &&& weighed.generation_rank == parses[at].generation_rank
            &&& weighed.last_accessed_bucket == parses[at].last_accessed_bucket
            &&& weighed.cached_at_ms == parses[at].cached_at_ms
            &&& weighed.entry_size_bytes == parses[at].entry_size_bytes
            &&& backend_rank(parses[at].entry.parser_backend) matches Some(rank)
                ==> weighed.cost_rank == rank
            &&& backend_rank(parses[at].entry.parser_backend) is None ==> weighed.cost_rank >= 10
        },
        0 <= at < classifications.len() ==> {
            let weighed = classification_eviction_rows(classifications)[at];
            &&& classification_eviction_rows(classifications).len() == classifications.len()
            &&& weighed.generation_rank == classifications[at].generation_rank
            &&& weighed.last_accessed_bucket == classifications[at].last_accessed_bucket
            &&& weighed.cached_at_ms == classifications[at].cached_at_ms
            &&& weighed.entry_size_bytes == classifications[at].entry_size_bytes
            &&& classifications[at].entry.result_examined_pages <= i64::MAX ==> weighed.cost_rank
                == classifications[at].entry.result_examined_pages
        },
{
}

/// A written row has the key of its record, the time and the day at which it was written
/// and the size of its record; one that is written anew keeps its generation.
pub proof fn law_written_rows_have_the_key_of_their_record(
    record: CacheWriteRecordView,
    classified: ClassificationCacheWriteRecordView,
    cached_at_ms: i64,
    bucket: Seq<char>,
    generation_rank: i64,
)
    ensures
        ({
            let row = cached_row(record, cached_at_ms, bucket, generation_rank);
            &&& row.file_identity == record.file_identity
            &&& row.source_version == record.source_version
            &&& row.source_guard_kind == record.source_guard_kind
            &&& row.source_guard_sha256 == record.source_guard_sha256
            &&& row.parse_profile_hash == record.parse_profile_hash
            &&& row.cached_at_ms == cached_at_ms && row.last_accessed_bucket == bucket
            &&& row.generation_rank == generation_rank
            &&& record.size_bytes() <= i64::MAX ==> row.entry_size_bytes == record.size_bytes()
            &&& record.size_bytes() >= utf8_len(record.content)
        }),
        ({
            let row = classified_row(classified, cached_at_ms, bucket, generation_rank);
            &&& row.file_identity == classified.file_identity
            &&& row.source_version == classified.source_version
            &&& row.source_guard_kind == classified.source_guard_kind
            &&& row.source_guard_sha256 == classified.source_guard_sha256
            &&& row.classifier_profile_hash == classified.classifier_profile_hash
            &&& row.classifier_build == classified.classifier_build
            &&& row.cached_at_ms == cached_at_ms && row.last_accessed_bucket == bucket
            &&& row.generation_rank == generation_rank
            &&& classified.size_bytes() <= i64::MAX ==> row.entry_size_bytes
                == classified.size_bytes()
        }),
{
}

/// A route stack is formed as it was given, exactly where it is whole and names no
/// component twice.
pub proof fn law_whole_stacks_are_formed(stack: RouteStackFingerprintView)
    ensures
        formed_stack(stack) matches Ok(formed) ==> formed == stack,
        formed_stack(stack) is Ok <==> stack_complete(stack) && forall|i: int, j: int|
            0 <= i < j < stack.members.len() ==> (#[trigger] stack.members[i]).component != (
            #[trigger] stack.members[j]).component,
{
}

} // verus!
