//! File inventory and per-run file results.
use crate::contract::{
    opt_view, AuditWorkerLane, CacheMissReason, CacheStatus, Diagnostic, DiagnosticView,
    DiscoveredFileOut, DiscoveredFileOutView, ParseStatus, ParseTransport,
};
use crate::source_guard::{guard_holds, kind_of_text, source_guard_kind_from_text, SourceGuardKind};
use crate::text::{
    decimal, find_from, find_word, has_prefix, is_digit, is_sha256, is_sha256_text, is_within,
    law_decimal_round_trip, lemma_decimal, read_u64, spells_at, text_eq, to_chars, u64_value,
    within,
};
use vstd::prelude::*;

verus! {

/// One source file in the inventory.
#[derive(Debug, PartialEq, Eq)]
pub struct InventoryRecord {
    pub file_identity: String,
    pub absolute_path: String,
    pub relative_path: String,
    pub file_type: String,
    pub source_version: String,
    pub size_bytes: u64,
    pub mtime_ns: u64,
    /// Wire text of the guard kind; absent only for inventory without a guard.
    pub source_guard_kind: Option<String>,
    /// Guard hash; absent when the kind is unavailable.
    pub source_guard_sha256: Option<String>,
}

/// What a [`InventoryRecord`] says.
#[verifier::ext_equal]
pub struct InventoryRecordView {
    pub file_identity: Seq<char>,
    pub absolute_path: Seq<char>,
    pub relative_path: Seq<char>,
    pub file_type: Seq<char>,
    pub source_version: Seq<char>,
    pub size_bytes: u64,
    pub mtime_ns: u64,
    pub source_guard_kind: Option<Seq<char>>,
    pub source_guard_sha256: Option<Seq<char>>,
}

impl View for InventoryRecord {
    type V = InventoryRecordView;

    open spec fn view(&self) -> InventoryRecordView {
        InventoryRecordView {
            file_identity: self.file_identity@,
            absolute_path: self.absolute_path@,
            relative_path: self.relative_path@,
            file_type: self.file_type@,
            source_version: self.source_version@,
            size_bytes: self.size_bytes,
            mtime_ns: self.mtime_ns,
            source_guard_kind: opt_view(self.source_guard_kind),
            source_guard_sha256: opt_view(self.source_guard_sha256),
        }
    }
}

impl Clone for InventoryRecord {
    fn clone(&self) -> (copy: Self)
        ensures
            copy@ == self@,
            copy == *self,
    {
        InventoryRecord {
            file_identity: self.file_identity.clone(),
            absolute_path: self.absolute_path.clone(),
            relative_path: self.relative_path.clone(),
            file_type: self.file_type.clone(),
            source_version: self.source_version.clone(),
            size_bytes: self.size_bytes,
            mtime_ns: self.mtime_ns,
            source_guard_kind: self.source_guard_kind.clone(),
            source_guard_sha256: self.source_guard_sha256.clone(),
        }
    }
}
/// What is audited about the classification of one PDF.
#[derive(Debug, PartialEq, Eq)]
pub struct PdfClassificationAuditV1 {
    pub status: String,
    pub page_count: Option<u64>,
    pub classification_cache_status: String,
    pub classification_cache_miss_reason: String,
    pub result_examined_pages: Option<u64>,
    pub run_inspected_pages: Option<u64>,
    pub nominal_charged_pages: u64,
    pub duration_ms: u64,
    pub transport: String,
    pub attempt_count: u64,
    pub classifier_build: String,
    pub classifier_profile_hash: String,
}

/// What a [`PdfClassificationAuditV1`] says.
#[verifier::ext_equal]
pub struct PdfClassificationAuditV1View {
    pub status: Seq<char>,
    pub page_count: Option<u64>,
    pub classification_cache_status: Seq<char>,
    pub classification_cache_miss_reason: Seq<char>,
    pub result_examined_pages: Option<u64>,
    pub run_inspected_pages: Option<u64>,
    pub nominal_charged_pages: u64,
    pub duration_ms: u64,
    pub transport: Seq<char>,
    pub attempt_count: u64,
    pub classifier_build: Seq<char>,
    pub classifier_profile_hash: Seq<char>,
}

impl View for PdfClassificationAuditV1 {
    type V = PdfClassificationAuditV1View;

    open spec fn view(&self) -> PdfClassificationAuditV1View {
        PdfClassificationAuditV1View {
            status: self.status@,
            page_count: self.page_count,
            classification_cache_status: self.classification_cache_status@,
            classification_cache_miss_reason: self.classification_cache_miss_reason@,
            result_examined_pages: self.result_examined_pages,
            run_inspected_pages: self.run_inspected_pages,
            nominal_charged_pages: self.nominal_charged_pages,
            duration_ms: self.duration_ms,
            transport: self.transport@,
            attempt_count: self.attempt_count,
            classifier_build: self.classifier_build@,
            classifier_profile_hash: self.classifier_profile_hash@,
        }
    }
}

impl Clone for PdfClassificationAuditV1 {
    fn clone(&self) -> (copy: Self)
        ensures
            copy@ == self@,
            copy == *self,
    {
        PdfClassificationAuditV1 {
            status: self.status.clone(),
            page_count: self.page_count,
            classification_cache_status: self.classification_cache_status.clone(),
            classification_cache_miss_reason: self.classification_cache_miss_reason.clone(),
            result_examined_pages: self.result_examined_pages,
            run_inspected_pages: self.run_inspected_pages,
            nominal_charged_pages: self.nominal_charged_pages,
            duration_ms: self.duration_ms,
            transport: self.transport.clone(),
            attempt_count: self.attempt_count,
            classifier_build: self.classifier_build.clone(),
            classifier_profile_hash: self.classifier_profile_hash.clone(),
        }
    }
}
/// How one file fared in a run.
#[derive(Debug, PartialEq, Eq)]
pub struct FileResultRecord {
    pub file_identity: String,
    pub relative_path: String,
    pub source_version: String,
    pub parse_profile_hash: String,
    pub cache_status: CacheStatus,
    pub cache_miss_reason: CacheMissReason,
    pub parse_status: ParseStatus,
    pub parser_backend: String,
    pub worker_lane: AuditWorkerLane,
    pub truncated: bool,
    pub content_sha256: String,
    pub primary_duration_ms: u64,
    pub fallback_duration_ms: u64,
    pub parse_duration_ms: u64,
    pub failure_class: String,
    pub fallback_backend: String,
    pub fallback_reason_code: String,
    pub parse_transport: ParseTransport,
    pub parse_attempt_count: u64,
    pub pdf_classification: Option<PdfClassificationAuditV1>,
    pub error: Option<Diagnostic>,
}

/// What a [`FileResultRecord`] says.
#[verifier::ext_equal]
pub struct FileResultRecordView {
    pub file_identity: Seq<char>,
    pub relative_path: Seq<char>,
    pub source_version: Seq<char>,
    pub parse_profile_hash: Seq<char>,
    pub cache_status: CacheStatus,
    pub cache_miss_reason: CacheMissReason,
    pub parse_status: ParseStatus,
    pub parser_backend: Seq<char>,
    pub worker_lane: AuditWorkerLane,
    pub truncated: bool,
    pub content_sha256: Seq<char>,
    pub primary_duration_ms: u64,
    pub fallback_duration_ms: u64,
    pub parse_duration_ms: u64,
    pub failure_class: Seq<char>,
    pub fallback_backend: Seq<char>,
    pub fallback_reason_code: Seq<char>,
    pub parse_transport: ParseTransport,
    pub parse_attempt_count: u64,
    pub pdf_classification: Option<PdfClassificationAuditV1View>,
    pub error: Option<DiagnosticView>,
}

impl View for FileResultRecord {
    type V = FileResultRecordView;

    open spec fn view(&self) -> FileResultRecordView {
        FileResultRecordView {
            file_identity: self.file_identity@,
            relative_path: self.relative_path@,
            source_version: self.source_version@,
            parse_profile_hash: self.parse_profile_hash@,
            cache_status: self.cache_status,
            cache_miss_reason: self.cache_miss_reason,
            parse_status: self.parse_status,
            parser_backend: self.parser_backend@,
            worker_lane: self.worker_lane,
            truncated: self.truncated,
            content_sha256: self.content_sha256@,
            primary_duration_ms: self.primary_duration_ms,
            fallback_duration_ms: self.fallback_duration_ms,
            parse_duration_ms: self.parse_duration_ms,
            failure_class: self.failure_class@,
            fallback_backend: self.fallback_backend@,
            fallback_reason_code: self.fallback_reason_code@,
            parse_transport: self.parse_transport,
            parse_attempt_count: self.parse_attempt_count,
            pdf_classification: opt_view(self.pdf_classification),
            error: opt_view(self.error),
        }
    }
}

impl Clone for FileResultRecord {
    fn clone(&self) -> (copy: Self)
        ensures
            copy@ == self@,
            copy == *self,
    {
        FileResultRecord {
            file_identity: self.file_identity.clone(),
            relative_path: self.relative_path.clone(),
            source_version: self.source_version.clone(),
            parse_profile_hash: self.parse_profile_hash.clone(),
            cache_status: self.cache_status,
            cache_miss_reason: self.cache_miss_reason,
            parse_status: self.parse_status,
            parser_backend: self.parser_backend.clone(),
            worker_lane: self.worker_lane,
            truncated: self.truncated,
            content_sha256: self.content_sha256.clone(),
            primary_duration_ms: self.primary_duration_ms,
            fallback_duration_ms: self.fallback_duration_ms,
            parse_duration_ms: self.parse_duration_ms,
            failure_class: self.failure_class.clone(),
            fallback_backend: self.fallback_backend.clone(),
            fallback_reason_code: self.fallback_reason_code.clone(),
            parse_transport: self.parse_transport,
            parse_attempt_count: self.parse_attempt_count,
            pdf_classification: self.pdf_classification.clone(),
            error: self.error.clone(),
        }
    }
}

/// The longest path, in characters.
pub const MAX_PATH_CHARS: usize = 32_767;

/// The largest number that the database can hold.
pub const MAX_STORED: u64 = 9_223_372_036_854_775_807;

/// `c` is an ASCII letter.
pub open spec fn is_letter(c: char) -> bool {
    'a' <= c <= 'z' || 'A' <= c <= 'Z'
}

/// `c` separates path components.
pub open spec fn is_separator(c: char) -> bool {
    c == '/' || c == '\\'
}

/// `text` begins with a drive letter and a colon.
pub open spec fn drive_prefixed(text: Seq<char>) -> bool {
    text.len() >= 2 && is_letter(text[0]) && text[1] == ':'
}

/// `text` is an absolute path: rooted by a slash, a double backslash or a drive,
/// without a zero character, and not too long.
pub open spec fn is_absolute_path(text: Seq<char>) -> bool {
    &&& {
        ||| text.len() >= 1 && text[0] == '/'
        ||| text.len() >= 2 && text[0] == '\\' && text[1] == '\\'
        ||| text.len() >= 3 && drive_prefixed(text) && is_separator(text[2])
    }
    &&& !text.contains('\0')
    &&& text.len() <= MAX_PATH_CHARS
}

/// A component of `text` that starts at `at` is `..`.
pub open spec fn parent_component_at(text: Seq<char>, at: int) -> bool {
    &&& 0 <= at
    &&& at + 2 <= text.len()
    &&& text[at] == '.'
    &&& text[at + 1] == '.'
    &&& (at == 0 || is_separator(text[at - 1]))
    &&& (at + 2 == text.len() || is_separator(text[at + 2]))
}

/// `text` is a relative path that stays below its base.
pub open spec fn is_safe_relative(text: Seq<char>) -> bool {
    &&& 0 < text.len() <= MAX_PATH_CHARS
    &&& !is_separator(text[0])
    &&& !drive_prefixed(text)
    &&& !text.contains('\0')
    &&& forall|at: int| !#[trigger] parent_component_at(text, at)
}

/// `c` may stand in an extension behind the dot.
pub open spec fn is_extension_char(c: char) -> bool {
    !('A' <= c <= 'Z') && c != '\\' && c != '/' && c != ':' && c != '\0'
}

/// `text` is a dot and one to thirty-one characters that are no uppercase ASCII
/// letters, separators, colons or zero characters.
pub open spec fn is_extension(text: Seq<char>) -> bool {
    &&& 2 <= text.len() <= 32
    &&& text[0] == '.'
    &&& forall|i: int| 1 <= i < text.len() ==> is_extension_char(#[trigger] text[i])
}

fn letter(c: char) -> (yes: bool)
    ensures
        yes == is_letter(c),
{
    ('a' <= c && c <= 'z') || ('A' <= c && c <= 'Z')
}

fn contains_zero(chars: &Vec<char>) -> (found: bool)
    ensures
        found == chars@.contains('\0'),
{
    let mut i: usize = 0;
    while i < chars.len()
        invariant
            i <= chars.len(),
            forall|k: int| 0 <= k < i ==> chars@[k] != '\0',
        decreases chars.len() - i,
    {
        if chars[i] == '\0' {
            return true;
        }
        i = i + 1;
    }
    false
}

/// Tests that `value` is an absolute path.
pub fn is_contract_absolute_path(value: &str) -> (ok: bool)
    ensures
        ok == is_absolute_path(value@),
{
    let chars: Vec<char> = to_chars(value);
    let n: usize = chars.len();
    let rooted: bool = (n >= 1 && chars[0] == '/') || (n >= 2 && chars[0] == '\\' && chars[1]
        == '\\') || (n >= 3 && letter(chars[0]) && chars[1] == ':' && (chars[2] == '\\' || chars[2]
        == '/'));
    rooted && !contains_zero(&chars) && n <= MAX_PATH_CHARS
}

/// Tests that `value` is a relative path that stays below its base.
pub fn is_safe_relative_path(value: &str) -> (ok: bool)
    ensures
        ok == is_safe_relative(value@),
{
    let chars: Vec<char> = to_chars(value);
    let n: usize = chars.len();
    if n == 0 || n > MAX_PATH_CHARS {
        return false;
    }
    if chars[0] == '/' || chars[0] == '\\' {
        return false;
    }
    if n >= 2 && letter(chars[0]) && chars[1] == ':' {
        return false;
    }
    if contains_zero(&chars) {
        return false;
    }
    let mut at: usize = 0;
    while at < n
        invariant
            at <= n,
            n == chars.len(),
            chars@ == value@,
            forall|k: int| k < at ==> !#[trigger] parent_component_at(value@, k),
        decreases n - at,
    {
        if n - at >= 2 && chars[at] == '.' && chars[at + 1] == '.' && (at == 0 || chars[at - 1]
            == '/' || chars[at - 1] == '\\') && (n - at == 2 || chars[at + 2] == '/' || chars[at
            + 2] == '\\') {
            assert(parent_component_at(value@, at as int));
            return false;
        }
        assert(!parent_component_at(value@, at as int));
        at = at + 1;
    }
    true
}

/// Tests that `value` is an extension.
pub fn is_lowercase_extension(value: &str) -> (ok: bool)
    ensures
        ok == is_extension(value@),
{
    let chars: Vec<char> = to_chars(value);
    let n: usize = chars.len();
    if n < 2 || n > 32 || chars[0] != '.' {
        return false;
    }
    let mut i: usize = 1;
    while i < n
        invariant
            1 <= i <= n,
            n == chars.len(),
            chars@ == value@,
            forall|k: int| 1 <= k < i ==> is_extension_char(#[trigger] value@[k]),
        decreases n - i,
    {
        let c: char = chars[i];
        if ('A' <= c && c <= 'Z') || c == '\\' || c == '/' || c == ':' || c == '\0' {
            assert(!is_extension_char(value@[i as int]));
            return false;
        }
        i = i + 1;
    }
    true
}

/// Why a source version cannot be read.
#[derive(Clone, Copy, Debug, PartialEq, Eq, Structural)]
pub enum SourceVersionFault {
    Shape,
    Mtime,
    Size,
}

/// What a source version says: a modification time and a size, written as
/// `mtime_ns=<number>:size=<number>`.
pub open spec fn source_version(text: Seq<char>) -> Result<(u64, u64), SourceVersionFault> {
    let head = "mtime_ns="@;
    let joint = ":size="@;
    if !has_prefix(text, head) {
        Err(SourceVersionFault::Shape)
    } else {
        let rest = text.skip(head.len() as int);
        match find_from(rest, joint, 0) {
            None => Err(SourceVersionFault::Shape),
            Some(at) => match u64_value(rest.take(at)) {
                None => Err(SourceVersionFault::Mtime),
                Some(mtime_ns) => match u64_value(rest.skip(at + joint.len())) {
                    None => Err(SourceVersionFault::Size),
                    Some(size_bytes) => Ok((mtime_ns, size_bytes)),
                },
            },
        }
    }
}

/// The message of a source version fault.
pub open spec fn source_version_message(fault: SourceVersionFault) -> Seq<char> {
    match fault {
        SourceVersionFault::Shape => "invalid source version"@,
        SourceVersionFault::Mtime => "invalid source mtime"@,
        SourceVersionFault::Size => "invalid source size"@,
    }
}

/// Reads the modification time and size out of a source version.
pub fn parse_source_version(value: &str) -> (parsed: Result<(u64, u64), String>)
    ensures
        match parsed {
            Ok(pair) => source_version(value@) == Ok::<(u64, u64), SourceVersionFault>(pair),
            Err(message) => source_version(value@) matches Err(fault) && message@
                == source_version_message(fault),
        },
{
    let chars: Vec<char> = to_chars(value);
    let head: Vec<char> = to_chars("mtime_ns=");
    let joint: Vec<char> = to_chars(":size=");
    if !spells_at(&chars, 0, &head) {
        assert(chars@.subrange(0, head.len() as int) == chars@.take(head.len() as int));
        return Err("invalid source version".to_string());
    }
    assert(chars@.subrange(0, head.len() as int) =~= chars@.take(head.len() as int));
    let mut rest: Vec<char> = Vec::new();
    let mut i: usize = head.len();
    while i < chars.len()
        invariant
            head.len() <= i <= chars.len(),
            rest@ == chars@.subrange(head.len() as int, i as int),
        decreases chars.len() - i,
    {
        rest.push(chars[i]);
        i = i + 1;
        assert(rest@ =~= chars@.subrange(head.len() as int, i as int));
    }
    assert(rest@ =~= value@.skip(head.len() as int));
    let at: usize = match find_word(&rest, &joint, 0) {
        None => {
            return Err("invalid source version".to_string());
        },
        Some(at) => at,
    };
    assert(rest@.subrange(0, at as int) =~= rest@.take(at as int));
    let mtime_ns: u64 = match read_u64(&rest, 0, at) {
        None => {
            return Err("invalid source mtime".to_string());
        },
        Some(number) => number,
    };
    assert(rest@.subrange(at + joint.len(), rest.len() as int) =~= rest@.skip(at + joint.len()));
    match read_u64(&rest, at + joint.len(), rest.len()) {
        None => Err("invalid source size".to_string()),
        Some(size_bytes) => Ok((mtime_ns, size_bytes)),
    }
}

/// Both guard columns are absent, or they hold a guard.
pub open spec fn inventory_guard_holds(kind: Option<Seq<char>>, hash: Option<Seq<char>>) -> bool {
    match kind {
        None => hash is None,
        Some(text) => kind_of_text(text) matches Some(kind) && guard_holds(kind, hash),
    }
}

/// Tests the guard columns of an inventory row.
pub fn valid_inventory_guard(kind: &Option<String>, hash: &Option<String>) -> (ok: bool)
    ensures
        ok == inventory_guard_holds(opt_view(*kind), opt_view(*hash)),
{
    match kind {
        None => hash.is_none(),
        Some(text) => match source_guard_kind_from_text(text.as_str()) {
            None => false,
            Some(known) => match hash {
                None => known == SourceGuardKind::Unavailable,
                Some(value) => known != SourceGuardKind::Unavailable && is_sha256(value.as_str()),
            },
        },
    }
}

impl InventoryRecord {
    /// The row of a discovered file, when its version, size, path and guard agree.
    pub open spec fn of_discovered(file: DiscoveredFileOutView, relative_path: Seq<char>) -> Result<
        InventoryRecordView,
        Seq<char>,
    > {
        match source_version(file.source_version) {
            Err(fault) => Err(source_version_message(fault)),
            Ok((mtime_ns, size)) => if size != file.size_bytes {
                Err("discovery source version and size disagree"@)
            } else if relative_path.len() == 0 {
                Err("inventory relative path must not be empty"@)
            } else if !inventory_guard_holds(file.source_guard_kind, file.source_guard_sha256) {
                Err("discovery source guard violates the inventory invariant"@)
            } else {
                Ok(
                    InventoryRecordView {
                        file_identity: file.file_identity,
                        absolute_path: file.path,
                        relative_path,
                        file_type: file.extension,
                        source_version: file.source_version,
                        size_bytes: file.size_bytes,
                        mtime_ns,
                        source_guard_kind: file.source_guard_kind,
                        source_guard_sha256: file.source_guard_sha256,
                    },
                )
            },
        }
    }

    /// Builds the inventory row of a discovered file.
    pub fn from_discovered(file: &DiscoveredFileOut, relative_path: String) -> (record: Result<
        Self,
        String,
    >)
        ensures
            match record {
                Ok(row) => Self::of_discovered(file@, relative_path@) == Ok::<
                    InventoryRecordView,
                    Seq<char>,
                >(row@),
                Err(message) => Self::of_discovered(file@, relative_path@) == Err::<
                    InventoryRecordView,
                    Seq<char>,
                >(message@),
            },
    {
        let (mtime_ns, source_size): (u64, u64) = match parse_source_version(
            file.source_version.as_str(),
        ) {
            Ok(pair) => pair,
            Err(message) => {
                return Err(message);
            },
        };
        if source_size != file.size_bytes {
            return Err("discovery source version and size disagree".to_string());
        }
        if relative_path.as_str().is_empty() {
            return Err("inventory relative path must not be empty".to_string());
        }
        if !valid_inventory_guard(&file.source_guard_kind, &file.source_guard_sha256) {
            return Err("discovery source guard violates the inventory invariant".to_string());
        }
        Ok(
            InventoryRecord {
                file_identity: file.file_identity.clone(),
                absolute_path: file.path.clone(),
                relative_path,
                file_type: file.extension.clone(),
                source_version: file.source_version.clone(),
                size_bytes: file.size_bytes,
                mtime_ns,
                source_guard_kind: file.source_guard_kind.clone(),
                source_guard_sha256: file.source_guard_sha256.clone(),
            },
        )
    }

    /// Checks the row before it is stored.
    pub fn validate(&self) -> (verdict: Result<(), String>)
        ensures
            match verdict {
                Ok(()) => self@.fault() is None,
                Err(message) => self@.fault() == Some(message@),
            },
    {
        if !is_within(self.file_identity.as_str(), 4_096) || !is_contract_absolute_path(
            self.absolute_path.as_str(),
        ) || !is_safe_relative_path(self.relative_path.as_str()) || !is_lowercase_extension(
            self.file_type.as_str(),
        ) || self.source_version.as_str().is_empty() || self.size_bytes > MAX_STORED || self.mtime_ns
            > MAX_STORED {
            return Err("invalid inventory record".to_string());
        }
        let (mtime_ns, size_bytes): (u64, u64) = match parse_source_version(
            self.source_version.as_str(),
        ) {
            Ok(pair) => pair,
            Err(message) => {
                return Err(message);
            },
        };
        if mtime_ns != self.mtime_ns || size_bytes != self.size_bytes {
            return Err("inventory source version is inconsistent".to_string());
        }
        if !valid_inventory_guard(&self.source_guard_kind, &self.source_guard_sha256) {
            return Err("inventory source guard violates the invariant".to_string());
        }
        Ok(())
    }
}

impl InventoryRecordView {
    /// What is wrong with the row, if anything.
    pub open spec fn fault(self) -> Option<Seq<char>> {
        if !(within(self.file_identity, 4_096) && is_absolute_path(self.absolute_path)
            && is_safe_relative(self.relative_path) && is_extension(self.file_type)
            && self.source_version.len() > 0 && self.size_bytes <= MAX_STORED && self.mtime_ns
            <= MAX_STORED) {
            Some("invalid inventory record"@)
        } else {
            match source_version(self.source_version) {
                Err(fault) => Some(source_version_message(fault)),
                Ok((mtime_ns, size_bytes)) => if mtime_ns != self.mtime_ns || size_bytes
                    != self.size_bytes {
                    Some("inventory source version is inconsistent"@)
                } else if !inventory_guard_holds(self.source_guard_kind, self.source_guard_sha256) {
                    Some("inventory source guard violates the invariant"@)
                } else {
                    None
                },
            }
        }
    }
}

/// What the parse provenance of a row is.
#[derive(Clone, Copy, Debug, PartialEq, Eq, Structural)]
pub enum ParseCacheStatus {
    Fresh,
    Miss,
    NotApplicable,
    Snapshot,
}

impl ParseCacheStatus {
    /// The stored text of the provenance.
    pub open spec fn text_spec(self) -> Seq<char> {
        match self {
            ParseCacheStatus::Fresh => "fresh"@,
            ParseCacheStatus::Miss => "miss"@,
            ParseCacheStatus::NotApplicable => "not_applicable"@,
            ParseCacheStatus::Snapshot => "snapshot"@,
        }
    }

    /// The stored text of the provenance.
    pub fn text(self) -> (text: &'static str)
        ensures
            text@ == self.text_spec(),
    {
        match self {
            ParseCacheStatus::Fresh => "fresh",
            ParseCacheStatus::Miss => "miss",
            ParseCacheStatus::NotApplicable => "not_applicable",
            ParseCacheStatus::Snapshot => "snapshot",
        }
    }
}

impl FileResultRecordView {
    /// `fresh` for a parse from the cache, `miss` for a parse by a body parser of
    /// this run, `not_applicable` where no body parser ran.
    pub open spec fn parse_cache_status(self) -> ParseCacheStatus {
        match self.parse_status {
            ParseStatus::NotParsed => ParseCacheStatus::NotApplicable,
            ParseStatus::Success => if self.cache_status == CacheStatus::Fresh {
                ParseCacheStatus::Fresh
            } else if self.parser_backend == "pdf_metadata_v1"@ {
                ParseCacheStatus::NotApplicable
            } else {
                ParseCacheStatus::Miss
            },
            _ => if self.parser_backend == "not_parsed"@ {
                ParseCacheStatus::NotApplicable
            } else {
                ParseCacheStatus::Miss
            },
        }
    }

    /// A miss has a reason and a fresh entry has none.
    pub open spec fn cache_consistent(self) -> bool {
        (self.cache_status == CacheStatus::Fresh) == (self.cache_miss_reason
            == CacheMissReason::NotMissed)
    }

    /// A success has no error, and an error or a timeout has one.
    pub open spec fn error_consistent(self) -> bool {
        match self.parse_status {
            ParseStatus::Success => self.error is None,
            ParseStatus::Error => self.error is Some,
            ParseStatus::Timeout => self.error is Some,
            ParseStatus::NotParsed => true,
        }
    }

    /// A parser was reached, and was tried at least once, exactly where a body
    /// parser of this run produced the row.
    pub open spec fn execution_consistent(self) -> bool {
        if self.parse_cache_status() == ParseCacheStatus::Miss {
            self.parse_transport != ParseTransport::NotApplicable && self.parse_attempt_count > 0
        } else {
            self.parse_transport == ParseTransport::NotApplicable && self.parse_attempt_count == 0
        }
    }

    /// The row may be stored, given the verdicts of the wire contract on its
    /// audit projection and on its error.
    pub open spec fn valid(self, audit_accepted: bool, error_accepted: bool) -> bool {
        self.content_valid(audit_accepted, error_accepted) && self.execution_consistent()
    }

    /// The row is in order but for how it was executed.
    pub open spec fn content_valid(self, audit_accepted: bool, error_accepted: bool) -> bool {
        &&& self.file_identity.len() > 0
        &&& self.relative_path.len() > 0
        &&& self.source_version.len() > 0
        &&& is_sha256_text(self.parse_profile_hash)
        &&& self.parser_backend.len() > 0
        &&& is_sha256_text(self.content_sha256)
        &&& self.primary_duration_ms <= MAX_STORED
        &&& self.fallback_duration_ms <= MAX_STORED
        &&& self.parse_duration_ms <= MAX_STORED
        &&& self.cache_consistent()
        &&& self.error_consistent()
        &&& audit_accepted
        &&& (self.error is Some ==> error_accepted)
    }

    /// The row may be stored at the end of a run. The rows that a run takes over from
    /// a snapshot were not parsed by it, so they owe no execution of their own.
    pub open spec fn persistable(
        self,
        snapshot_rows: bool,
        audit_accepted: bool,
        error_accepted: bool,
    ) -> bool {
        if snapshot_rows {
            self.content_valid(audit_accepted, error_accepted)
        } else {
            self.valid(audit_accepted, error_accepted)
        }
    }

    /// The miss reason that is stored: only a miss has one.
    pub open spec fn stored_miss_reason(self, status: ParseCacheStatus) -> Seq<char> {
        if status == ParseCacheStatus::Miss {
            self.cache_miss_reason.text_spec()
        } else {
            ""@
        }
    }
}

/// The columns of a file result that are derived when it is stored.
#[derive(Debug, PartialEq, Eq)]
pub struct FileResultColumns {
    pub cache_miss_reason: &'static str,
    pub parse_cache_status: &'static str,
    pub cache_status: &'static str,
    pub parse_status: &'static str,
    pub worker_lane: &'static str,
    pub error_code: Option<&'static str>,
    pub error_stage: Option<&'static str>,
}

impl FileResultRecord {
    /// The parse provenance of the row.
    pub fn parse_cache_status(&self) -> (status: ParseCacheStatus)
        ensures
            status == self@.parse_cache_status(),
    {
        match self.parse_status {
            ParseStatus::NotParsed => ParseCacheStatus::NotApplicable,
            ParseStatus::Success => {
                if self.cache_status == CacheStatus::Fresh {
                    ParseCacheStatus::Fresh
                } else if text_eq(self.parser_backend.as_str(), "pdf_metadata_v1") {
                    ParseCacheStatus::NotApplicable
                } else {
                    ParseCacheStatus::Miss
                }
            },
            _ => {
                if text_eq(self.parser_backend.as_str(), "not_parsed") {
                    ParseCacheStatus::NotApplicable
                } else {
                    ParseCacheStatus::Miss
                }
            },
        }
    }

    /// Checks the row before it is stored. `audit_accepted` and `error_accepted`
    /// are the verdicts of the wire contract on the audit projection of the row
    /// and on its error.
    pub fn validate(&self, audit_accepted: bool, error_accepted: bool) -> (verdict: Result<
        (),
        String,
    >)
        ensures
            verdict is Ok <==> self@.valid(audit_accepted, error_accepted),
            verdict matches Err(message) ==> message@ == "invalid scan file result"@,
    {
        self.validate_for_persistence(false, audit_accepted, error_accepted)
    }

    /// Checks the row before it is stored at the end of a run.
    pub fn validate_for_persistence(
        &self,
        snapshot_rows: bool,
        audit_accepted: bool,
        error_accepted: bool,
    ) -> (verdict: Result<(), String>)
        ensures
            verdict is Ok <==> self@.persistable(snapshot_rows, audit_accepted, error_accepted),
            verdict matches Err(message) ==> message@ == "invalid scan file result"@,
    {
        let durations_fit: bool = self.primary_duration_ms <= MAX_STORED
            && self.fallback_duration_ms <= MAX_STORED && self.parse_duration_ms <= MAX_STORED;
        let cache_consistent: bool = match self.cache_status {
            CacheStatus::Fresh => self.cache_miss_reason == CacheMissReason::NotMissed,
            CacheStatus::Miss => self.cache_miss_reason != CacheMissReason::NotMissed,
        };
        let error_consistent: bool = match self.parse_status {
            ParseStatus::Success => self.error.is_none(),
            ParseStatus::Error => self.error.is_some(),
            ParseStatus::Timeout => self.error.is_some(),
            ParseStatus::NotParsed => true,
        };
        let ran: bool = self.parse_cache_status() == ParseCacheStatus::Miss;
        let execution_consistent: bool = if ran {
            self.parse_transport != ParseTransport::NotApplicable && self.parse_attempt_count > 0
        } else {
            self.parse_transport == ParseTransport::NotApplicable && self.parse_attempt_count == 0
        };
        if self.file_identity.as_str().is_empty() || self.relative_path.as_str().is_empty()
            || self.source_version.as_str().is_empty() || !is_sha256(self.parse_profile_hash.as_str())
            || self.parser_backend.as_str().is_empty() || !is_sha256(self.content_sha256.as_str())
            || !durations_fit || !cache_consistent || !error_consistent || (!snapshot_rows
            && !execution_consistent) || !audit_accepted || (self.error.is_some()
            && !error_accepted) {
            return Err("invalid scan file result".to_string());
        }
        Ok(())
    }

    /// Derives the stored columns of the row. Rows that were taken over from a
    /// snapshot are marked so; only a miss carries a miss reason.
    pub fn columns(&self, snapshot_rows: bool) -> (columns: FileResultColumns)
        ensures
            ({
                let status = if snapshot_rows {
                    ParseCacheStatus::Snapshot
                } else {
                    self@.parse_cache_status()
                };
                &&& columns.parse_cache_status@ == status.text_spec()
                &&& columns.cache_miss_reason@ == self@.stored_miss_reason(status)
                &&& columns.cache_status@ == self.cache_status.text_spec()
                &&& columns.parse_status@ == self.parse_status.text_spec()
                &&& columns.worker_lane@ == self.worker_lane.text_spec()
                &&& match self.error {
                    None => columns.error_code is None && columns.error_stage is None,
                    Some(error) => (columns.error_code matches Some(code) && code@
                        == error.error_code.text_spec()) && (columns.error_stage matches Some(stage)
                        && stage@ == error.stage.text_spec()),
                }
            }),
    {
        let status: ParseCacheStatus = if snapshot_rows {
            ParseCacheStatus::Snapshot
        } else {
            self.parse_cache_status()
        };
        FileResultColumns {
            cache_miss_reason: if status == ParseCacheStatus::Miss {
                self.cache_miss_reason.text()
            } else {
                ""
            },
            parse_cache_status: status.text(),
            cache_status: self.cache_status.text(),
            parse_status: self.parse_status.text(),
            worker_lane: self.worker_lane.text(),
            error_code: match &self.error {
                Some(error) => Some(error.error_code.text()),
                None => None,
            },
            error_stage: match &self.error {
                Some(error) => Some(error.stage.text()),
                None => None,
            },
        }
    }
}

/// A row whose provenance is not a miss is stored without a miss reason.
pub proof fn law_only_misses_carry_a_reason(row: FileResultRecordView, snapshot_rows: bool)
    ensures
        ({
            let status = if snapshot_rows {
                ParseCacheStatus::Snapshot
            } else {
                row.parse_cache_status()
            };
            status != ParseCacheStatus::Miss ==> row.stored_miss_reason(status) == Seq::<
                char,
            >::empty()
        }),
{
    reveal_strlit("");
    assert(""@ =~= Seq::<char>::empty());
}

/// An inventory row that was built from a discovered file agrees with it in
/// version and size, and its guard columns hold a guard or are both absent.
pub proof fn law_discovered_inventory_agrees(
    file: DiscoveredFileOutView,
    relative_path: Seq<char>,
    row: InventoryRecordView,
)
    requires
        InventoryRecord::of_discovered(file, relative_path) == Ok::<
            InventoryRecordView,
            Seq<char>,
        >(row),
    ensures
        source_version(row.source_version) == Ok::<(u64, u64), SourceVersionFault>(
            (row.mtime_ns, row.size_bytes),
        ),
        inventory_guard_holds(row.source_guard_kind, row.source_guard_sha256),
        row.relative_path.len() > 0,
        row.file_identity == file.file_identity,
        row.absolute_path == file.path,
{
}

proof fn lemma_first_joint(digits: Seq<char>, joint: Seq<char>, tail: Seq<char>, from: int)
    requires
        0 <= from <= digits.len(),
        joint.len() > 0,
        forall|i: int| 0 <= i < digits.len() ==> #[trigger] digits[i] != joint[0],
    ensures
        find_from(digits + joint + tail, joint, from) == Some(digits.len() as int),
    decreases digits.len() - from,
{
    let text = digits + joint + tail;
    if from < digits.len() {
        assert(text[from] == digits[from]);
        assert(text.subrange(from, from + joint.len())[0] == digits[from]);
        lemma_first_joint(digits, joint, tail, from + 1);
    } else {
        assert(text.subrange(from, from + joint.len()) =~= joint);
    }
}

/// The version of a source is read back as the time and the size that it was written with.
pub proof fn law_source_versions_are_read_back(mtime_ns: u64, size_bytes: u64)
    ensures
        source_version(
            "mtime_ns="@ + decimal(mtime_ns as nat) + ":size="@ + decimal(size_bytes as nat),
        ) == Ok::<(u64, u64), SourceVersionFault>((mtime_ns, size_bytes)),
{
    reveal_strlit("mtime_ns=");
    reveal_strlit(":size=");
    let head = "mtime_ns="@;
    let joint = ":size="@;
    let mtime = decimal(mtime_ns as nat);
    let size = decimal(size_bytes as nat);
    let text = head + mtime + joint + size;
    assert(head.len() == 9 && joint.len() == 6 && joint[0] == ':');
    law_decimal_round_trip(mtime_ns);
    law_decimal_round_trip(size_bytes);
    lemma_decimal(mtime_ns as nat);
    assert(text.take(head.len() as int) =~= head);
    let rest = text.skip(head.len() as int);
    assert(rest =~= mtime + joint + size);
    assert forall|i: int| 0 <= i < mtime.len() implies #[trigger] mtime[i] != joint[0] by {
        assert(is_digit(mtime[i]));
    }
    lemma_first_joint(mtime, joint, size, 0);
    assert(rest.take(mtime.len() as int) =~= mtime);
    assert(rest.skip(mtime.len() as int + joint.len()) =~= size);
}

/// What is stored of a discovered file is what the discovery told of it.
pub proof fn law_inventory_rows_are_of_the_file(
    file: DiscoveredFileOutView,
    relative_path: Seq<char>,
    mtime_ns: u64,
)
    requires
        file.source_version == "mtime_ns="@ + decimal(mtime_ns as nat) + ":size="@ + decimal(
            file.size_bytes as nat,
        ),
        inventory_guard_holds(file.source_guard_kind, file.source_guard_sha256),
        relative_path.len() > 0,
    ensures
        InventoryRecord::of_discovered(file, relative_path) matches Ok(row) && {
            &&& row.file_identity == file.file_identity
            &&& row.absolute_path == file.path
            &&& row.relative_path == relative_path
            &&& row.file_type == file.extension
            &&& row.source_version == file.source_version
            &&& row.size_bytes == file.size_bytes
            &&& row.mtime_ns == mtime_ns
            &&& row.source_guard_kind == file.source_guard_kind
            &&& row.source_guard_sha256 == file.source_guard_sha256
        },
{
    law_source_versions_are_read_back(mtime_ns, file.size_bytes);
}

/// A discovered file whose version tells another size than the discovery did is refused.
pub proof fn law_contradictory_sizes_are_refused(
    file: DiscoveredFileOutView,
    relative_path: Seq<char>,
    mtime_ns: u64,
    size_bytes: u64,
)
    requires
        file.source_version == "mtime_ns="@ + decimal(mtime_ns as nat) + ":size="@ + decimal(
            size_bytes as nat,
        ),
        size_bytes != file.size_bytes,
    ensures
        InventoryRecord::of_discovered(file, relative_path) is Err,
{
    law_source_versions_are_read_back(mtime_ns, size_bytes);
}

/// A row that was formed of a discovered file is accepted where its names are sound and its
/// numbers can be stored.
pub proof fn law_formed_inventory_rows_are_accepted(
    file: DiscoveredFileOutView,
    relative_path: Seq<char>,
    row: InventoryRecordView,
)
    requires
        InventoryRecord::of_discovered(file, relative_path) == Ok::<
            InventoryRecordView,
            Seq<char>,
        >(row),
        0 < file.file_identity.len() <= 4_096,
        is_absolute_path(file.path),
        is_safe_relative(relative_path),
        is_extension(file.extension),
        row.size_bytes <= i64::MAX,
        row.mtime_ns <= i64::MAX,
    ensures
        row.fault() is None,
{
    reveal_strlit("mtime_ns=");
}

/// An accepted row has the time and the size that its version tells, both within what can be
/// stored, and names that are sound.
pub proof fn law_accepted_inventory_rows_are_sound(row: InventoryRecordView)
    requires
        row.fault() is None,
    ensures
        source_version(row.source_version) == Ok::<(u64, u64), SourceVersionFault>(
            (row.mtime_ns, row.size_bytes),
        ),
        row.size_bytes <= i64::MAX,
        row.mtime_ns <= i64::MAX,
        0 < row.file_identity.len() <= 4_096,
        is_absolute_path(row.absolute_path),
        is_safe_relative(row.relative_path),
        is_extension(row.file_type),
        row.source_guard_kind is None ==> row.source_guard_sha256 is None,
        row.source_guard_kind matches Some(text) ==> kind_of_text(text) is Some,
{
}

/// No path is both absolute and relative to a root.
pub proof fn law_paths_are_absolute_or_relative(path: Seq<char>)
    ensures
        !(is_absolute_path(path) && is_safe_relative(path)),
{
}

/// A path below a path below the root is below the root.
pub proof fn law_safe_paths_stay_below_the_root(outer: Seq<char>, inner: Seq<char>, joint: char)
    requires
        is_safe_relative(outer),
        is_safe_relative(inner),
        joint == '/' || joint == '\\',
        outer.len() + 1 + inner.len() <= MAX_PATH_CHARS,
    ensures
        is_safe_relative(outer.push(joint) + inner),
{
    let text = outer.push(joint) + inner;
    let cut = outer.len() as int;
    assert(text[0] == outer[0]);
    assert(text[cut] == joint);
    assert(text.len() >= 2 && outer.len() >= 2 ==> text[1] == outer[1]);
    assert(!text.contains('\0')) by {
        if text.contains('\0') {
            let at = choose|at: int| 0 <= at < text.len() && text[at] == '\0';
            if at < cut {
                assert(outer[at] == '\0');
            } else if at > cut {
                assert(inner[at - cut - 1] == '\0');
            }
        }
    }
    assert forall|at: int| !#[trigger] parent_component_at(text, at) by {
        if parent_component_at(text, at) {
            if at + 2 <= cut {
                assert(text[at] == outer[at] && text[at + 1] == outer[at + 1]);
                assert(at > 0 ==> text[at - 1] == outer[at - 1]);
                assert(at + 2 < cut ==> text[at + 2] == outer[at + 2]);
                assert(parent_component_at(outer, at));
            } else if at > cut {
                let from = at - cut - 1;
                assert(text[at] == inner[from] && text[at + 1] == inner[from + 1]);
                assert(from > 0 ==> text[at - 1] == inner[from - 1]);
                assert(from + 2 < inner.len() ==> text[at + 2] == inner[from + 2]);
                assert(parent_component_at(inner, from));
            } else {
                assert(text[cut] == '.');
            }
        }
    }
}

/// A path that climbs out of the root anywhere is refused.
pub proof fn law_climbing_paths_are_refused(before: Seq<char>, after: Seq<char>, joint: char)
    requires
        joint == '/' || joint == '\\',
    ensures
        !is_safe_relative(seq!['.', '.']),
        !is_safe_relative(seq!['.', '.', joint] + after),
        !is_safe_relative(before + seq![joint, '.', '.']),
        !is_safe_relative(before + seq![joint, '.', '.', joint] + after),
{
    assert(parent_component_at(seq!['.', '.'], 0));
    assert(parent_component_at(seq!['.', '.', joint] + after, 0));
    let cut: int = before.len() as int + 1;
    assert(parent_component_at(before + seq![joint, '.', '.'], cut));
    assert(parent_component_at(before + seq![joint, '.', '.', joint] + after, cut));
}

/// An extension stays one under a further character exactly where there is room and the
/// character is neither a capital nor a part of a path.
pub proof fn law_extensions_grow_by_plain_characters(text: Seq<char>, c: char)
    requires
        is_extension(text),
    ensures
        is_extension(text.push(c)) <==> {
            &&& text.len() < 32
            &&& !('A' <= c <= 'Z')
            &&& c != '/'
            &&& c != '\\'
            &&& c != ':'
            &&& c != '\0'
        },
        text[0] == '.',
{
    let longer = text.push(c);
    assert(longer[text.len() as int] == c);
    assert(forall|i: int| 1 <= i < text.len() ==> #[trigger] longer[i] == text[i]);
    if is_extension(longer) {
        assert(is_extension_char(longer[text.len() as int]));
    }
}

/// A result is told to be of the cache exactly where its parse was found there, to be a miss
/// exactly where a parser was asked, and to have nothing to do with the cache otherwise.
pub proof fn law_results_tell_where_they_came_from(row: FileResultRecordView)
    ensures
        ({
            let unparsed = row.parse_status == ParseStatus::NotParsed || (row.parse_status
                != ParseStatus::Success && row.parser_backend == "not_parsed"@) || (
            row.parse_status == ParseStatus::Success && row.cache_status != CacheStatus::Fresh
                && row.parser_backend == "pdf_metadata_v1"@);
            let cached = row.parse_status == ParseStatus::Success && row.cache_status
                == CacheStatus::Fresh;
            &&& row.parse_cache_status() == ParseCacheStatus::Fresh <==> cached
            &&& row.parse_cache_status() == ParseCacheStatus::NotApplicable <==> unparsed
            &&& row.parse_cache_status() == ParseCacheStatus::Miss <==> !cached && !unparsed
        }),
{
}

/// Of an accepted result: an error stands by each parse that failed and by none that did not,
/// a parse that was missed in the cache has a reason, and only a parse that was made has a
/// transport and attempts.
pub proof fn law_accepted_results_are_whole(
    row: FileResultRecordView,
    audit_accepted: bool,
    error_accepted: bool,
)
    requires
        row.valid(audit_accepted, error_accepted),
    ensures
        row.parse_status == ParseStatus::Success ==> row.error is None,
        row.parse_status == ParseStatus::Error ==> row.error is Some,
        row.parse_status == ParseStatus::Timeout ==> row.error is Some,
        row.error is Some ==> error_accepted,
        audit_accepted,
        row.cache_status == CacheStatus::Fresh <==> row.cache_miss_reason
            == CacheMissReason::NotMissed,
        row.parse_cache_status() == ParseCacheStatus::Miss <==> row.parse_attempt_count > 0,
        row.parse_cache_status() == ParseCacheStatus::Miss <==> row.parse_transport
            != ParseTransport::NotApplicable,
        row.parse_status == ParseStatus::NotParsed ==> row.parse_attempt_count == 0,
        row.file_identity.len() > 0 && row.relative_path.len() > 0,
        row.source_version.len() > 0 && row.parser_backend.len() > 0,
        is_sha256_text(row.parse_profile_hash) && is_sha256_text(row.content_sha256),
        row.parse_duration_ms <= i64::MAX,
        row.primary_duration_ms <= i64::MAX && row.fallback_duration_ms <= i64::MAX,
        forall|snapshot_rows: bool|
            #[trigger] row.persistable(snapshot_rows, audit_accepted, error_accepted),
{
}

/// Where the rows are those of a snapshot, how the parses were made is not asked.
pub proof fn law_snapshot_rows_need_no_execution(
    row: FileResultRecordView,
    parse_transport: ParseTransport,
    parse_attempt_count: u64,
    audit_accepted: bool,
    error_accepted: bool,
)
    requires
        row.valid(audit_accepted, error_accepted),
    ensures
        ({
            let other = FileResultRecordView { parse_transport, parse_attempt_count, ..row };
            &&& other.persistable(true, audit_accepted, error_accepted)
            &&& other.persistable(false, audit_accepted, error_accepted) <==> (parse_transport
                != ParseTransport::NotApplicable) == (row.parse_transport
                != ParseTransport::NotApplicable) && (parse_attempt_count > 0) == (
            row.parse_attempt_count > 0)
        }),
{
}

/// A missed parse is stored with the reason for which it was missed.
pub proof fn law_missed_parses_are_stored_with_their_reason(row: FileResultRecordView)
    ensures
        row.stored_miss_reason(ParseCacheStatus::Miss) == row.cache_miss_reason.text_spec(),
        row.stored_miss_reason(ParseCacheStatus::Fresh).len() == 0,
        row.stored_miss_reason(ParseCacheStatus::NotApplicable).len() == 0,
        row.stored_miss_reason(ParseCacheStatus::Snapshot).len() == 0,
{
    reveal_strlit("");
}

/// Different ways in which a result came about are stored under different names.
pub proof fn law_provenances_have_names_of_their_own(
    left: ParseCacheStatus,
    right: ParseCacheStatus,
)
    ensures
        left.text_spec() == right.text_spec() <==> left == right,
        left.text_spec() == "fresh"@ <==> left == ParseCacheStatus::Fresh,
        left.text_spec() == "miss"@ <==> left == ParseCacheStatus::Miss,
        left.text_spec() == "not_applicable"@ <==> left == ParseCacheStatus::NotApplicable,
        left.text_spec() == "snapshot"@ <==> left == ParseCacheStatus::Snapshot,
{
    reveal_strlit("fresh");
    reveal_strlit("miss");
    reveal_strlit("not_applicable");
    reveal_strlit("snapshot");
    assert("fresh"@.len() == 5 && "miss"@.len() == 4 && "not_applicable"@.len() == 14);
    assert("snapshot"@.len() == 8);
}

} // verus!
