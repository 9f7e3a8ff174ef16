//! Source guards: the content identity that cache entries are bound to.
//!
//! A guard binds a file to its filesystem identity or, where no such identity
//! can be formed, to the hash of its complete content. A guard that cannot be
//! formed at all is `Unavailable` and carries no hash.
use crate::contract::opt_view;
use crate::hash::{sha256_hex, sha256_text, StreamHash};
use crate::ordered::TextSet;
use crate::text::{is_sha256, is_sha256_text, text_eq};
use vstd::prelude::*;

verus! {

/// What a source guard is derived from.
#[derive(Clone, Copy, Debug, PartialEq, Eq, Structural)]
pub enum SourceGuardKind {
    WindowsFileIdChangeTimeV1,
    UnixInodeCtimeV1,
    ContentSha256V1,
    Unavailable,
}
/// Content identity of a source file: a kind and, unless the kind is `Unavailable`, a hash.
#[derive(Debug, PartialEq, Eq)]
pub struct SourceGuardV2 {
    pub kind: SourceGuardKind,
    pub guard_sha256: Option<String>,
}

/// What a [`SourceGuardV2`] says.
#[verifier::ext_equal]
pub struct SourceGuardV2View {
    pub kind: SourceGuardKind,
    pub guard_sha256: Option<Seq<char>>,
}

impl View for SourceGuardV2 {
    type V = SourceGuardV2View;

    open spec fn view(&self) -> SourceGuardV2View {
        SourceGuardV2View {
            kind: self.kind,
            guard_sha256: opt_view(self.guard_sha256),
        }
    }
}

impl Clone for SourceGuardV2 {
    fn clone(&self) -> (copy: Self)
        ensures
            copy@ == self@,
            copy == *self,
    {
        SourceGuardV2 {
            kind: self.kind,
            guard_sha256: self.guard_sha256.clone(),
        }
    }
}

/// The wire text of a guard kind.
pub open spec fn kind_text(kind: SourceGuardKind) -> Seq<char> {
    match kind {
        SourceGuardKind::WindowsFileIdChangeTimeV1 => "windows_file_id_change_time_v1"@,
        SourceGuardKind::UnixInodeCtimeV1 => "unix_inode_ctime_v1"@,
        SourceGuardKind::ContentSha256V1 => "content_sha256_v1"@,
        SourceGuardKind::Unavailable => "unavailable"@,
    }
}

/// The wire text of a guard kind.
pub fn source_guard_kind_text(kind: SourceGuardKind) -> (text: &'static str)
    ensures
        text@ == kind_text(kind),
{
    match kind {
        SourceGuardKind::WindowsFileIdChangeTimeV1 => "windows_file_id_change_time_v1",
        SourceGuardKind::UnixInodeCtimeV1 => "unix_inode_ctime_v1",
        SourceGuardKind::ContentSha256V1 => "content_sha256_v1",
        SourceGuardKind::Unavailable => "unavailable",
    }
}

proof fn lemma_kind_texts_differ()
    ensures
        "windows_file_id_change_time_v1"@.len() == 30,
        "unix_inode_ctime_v1"@.len() == 19,
        "content_sha256_v1"@.len() == 17,
        "unavailable"@.len() == 11,
{
    reveal_strlit("windows_file_id_change_time_v1");
    reveal_strlit("unix_inode_ctime_v1");
    reveal_strlit("content_sha256_v1");
    reveal_strlit("unavailable");
}

/// Each guard kind has a wire text of its own.
pub proof fn law_kind_text_injective(left: SourceGuardKind, right: SourceGuardKind)
    requires
        kind_text(left) == kind_text(right),
    ensures
        left == right,
{
    lemma_kind_texts_differ();
}

/// The guard kind with the given wire text, if there is one.
pub open spec fn kind_of_text(text: Seq<char>) -> Option<SourceGuardKind> {
    if text == kind_text(SourceGuardKind::WindowsFileIdChangeTimeV1) {
        Some(SourceGuardKind::WindowsFileIdChangeTimeV1)
    } else if text == kind_text(SourceGuardKind::UnixInodeCtimeV1) {
        Some(SourceGuardKind::UnixInodeCtimeV1)
    } else if text == kind_text(SourceGuardKind::ContentSha256V1) {
        Some(SourceGuardKind::ContentSha256V1)
    } else if text == kind_text(SourceGuardKind::Unavailable) {
        Some(SourceGuardKind::Unavailable)
    } else {
        None
    }
}

/// Reads a guard kind from its wire text; unknown text gives `None`.
pub fn source_guard_kind_from_text(value: &str) -> (kind: Option<SourceGuardKind>)
    ensures
        kind == kind_of_text(value@),
{
    if text_eq(value, "windows_file_id_change_time_v1") {
        Some(SourceGuardKind::WindowsFileIdChangeTimeV1)
    } else if text_eq(value, "unix_inode_ctime_v1") {
        Some(SourceGuardKind::UnixInodeCtimeV1)
    } else if text_eq(value, "content_sha256_v1") {
        Some(SourceGuardKind::ContentSha256V1)
    } else if text_eq(value, "unavailable") {
        Some(SourceGuardKind::Unavailable)
    } else {
        None
    }
}

/// Reading the wire text of a guard kind gives the kind, and whatever reads as a
/// kind is its wire text.
pub proof fn law_kind_text_round_trip(kind: SourceGuardKind, text: Seq<char>)
    ensures
        kind_of_text(kind_text(kind)) == Some(kind),
        kind_of_text(text) == Some(kind) ==> text == kind_text(kind),
{
    lemma_kind_texts_differ();
}

/// The kind names an identity, so a guard of this kind carries a hash.
pub open spec fn is_available(kind: SourceGuardKind) -> bool {
    kind != SourceGuardKind::Unavailable
}

/// A guard carries a SHA-256 text exactly when its kind is available.
pub open spec fn guard_holds(kind: SourceGuardKind, hash: Option<Seq<char>>) -> bool {
    match hash {
        None => !is_available(kind),
        Some(text) => is_available(kind) && is_sha256_text(text),
    }
}

impl SourceGuardV2 {
    /// What is wrong with a guard, if anything.
    pub open spec fn fault(self) -> Option<Seq<char>> {
        match (self.kind, opt_view(self.guard_sha256)) {
            (SourceGuardKind::Unavailable, Some(_)) => Some(
                "unavailable source guard must have a null hash"@,
            ),
            (SourceGuardKind::Unavailable, None) => None,
            (_, None) => Some("source guard kind requires a sha256"@),
            (_, Some(hash)) => if is_sha256_text(hash) {
                None
            } else {
                Some("source guard hash must be lowercase hex sha256"@)
            },
        }
    }

    /// Checks that the guard carries a hash exactly when its kind is available,
    /// and that the hash is a SHA-256 text.
    pub fn validate(&self) -> (verdict: Result<(), String>)
        ensures
            verdict is Ok <==> guard_holds(self.kind, opt_view(self.guard_sha256)),
            match verdict {
                Ok(()) => self.fault() is None,
                Err(message) => self.fault() == Some(message@),
            },
    {
        match self.kind {
            SourceGuardKind::Unavailable => {
                if self.guard_sha256.is_some() {
                    return Err("unavailable source guard must have a null hash".to_string());
                }
                Ok(())
            },
            _ => match &self.guard_sha256 {
                None => Err("source guard kind requires a sha256".to_string()),
                Some(hash) => {
                    if is_sha256(hash.as_str()) {
                        Ok(())
                    } else {
                        Err("source guard hash must be lowercase hex sha256".to_string())
                    }
                },
            },
        }
    }
}

/// Tests whether two optional texts are equal.
pub fn opt_text_eq(left: &Option<String>, right: &Option<String>) -> (same: bool)
    ensures
        same == (opt_view(*left) == opt_view(*right)),
{
    match (left, right) {
        (None, None) => true,
        (Some(a), Some(b)) => text_eq(a.as_str(), b.as_str()),
        _ => false,
    }
}

/// Tests whether two guards are the same.
pub fn guard_eq(left: &SourceGuardV2, right: &SourceGuardV2) -> (same: bool)
    ensures
        same == (left@ == right@),
{
    left.kind == right.kind && opt_text_eq(&left.guard_sha256, &right.guard_sha256)
}

/// `count` bytes of `value`, least significant first.
pub open spec fn le_bytes(value: nat, count: nat) -> Seq<u8>
    decreases count,
{
    if count == 0 {
        Seq::empty()
    } else {
        seq![(value % 256) as u8] + le_bytes(value / 256, (count - 1) as nat)
    }
}

pub(crate) proof fn lemma_le_bytes_len(value: nat, count: nat)
    ensures
        le_bytes(value, count).len() == count,
    decreases count,
{
    if count > 0 {
        lemma_le_bytes_len(value / 256, (count - 1) as nat);
    }
}

/// `256` to the power `count`.
pub open spec fn byte_range(count: nat) -> nat
    decreases count,
{
    if count == 0 {
        1
    } else {
        256 * byte_range((count - 1) as nat)
    }
}

proof fn lemma_le_bytes_injective(left: nat, right: nat, count: nat)
    requires
        left < byte_range(count),
        right < byte_range(count),
        le_bytes(left, count) == le_bytes(right, count),
    ensures
        left == right,
    decreases count,
{
    if count > 0 {
        let a = le_bytes(left, count);
        let b = le_bytes(right, count);
        let rest = (count - 1) as nat;
        assert(a[0] == (left % 256) as u8);
        assert(b[0] == (right % 256) as u8);
        assert(a.skip(1) =~= le_bytes(left / 256, rest));
        assert(b.skip(1) =~= le_bytes(right / 256, rest));
        lemma_le_bytes_injective(left / 256, right / 256, rest);
    }
}

pub(crate) fn push_le(out: &mut Vec<u8>, value: u128, count: usize)
    ensures
        final(out)@ == old(out)@ + le_bytes(value as nat, count as nat),
    decreases count,
{
    let ghost before = out@;
    if count == 0 {
        assert(before + Seq::<u8>::empty() =~= before);
        return;
    }
    out.push((value % 256) as u8);
    push_le(out, value / 256, count - 1);
    assert(out@ =~= before + le_bytes(value as nat, count as nat));
}

/// `source-guard-v2` and a zero byte, in front of every hashed identity.
pub open spec fn guard_domain() -> Seq<u8> {
    seq![
        115u8, 111u8, 117u8, 114u8, 99u8, 101u8, 45u8, 103u8, 117u8, 97u8, 114u8, 100u8, 45u8,
        118u8, 50u8, 0u8,
    ]
}

fn guard_domain_bytes() -> (bytes: Vec<u8>)
    ensures
        bytes@ == guard_domain(),
{
    let bytes: Vec<u8> = vec![
        115u8, 111u8, 117u8, 114u8, 99u8, 101u8, 45u8, 103u8, 117u8, 97u8, 114u8, 100u8, 45u8,
        118u8, 50u8, 0u8,
    ];
    assert(bytes@ =~= guard_domain());
    bytes
}

/// Nanoseconds since the epoch of a timestamp given in seconds and nanoseconds.
pub fn epoch_ns(seconds: u64, nanos: u64) -> (ns: u128)
    ensures
        ns == seconds * 1_000_000_000 + nanos,
{
    (seconds as u128) * 1_000_000_000 + (nanos as u128)
}

/// What a Unix file system says about a file.
#[derive(Clone, Copy, Debug, PartialEq, Eq)]
pub struct UnixIdentity {
    pub device: u64,
    pub inode: u64,
    pub size: u64,
    pub mtime_ns: u128,
    pub ctime_ns: u128,
}

impl UnixIdentity {
    /// None of the fields that identify the file is the invalid value zero.
    pub open spec fn usable(self) -> bool {
        self.device != 0 && self.inode != 0 && self.mtime_ns != 0 && self.ctime_ns != 0
    }

    /// The hashed form: device, inode, size, modification and change time, each
    /// in little-endian bytes, behind the domain separator.
    pub open spec fn hashed_bytes(self) -> Seq<u8> {
        guard_domain() + le_bytes(self.device as nat, 8) + le_bytes(self.inode as nat, 8)
            + le_bytes(self.size as nat, 8) + le_bytes(self.mtime_ns as nat, 16) + le_bytes(
            self.ctime_ns as nat,
            16,
        )
    }
}

/// The identity hash of a Unix file, unless a field holds the invalid value zero.
pub fn unix_identity(identity: &UnixIdentity) -> (hash: Option<String>)
    ensures
        match hash {
            Some(text) => identity.usable() && text@ == sha256_text(identity.hashed_bytes())
                && is_sha256_text(text@),
            None => !identity.usable(),
        },
{
    if identity.device == 0 || identity.inode == 0 || identity.mtime_ns == 0 || identity.ctime_ns
        == 0 {
        return None;
    }
    let mut bytes: Vec<u8> = guard_domain_bytes();
    push_le(&mut bytes, identity.device as u128, 8);
    push_le(&mut bytes, identity.inode as u128, 8);
    push_le(&mut bytes, identity.size as u128, 8);
    push_le(&mut bytes, identity.mtime_ns, 16);
    push_le(&mut bytes, identity.ctime_ns, 16);
    Some(crate::hash::sha256_hex(bytes.as_slice()))
}

/// What Windows says about an opened file.
#[derive(Debug, PartialEq, Eq)]
pub struct WindowsIdentity {
    pub volume_serial: u32,
    pub file_id: Vec<u8>,
    pub size: u64,
    pub last_write_time: u64,
    pub change_time: u64,
}

impl WindowsIdentity {
    /// The file identifier is sixteen bytes long.
    pub open spec fn well_formed(self) -> bool {
        self.file_id@.len() == 16
    }

    /// None of the fields that identify the file is the invalid value zero.
    pub open spec fn usable(self) -> bool {
        &&& self.volume_serial != 0
        &&& exists|i: int| 0 <= i < self.file_id@.len() && self.file_id@[i] != 0
        &&& self.last_write_time != 0
        &&& self.change_time != 0
    }

    /// The hashed form: volume serial, file identifier, size, last write and
    /// change time behind the domain separator; numbers in little-endian bytes.
    pub open spec fn hashed_bytes(self) -> Seq<u8> {
        guard_domain() + le_bytes(self.volume_serial as nat, 4) + self.file_id@ + le_bytes(
            self.size as nat,
            8,
        ) + le_bytes(self.last_write_time as nat, 8) + le_bytes(self.change_time as nat, 8)
    }
}

/// A file size given as two halves.
pub fn joined_size(high: u32, low: u32) -> (size: u64)
    ensures
        size == high * 0x1_0000_0000 + low,
{
    (high as u64) * 0x1_0000_0000 + (low as u64)
}

/// The identity hash of a Windows file, unless a field holds the invalid value zero.
pub fn windows_identity(identity: &WindowsIdentity) -> (hash: Option<String>)
    ensures
        match hash {
            Some(text) => identity.usable() && text@ == sha256_text(identity.hashed_bytes())
                && is_sha256_text(text@),
            None => !identity.usable(),
        },
{
    if identity.volume_serial == 0 {
        return None;
    }
    let mut blank: bool = true;
    let mut i: usize = 0;
    while i < identity.file_id.len()
        invariant
            i <= identity.file_id.len(),
            blank <==> (forall|k: int| 0 <= k < i ==> identity.file_id@[k] == 0),
        decreases identity.file_id.len() - i,
    {
        if identity.file_id[i] != 0 {
            blank = false;
        }
        i = i + 1;
    }
    if blank || identity.last_write_time == 0 || identity.change_time == 0 {
        return None;
    }
    let mut bytes: Vec<u8> = guard_domain_bytes();
    push_le(&mut bytes, identity.volume_serial as u128, 4);
    let mut j: usize = 0;
    let ghost before = bytes@;
    while j < identity.file_id.len()
        invariant
            j <= identity.file_id.len(),
            bytes@ == before + identity.file_id@.take(j as int),
        decreases identity.file_id.len() - j,
    {
        bytes.push(identity.file_id[j]);
        assert(bytes@ =~= before + identity.file_id@.take(j + 1));
        j = j + 1;
    }
    assert(identity.file_id@.take(j as int) =~= identity.file_id@);
    push_le(&mut bytes, identity.size as u128, 8);
    push_le(&mut bytes, identity.last_write_time as u128, 8);
    push_le(&mut bytes, identity.change_time as u128, 8);
    Some(crate::hash::sha256_hex(bytes.as_slice()))
}

proof fn lemma_split(a: Seq<u8>, x: Seq<u8>, b: Seq<u8>, y: Seq<u8>)
    requires
        a + x == b + y,
        x.len() == y.len(),
    ensures
        a == b,
        x == y,
{
    assert((a + x).len() == a.len() + x.len());
    assert((b + y).len() == b.len() + y.len());
    assert((a + x).take(a.len() as int) =~= a);
    assert((b + y).take(b.len() as int) =~= b);
    assert((a + x).skip(a.len() as int) =~= x);
    assert((b + y).skip(b.len() as int) =~= y);
}

/// Two Unix identities that are hashed alike are the same in every field.
pub proof fn law_unix_identity_is_bound(left: UnixIdentity, right: UnixIdentity)
    requires
        left.hashed_bytes() == right.hashed_bytes(),
    ensures
        left == right,
{
    reveal_with_fuel(byte_range, 17);
    lemma_le_bytes_len(left.device as nat, 8);
    lemma_le_bytes_len(right.device as nat, 8);
    lemma_le_bytes_len(left.inode as nat, 8);
    lemma_le_bytes_len(right.inode as nat, 8);
    lemma_le_bytes_len(left.size as nat, 8);
    lemma_le_bytes_len(right.size as nat, 8);
    lemma_le_bytes_len(left.mtime_ns as nat, 16);
    lemma_le_bytes_len(right.mtime_ns as nat, 16);
    lemma_le_bytes_len(left.ctime_ns as nat, 16);
    lemma_le_bytes_len(right.ctime_ns as nat, 16);
    let d = guard_domain();
    let l1 = d + le_bytes(left.device as nat, 8);
    let r1 = d + le_bytes(right.device as nat, 8);
    let l2 = l1 + le_bytes(left.inode as nat, 8);
    let r2 = r1 + le_bytes(right.inode as nat, 8);
    let l3 = l2 + le_bytes(left.size as nat, 8);
    let r3 = r2 + le_bytes(right.size as nat, 8);
    let l4 = l3 + le_bytes(left.mtime_ns as nat, 16);
    let r4 = r3 + le_bytes(right.mtime_ns as nat, 16);
    lemma_split(l4, le_bytes(left.ctime_ns as nat, 16), r4, le_bytes(right.ctime_ns as nat, 16));
    lemma_split(l3, le_bytes(left.mtime_ns as nat, 16), r3, le_bytes(right.mtime_ns as nat, 16));
    lemma_split(l2, le_bytes(left.size as nat, 8), r2, le_bytes(right.size as nat, 8));
    lemma_split(l1, le_bytes(left.inode as nat, 8), r1, le_bytes(right.inode as nat, 8));
    lemma_split(d, le_bytes(left.device as nat, 8), d, le_bytes(right.device as nat, 8));
    lemma_le_bytes_injective(left.ctime_ns as nat, right.ctime_ns as nat, 16);
    lemma_le_bytes_injective(left.mtime_ns as nat, right.mtime_ns as nat, 16);
    lemma_le_bytes_injective(left.size as nat, right.size as nat, 8);
    lemma_le_bytes_injective(left.inode as nat, right.inode as nat, 8);
    lemma_le_bytes_injective(left.device as nat, right.device as nat, 8);
}

/// Two Windows identities that are hashed alike say the same.
pub proof fn law_windows_identity_is_bound(left: WindowsIdentity, right: WindowsIdentity)
    requires
        left.well_formed(),
        right.well_formed(),
        left.hashed_bytes() == right.hashed_bytes(),
    ensures
        left.volume_serial == right.volume_serial,
        left.file_id@ == right.file_id@,
        left.size == right.size,
        left.last_write_time == right.last_write_time,
        left.change_time == right.change_time,
{
    reveal_with_fuel(byte_range, 9);
    lemma_le_bytes_len(left.volume_serial as nat, 4);
    lemma_le_bytes_len(right.volume_serial as nat, 4);
    lemma_le_bytes_len(left.size as nat, 8);
    lemma_le_bytes_len(right.size as nat, 8);
    lemma_le_bytes_len(left.last_write_time as nat, 8);
    lemma_le_bytes_len(right.last_write_time as nat, 8);
    lemma_le_bytes_len(left.change_time as nat, 8);
    lemma_le_bytes_len(right.change_time as nat, 8);
    let d = guard_domain();
    let l1 = d + le_bytes(left.volume_serial as nat, 4);
    let r1 = d + le_bytes(right.volume_serial as nat, 4);
    let l2 = l1 + left.file_id@;
    let r2 = r1 + right.file_id@;
    let l3 = l2 + le_bytes(left.size as nat, 8);
    let r3 = r2 + le_bytes(right.size as nat, 8);
    let l4 = l3 + le_bytes(left.last_write_time as nat, 8);
    let r4 = r3 + le_bytes(right.last_write_time as nat, 8);
    lemma_split(l4, le_bytes(left.change_time as nat, 8), r4, le_bytes(right.change_time as nat, 8));
    lemma_split(l3, le_bytes(left.last_write_time as nat, 8), r3, le_bytes(right.last_write_time as nat, 8));
    lemma_split(l2, le_bytes(left.size as nat, 8), r2, le_bytes(right.size as nat, 8));
    lemma_split(l1, left.file_id@, r1, right.file_id@);
    lemma_split(d, le_bytes(left.volume_serial as nat, 4), d, le_bytes(right.volume_serial as nat, 4));
    lemma_le_bytes_injective(left.change_time as nat, right.change_time as nat, 8);
    lemma_le_bytes_injective(left.last_write_time as nat, right.last_write_time as nat, 8);
    lemma_le_bytes_injective(left.size as nat, right.size as nat, 8);
    lemma_le_bytes_injective(left.volume_serial as nat, right.volume_serial as nat, 4);
}

/// The guard of the given kind and hash, if that satisfies the guard invariant.
pub fn validated_guard(kind: SourceGuardKind, hash: String) -> (guard: Result<
    SourceGuardV2,
    String,
>)
    ensures
        match guard {
            Ok(g) => guard_holds(kind, Some(hash@)) && g@ == (SourceGuardV2View {
                kind,
                guard_sha256: Some(hash@),
            }),
            Err(message) => !guard_holds(kind, Some(hash@)) && (SourceGuardV2 {
                kind,
                guard_sha256: Some(hash),
            }).fault() == Some(message@),
        },
{
    let guard = SourceGuardV2 { kind, guard_sha256: Some(hash) };
    match guard.validate() {
        Ok(()) => Ok(guard),
        Err(message) => Err(message),
    }
}

/// The guard formed from what was found out about a file: its metadata identity
/// under the platform's kind, else the hash of its complete content, else none.
pub open spec fn formed_guard(
    platform: SourceGuardKind,
    identity: Option<Seq<char>>,
    content: Option<Seq<char>>,
) -> SourceGuardV2View {
    match (identity, content) {
        (Some(hash), _) => SourceGuardV2View { kind: platform, guard_sha256: Some(hash) },
        (None, Some(hash)) => SourceGuardV2View {
            kind: SourceGuardKind::ContentSha256V1,
            guard_sha256: Some(hash),
        },
        (None, None) => SourceGuardV2View {
            kind: SourceGuardKind::Unavailable,
            guard_sha256: None,
        },
    }
}

/// The hash of the whole content of a file.
pub fn full_content_sha256(content: &[u8]) -> (hash: String)
    ensures
        hash@ == sha256_text(content@),
        is_sha256_text(hash@),
{
    sha256_hex(content)
}

/// Forms the guard of a file. The content hash is asked for only when there is no
/// metadata identity.
pub fn form_guard(
    platform: SourceGuardKind,
    identity: Option<String>,
    content: Option<String>,
) -> (guard: Result<SourceGuardV2, String>)
    ensures
        match guard {
            Ok(g) => g@ == formed_guard(platform, opt_view(identity), opt_view(content))
                && guard_holds(g@.kind, g@.guard_sha256),
            Err(_) => ({
                let formed = formed_guard(platform, opt_view(identity), opt_view(content));
                !guard_holds(formed.kind, formed.guard_sha256)
            }),
        },
{
    match identity {
        Some(hash) => validated_guard(platform, hash),
        None => match content {
            Some(hash) => validated_guard(SourceGuardKind::ContentSha256V1, hash),
            None => Ok(
                SourceGuardV2 { kind: SourceGuardKind::Unavailable, guard_sha256: None },
            ),
        },
    }
}

/// Counts of a run's guard observations.
#[derive(Clone, Copy, Debug, PartialEq, Eq, Structural)]
pub struct SourceGuardObservationMetrics {
    pub content_hash_file_count: u64,
    pub unavailable_file_count: u64,
    pub bytes_read: u64,
}

impl Default for SourceGuardObservationMetrics {
    fn default() -> (metrics: Self)
        ensures
            metrics == (SourceGuardObservationMetrics {
                content_hash_file_count: 0,
                unavailable_file_count: 0,
                bytes_read: 0,
            }),
    {
        SourceGuardObservationMetrics {
            content_hash_file_count: 0,
            unavailable_file_count: 0,
            bytes_read: 0,
        }
    }
}

/// What has been read of one file's content.
pub struct ContentObservation {
    stream: StreamHash,
    bytes_read: u64,
}

/// The bytes read of one file, and their saturated count.
#[verifier::ext_equal]
pub struct ContentObservationView {
    pub content: Seq<u8>,
    pub bytes_read: u64,
}

impl View for ContentObservation {
    type V = ContentObservationView;

    closed spec fn view(&self) -> ContentObservationView {
        ContentObservationView { content: self.stream@, bytes_read: self.bytes_read }
    }
}

/// The sum of two counts, or the largest count when it does not fit.
pub open spec fn saturated_sum(left: int, right: int) -> u64 {
    if left + right > u64::MAX {
        u64::MAX
    } else {
        (left + right) as u64
    }
}

impl ContentObservation {
    /// Nothing has been read.
    pub fn new() -> (observation: Self)
        ensures
            observation@ == (ContentObservationView { content: Seq::empty(), bytes_read: 0 }),
    {
        ContentObservation { stream: StreamHash::new(), bytes_read: 0 }
    }

    /// Takes in the next chunk that was read.
    pub fn read(&mut self, chunk: &[u8])
        ensures
            final(self)@ == (ContentObservationView {
                content: old(self)@.content + chunk@,
                bytes_read: saturated_sum(old(self)@.bytes_read as int, chunk@.len() as int),
            }),
    {
        self.bytes_read = self.bytes_read.saturating_add(chunk.len() as u64);
        self.stream.feed(chunk);
    }
}

/// Run-scoped guard observations. Files are counted once each; bytes are counted
/// for every attempt. A path that failed verification stays tainted.
pub struct SourceGuardObserver {
    content_hash_paths: TextSet,
    unavailable_paths: TextSet,
    tainted_paths: TextSet,
    bytes_read: u64,
}

/// What an observer has recorded.
#[verifier::ext_equal]
pub struct ObserverView {
    pub content_hash_paths: Set<Seq<char>>,
    pub unavailable_paths: Set<Seq<char>>,
    pub tainted_paths: Set<Seq<char>>,
    pub bytes_read: u64,
}

impl View for SourceGuardObserver {
    type V = ObserverView;

    closed spec fn view(&self) -> ObserverView {
        ObserverView {
            content_hash_paths: self.content_hash_paths@,
            unavailable_paths: self.unavailable_paths@,
            tainted_paths: self.tainted_paths@,
            bytes_read: self.bytes_read,
        }
    }
}

impl ObserverView {
    /// After a guard computation on `path` that gave a guard or failed.
    pub open spec fn computed(self, path: Seq<char>, failed: bool) -> ObserverView {
        if failed {
            ObserverView { unavailable_paths: self.unavailable_paths.insert(path), ..self }
        } else {
            self
        }
    }

    /// After a complete-content read of `path` that took in `read` and either
    /// reached the end or failed.
    pub open spec fn content_read(
        self,
        path: Seq<char>,
        read: ContentObservationView,
        completed: bool,
    ) -> ObserverView {
        ObserverView {
            content_hash_paths: self.content_hash_paths.insert(path),
            unavailable_paths: if completed {
                self.unavailable_paths
            } else {
                self.unavailable_paths.insert(path)
            },
            tainted_paths: self.tainted_paths,
            bytes_read: saturated_sum(self.bytes_read as int, read.bytes_read as int),
        }
    }

    /// Whether `path` verifies, given the expected guard and the recomputed one.
    pub open spec fn verifies(
        self,
        path: Seq<char>,
        expected: SourceGuardV2View,
        actual: Option<SourceGuardV2View>,
    ) -> bool {
        !self.tainted_paths.contains(path) && actual == Some(expected)
    }

    /// After a verification of `path`.
    pub open spec fn verified(
        self,
        path: Seq<char>,
        expected: SourceGuardV2View,
        actual: Option<SourceGuardV2View>,
    ) -> ObserverView {
        if self.verifies(path, expected, actual) {
            self
        } else {
            ObserverView { tainted_paths: self.tainted_paths.insert(path), ..self }
        }
    }
}

impl SourceGuardObserver {
    /// An observer that has seen nothing.
    pub fn new() -> (observer: Self)
        ensures
            observer@ == (ObserverView {
                content_hash_paths: Set::empty(),
                unavailable_paths: Set::empty(),
                tainted_paths: Set::empty(),
                bytes_read: 0,
            }),
    {
        SourceGuardObserver {
            content_hash_paths: TextSet::new(),
            unavailable_paths: TextSet::new(),
            tainted_paths: TextSet::new(),
            bytes_read: 0,
        }
    }

    /// Records the outcome of a guard computation: a failed one marks the path
    /// unavailable.
    pub fn compute(&mut self, path: &str, outcome: Result<SourceGuardV2, String>) -> (result: Result<
        SourceGuardV2,
        String,
    >)
        ensures
            result == outcome,
            final(self)@ == old(self)@.computed(path@, outcome is Err),
    {
        if outcome.is_err() {
            self.record_unavailable(path);
        }
        outcome
    }

    /// Compares the recomputed guard of `path` (`None` when it could not be
    /// computed) with the expected one. A tainted path never verifies, and a
    /// mismatch taints the path.
    pub fn verify(
        &mut self,
        path: &str,
        expected: &SourceGuardV2,
        actual: Option<SourceGuardV2>,
    ) -> (matches: bool)
        ensures
            matches == old(self)@.verifies(path@, expected@, opt_view(actual)),
            final(self)@ == old(self)@.verified(path@, expected@, opt_view(actual)),
    {
        if self.tainted_paths.contains(path) {
            proof {
                let before = self@;
                assert(before.tainted_paths.insert(path@) =~= before.tainted_paths);
            }
            return false;
        }
        let matches: bool = match &actual {
            Some(guard) => guard_eq(guard, expected),
            None => false,
        };
        if !matches {
            self.tainted_paths.insert(path.to_string());
        }
        matches
    }

    /// Counts of what was observed.
    pub fn metrics(&self) -> (metrics: SourceGuardObservationMetrics)
        ensures
            metrics.content_hash_file_count == self@.content_hash_paths.len(),
            metrics.unavailable_file_count == self@.unavailable_paths.len(),
            metrics.bytes_read == self@.bytes_read,
            self@.content_hash_paths.finite(),
            self@.unavailable_paths.finite(),
    {
        SourceGuardObservationMetrics {
            content_hash_file_count: self.content_hash_paths.len() as u64,
            unavailable_file_count: self.unavailable_paths.len() as u64,
            bytes_read: self.bytes_read,
        }
    }

    /// Records a complete-content read of `path`. The hash is given when the read
    /// reached the end of the file; otherwise the path is unavailable.
    pub fn observed_full_content_sha256(
        &mut self,
        path: &str,
        observation: ContentObservation,
        completed: bool,
    ) -> (hash: Option<String>)
        ensures
            opt_view(hash) == if completed {
                Some(sha256_text(observation@.content))
            } else {
                None
            },
            hash matches Some(text) ==> is_sha256_text(text@),
            final(self)@ == old(self)@.content_read(path@, observation@, completed),
    {
        self.record_content_hash_path(path);
        let bytes_read: u64 = observation.bytes_read;
        self.bytes_read = self.bytes_read.saturating_add(bytes_read);
        if completed {
            Some(observation.stream.finish())
        } else {
            self.record_unavailable(path);
            None
        }
    }

    /// Records that the complete content of `path` was asked for.
    pub fn record_content_hash_path(&mut self, path: &str)
        ensures
            final(self)@ == (ObserverView {
                content_hash_paths: old(self)@.content_hash_paths.insert(path@),
                ..old(self)@
            }),
    {
        self.content_hash_paths.insert(path.to_string());
    }

    /// Records that no guard could be formed for `path`.
    pub fn record_unavailable(&mut self, path: &str)
        ensures
            final(self)@ == (ObserverView {
                unavailable_paths: old(self)@.unavailable_paths.insert(path@),
                ..old(self)@
            }),
    {
        self.unavailable_paths.insert(path.to_string());
    }

    /// Tests whether `path` failed verification earlier in the run.
    pub fn is_tainted(&self, path: &str) -> (tainted: bool)
        ensures
            tainted == self@.tainted_paths.contains(path@),
    {
        self.tainted_paths.contains(path)
    }
}

/// A path that failed verification once does not verify again in the same run,
/// whatever was verified, computed or read in between.
pub proof fn law_taint_is_sticky(
    state: ObserverView,
    path: Seq<char>,
    expected: SourceGuardV2View,
    actual: Option<SourceGuardV2View>,
    other: Seq<char>,
    other_expected: SourceGuardV2View,
    other_actual: Option<SourceGuardV2View>,
    failed: bool,
    read: ContentObservationView,
    completed: bool,
    later_expected: SourceGuardV2View,
    later_actual: Option<SourceGuardV2View>,
)
    requires
        !state.verifies(path, expected, actual),
    ensures
        ({
            let after = state.verified(path, expected, actual);
            &&& !after.verifies(path, later_expected, later_actual)
            &&& after.verified(other, other_expected, other_actual).tainted_paths.contains(path)
            &&& after.computed(other, failed).tainted_paths.contains(path)
            &&& after.content_read(other, read, completed).tainted_paths.contains(path)
        }),
{
}

/// Reading the content of one path again counts the file once and its bytes each
/// time.
pub proof fn law_repeated_reads_count_one_file(
    state: ObserverView,
    path: Seq<char>,
    read: ContentObservationView,
    first: bool,
    second: bool,
)
    requires
        state.bytes_read + 2 * read.bytes_read <= u64::MAX,
    ensures
        ({
            let twice = state.content_read(path, read, first).content_read(path, read, second);
            &&& twice.content_hash_paths == state.content_hash_paths.insert(path)
            &&& twice.bytes_read == state.bytes_read + 2 * read.bytes_read
        }),
{
    assert(state.content_hash_paths.insert(path).insert(path) =~= state.content_hash_paths.insert(
        path,
    ));
}

/// Each kind of guard is told by its own name.
pub proof fn law_guard_kinds_have_names_of_their_own(kind: SourceGuardKind)
    ensures
        kind_text(kind) == "windows_file_id_change_time_v1"@ <==> kind
            == SourceGuardKind::WindowsFileIdChangeTimeV1,
        kind_text(kind) == "unix_inode_ctime_v1"@ <==> kind == SourceGuardKind::UnixInodeCtimeV1,
        kind_text(kind) == "content_sha256_v1"@ <==> kind == SourceGuardKind::ContentSha256V1,
        kind_text(kind) == "unavailable"@ <==> kind == SourceGuardKind::Unavailable,
{
    lemma_kind_texts_differ();
}

/// A guard is sound exactly where it has a hash and a kind that goes with one, or neither.
pub proof fn law_sound_guards_have_a_hash_where_they_are_available(
    kind: SourceGuardKind,
    hash: Option<Seq<char>>,
)
    ensures
        kind == SourceGuardKind::Unavailable ==> (guard_holds(kind, hash) <==> hash is None),
        kind != SourceGuardKind::Unavailable ==> (guard_holds(kind, hash) <==> hash is Some
            && is_sha256_text(hash->0)),
{
}

/// The bytes of a number come with the lowest first.
pub proof fn law_numbers_are_laid_out_lowest_byte_first(low: u8, rest: nat, count: nat)
    ensures
        le_bytes(rest * 256 + low as nat, count + 1) == seq![low] + le_bytes(rest, count),
        le_bytes(rest, count).len() == count,
{
    lemma_le_bytes_len(rest, count);
    let value = rest * 256 + low as nat;
    assert(value % 256 == low as nat && value / 256 == rest);
}

/// What is hashed of a Unix file: the name of the scheme, then its device, its inode, its
/// size, and the times of its last change of content and of its last change at all.
pub proof fn law_unix_identities_are_laid_out_in_order(identity: UnixIdentity)
    ensures
        ({
            let bytes = identity.hashed_bytes();
            &&& bytes.len() == 72
            &&& bytes.subrange(16, 24) == le_bytes(identity.device as nat, 8)
            &&& bytes.subrange(24, 32) == le_bytes(identity.inode as nat, 8)
            &&& bytes.subrange(32, 40) == le_bytes(identity.size as nat, 8)
            &&& bytes.subrange(40, 56) == le_bytes(identity.mtime_ns as nat, 16)
            &&& bytes.subrange(56, 72) == le_bytes(identity.ctime_ns as nat, 16)
            &&& forall|i: int|
                0 <= i < 15 ==> #[trigger] bytes[i] as int == "source-guard-v2"@[i] as int
            &&& bytes[15] == 0
        }),
        identity.usable() <==> identity.device > 0 && identity.inode > 0 && identity.mtime_ns > 0
            && identity.ctime_ns > 0,
{
    reveal_strlit("source-guard-v2");
    lemma_le_bytes_len(identity.device as nat, 8);
    lemma_le_bytes_len(identity.inode as nat, 8);
    lemma_le_bytes_len(identity.size as nat, 8);
    lemma_le_bytes_len(identity.mtime_ns as nat, 16);
    lemma_le_bytes_len(identity.ctime_ns as nat, 16);
    let bytes = identity.hashed_bytes();
    assert(bytes.subrange(16, 24) =~= le_bytes(identity.device as nat, 8));
    assert(bytes.subrange(24, 32) =~= le_bytes(identity.inode as nat, 8));
    assert(bytes.subrange(32, 40) =~= le_bytes(identity.size as nat, 8));
    assert(bytes.subrange(40, 56) =~= le_bytes(identity.mtime_ns as nat, 16));
    assert(bytes.subrange(56, 72) =~= le_bytes(identity.ctime_ns as nat, 16));
    assert forall|i: int| 0 <= i < 15 implies #[trigger] bytes[i] as int
        == "source-guard-v2"@[i] as int by {
        assert(bytes[i] == guard_domain()[i]);
    }
    assert(bytes[15] == guard_domain()[15]);
}

/// What is hashed of a Windows file: the name of the scheme, then its volume, its identity,
/// its size, and the times of its last write and of its last change.
pub proof fn law_windows_identities_are_laid_out_in_order(identity: WindowsIdentity)
    requires
        identity.well_formed(),
    ensures
        ({
            let bytes = identity.hashed_bytes();
            &&& bytes.len() == 60
            &&& bytes.subrange(16, 20) == le_bytes(identity.volume_serial as nat, 4)
            &&& bytes.subrange(20, 36) == identity.file_id@
            &&& bytes.subrange(36, 44) == le_bytes(identity.size as nat, 8)
            &&& bytes.subrange(44, 52) == le_bytes(identity.last_write_time as nat, 8)
            &&& bytes.subrange(52, 60) == le_bytes(identity.change_time as nat, 8)
            &&& forall|i: int|
                0 <= i < 15 ==> #[trigger] bytes[i] as int == "source-guard-v2"@[i] as int
            &&& bytes[15] == 0
        }),
        identity.volume_serial == 0 ==> !identity.usable(),
        identity.last_write_time == 0 ==> !identity.usable(),
        identity.change_time == 0 ==> !identity.usable(),
        (forall|i: int| 0 <= i < 16 ==> #[trigger] identity.file_id@[i] == 0)
            ==> !identity.usable(),
        identity.volume_serial > 0 && identity.last_write_time > 0 && identity.change_time > 0
            && !(forall|i: int| 0 <= i < 16 ==> #[trigger] identity.file_id@[i] == 0)
            ==> identity.usable(),
{
    reveal_strlit("source-guard-v2");
    lemma_le_bytes_len(identity.volume_serial as nat, 4);
    lemma_le_bytes_len(identity.size as nat, 8);
    lemma_le_bytes_len(identity.last_write_time as nat, 8);
    lemma_le_bytes_len(identity.change_time as nat, 8);
    let bytes = identity.hashed_bytes();
    assert(bytes.subrange(16, 20) =~= le_bytes(identity.volume_serial as nat, 4));
    assert(bytes.subrange(20, 36) =~= identity.file_id@);
    assert(bytes.subrange(36, 44) =~= le_bytes(identity.size as nat, 8));
    assert(bytes.subrange(44, 52) =~= le_bytes(identity.last_write_time as nat, 8));
    assert(bytes.subrange(52, 60) =~= le_bytes(identity.change_time as nat, 8));
    assert forall|i: int| 0 <= i < 15 implies #[trigger] bytes[i] as int
        == "source-guard-v2"@[i] as int by {
        assert(bytes[i] == guard_domain()[i]);
    }
    assert(bytes[15] == guard_domain()[15]);
}

/// A guard is of the platform's identity where there is one, else of the content where that
/// was read, else of neither.
pub proof fn law_guards_are_of_the_best_that_is_known(
    platform: SourceGuardKind,
    identity: Option<Seq<char>>,
    content: Option<Seq<char>>,
)
    ensures
        ({
            let guard = formed_guard(platform, identity, content);
            &&& identity is Some ==> guard.kind == platform && guard.guard_sha256 == identity
            &&& identity is None && content is Some ==> guard.kind
                == SourceGuardKind::ContentSha256V1 && guard.guard_sha256 == content
            &&& identity is None && content is None ==> guard.kind
                == SourceGuardKind::Unavailable && guard.guard_sha256 is None
        }),
{
}

/// A file is found unchanged exactly where its guard is the one that it had and it was never
/// found changed before; from the first time that it is not, and no other file is touched.
pub proof fn law_files_are_unchanged_while_their_guard_is(
    state: ObserverView,
    path: Seq<char>,
    expected: SourceGuardV2View,
    actual: Option<SourceGuardV2View>,
    other: Seq<char>,
)
    ensures
        state.verifies(path, expected, actual) <==> actual is Some && actual->0.kind
            == expected.kind && actual->0.guard_sha256 == expected.guard_sha256
            && !state.tainted_paths.contains(path),
        ({
            let after = state.verified(path, expected, actual);
            &&& after.tainted_paths.contains(path) <==> !state.verifies(path, expected, actual)
            &&& other != path ==> (after.tainted_paths.contains(other)
                <==> state.tainted_paths.contains(other))
            &&& after.content_hash_paths == state.content_hash_paths
            &&& after.unavailable_paths == state.unavailable_paths
            &&& after.bytes_read == state.bytes_read
        }),
{
}

/// A file whose content was read is noted as such with the bytes that were read, and as
/// unavailable where the reading broke off; a guard that failed makes its file unavailable.
pub proof fn law_observations_are_noted_for_their_file(
    state: ObserverView,
    path: Seq<char>,
    read: ContentObservationView,
    completed: bool,
    failed: bool,
    other: Seq<char>,
)
    ensures
        ({
            let after = state.content_read(path, read, completed);
            &&& after.content_hash_paths.contains(path)
            &&& after.unavailable_paths.contains(path) <==> !completed
                || state.unavailable_paths.contains(path)
            &&& other != path ==> (after.content_hash_paths.contains(other)
                <==> state.content_hash_paths.contains(other)) && (
            after.unavailable_paths.contains(other) <==> state.unavailable_paths.contains(other))
            &&& after.tainted_paths == state.tainted_paths
            &&& state.bytes_read + read.bytes_read <= u64::MAX ==> after.bytes_read
                == state.bytes_read + read.bytes_read
            &&& state.bytes_read + read.bytes_read > u64::MAX ==> after.bytes_read == u64::MAX
        }),
        ({
            let after = state.computed(path, failed);
            &&& after.unavailable_paths.contains(path) <==> failed
                || state.unavailable_paths.contains(path)
            &&& other != path ==> (after.unavailable_paths.contains(other)
                <==> state.unavailable_paths.contains(other))
            &&& after.content_hash_paths == state.content_hash_paths
            &&& after.tainted_paths == state.tainted_paths
            &&& after.bytes_read == state.bytes_read
        }),
{
}

/// A time and a size that come in two parts are put together from both.
pub proof fn law_halves_are_put_together(
    seconds: u64,
    nanos: u64,
    ns: u128,
    high: u32,
    low: u32,
    size: u64,
)
    requires
        call_ensures(epoch_ns, (seconds, nanos), ns),
        call_ensures(joined_size, (high, low), size),
    ensures
        nanos < 1_000_000_000 ==> ns / 1_000_000_000 == seconds && ns % 1_000_000_000 == nanos,
        size / 0x1_0000_0000 == high,
        size % 0x1_0000_0000 == low,
{
}

} // verus!
