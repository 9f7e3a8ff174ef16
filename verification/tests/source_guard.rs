//! Source guards and what is observed of them.
use scanner_core::source_guard::{
    full_content_sha256, source_guard_kind_from_text, source_guard_kind_text,
    unix_identity, ContentObservation, SourceGuardKind, SourceGuardObservationMetrics,
    SourceGuardObserver, SourceGuardV2, UnixIdentity,
};
use sha2::{Digest, Sha256};

fn hex(bytes: &[u8]) -> String {
    bytes.iter().map(|byte| format!("{byte:02x}")).collect()
}

#[test]
fn repeated_full_hash_attempts_count_one_file_and_all_bytes() {
    let mut observer = SourceGuardObserver::new();
    let path = "fixture/full-hash.txt";
    let bytes = b"complete bytes";

    for _ in 0..2 {
        let mut observation = ContentObservation::new();
        observation.read(bytes);
        let hash = observer
            .observed_full_content_sha256(path, observation, true)
            .expect("full hash");
        assert_eq!(hash, hex(&Sha256::digest(bytes)));
    }

    assert_eq!(
        observer.metrics(),
        SourceGuardObservationMetrics {
            content_hash_file_count: 1,
            unavailable_file_count: 0,
            bytes_read: (bytes.len() * 2) as u64,
        }
    );
}

#[test]
fn failed_full_hash_counts_bytes_read_before_failure() {
    let mut observer = SourceGuardObserver::new();
    let path = "fixture/failing-hash.txt";

    for _ in 0..2 {
        let mut observation = ContentObservation::new();
        observation.read(b"abc");
        assert!(observer
            .observed_full_content_sha256(path, observation, false)
            .is_none());
    }

    assert_eq!(
        observer.metrics(),
        SourceGuardObservationMetrics {
            content_hash_file_count: 1,
            unavailable_file_count: 1,
            bytes_read: 6,
        }
    );
}

#[test]
fn whole_content_is_hashed() {
    assert_eq!(
        full_content_sha256(b"abc"),
        "ba7816bf8f01cfea414140de5dae2223b00361a396177a9cb410ff61f20015ad"
    );
    assert_eq!(
        full_content_sha256(b""),
        "e3b0c44298fc1c149afbf4c8996fb92427ae41e4649b934ca495991b7852b855"
    );
}

#[test]
fn chunks_do_not_change_the_hash() {
    let mut observer = SourceGuardObserver::new();
    let mut observation = ContentObservation::new();
    observation.read(b"a");
    observation.read(b"");
    observation.read(b"bc");
    assert_eq!(
        observer.observed_full_content_sha256("f", observation, true),
        Some(full_content_sha256(b"abc"))
    );
}

#[test]
fn guard_kinds_round_trip() {
    for kind in [
        SourceGuardKind::WindowsFileIdChangeTimeV1,
        SourceGuardKind::UnixInodeCtimeV1,
        SourceGuardKind::ContentSha256V1,
        SourceGuardKind::Unavailable,
    ] {
        assert_eq!(
            source_guard_kind_from_text(source_guard_kind_text(kind)),
            Some(kind)
        );
    }
    assert_eq!(source_guard_kind_from_text("content_sha256"), None);
}

#[test]
fn a_tainted_path_never_verifies_again() {
    let guard = SourceGuardV2 {
        kind: SourceGuardKind::ContentSha256V1,
        guard_sha256: Some("a".repeat(64)),
    };
    let other = SourceGuardV2 {
        kind: SourceGuardKind::ContentSha256V1,
        guard_sha256: Some("b".repeat(64)),
    };
    let mut observer = SourceGuardObserver::new();
    assert!(observer.verify("p", &guard, Some(guard.clone())));
    assert!(!observer.verify("p", &guard, Some(other)));
    assert!(observer.is_tainted("p"));
    assert!(!observer.verify("p", &guard, Some(guard.clone())));
    assert!(!observer.is_tainted("q"));
}

#[test]
fn unix_identities_name_every_part() {
    let base = UnixIdentity {
        device: 1,
        inode: 2,
        size: 3,
        mtime_ns: 4,
        ctime_ns: 5,
    };
    let hash = unix_identity(&base).expect("identity");
    assert_eq!(hash.len(), 64);
    for changed in [
        UnixIdentity { device: 9, ..base },
        UnixIdentity { inode: 9, ..base },
        UnixIdentity { size: 9, ..base },
        UnixIdentity { mtime_ns: 9, ..base },
        UnixIdentity { ctime_ns: 9, ..base },
    ] {
        assert_ne!(unix_identity(&changed), Some(hash.clone()));
    }
    assert_eq!(unix_identity(&UnixIdentity { inode: 0, ..base }), None);
}

#[test]
fn invalid_guards_are_refused() {
    assert!(SourceGuardV2 {
        kind: SourceGuardKind::ContentSha256V1,
        guard_sha256: None
    }
    .validate()
    .is_err());
    assert!(SourceGuardV2 {
        kind: SourceGuardKind::Unavailable,
        guard_sha256: Some("a".repeat(64))
    }
    .validate()
    .is_err());
    assert_eq!(
        SourceGuardV2 {
            kind: SourceGuardKind::ContentSha256V1,
            guard_sha256: Some("A".repeat(64))
        }
        .validate(),
        Err("source guard hash must be lowercase hex sha256".to_string())
    );
}
