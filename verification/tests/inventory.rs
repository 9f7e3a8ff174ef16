//! Discovered files and their results.
use scanner_core::contract::DiscoveredFileOut;
use scanner_core::store::inventory::{
    is_contract_absolute_path, is_lowercase_extension, is_safe_relative_path,
    parse_source_version, InventoryRecord,
};

fn discovered(
    source_version: &str,
    kind: Option<&str>,
    hash: Option<String>,
) -> DiscoveredFileOut {
    DiscoveredFileOut {
        file_identity: "identity".to_string(),
        path: "C:\\work\\file.txt".to_string(),
        extension: ".txt".to_string(),
        modified_at: "2026-07-16T00:00:00+08:00".to_string(),
        size_bytes: 8,
        source_version: source_version.to_string(),
        source_guard_kind: kind.map(str::to_string),
        source_guard_sha256: hash,
    }
}

#[test]
fn discovered_inventory_requires_source_size_to_agree() {
    let file = discovered("mtime_ns=123:size=9", None, None);
    assert!(InventoryRecord::from_discovered(&file, "file.txt".to_string()).is_err());
}

#[test]
fn discovered_inventory_carries_source_guard() {
    let file = discovered(
        "mtime_ns=123:size=8",
        Some("content_sha256_v1"),
        Some("a".repeat(64)),
    );
    let record = InventoryRecord::from_discovered(&file, "file.txt".to_string())
        .expect("guard-carrying discovery must build an inventory record");
    assert_eq!(record.source_guard_kind.as_deref(), Some("content_sha256_v1"));
    assert_eq!(
        record.source_guard_sha256.as_deref(),
        Some("a".repeat(64).as_str())
    );
    record
        .validate()
        .expect("record must satisfy the guard invariant");
}

#[test]
fn discovered_inventory_rejects_invalid_source_guard() {
    let mut file = discovered("mtime_ns=123:size=8", Some("content_sha256_v1"), None);
    assert!(
        InventoryRecord::from_discovered(&file, "file.txt".to_string()).is_err(),
        "available kind without a hash must be rejected"
    );

    file.source_guard_kind = Some("unavailable".to_string());
    file.source_guard_sha256 = Some("a".repeat(64));
    assert!(
        InventoryRecord::from_discovered(&file, "file.txt".to_string()).is_err(),
        "unavailable kind with a hash must be rejected"
    );

    file.source_guard_kind = Some("unavailable".to_string());
    file.source_guard_sha256 = None;
    let record = InventoryRecord::from_discovered(&file, "file.txt".to_string())
        .expect("unavailable guard with a null hash is valid");
    record
        .validate()
        .expect("record must satisfy the guard invariant");
}

#[test]
fn discovered_records_carry_the_whole_file() {
    let file = discovered("mtime_ns=123:size=8", None, None);
    assert_eq!(
        InventoryRecord::from_discovered(&file, "file.txt".to_string()),
        Ok(InventoryRecord {
            file_identity: "identity".to_string(),
            absolute_path: "C:\\work\\file.txt".to_string(),
            relative_path: "file.txt".to_string(),
            file_type: ".txt".to_string(),
            source_version: "mtime_ns=123:size=8".to_string(),
            size_bytes: 8,
            mtime_ns: 123,
            source_guard_kind: None,
            source_guard_sha256: None,
        })
    );
}

#[test]
fn source_versions_have_one_spelling() {
    assert_eq!(parse_source_version("mtime_ns=123:size=8"), Ok((123, 8)));
    assert!(parse_source_version("mtime_ns=123:size=").is_err());
    assert!(parse_source_version("mtime_ns=x:size=8").is_err());
    assert!(parse_source_version("size=8:mtime_ns=123").is_err());
    assert!(parse_source_version("mtime_ns=123:size=18446744073709551616").is_err());
    assert_eq!(
        parse_source_version("mtime_ns=0:size=18446744073709551615"),
        Ok((0, u64::MAX))
    );
}

#[test]
fn paths_and_extensions_are_checked() {
    assert!(is_contract_absolute_path("C:\\work\\file.txt"));
    assert!(is_contract_absolute_path("/work/file.txt"));
    assert!(!is_contract_absolute_path("work\\file.txt"));
    assert!(!is_contract_absolute_path("C:\\work\0"));
    assert!(is_safe_relative_path("a/b.txt"));
    assert!(!is_safe_relative_path("../b.txt"));
    assert!(!is_safe_relative_path("/b.txt"));
    assert!(!is_safe_relative_path(""));
    assert!(is_lowercase_extension(".txt"));
    assert!(!is_lowercase_extension(".TXT"));
    assert!(!is_lowercase_extension("txt"));
}
