//! The parse and classification caches.
use scanner_core::contract::CacheMissReason;
use scanner_core::hash::sha256_hex;
use scanner_core::profile::{
    ExecutionProfile, ExtensionTimeout, NormalizedScannerProfileV1, NormalizedScannerProfileV2,
    OfficeParseProfile, ParseProfile, PdfParseProfile, TextParseProfile,
};
use scanner_core::store::cache::{
    cache_retention_policy, classification_entry_size_bytes, classifier_profile_hash,
    date_bucket_for_ms, evict_classification_cache, evict_parse_cache, lookup_cache,
    lookup_classification_cache, parse_entry_size_bytes, parse_profile_hash, recompute_rank,
    write_success_cache, write_success_classification_cache, CacheLookup, CacheWriteRecord,
    ClassificationCacheLookup, ClassificationCacheMissReason, ClassificationCacheRow,
    ClassificationCacheWriteRecord, ParseCacheRow, RouteStackFingerprint, RouteStackMember,
    PARSE_CACHE_MAX_BYTES,
};

fn parse_profile(max_pages: u64) -> ParseProfile {
    ParseProfile {
        text: TextParseProfile { max_chars: 20_000 },
        pdf: PdfParseProfile { max_pages },
        office: OfficeParseProfile {
            primary_backend: "rust_office_v1".to_string(),
            fallback_after_timeout: false,
            fallback_order: vec!["first_v1".to_string(), "second_v1".to_string()],
        },
    }
}

fn execution() -> ExecutionProfile {
    ExecutionProfile {
        max_workers: 4,
        max_file_size_bytes: 1_048_576,
        file_timeout_ms: 30_000,
        file_timeout_by_extension_ms: Vec::new(),
    }
}

fn v1_profile() -> NormalizedScannerProfileV1 {
    NormalizedScannerProfileV1 {
        parser_profile_version: "v1".to_string(),
        execution: execution(),
        parse: parse_profile(20),
    }
}

fn v2_profile(max_pages: u64) -> NormalizedScannerProfileV2 {
    NormalizedScannerProfileV2 {
        execution: execution(),
        parse: parse_profile(max_pages),
        classifier_policy_version: "pdf_text_policy_v1".to_string(),
        pdf_classification_timeout_ms: 5_000,
        max_total_pdf_classification_pages: 1_000,
        session_concurrency: 4,
        max_requests_per_session: 128,
        session_idle_ttl_ms: 30_000,
        session_rss_limit_bytes: 536_870_912,
        total_deadline_ms: 60_000,
    }
}

#[test]
fn parse_profile_hash_changes_for_every_content_semantic_input() {
    let profile = v1_profile();
    let route = RouteStackFingerprint::text("build-a").unwrap();
    let hash = |route: &RouteStackFingerprint, profile: &NormalizedScannerProfileV1| {
        parse_profile_hash(1, route, profile, Ok(())).unwrap()
    };
    let base = hash(&route, &profile);

    let mut timeout = profile.clone();
    timeout.execution.file_timeout_ms += 1_000;
    let mut extension_timeout = profile.clone();
    extension_timeout
        .execution
        .file_timeout_by_extension_ms
        .push(ExtensionTimeout {
            extension: ".txt".to_string(),
            timeout_ms: 2_000,
        });
    let mut guard = profile.clone();
    guard.execution.max_file_size_bytes += 1;
    let mut parse = profile.clone();
    parse.parse.text.max_chars += 1;
    let mut parser_profile_version = profile.clone();
    parser_profile_version.parser_profile_version = "v2".to_string();
    let mut backend = profile.clone();
    backend.parse.office.primary_backend = "different_office_backend_v1".to_string();
    let mut fallback = profile.clone();
    fallback.parse.office.fallback_after_timeout = true;
    let mut fallback_order = profile.clone();
    fallback_order.parse.office.fallback_order.reverse();
    let changed_route = RouteStackFingerprint::text("build-b").unwrap();
    let changed_backend_route = RouteStackFingerprint::modern_office(
        "build-a",
        "ai_daily_worker_v1",
        "office-build",
        None,
    )
    .unwrap();

    assert_ne!(base, hash(&route, &timeout));
    assert_ne!(base, hash(&route, &extension_timeout));
    assert_ne!(base, hash(&route, &guard));
    assert_ne!(base, hash(&route, &parse));
    assert_ne!(base, hash(&route, &parser_profile_version));
    assert_ne!(base, hash(&route, &backend));
    assert_ne!(base, hash(&route, &fallback));
    assert_ne!(base, hash(&route, &fallback_order));
    assert_ne!(base, hash(&changed_route, &profile));
    assert_ne!(base, hash(&changed_backend_route, &profile));
    assert!(parse_profile_hash(2, &route, &profile, Ok(())).is_err());
}

#[test]
fn parse_profile_hash_is_of_the_canonical_json() {
    let route = RouteStackFingerprint::text("build \"a\"").unwrap();
    let mut profile = v1_profile();
    profile.execution.file_timeout_by_extension_ms.push(ExtensionTimeout {
        extension: ".txt".to_string(),
        timeout_ms: 2_000,
    });
    let json = concat_json(&[
        "{\"protocol_version\":1,\"route_stack\":{\"route\":\"text_like\",\"members\":[",
        "{\"component\":\"engine\",\"contract\":\"ai_daily_context_v1\",\"build\":\"build \\\"a\\\"\"}]},",
        "\"parser_profile_version\":\"v1\",\"max_file_size_bytes\":1048576,",
        "\"default_timeout_ms\":30000,\"timeout_by_extension_ms\":{\".txt\":2000},",
        "\"parse\":{\"text\":{\"max_chars\":20000},\"pdf\":{\"max_pages\":20},",
        "\"office\":{\"primary_backend\":\"rust_office_v1\",\"fallback_after_timeout\":false,",
        "\"fallback_order\":[\"first_v1\",\"second_v1\"]}}}",
    ]);
    let mut bytes = b"parse-profile-v1\0".to_vec();
    bytes.extend_from_slice(json.as_bytes());
    assert_eq!(
        parse_profile_hash(1, &route, &profile, Ok(())),
        Ok(sha256_hex(&bytes))
    );
    assert_eq!(
        parse_profile_hash(1, &route, &profile, Err("refused".to_string())),
        Err("refused".to_string())
    );
}

fn concat_json(parts: &[&str]) -> String {
    parts.concat()
}

#[test]
fn route_stack_hash_includes_each_applicable_worker_contract_and_build() {
    let profile = v1_profile();
    let without_fallback = RouteStackFingerprint::modern_office(
        "engine-build",
        "ai_daily_worker_v1",
        "office-build",
        None,
    )
    .unwrap();
    let with_fallback = RouteStackFingerprint::modern_office(
        "engine-build",
        "ai_daily_worker_v1",
        "office-build",
        Some(("ai_daily_worker_v1", "python-build")),
    )
    .unwrap();
    let changed_python = RouteStackFingerprint::modern_office(
        "engine-build",
        "ai_daily_worker_v1",
        "office-build",
        Some(("ai_daily_worker_v1", "python-build-2")),
    )
    .unwrap();
    let changed_contract = RouteStackFingerprint::modern_office(
        "engine-build",
        "ai_daily_worker_v2",
        "office-build",
        Some(("ai_daily_worker_v1", "python-build")),
    )
    .unwrap();

    let hash = |route: &RouteStackFingerprint| {
        parse_profile_hash(1, route, &profile, Ok(())).unwrap()
    };
    let base = hash(&without_fallback);
    assert_ne!(base, hash(&with_fallback));
    assert_ne!(hash(&with_fallback), hash(&changed_python));
    assert_ne!(hash(&with_fallback), hash(&changed_contract));
}

#[test]
fn route_stacks_have_distinct_complete_components() {
    let engine = || RouteStackMember::engine("build");
    assert_eq!(
        RouteStackFingerprint::from_members("text_like", vec![engine(), engine()]).err(),
        Some("route stack fingerprint components must be unique".to_string())
    );
    assert_eq!(
        RouteStackFingerprint::from_members("text_like", Vec::new()).err(),
        Some("route stack fingerprint is incomplete".to_string())
    );
    assert!(RouteStackFingerprint::text("").is_err());
}

#[test]
fn classifier_profile_hash_changes_for_every_classification_semantic_input() {
    let profile = v2_profile(20);
    let hash = |profile: &NormalizedScannerProfileV2| {
        classifier_profile_hash(profile, Ok(())).unwrap()
    };
    let base = hash(&profile);

    let mut timeout = profile.clone();
    timeout.pdf_classification_timeout_ms += 1_000;
    let mut pages = profile.clone();
    pages.parse.pdf.max_pages += 1;
    let report_mode = v2_profile(60);

    assert_ne!(base, hash(&timeout));
    assert_ne!(base, hash(&pages));
    assert_ne!(base, hash(&report_mode));
    assert_eq!(base, hash(&profile));
    let mut quota = profile.clone();
    quota.max_total_pdf_classification_pages += 1;
    let mut session = profile.clone();
    session.session_concurrency += 1;
    let mut deadline = profile.clone();
    deadline.total_deadline_ms += 1_000;
    assert_eq!(base, hash(&quota));
    assert_eq!(base, hash(&session));
    assert_eq!(base, hash(&deadline));
}

fn cache_record(
    file_identity: &str,
    source_version: &str,
    status: &str,
    classifier_build: &str,
) -> ClassificationCacheWriteRecord {
    ClassificationCacheWriteRecord {
        file_identity: file_identity.to_string(),
        source_version: source_version.to_string(),
        source_guard_kind: "windows_file_id_change_time_v1".to_string(),
        source_guard_sha256: "b".repeat(64),
        classifier_profile_hash: "c".repeat(64),
        classifier_build: classifier_build.to_string(),
        status: status.to_string(),
        page_count: 5,
        result_examined_pages: 5,
    }
}

fn classified(
    rows: &Vec<ClassificationCacheRow>,
    identity: &str,
    version: &str,
    build: &str,
    known: bool,
) -> ClassificationCacheLookup {
    lookup_classification_cache(
        rows,
        identity,
        version,
        "windows_file_id_change_time_v1",
        &"b".repeat(64),
        &"c".repeat(64),
        build,
        known,
    )
}

#[test]
fn classification_cache_write_then_lookup_is_fresh() {
    let mut rows = Vec::new();
    write_success_classification_cache(
        &mut rows,
        1_000,
        &vec![cache_record(
            "fixture:a",
            "mtime_ns=1:size=2",
            "text_in_parse_window",
            &"a".repeat(64),
        )],
    )
    .expect("classification cache write");

    match classified(&rows, "fixture:a", "mtime_ns=1:size=2", &"a".repeat(64), false) {
        ClassificationCacheLookup::Fresh(entry) => {
            assert_eq!(entry.status, "text_in_parse_window");
            assert_eq!(entry.page_count, 5);
            assert_eq!(entry.result_examined_pages, 5);
        }
        other => panic!("expected fresh, got {other:?}"),
    }
}

#[test]
fn classification_cache_miss_reason_tree_is_frozen() {
    let mut rows = Vec::new();
    write_success_classification_cache(
        &mut rows,
        1_000,
        &vec![cache_record(
            "fixture:a",
            "mtime_ns=1:size=2",
            "no_text_in_parse_window",
            &"a".repeat(64),
        )],
    )
    .expect("classification cache write");

    assert_eq!(
        classified(&rows, "fixture:a", "mtime_ns=1:size=2", &"d".repeat(64), false),
        ClassificationCacheLookup::Miss(ClassificationCacheMissReason::ClassifierIdentityChanged)
    );
    assert_eq!(
        classified(&rows, "fixture:a", "mtime_ns=9:size=2", &"a".repeat(64), false),
        ClassificationCacheLookup::Miss(ClassificationCacheMissReason::SourceVersionChanged)
    );
    assert_eq!(
        classified(&rows, "fixture:b", "mtime_ns=5:size=6", &"a".repeat(64), false),
        ClassificationCacheLookup::Miss(ClassificationCacheMissReason::NewFile)
    );
    assert_eq!(
        classified(&rows, "fixture:b", "mtime_ns=5:size=6", &"a".repeat(64), true),
        ClassificationCacheLookup::Miss(ClassificationCacheMissReason::EntryAbsentOrEvicted)
    );
}

#[test]
fn classification_cache_has_no_negative_cache() {
    assert!(
        cache_record("fixture:a", "mtime_ns=1:size=2", "unknown", &"a".repeat(64))
            .validate()
            .is_err()
    );
    assert!(
        cache_record("fixture:a", "mtime_ns=1:size=2", "error", &"a".repeat(64))
            .validate()
            .is_err()
    );
    assert!(
        cache_record("fixture:a", "mtime_ns=1:size=2", "text_in_parse_window", &"a".repeat(64))
            .validate()
            .is_ok()
    );
}

fn parse_record(identity: &str, source_version: &str, profile_hash: &str) -> CacheWriteRecord {
    CacheWriteRecord {
        file_identity: identity.to_string(),
        source_version: source_version.to_string(),
        source_guard_kind: "content_sha256_v1".to_string(),
        source_guard_sha256: "0".repeat(64),
        parse_profile_hash: profile_hash.to_string(),
        content: format!("content-{identity}"),
        content_sha256: sha256_hex(format!("content-{identity}").as_bytes()),
        parser_backend: "light_text_v1".to_string(),
        worker_lane: "rust_core".to_string(),
        truncated: false,
        worker_contract_version: "ai_daily_context_v1".to_string(),
        worker_version: "0.1.0".to_string(),
        worker_build: "d".repeat(64),
    }
}

#[test]
fn parse_cache_evicts_oldest_by_tuple_to_respect_the_cap() {
    let mut rows: Vec<ParseCacheRow> = Vec::new();
    for (at, identity, version, profile) in [
        (100, "fixture:a", "mtime_ns=1:size=2", "a"),
        (200, "fixture:b", "mtime_ns=5:size=6", "b"),
        (300, "fixture:c", "mtime_ns=9:size=10", "c"),
    ] {
        write_success_cache(
            &mut rows,
            at,
            &vec![parse_record(identity, version, &profile.repeat(64))],
        )
        .expect("write");
    }
    assert_eq!(rows.len(), 3);
    evict_parse_cache(&mut rows, 1_000);
    let remaining = rows.len();
    let total: i64 = rows.iter().map(|row| row.entry_size_bytes).sum();
    assert!(remaining >= 1 && remaining <= 2, "cap eviction must leave 1-2 rows");
    assert!(total <= 1_000, "cap eviction must keep total <= cap");
    let newest = rows.iter().max_by_key(|row| row.cached_at_ms).expect("newest");
    assert_eq!(newest.file_identity, "fixture:c");
}

#[test]
fn parse_cache_single_entry_over_cap_is_skipped() {
    let mut rows = Vec::new();
    let mut record = parse_record("fixture:a", "mtime_ns=1:size=2", &"a".repeat(64));
    record.content = "x".repeat(PARSE_CACHE_MAX_BYTES as usize + 1);
    record.content_sha256 = "e".repeat(64);
    let error = write_success_cache(&mut rows, 100, &vec![record]).expect_err("over cap");
    assert!(
        error.contains("hard cap"),
        "over-cap entry must be skipped with a cap warning, got {error}"
    );
    assert!(rows.is_empty());
}

#[test]
fn parse_cache_unknown_backend_fails_closed() {
    let mut rows = Vec::new();
    let mut record = parse_record("fixture:a", "mtime_ns=1:size=2", &"a".repeat(64));
    record.parser_backend = "future_backend_v9".to_string();
    assert!(
        write_success_cache(&mut rows, 100, &vec![record]).is_err(),
        "new backend without a retention recompute_rank must fail closed"
    );
}

#[test]
fn classification_cache_evicts_least_recently_examined_first() {
    let mut rows = Vec::new();
    let mut few_pages =
        cache_record("fixture:a", "mtime_ns=1:size=2", "text_in_parse_window", &"a".repeat(64));
    few_pages.result_examined_pages = 1;
    let many_pages =
        cache_record("fixture:b", "mtime_ns=5:size=6", "no_text_in_parse_window", &"a".repeat(64));
    write_success_classification_cache(&mut rows, 100, &vec![few_pages]).expect("write a");
    write_success_classification_cache(&mut rows, 200, &vec![many_pages]).expect("write b");
    evict_classification_cache(&mut rows, 500);
    let remaining: Vec<&str> = rows.iter().map(|row| row.file_identity.as_str()).collect();
    assert_eq!(remaining, vec!["fixture:b"]);
}

#[test]
fn date_bucket_for_ms_is_utc_date() {
    assert_eq!(date_bucket_for_ms(1_577_836_800_000), "2020-01-01");
    assert_eq!(date_bucket_for_ms(1_577_923_200_000 - 1), "2020-01-01");
    assert_eq!(date_bucket_for_ms(1_577_923_200_000), "2020-01-02");
}

#[test]
fn date_buckets_know_leap_years_and_the_past() {
    assert_eq!(date_bucket_for_ms(0), "1970-01-01");
    assert_eq!(date_bucket_for_ms(-62_167_219_200_000), "0000-01-01");
    assert_eq!(date_bucket_for_ms(253_402_300_799_999), "9999-12-31");
    assert_eq!(date_bucket_for_ms(-1), "1969-12-31");
    assert_eq!(date_bucket_for_ms(951_782_400_000), "2000-02-29");
    assert_eq!(date_bucket_for_ms(1_709_164_800_000), "2024-02-29");
    assert_eq!(date_bucket_for_ms(4_107_542_400_000), "2100-03-01");
}

#[test]
fn date_buckets_are_ordered_as_the_days() {
    let times = [
        -62_167_219_200_000,
        -1,
        0,
        86_399_999,
        86_400_000,
        946_684_799_999,
        951_782_400_000,
        1_577_923_200_000,
        253_402_300_799_999,
    ];
    assert_eq!(date_bucket_for_ms(times[0]), "0000-01-01");
    assert_eq!(date_bucket_for_ms(times[8]), "9999-12-31");
    for pair in times.windows(2) {
        let (earlier, later) = (date_bucket_for_ms(pair[0]), date_bucket_for_ms(pair[1]));
        assert_eq!(earlier.len(), 10);
        assert!(earlier <= later);
        assert_eq!(
            earlier == later,
            pair[0].div_euclid(86_400_000) == pair[1].div_euclid(86_400_000)
        );
    }
}

#[test]
fn cached_parses_are_found_by_their_whole_key() {
    let mut rows = Vec::new();
    let profile = "a".repeat(64);
    let record = parse_record("fixture:a", "mtime_ns=1:size=2", &profile);
    assert!(record.validate().is_ok());
    write_success_cache(&mut rows, 100, &vec![record.clone()]).expect("write");
    let guard = "0".repeat(64);
    let find = |rows: &Vec<ParseCacheRow>, identity: &str, version: &str, guard: &str, hash: &str| {
        lookup_cache(rows, identity, version, "content_sha256_v1", guard, hash)
    };
    assert_eq!(
        find(&rows, "fixture:a", "mtime_ns=1:size=2", &guard, &profile),
        CacheLookup::Fresh(record.entry())
    );
    assert_eq!(
        find(&rows, "fixture:a", "mtime_ns=1:size=2", &guard, &"f".repeat(64)),
        CacheLookup::Miss(CacheMissReason::ParserIdentityChanged)
    );
    assert_eq!(
        find(&rows, "fixture:a", "mtime_ns=9:size=2", &guard, &profile),
        CacheLookup::Miss(CacheMissReason::SourceVersionChanged)
    );
    assert_eq!(
        find(&rows, "fixture:b", "mtime_ns=1:size=2", &guard, &profile),
        CacheLookup::Miss(CacheMissReason::NewFile)
    );

    let mut forged = rows.clone();
    forged[0].entry.content = "forged".to_string();
    assert_ne!(
        find(&forged, "fixture:a", "mtime_ns=1:size=2", &guard, &profile),
        CacheLookup::Fresh(forged[0].entry.clone())
    );
}

#[test]
fn a_second_write_replaces_the_first() {
    let mut rows = Vec::new();
    let record = parse_record("fixture:a", "mtime_ns=1:size=2", &"a".repeat(64));
    write_success_cache(&mut rows, 100, &vec![record.clone()]).expect("first");
    let mut second = record.clone();
    second.content = "other".to_string();
    second.content_sha256 = sha256_hex(b"other");
    write_success_cache(&mut rows, 200, &vec![second]).expect("second");
    assert_eq!(rows.len(), 1);
    assert_eq!(rows[0].entry.content, "other");
    assert_eq!(rows[0].cached_at_ms, 200);
    assert_eq!(rows[0].last_accessed_bucket, "1970-01-01");
}

#[test]
fn a_refused_record_keeps_the_ones_before_it() {
    let mut rows = Vec::new();
    let good = parse_record("fixture:a", "mtime_ns=1:size=2", &"a".repeat(64));
    let mut bad = parse_record("fixture:b", "mtime_ns=1:size=2", &"a".repeat(64));
    bad.parser_backend = "future_backend_v9".to_string();
    assert_eq!(
        write_success_cache(&mut rows, 100, &vec![good, bad]),
        Err("parse cache backend 'future_backend_v9' has no retention recompute_rank".to_string())
    );
    assert_eq!(rows.len(), 1);
}

#[test]
fn entry_sizes_count_every_text() {
    let record = parse_record("fixture:a", "mtime_ns=1:size=2", &"a".repeat(64));
    let texts = [
        &record.file_identity,
        &record.source_version,
        &record.source_guard_kind,
        &record.source_guard_sha256,
        &record.parse_profile_hash,
        &record.content,
        &record.content_sha256,
        &record.parser_backend,
        &record.worker_lane,
        &record.worker_contract_version,
        &record.worker_version,
        &record.worker_build,
    ];
    let bytes: usize = texts.iter().map(|text| text.len()).sum();
    assert_eq!(parse_entry_size_bytes(&record), bytes as i64 + 8);

    let classified =
        cache_record("fixture:é", "mtime_ns=1:size=2", "text_in_parse_window", &"a".repeat(64));
    let bytes = "fixture:é".len()
        + "mtime_ns=1:size=2".len()
        + "windows_file_id_change_time_v1".len()
        + 64
        + 64
        + 64
        + "text_in_parse_window".len();
    assert_eq!(classification_entry_size_bytes(&classified), bytes as i64 + 16);
}

#[test]
fn invalid_cache_records_are_refused() {
    let good = parse_record("fixture:a", "mtime_ns=1:size=2", &"a".repeat(64));
    let refused = Err("invalid successful cache record".to_string());
    let mut record = good.clone();
    record.content = "forged".to_string();
    assert_eq!(record.validate(), refused);
    let mut record = good.clone();
    record.source_guard_kind = "unavailable".to_string();
    assert_eq!(record.validate(), refused);
    let mut record = good.clone();
    record.source_version = "".to_string();
    assert_eq!(record.validate(), refused);
    let mut record = good;
    record.parse_profile_hash = "A".repeat(64);
    assert_eq!(record.validate(), refused);
}

#[test]
fn dearer_backends_are_kept_longer() {
    assert!(recompute_rank("light_text_v1") < recompute_rank("pdf_text_v1"));
    for (backend, rank) in [
        ("light_text_v2", 1),
        ("rust_xlsx_bounded_v2", 2),
        ("rust_office_oxide_v2", 2),
        ("python_sharepoint_text_v2", 3),
        ("python_office_v2", 4),
        ("python_pdf_text_v2", 10),
    ] {
        assert_eq!(recompute_rank(backend), Some(rank));
    }
    assert_eq!(recompute_rank("future_backend_v9"), None);
    assert_eq!(cache_retention_policy().parse_cache_max_bytes, 1_073_741_824);
    assert_eq!(cache_retention_policy().policy_version, "cache_retention_v1");
}
