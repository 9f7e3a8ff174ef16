//! Schema versions, upgrades, upkeep and retention.
use scanner_core::contract::{DiagnosticStage, ErrorCode};
use scanner_core::hash::sha256_hex;
use scanner_core::store::cache::{
    write_success_cache, write_success_classification_cache, CacheWriteRecord,
    ClassificationCacheWriteRecord, CONTEXT_ARTIFACTS_MAX_BYTES, TERMINAL_AUDIT_MAX_BYTES,
    TERMINAL_RUN_MAX_COUNT,
};
use scanner_core::store::maintenance::{
    auto_vacuum_mode, classification_cache_entry_sizes_match, deleted_diff, pages_given_back,
    parse_cache_entry_sizes_match, sidecar_name, zero_maintenance_deleted, zero_maintenance_size,
    AutoVacuumMode, IntegrityFacts, MaintenanceDeletedV1, MaintenanceFacts, MaintenanceMode,
    MaintenancePostIntegrityCheck, MaintenancePreIntegrityCheck, MaintenanceRequestV1,
    MaintenanceResponseV1, MaintenanceSizeV1, MaintenanceStatus, MaintenanceStep,
    MaintenanceVacuumStatus, RawSizes,
};
use scanner_core::store::retention::{
    gc_orphan_artifacts, gc_terminal_runs, next_gc_step, not_in_clause,
    remaining_opportunistic_ms, retention_cutoff, retention_gc_for_current_run,
    terminal_run_not_in_clause, ArtifactSize, ContextRef, GcStep, RoomRows, TerminalRun, DAY_MS,
};
use scanner_core::store::run::StoreError;
use scanner_core::store::schema::{
    create_v3, ensure_schema_openable, ensure_upgradable, first_table, require_v3,
    verify_v1_schema, SchemaError,
};
use scanner_core::store::upgrade::{
    UpgradeDatabaseRequestV1, UpgradeDatabaseResponseV1, UpgradeFacts, UpgradeIntegrityCheck,
    UpgradeStatus, UpgradeStep,
};

// The business databases of the upgrade and upkeep commands are at version 2.
const LATEST: i32 = 2;

#[test]
fn fresh_database_is_created_at_v3_and_reopens() {
    let version = create_v3(0).expect("v3 schema");
    assert_eq!(version, 3);
    require_v3(version).expect("v3 reopens");
}

#[test]
fn every_non_v3_version_is_rejected() {
    for version in [0, 1, 2, 4] {
        assert!(
            matches!(require_v3(version), Err(SchemaError::Mismatch(found)) if found == version)
        );
    }
}

#[test]
fn business_open_fails_closed_on_committed_v1_database() {
    assert_eq!(
        ensure_schema_openable(1, LATEST).unwrap_err(),
        StoreError::SchemaUpgradeRequired
    );
}

#[test]
fn business_open_fails_closed_on_too_new_database() {
    assert!(matches!(
        ensure_schema_openable(3, LATEST),
        Err(StoreError::SchemaTooNew)
    ));
}

#[test]
fn first_schemas_name_every_table() {
    assert_eq!(verify_v1_schema(&vec![true; 11]), Ok(()));
    for at in 0..11 {
        let mut present = vec![true; 11];
        present[at] = false;
        let message = verify_v1_schema(&present).unwrap_err();
        assert!(message.contains(first_table(at)));
    }
    assert!(ensure_upgradable(1, &Ok(())).is_ok());
    assert!(ensure_upgradable(1, &Err("gone".to_string())).is_err());
}

struct UpgradeFixture {
    version: i32,
    cache_rows: u64,
    live_lease: bool,
    converts: bool,
    migrated: bool,
    leased: bool,
}

fn v1_upgrade_fixture() -> UpgradeFixture {
    UpgradeFixture {
        version: 1,
        cache_rows: 1,
        live_lease: false,
        converts: true,
        migrated: false,
        leased: false,
    }
}

fn upgrade_database(fixture: &mut UpgradeFixture, apply: bool) -> UpgradeDatabaseResponseV1 {
    let request = UpgradeDatabaseRequestV1 {
        contract: "ai_daily_scanner_upgrade".to_string(),
        protocol_version: 1,
        request_id: "123e4567-e89b-42d3-a456-426614174000".to_string(),
        scan_db_path: "/fixture/scan_index_v3.sqlite3".to_string(),
        apply,
    };
    let mut facts = UpgradeFacts::new();
    for _ in 0..32 {
        match request.next_upgrade_step(LATEST, &facts) {
            UpgradeStep::Open => facts.opened = Some(Ok(())),
            UpgradeStep::Configure => facts.configured = Some(Ok(())),
            UpgradeStep::ReadVersion => facts.version = Some(Ok(fixture.version)),
            UpgradeStep::CheckIntegrity => facts.integrity = Some(UpgradeIntegrityCheck::Passed),
            UpgradeStep::VerifySchema => facts.schema = Some(verify_v1_schema(&vec![true; 11])),
            UpgradeStep::ReadClock => facts.clock = Some(Ok(1_000)),
            UpgradeStep::ReadLease => facts.live_lease = Some(fixture.live_lease),
            UpgradeStep::CountCache => facts.detected = Some(Ok(fixture.cache_rows)),
            UpgradeStep::AcquireLease => {
                if fixture.live_lease {
                    facts.lease = Some(Err(StoreError::ScanAlreadyRunning));
                } else {
                    fixture.leased = true;
                    facts.lease = Some(Ok(()));
                }
            }
            UpgradeStep::Reopen => facts.reopened = Some(Ok(())),
            UpgradeStep::Migrate => {
                assert!(fixture.leased);
                facts.migrated = Some(Ok(fixture.cache_rows));
                fixture.version = LATEST;
                fixture.cache_rows = 0;
                fixture.migrated = true;
            }
            UpgradeStep::CheckMigrated => {
                facts.post_integrity = Some(UpgradeIntegrityCheck::Passed)
            }
            UpgradeStep::ConvertVacuum => facts.converted = Some(fixture.converts),
            UpgradeStep::ReleaseLease => {
                fixture.leased = false;
                facts.released = true;
            }
            UpgradeStep::Respond(response) => return response,
        }
    }
    panic!("the upgrade never answered")
}

#[test]
fn upgrade_database_audit_reports_legacy_cache_without_mutating() {
    let mut fixture = v1_upgrade_fixture();
    let response = upgrade_database(&mut fixture, false);

    assert_eq!(response.status, UpgradeStatus::Complete);
    assert_eq!(response.apply, false);
    assert_eq!(response.source_user_version, Some(1));
    assert_eq!(response.schema_migrated, false);
    assert_eq!(response.auto_vacuum_converted, false);
    assert_eq!(response.legacy_parse_cache_rows_detected, 1);
    assert_eq!(response.invalidated_parse_cache_rows, 0);
    assert_eq!(response.post_integrity_check, UpgradeIntegrityCheck::NotRun);
    assert!(response.error.is_none());
    assert!(!fixture.migrated && !fixture.leased && fixture.version == 1);
}

#[test]
fn upgrade_database_apply_migrates_and_invalidates_legacy_cache() {
    let mut fixture = v1_upgrade_fixture();
    let response = upgrade_database(&mut fixture, true);

    assert_eq!(response.status, UpgradeStatus::Complete);
    assert_eq!(response.apply, true);
    assert_eq!(response.source_user_version, Some(1));
    assert_eq!(response.schema_migrated, true);
    assert_eq!(response.auto_vacuum_converted, true);
    assert_eq!(response.legacy_parse_cache_rows_detected, 1);
    assert_eq!(response.invalidated_parse_cache_rows, 1);
    assert_eq!(response.post_integrity_check, UpgradeIntegrityCheck::Passed);
    assert!(response.error.is_none());
    assert_eq!(fixture.version, 2);
    assert_eq!(fixture.cache_rows, 0);
    assert!(!fixture.leased);
}

#[test]
fn upgrade_database_apply_reports_partial_when_vacuum_conversion_fails() {
    let mut fixture = v1_upgrade_fixture();
    fixture.converts = false;
    let response = upgrade_database(&mut fixture, true);

    assert_eq!(response.status, UpgradeStatus::Partial);
    assert_eq!(response.apply, true);
    assert_eq!(response.source_user_version, Some(1));
    assert_eq!(response.schema_migrated, true);
    assert_eq!(response.auto_vacuum_converted, false);
    assert_eq!(response.legacy_parse_cache_rows_detected, 1);
    assert_eq!(response.invalidated_parse_cache_rows, 1);
    assert_eq!(response.post_integrity_check, UpgradeIntegrityCheck::Passed);
    assert!(response.error.is_none(), "partial must not carry an error");
    assert!(
        !response.warnings.is_empty(),
        "partial must carry a maintenance warning"
    );
    assert_eq!(
        response.warnings[0].error_code,
        ErrorCode::MaintenanceModeUnavailable
    );
    assert_eq!(response.warnings[0].stage, DiagnosticStage::Maintenance);
    assert_eq!(fixture.version, 2);
}

#[test]
fn upgrades_wait_for_a_running_engine() {
    let mut fixture = v1_upgrade_fixture();
    fixture.live_lease = true;
    let response = upgrade_database(&mut fixture, true);
    assert_eq!(response.status, UpgradeStatus::Error);
    assert_eq!(
        response.error.map(|error| error.error_code),
        Some(ErrorCode::ScanAlreadyRunning)
    );
    assert!(!fixture.migrated);
}

#[test]
fn upgrades_refuse_newer_databases() {
    let mut fixture = v1_upgrade_fixture();
    fixture.version = 9;
    let response = upgrade_database(&mut fixture, true);
    assert_eq!(response.status, UpgradeStatus::Error);
    assert!(!fixture.migrated);
}

struct UpkeepFixture {
    runs: Vec<TerminalRun>,
    auto_vacuum: AutoVacuumMode,
    passes: bool,
    leased: bool,
}

fn size() -> MaintenanceSizeV1 {
    RawSizes {
        parse_cache_bytes: 0,
        classification_cache_bytes: 0,
        context_artifacts_bytes: 0,
        terminal_audit_bytes: 10,
        page_size: 4_096,
        freelist_count: 2,
        database_file_bytes: 40_960,
        wal_file_bytes: 100,
        shm_file_bytes: 200,
        auto_vacuum: 2,
    }
    .form()
}

fn maintenance(
    fixture: &mut UpkeepFixture,
    mode: MaintenanceMode,
    dry_run: bool,
) -> MaintenanceResponseV1 {
    let request = MaintenanceRequestV1 {
        contract: "ai_daily_scanner_maintenance".to_string(),
        protocol_version: 1,
        request_id: "123e4567-e89b-42d3-a456-426614174100".to_string(),
        scan_db_path: "/fixture/scan_index_v3.sqlite3".to_string(),
        mode,
        dry_run,
    };
    let mut facts = MaintenanceFacts::new(Ok(()));
    for _ in 0..32 {
        match request.next_maintenance_step(LATEST, &facts) {
            MaintenanceStep::Open => facts.opened = Some(Ok(())),
            MaintenanceStep::Configure => facts.configured = Some(Ok(())),
            MaintenanceStep::ReadVersion => facts.version = Some(Ok(LATEST)),
            MaintenanceStep::Amend => facts.amended = Some(Ok(())),
            MaintenanceStep::ReadClock => facts.clock = Some(Ok(1_000 * DAY_MS as u64)),
            MaintenanceStep::AcquireLease => {
                fixture.leased = true;
                facts.lease = Some(Ok(()));
            }
            MaintenanceStep::MeasureBefore => facts.before = Some(Ok(size())),
            MaintenanceStep::CheckBefore => facts.pre_passed = Some(fixture.passes),
            MaintenanceStep::ReadVacuumMode => facts.auto_vacuum = Some(Ok(fixture.auto_vacuum)),
            MaintenanceStep::Collect => {
                let dropped = gc_terminal_runs(&mut fixture.runs, 1_000 * DAY_MS);
                let mut deleted = zero_maintenance_deleted();
                deleted.scan_runs_rows = dropped.len() as u64;
                facts.collected = Some(Ok(deleted));
            }
            MaintenanceStep::Vacuum => facts.vacuumed = Some(Ok(pages_given_back(7, 3))),
            MaintenanceStep::CheckAfter => facts.post_passed = Some(true),
            MaintenanceStep::MeasureAfter => facts.after = Some(Ok(size())),
            MaintenanceStep::ReleaseLease => {
                fixture.leased = false;
                facts.released = true;
            }
            MaintenanceStep::Respond(response) => return response,
        }
    }
    panic!("upkeep never answered")
}

fn upkeep_fixture(auto_vacuum: AutoVacuumMode) -> UpkeepFixture {
    UpkeepFixture {
        runs: Vec::new(),
        auto_vacuum,
        passes: true,
        leased: false,
    }
}

#[test]
fn maintenance_dry_run_ok_on_fresh_v2_db() {
    let mut fixture = upkeep_fixture(AutoVacuumMode::Incremental);
    let response = maintenance(&mut fixture, MaintenanceMode::Gc, true);
    assert_eq!(response.status, MaintenanceStatus::Complete);
    assert_eq!(response.deleted.parse_cache_rows, 0);
    assert_eq!(response.deleted.scan_runs_rows, 0);
    assert_eq!(response.before, response.after);
    assert!(response.after_complete);
    assert_eq!(response.pre_integrity_check, MaintenancePreIntegrityCheck::Passed);
    assert_eq!(response.post_integrity_check, MaintenancePostIntegrityCheck::NotRun);
    assert_eq!(response.vacuum.status, MaintenanceVacuumStatus::SkippedDryRun);
    assert!(response.error.is_none());
}

#[test]
fn maintenance_gc_deletes_aged_terminal_runs() {
    let mut fixture = upkeep_fixture(AutoVacuumMode::Incremental);
    fixture.runs.push(TerminalRun {
        scan_run_id: 1,
        finished_at_ms: Some(1),
        audit_size_bytes: 10,
    });
    let response = maintenance(&mut fixture, MaintenanceMode::Gc, false);
    assert_eq!(response.status, MaintenanceStatus::Complete);
    assert_eq!(response.deleted.scan_runs_rows, 1);
    assert_eq!(response.vacuum.status, MaintenanceVacuumStatus::NotRequested);
    assert_eq!(response.post_integrity_check, MaintenancePostIntegrityCheck::Passed);
    assert!(response.error.is_none());
    assert!(fixture.runs.is_empty() && !fixture.leased);
}

#[test]
fn maintenance_incremental_vacuum_on_auto_vacuum_none_fails_cleanly() {
    let mut fixture = upkeep_fixture(AutoVacuumMode::Off);
    let response = maintenance(&mut fixture, MaintenanceMode::IncrementalVacuum, false);
    assert_eq!(response.status, MaintenanceStatus::Error);
    let error = response.error.as_ref().expect("error diagnostic");
    assert_eq!(error.error_code, ErrorCode::MaintenanceModeUnavailable);
    assert_eq!(error.stage, DiagnosticStage::Maintenance);
    assert_eq!(response.vacuum.status, MaintenanceVacuumStatus::Error);
    assert_eq!(response.deleted.scan_runs_rows, 0);
    assert_eq!(response.before, response.after);
    assert!(!fixture.leased);
}

#[test]
fn incremental_vacuums_tell_their_pages() {
    let mut fixture = upkeep_fixture(AutoVacuumMode::Incremental);
    let response = maintenance(&mut fixture, MaintenanceMode::IncrementalVacuum, false);
    assert_eq!(response.status, MaintenanceStatus::Complete);
    assert_eq!(response.vacuum.status, MaintenanceVacuumStatus::Complete);
    assert_eq!(response.vacuum.pages_changed, 4);
}

#[test]
fn damaged_databases_are_left_alone() {
    let mut fixture = upkeep_fixture(AutoVacuumMode::Incremental);
    fixture.passes = false;
    fixture.runs.push(TerminalRun {
        scan_run_id: 1,
        finished_at_ms: Some(1),
        audit_size_bytes: 10,
    });
    let response = maintenance(&mut fixture, MaintenanceMode::Gc, false);
    assert_eq!(response.status, MaintenanceStatus::Error);
    assert_eq!(response.pre_integrity_check, MaintenancePreIntegrityCheck::Failed);
    assert_eq!(fixture.runs.len(), 1);
    assert!(!fixture.leased);
}

#[test]
fn sizes_are_sums_and_products() {
    let size = size();
    assert_eq!(size.total_physical_bytes, 40_960 + 100 + 200);
    assert_eq!(size.freelist_bytes, 2 * 4_096);
    assert_eq!(size.terminal_audit_logical_bytes, 10);
    assert_eq!(size.auto_vacuum_mode, AutoVacuumMode::Incremental);
    assert_eq!(auto_vacuum_mode(0), AutoVacuumMode::Off);
    assert_eq!(auto_vacuum_mode(1), AutoVacuumMode::Full);
    assert_eq!(zero_maintenance_size().total_physical_bytes, 0);
    assert_eq!(pages_given_back(3, 7), 0);
    assert_eq!(sidecar_name("scan.sqlite3", "wal"), "scan.sqlite3-wal");
    let raw = RawSizes {
        parse_cache_bytes: 0,
        classification_cache_bytes: 0,
        context_artifacts_bytes: 0,
        terminal_audit_bytes: 0,
        page_size: i64::MAX,
        freelist_count: i64::MAX,
        database_file_bytes: 0,
        wal_file_bytes: 0,
        shm_file_bytes: 0,
        auto_vacuum: 0,
    };
    assert!(!raw.do_fit());
}

#[test]
fn dropped_rows_are_the_difference() {
    let mut before = zero_maintenance_deleted();
    before.parse_cache_rows = 5;
    before.scan_runs_rows = 2;
    let mut after = zero_maintenance_deleted();
    after.parse_cache_rows = 3;
    after.scan_runs_rows = 4;
    let lost: MaintenanceDeletedV1 = deleted_diff(&before, &after);
    assert_eq!(lost.parse_cache_rows, 2);
    assert_eq!(lost.scan_runs_rows, 0);
}

fn parse_record() -> CacheWriteRecord {
    CacheWriteRecord {
        file_identity: "a".to_string(),
        source_version: "mtime_ns=1:size=1".to_string(),
        source_guard_kind: "content_sha256_v1".to_string(),
        source_guard_sha256: "0".repeat(64),
        parse_profile_hash: "1".repeat(64),
        content: "x".to_string(),
        content_sha256: sha256_hex(b"x"),
        parser_backend: "light_text_v1".to_string(),
        worker_lane: "rust_core".to_string(),
        truncated: false,
        worker_contract_version: "c".to_string(),
        worker_version: "v".to_string(),
        worker_build: "b".to_string(),
    }
}

#[test]
fn stored_sizes_are_checked() {
    let mut rows = Vec::new();
    write_success_cache(&mut rows, 1, &vec![parse_record()]).unwrap();
    assert!(parse_cache_entry_sizes_match(&rows));
    rows[0].entry_size_bytes += 1;
    assert!(!parse_cache_entry_sizes_match(&rows));

    let mut classified = Vec::new();
    write_success_classification_cache(
        &mut classified,
        1,
        &vec![ClassificationCacheWriteRecord {
            file_identity: "a".to_string(),
            source_version: "mtime_ns=1:size=1".to_string(),
            source_guard_kind: "content_sha256_v1".to_string(),
            source_guard_sha256: "0".repeat(64),
            classifier_profile_hash: "1".repeat(64),
            classifier_build: "2".repeat(64),
            status: "text_in_parse_window".to_string(),
            page_count: 1,
            result_examined_pages: 1,
        }],
    )
    .unwrap();
    assert!(classification_cache_entry_sizes_match(&classified));
    let sound = |rows| IntegrityFacts {
        file_check: Some("ok".to_string()),
        dangling_rows: Some(0),
        parse_rows: Some(rows),
        classification_rows: Some(Vec::new()),
        artifacts: Some(Vec::new()),
    };
    assert!(sound(Vec::new()).integrity_checks_pass());
    assert!(!sound(rows).integrity_checks_pass());
    classified[0].entry_size_bytes += 1;
    assert!(!classification_cache_entry_sizes_match(&classified));
}

fn aged_runs(count: i64) -> Vec<TerminalRun> {
    (0..count)
        .map(|index| TerminalRun {
            scan_run_id: index + 1,
            finished_at_ms: Some(1_000 + index),
            audit_size_bytes: 100,
        })
        .collect()
}

#[test]
fn retention_gc_for_current_run_trims_to_run_count_cap() {
    let mut runs = aged_runs(520);
    let dropped = retention_gc_for_current_run(&mut runs, &vec![1], 1_000_000, 100)
        .expect("retention gc succeeds");
    assert_eq!(runs.len() as i64, TERMINAL_RUN_MAX_COUNT);
    assert_eq!(dropped.len(), 20);
    assert!(runs.iter().any(|run| run.scan_run_id == 1));
}

#[test]
fn retention_gc_for_current_run_fails_closed_when_record_exceeds_cap() {
    let mut runs = Vec::new();
    let error = retention_gc_for_current_run(
        &mut runs,
        &vec![1],
        1_000_000,
        TERMINAL_AUDIT_MAX_BYTES + 1,
    )
    .expect_err("current audit over cap must fail closed");
    assert!(matches!(error, StoreError::RunCorrupt(_)));
}

#[test]
fn runs_of_ninety_days_are_aged() {
    assert_eq!(retention_cutoff(100 * DAY_MS), 10 * DAY_MS);
    let mut runs = vec![
        TerminalRun { scan_run_id: 1, finished_at_ms: Some(10 * DAY_MS - 1), audit_size_bytes: 1 },
        TerminalRun { scan_run_id: 2, finished_at_ms: Some(10 * DAY_MS), audit_size_bytes: 1 },
    ];
    assert_eq!(gc_terminal_runs(&mut runs, 100 * DAY_MS), vec![1]);
    assert_eq!(runs.len(), 1);
}

fn artifact(artifact_id: i64, artifact_size_bytes: i64) -> ArtifactSize {
    ArtifactSize {
        artifact_id,
        created_at_ms: artifact_id,
        artifact_size_bytes,
    }
}

#[test]
fn only_orphaned_artifacts_are_collected() {
    let mut artifacts = vec![artifact(1, 10), artifact(2, 10)];
    gc_orphan_artifacts(
        &mut artifacts,
        &vec![ContextRef { scan_run_id: 5, artifact_id: Some(2) }],
    );
    assert_eq!(artifacts.len(), 1);
    assert_eq!(artifacts[0].artifact_id, 2);
}

#[test]
fn room_is_made_in_batches() {
    let half = CONTEXT_ARTIFACTS_MAX_BYTES / 2;
    let mut rows = RoomRows {
        artifacts: vec![artifact(1, half), artifact(2, half)],
        contexts: vec![
            ContextRef { scan_run_id: 7, artifact_id: Some(1) },
            ContextRef { scan_run_id: 8, artifact_id: Some(2) },
        ],
        runs: vec![
            TerminalRun { scan_run_id: 7, finished_at_ms: Some(1), audit_size_bytes: 1 },
            TerminalRun { scan_run_id: 8, finished_at_ms: Some(2), audit_size_bytes: 1 },
        ],
    };
    let plan = rows.make_room_for_artifact(&vec![], half).expect("room");
    assert_eq!(plan.runs, vec![7, 8]);
    assert_eq!(plan.artifacts, vec![1, 2]);

    let mut full = RoomRows {
        artifacts: vec![artifact(1, half), artifact(2, half)],
        contexts: Vec::new(),
        runs: Vec::new(),
    };
    assert!(full.make_room_for_artifact(&vec![1, 2], half).is_err());
}

#[test]
fn opportunistic_collection_keeps_its_budget() {
    assert_eq!(next_gc_step(None, 10), GcStep::DropOrphans);
    assert_eq!(next_gc_step(None, 0), GcStep::Finish);
    assert_eq!(remaining_opportunistic_ms(100, 90), 10);
    assert_eq!(remaining_opportunistic_ms(100, 200), -100);
    assert_eq!(remaining_opportunistic_ms(i64::MIN, 1), i64::MIN);
}

#[test]
fn excluded_identities_are_placeholders() {
    assert_eq!(not_in_clause(0), "");
    assert_eq!(not_in_clause(2), " AND artifact_id NOT IN (?,?)");
    assert_eq!(terminal_run_not_in_clause(1), " AND scan_run_id NOT IN (?)");
}
