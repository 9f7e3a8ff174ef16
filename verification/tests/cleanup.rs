//! A cleanup of a whole database.
use scanner_core::store::cache::{
    EvictionRow, CLASSIFICATION_CACHE_MAX_BYTES, PARSE_CACHE_MAX_BYTES,
};
use scanner_core::store::retention::{ArtifactSize, ContextRef, TerminalRun, DAY_MS};
use scanner_core::store::upkeep::UpkeepRows;

const NOW: i64 = 1_000 * DAY_MS;

fn run(scan_run_id: i64, days_ago: i64) -> TerminalRun {
    TerminalRun {
        scan_run_id,
        finished_at_ms: Some(NOW - days_ago * DAY_MS),
        audit_size_bytes: 10,
    }
}

fn context(scan_run_id: i64, artifact_id: Option<i64>) -> ContextRef {
    ContextRef {
        scan_run_id,
        artifact_id,
    }
}

fn artifact(artifact_id: i64) -> ArtifactSize {
    ArtifactSize {
        artifact_id,
        created_at_ms: 0,
        artifact_size_bytes: 5,
    }
}

fn cached(row_id: i64, cached_at_ms: i64, entry_size_bytes: i64) -> EvictionRow {
    EvictionRow {
        row_id,
        generation_rank: 1,
        cost_rank: 1,
        last_accessed_bucket: "2026-01-01".to_string(),
        cached_at_ms,
        key_chars: 1,
        entry_size_bytes,
    }
}

fn rows() -> UpkeepRows {
    UpkeepRows {
        running: vec![7],
        ended: vec![run(1, 91), run(2, 90), run(3, 1)],
        contexts: vec![
            context(1, Some(11)),
            context(2, Some(12)),
            context(3, Some(12)),
            context(3, None),
        ],
        artifacts: vec![artifact(11), artifact(12), artifact(13)],
        parses: vec![
            cached(21, 2, PARSE_CACHE_MAX_BYTES),
            cached(22, 1, 1),
            cached(23, 3, 0),
        ],
        classifications: vec![
            cached(31, 1, CLASSIFICATION_CACHE_MAX_BYTES),
            cached(32, 2, 0),
        ],
    }
}

#[test]
fn cleanups_drop_what_is_old_orphaned_or_over_the_caps() {
    let mut rows = rows();
    let plan = rows.run_maintenance_gc(NOW);
    assert_eq!(plan.expired, vec![7]);
    assert_eq!(plan.runs, vec![1]);
    assert_eq!(plan.artifacts, vec![11, 13]);
    assert_eq!(plan.parses, vec![22]);
    assert_eq!(plan.classifications, Vec::<i64>::new());

    assert!(rows.running.is_empty());
    let kept: Vec<i64> = rows.ended.iter().map(|run| run.scan_run_id).collect();
    assert_eq!(kept, vec![2, 3, 7]);
    assert_eq!(rows.ended[2].finished_at_ms, Some(NOW));
    assert_eq!(rows.ended[2].audit_size_bytes, 0);
    assert_eq!(rows.contexts.len(), 3);
    assert_eq!(rows.artifacts, vec![artifact(12)]);
    assert_eq!(rows.parses.len(), 2);
}

#[test]
fn cleanups_that_follow_at_once_drop_nothing() {
    let mut rows = rows();
    rows.run_maintenance_gc(NOW);
    let again = rows.run_maintenance_gc(NOW);
    assert!(again.expired.is_empty());
    assert!(again.runs.is_empty());
    assert!(again.artifacts.is_empty());
    assert!(again.parses.is_empty());
    assert!(again.classifications.is_empty());
}

#[test]
fn cleanups_keep_the_latest_runs() {
    let mut rows = rows();
    rows.ended = (0..502).map(|at| run(100 + at, 1 + at / 10)).collect();
    rows.contexts = vec![context(601, Some(11)), context(100, Some(12))];
    let plan = rows.run_maintenance_gc(NOW);
    assert_eq!(rows.ended.len(), 500);
    // With the run that was given up there were three too many.
    assert_eq!(plan.runs, vec![600, 601, 590]);
    assert_eq!(rows.artifacts, vec![artifact(12)]);
    assert_eq!(plan.artifacts, vec![11, 13]);
}
