//! Which databases this engine opens.
use crate::store::run::{outcome_view, StoreError, StoreErrorView};
use crate::store::upgrade::integer_text;
use crate::text::u64_text;
use vstd::prelude::*;
use vstd::string::StringExecFns;

verus! {

/// The schema version of this engine.
pub const LATEST_USER_VERSION: i32 = 3;

/// Milliseconds for which a statement waits for a locked database.
pub const BUSY_TIMEOUT_MS: u64 = 2_000;

/// What is wrong with the schema of a database.
#[derive(Clone, Copy, Debug, PartialEq, Eq, Structural)]
pub enum SchemaError {
    /// The database is of another version.
    Mismatch(i32),
    /// The database could not be asked.
    Sql,
}

impl SchemaError {
    /// The text of the error.
    pub open spec fn text(self) -> Seq<char> {
        match self {
            SchemaError::Mismatch(version) =>
                "scanner database schema mismatch: expected user_version=3, found "@ + integer_text(
                version as int,
            ),
            SchemaError::Sql => "scanner database schema initialization failed"@,
        }
    }

    /// The text of the error.
    pub fn message(&self) -> (text: String)
        ensures
            text@ == self.text(),
    {
        match self {
            SchemaError::Mismatch(version) => {
                let mut text: String =
                    "scanner database schema mismatch: expected user_version=3, found ".to_string();
                let value: i64 = *version as i64;
                let ghost prefix = text@;
                if value < 0 {
                    text.push('-');
                    text.append(u64_text((-value) as u64).as_str());
                } else {
                    text.append(u64_text(value as u64).as_str());
                }
                assert(text@ =~= prefix + integer_text(*version as int));
                text
            },
            SchemaError::Sql => "scanner database schema initialization failed".to_string(),
        }
    }
}

/// A database is accepted where it is of this engine's version.
pub open spec fn v3_verdict(version: i32) -> Result<(), SchemaError> {
    if version == LATEST_USER_VERSION {
        Ok(())
    } else {
        Err(SchemaError::Mismatch(version))
    }
}

/// Accepts a database only where it is of this engine's version.
pub fn require_v3(version: i32) -> (verdict: Result<(), SchemaError>)
    ensures
        verdict == v3_verdict(version),
{
    if version == LATEST_USER_VERSION {
        Ok(())
    } else {
        Err(SchemaError::Mismatch(version))
    }
}

/// The version that a database has after it was set up, which is done only where nothing
/// was set up in it before.
pub open spec fn v3_created(version: i32) -> Result<i32, SchemaError> {
    if version == 0 {
        Ok(LATEST_USER_VERSION)
    } else {
        Err(SchemaError::Mismatch(version))
    }
}

/// Accepts a database for being set up, and gives the version that it has afterwards.
pub fn create_v3(version: i32) -> (created: Result<i32, SchemaError>)
    ensures
        created == v3_created(version),
{
    if version == 0 {
        Ok(LATEST_USER_VERSION)
    } else {
        Err(SchemaError::Mismatch(version))
    }
}

/// A database that was set up is accepted from then on, and is not set up again.
pub proof fn law_set_up_databases_are_accepted(version: i32)
    requires
        v3_created(version) is Ok,
    ensures
        v3_verdict(v3_created(version)->Ok_0) is Ok,
        v3_created(v3_created(version)->Ok_0) is Err,
{
}

/// What keeps a run from opening a database: one of the first version is upgraded only on
/// request, and one of a later version than the engine's is not opened at all.
pub open spec fn open_fault(version: i32, latest: i32) -> Option<StoreErrorView> {
    if version == 1 {
        Some(StoreErrorView::SchemaUpgradeRequired)
    } else if version > latest {
        Some(StoreErrorView::SchemaTooNew)
    } else {
        None
    }
}

/// Checks that a run may open a database. `latest` is the schema version of the engine.
pub fn ensure_schema_openable(version: i32, latest: i32) -> (verdict: Result<(), StoreError>)
    ensures
        outcome_view(verdict) == match open_fault(version, latest) {
            Some(fault) => Err(fault),
            None => Ok(()),
        },
{
    if version == 1 {
        return Err(StoreError::SchemaUpgradeRequired);
    }
    if version > latest {
        return Err(StoreError::SchemaTooNew);
    }
    Ok(())
}

/// Checks that a database that is about to be upgraded is still one of the first version.
pub fn ensure_upgradable(version: i32, schema: &Result<(), String>) -> (verdict: Result<
    (),
    StoreError,
>)
    ensures
        outcome_view(verdict) == if version == 1 && schema is Ok {
            Ok(())
        } else {
            Err(StoreErrorView::SchemaUpgradeRequired)
        },
{
    if version != 1 || schema.is_err() {
        return Err(StoreError::SchemaUpgradeRequired);
    }
    Ok(())
}

/// The tables that a database of the first version holds.
pub open spec fn first_tables() -> Seq<Seq<char>> {
    seq![
        "scan_runs"@,
        "engine_lease"@,
        "scan_run_attempts"@,
        "run_diagnostics"@,
        "file_inventory"@,
        "parse_cache"@,
        "scan_file_results"@,
        "scan_stage_metrics"@,
        "scan_extension_metrics"@,
        "context_runs"@,
        "context_decisions"@,
    ]
}

/// The first of the tables, counted from `from`, that is not present.
pub open spec fn missing_table(present: Seq<bool>, from: int) -> Option<int>
    decreases present.len() - from,
{
    if from < 0 || from >= present.len() {
        None
    } else if !present[from] {
        Some(from)
    } else {
        missing_table(present, from + 1)
    }
}

/// The name of the table at a position in the list of tables of the first version.
pub fn first_table(at: usize) -> (name: &'static str)
    requires
        at < 11,
    ensures
        name@ == first_tables()[at as int],
{
    if at == 0 {
        "scan_runs"
    } else if at == 1 {
        "engine_lease"
    } else if at == 2 {
        "scan_run_attempts"
    } else if at == 3 {
        "run_diagnostics"
    } else if at == 4 {
        "file_inventory"
    } else if at == 5 {
        "parse_cache"
    } else if at == 6 {
        "scan_file_results"
    } else if at == 7 {
        "scan_stage_metrics"
    } else if at == 8 {
        "scan_extension_metrics"
    } else if at == 9 {
        "context_runs"
    } else {
        "context_decisions"
    }
}

/// Checks that a database holds the tables of the first version. `present` tells of each
/// whether it is there.
pub fn verify_v1_schema(present: &Vec<bool>) -> (verdict: Result<(), String>)
    requires
        present@.len() == 11,
    ensures
        match missing_table(present@, 0) {
            None => verdict is Ok,
            Some(at) => verdict is Err && verdict->Err_0@ == "v1 table "@ + first_tables()[at]
                + " is missing"@,
        },
{
    let mut i: usize = 0;
    while i < present.len()
        invariant
            i <= present.len(),
            present@.len() == 11,
            missing_table(present@, 0) == missing_table(present@, i as int),
        decreases present.len() - i,
    {
        if !present[i] {
            let mut message: String = "v1 table ".to_string();
            message.append(first_table(i));
            message.append(" is missing");
            return Err(message);
        }
        i = i + 1;
    }
    Ok(())
}

/// Of the versions that a database can have, only the latest is worked with, and only a
/// database without one is set up.
pub proof fn law_only_the_latest_version_is_worked_with(version: i32)
    ensures
        v3_verdict(version) is Ok <==> version == 3,
        v3_created(version) is Ok <==> version == 0,
        v3_created(version) matches Ok(created) ==> v3_verdict(created) is Ok,
        v3_verdict(version) matches Err(fault) ==> fault == SchemaError::Mismatch(version),
        v3_created(version) matches Err(fault) ==> fault == SchemaError::Mismatch(version),
{
}

/// A database of the first version is to be upgraded before it is opened, and one that is
/// newer than the engine is not opened.
pub proof fn law_databases_are_opened_up_to_the_latest(version: i32, latest: i32)
    requires
        latest >= 1,
    ensures
        open_fault(version, latest) is None <==> version != 1 && version <= latest,
        open_fault(version, latest) == Some(StoreErrorView::SchemaUpgradeRequired) <==> version
            == 1,
        open_fault(version, latest) == Some(StoreErrorView::SchemaTooNew) <==> version > latest,
{
}

/// The table that is found missing is the first one that is not there.
pub proof fn law_the_first_missing_table_is_found(present: Seq<bool>, from: int)
    requires
        0 <= from <= present.len(),
    ensures
        missing_table(present, from) is None <==> forall|i: int|
            from <= i < present.len() ==> #[trigger] present[i],
        missing_table(present, from) matches Some(at) ==> {
            &&& from <= at < present.len()
            &&& !present[at]
            &&& forall|i: int| from <= i < at ==> #[trigger] present[i]
        },
    decreases present.len() - from,
{
    if from < present.len() && present[from] {
        law_the_first_missing_table_is_found(present, from + 1);
        if missing_table(present, from + 1) is None {
            assert forall|i: int| from <= i < present.len() implies #[trigger] present[i] by {
                if i > from {
                    assert(from + 1 <= i);
                }
            }
        } else {
            let at = missing_table(present, from + 1)->0;
            assert(!present[at]);
        }
    }
}

/// A version that does not match is named in the message.
pub proof fn law_mismatches_name_the_version(left: i32, right: i32)
    ensures
        SchemaError::Mismatch(left).text() == SchemaError::Mismatch(right).text() <==> left
            == right,
{
    let head = "scanner database schema mismatch: expected user_version=3, found "@;
    crate::store::upgrade::law_versions_are_told_apart(left as int, right as int);
    if SchemaError::Mismatch(left).text() == SchemaError::Mismatch(right).text() {
        let size = head.len() as int;
        assert(SchemaError::Mismatch(left).text().skip(size) =~= integer_text(left as int));
        assert(SchemaError::Mismatch(right).text().skip(size) =~= integer_text(right as int));
    }
}

/// Only a database of the first version with all its tables is upgraded.
pub proof fn law_only_whole_first_versions_are_upgraded(
    version: i32,
    schema: &Result<(), String>,
    verdict: Result<(), StoreError>,
)
    requires
        call_ensures(ensure_upgradable, (version, schema), verdict),
    ensures
        verdict is Ok <==> version == 1 && *schema is Ok,
        verdict matches Err(error) ==> error@ is SchemaUpgradeRequired,
{
}

} // verus!
