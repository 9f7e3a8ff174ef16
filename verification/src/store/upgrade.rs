//! Bringing a database of the first version up to date, step by step.
use crate::contract::{
    clone_all, opt_view, views, Diagnostic, DiagnosticStage, DiagnosticView, ErrorCode,
};
use crate::store::run::StoreError;
use crate::text::{capped, decimal, take_chars, u64_text};
use vstd::prelude::*;
use vstd::string::StringExecFns;

verus! {

/// The most characters of a reported message.
pub const MAX_REPORT_CHARS: usize = 4_096;

/// The schema version that an upgrade leads to.
pub const UPGRADE_TARGET_VERSION: u64 = 2;

/// How an upgrade went.
#[derive(Clone, Copy, Debug, PartialEq, Eq, Structural)]
pub enum UpgradeStatus {
    Complete,
    Partial,
    Error,
}

impl UpgradeStatus {
    /// The text of the status.
    pub open spec fn text_spec(self) -> Seq<char> {
        match self {
            UpgradeStatus::Complete => "ok"@,
            UpgradeStatus::Partial => "partial"@,
            UpgradeStatus::Error => "error"@,
        }
    }

    /// The text of the status.
    pub fn text(self) -> (text: &'static str)
        ensures
            text@ == self.text_spec(),
    {
        match self {
            UpgradeStatus::Complete => "ok",
            UpgradeStatus::Partial => "partial",
            UpgradeStatus::Error => "error",
        }
    }
}

/// What a check of the database file found.
#[derive(Clone, Copy, Debug, PartialEq, Eq, Structural)]
pub enum UpgradeIntegrityCheck {
    Passed,
    Failed,
    NotRun,
}

impl UpgradeIntegrityCheck {
    /// The text of the finding.
    pub open spec fn text_spec(self) -> Seq<char> {
        match self {
            UpgradeIntegrityCheck::Passed => "ok"@,
            UpgradeIntegrityCheck::Failed => "failed"@,
            UpgradeIntegrityCheck::NotRun => "not_run"@,
        }
    }

    /// The text of the finding.
    pub fn text(self) -> (text: &'static str)
        ensures
            text@ == self.text_spec(),
    {
        match self {
            UpgradeIntegrityCheck::Passed => "ok",
            UpgradeIntegrityCheck::Failed => "failed",
            UpgradeIntegrityCheck::NotRun => "not_run",
        }
    }
}

/// A request to audit or to upgrade a database.
#[derive(Debug, PartialEq, Eq)]
pub struct UpgradeDatabaseRequestV1 {
    pub contract: String,
    pub protocol_version: u64,
    pub request_id: String,
    pub scan_db_path: String,
    pub apply: bool,
}

/// What a [`UpgradeDatabaseRequestV1`] says.
#[verifier::ext_equal]
pub struct UpgradeDatabaseRequestV1View {
    pub contract: Seq<char>,
    pub protocol_version: u64,
    pub request_id: Seq<char>,
    pub scan_db_path: Seq<char>,
    pub apply: bool,
}

impl View for UpgradeDatabaseRequestV1 {
    type V = UpgradeDatabaseRequestV1View;

    open spec fn view(&self) -> UpgradeDatabaseRequestV1View {
        UpgradeDatabaseRequestV1View {
            contract: self.contract@,
            protocol_version: self.protocol_version,
            request_id: self.request_id@,
            scan_db_path: self.scan_db_path@,
            apply: self.apply,
        }
    }
}

impl Clone for UpgradeDatabaseRequestV1 {
    fn clone(&self) -> (copy: Self)
        ensures
            copy@ == self@,
            copy == *self,
    {
        UpgradeDatabaseRequestV1 {
            contract: self.contract.clone(),
            protocol_version: self.protocol_version,
            request_id: self.request_id.clone(),
            scan_db_path: self.scan_db_path.clone(),
            apply: self.apply,
        }
    }
}

/// The answer to a request to upgrade.
#[derive(Debug, PartialEq, Eq)]
pub struct UpgradeDatabaseResponseV1 {
    pub contract: String,
    pub protocol_version: u64,
    pub request_id: String,
    pub status: UpgradeStatus,
    pub source_user_version: Option<u64>,
    pub target_user_version: u64,
    pub apply: bool,
    pub schema_migrated: bool,
    pub auto_vacuum_converted: bool,
    pub legacy_parse_cache_rows_detected: u64,
    pub invalidated_parse_cache_rows: u64,
    pub pre_integrity_check: UpgradeIntegrityCheck,
    pub post_integrity_check: UpgradeIntegrityCheck,
    pub warnings: Vec<Diagnostic>,
    pub error: Option<Diagnostic>,
}

/// What a [`UpgradeDatabaseResponseV1`] says.
#[verifier::ext_equal]
pub struct UpgradeDatabaseResponseV1View {
    pub contract: Seq<char>,
    pub protocol_version: u64,
    pub request_id: Seq<char>,
    pub status: UpgradeStatus,
    pub source_user_version: Option<u64>,
    pub target_user_version: u64,
    pub apply: bool,
    pub schema_migrated: bool,
    pub auto_vacuum_converted: bool,
    pub legacy_parse_cache_rows_detected: u64,
    pub invalidated_parse_cache_rows: u64,
    pub pre_integrity_check: UpgradeIntegrityCheck,
    pub post_integrity_check: UpgradeIntegrityCheck,
    pub warnings: Seq<DiagnosticView>,
    pub error: Option<DiagnosticView>,
}

impl View for UpgradeDatabaseResponseV1 {
    type V = UpgradeDatabaseResponseV1View;

    open spec fn view(&self) -> UpgradeDatabaseResponseV1View {
        UpgradeDatabaseResponseV1View {
            contract: self.contract@,
            protocol_version: self.protocol_version,
            request_id: self.request_id@,
            status: self.status,
            source_user_version: self.source_user_version,
            target_user_version: self.target_user_version,
            apply: self.apply,
            schema_migrated: self.schema_migrated,
            auto_vacuum_converted: self.auto_vacuum_converted,
            legacy_parse_cache_rows_detected: self.legacy_parse_cache_rows_detected,
            invalidated_parse_cache_rows: self.invalidated_parse_cache_rows,
            pre_integrity_check: self.pre_integrity_check,
            post_integrity_check: self.post_integrity_check,
            warnings: views(self.warnings@),
            error: opt_view(self.error),
        }
    }
}

impl Clone for UpgradeDatabaseResponseV1 {
    fn clone(&self) -> (copy: Self)
        ensures
            copy@ == self@,
    {
        UpgradeDatabaseResponseV1 {
            contract: self.contract.clone(),
            protocol_version: self.protocol_version,
            request_id: self.request_id.clone(),
            status: self.status,
            source_user_version: self.source_user_version,
            target_user_version: self.target_user_version,
            apply: self.apply,
            schema_migrated: self.schema_migrated,
            auto_vacuum_converted: self.auto_vacuum_converted,
            legacy_parse_cache_rows_detected: self.legacy_parse_cache_rows_detected,
            invalidated_parse_cache_rows: self.invalidated_parse_cache_rows,
            pre_integrity_check: self.pre_integrity_check,
            post_integrity_check: self.post_integrity_check,
            warnings: clone_all(&self.warnings),
            error: self.error.clone(),
        }
    }
}

// ---------------------------------------------------------------------------
// Reports
// ---------------------------------------------------------------------------

/// The decimal text of a number that may be negative.
pub open spec fn integer_text(value: int) -> Seq<char> {
    if value < 0 {
        seq!['-'] + decimal((-value) as nat)
    } else {
        decimal(value as nat)
    }
}

fn version_text(version: i32) -> (text: String)
    ensures
        text@ == integer_text(version as int),
{
    let value: i64 = version as i64;
    if value < 0 {
        proof {
            reveal_strlit("-");
        }
        let mut text: String = "-".to_string();
        text.append(u64_text((-value) as u64).as_str());
        assert(text@ =~= integer_text(version as int));
        text
    } else {
        u64_text(value as u64)
    }
}

/// A report on the upkeep of the database.
pub open spec fn upkeep_report(
    error_code: ErrorCode,
    message: Seq<char>,
    retryable: bool,
) -> DiagnosticView {
    DiagnosticView {
        error_code,
        message: capped(message, MAX_REPORT_CHARS as int),
        retryable,
        stage: DiagnosticStage::Maintenance,
        file_path: None,
        backend: None,
    }
}

/// A report on the upkeep of the database; its message is cut where it is too long.
pub fn upgrade_diagnostic(error_code: ErrorCode, message: &str, retryable: bool) -> (diagnostic:
    Diagnostic)
    ensures
        diagnostic@ == upkeep_report(error_code, message@, retryable),
{
    Diagnostic {
        error_code,
        message: take_chars(message, MAX_REPORT_CHARS),
        retryable,
        stage: DiagnosticStage::Maintenance,
        file_path: None,
        backend: None,
    }
}

fn report_with(error_code: ErrorCode, prefix: &str, text: &str, retryable: bool) -> (diagnostic:
    Diagnostic)
    ensures
        diagnostic@ == upkeep_report(error_code, prefix@ + text@, retryable),
{
    let mut message: String = prefix.to_string();
    message.append(text);
    upgrade_diagnostic(error_code, message.as_str(), retryable)
}

/// The message that the database is of a later version than the engine.
pub open spec fn too_new_message(version: i32, latest: i32, ending: Seq<char>) -> Seq<char> {
    "scanner database user_version="@ + integer_text(version as int)
        + " is newer than this engine ("@ + integer_text(latest as int) + "); "@ + ending
}

/// The message that the database is of a later version than the engine.
pub fn form_too_new_message(version: i32, latest: i32, ending: &str) -> (message: String)
    ensures
        message@ == too_new_message(version, latest, ending@),
{
    let mut message: String = "scanner database user_version=".to_string();
    message.append(version_text(version).as_str());
    message.append(" is newer than this engine (");
    message.append(version_text(latest).as_str());
    message.append("); ");
    message.append(ending);
    assert(message@ =~= too_new_message(version, latest, ending@));
    message
}

// ---------------------------------------------------------------------------
// Answers
// ---------------------------------------------------------------------------

impl UpgradeDatabaseRequestV1View {
    /// The answer that everything went well.
    pub open spec fn completed(
        self,
        source: u64,
        pre: UpgradeIntegrityCheck,
        post: UpgradeIntegrityCheck,
        upgraded: bool,
        detected: u64,
        invalidated: u64,
    ) -> UpgradeDatabaseResponseV1View {
        UpgradeDatabaseResponseV1View {
            contract: "ai_daily_scanner_upgrade"@,
            protocol_version: 1,
            request_id: self.request_id,
            status: UpgradeStatus::Complete,
            source_user_version: Some(source),
            target_user_version: UPGRADE_TARGET_VERSION,
            apply: self.apply,
            schema_migrated: upgraded,
            auto_vacuum_converted: upgraded,
            legacy_parse_cache_rows_detected: detected,
            invalidated_parse_cache_rows: invalidated,
            pre_integrity_check: pre,
            post_integrity_check: post,
            warnings: Seq::empty(),
            error: None,
        }
    }

    /// The answer that the schema was upgraded and the file could not be converted.
    pub open spec fn partly(
        self,
        pre: UpgradeIntegrityCheck,
        post: UpgradeIntegrityCheck,
        detected: u64,
        invalidated: u64,
        warning: DiagnosticView,
    ) -> UpgradeDatabaseResponseV1View {
        UpgradeDatabaseResponseV1View {
            status: UpgradeStatus::Partial,
            auto_vacuum_converted: false,
            warnings: seq![warning],
            ..self.completed(1, pre, post, true, detected, invalidated)
        }
    }

    /// The answer that something went wrong.
    pub open spec fn failed(
        self,
        source: Option<u64>,
        pre: UpgradeIntegrityCheck,
        post: UpgradeIntegrityCheck,
        upgraded: bool,
        detected: u64,
        error: DiagnosticView,
    ) -> UpgradeDatabaseResponseV1View {
        UpgradeDatabaseResponseV1View {
            status: UpgradeStatus::Error,
            source_user_version: source,
            auto_vacuum_converted: false,
            error: Some(error),
            ..self.completed(
                1,
                pre,
                post,
                upgraded,
                detected,
                if upgraded {
                    detected
                } else {
                    0
                },
            )
        }
    }
}

impl UpgradeDatabaseRequestV1 {
    /// The answer that everything went well.
    pub fn upgrade_ok_response(
        &self,
        source: u64,
        pre: UpgradeIntegrityCheck,
        post: UpgradeIntegrityCheck,
        upgraded: bool,
        detected: u64,
        invalidated: u64,
    ) -> (response: UpgradeDatabaseResponseV1)
        ensures
            response@ == self@.completed(source, pre, post, upgraded, detected, invalidated),
    {
        let response = UpgradeDatabaseResponseV1 {
            contract: "ai_daily_scanner_upgrade".to_string(),
            protocol_version: 1,
            request_id: self.request_id.clone(),
            status: UpgradeStatus::Complete,
            source_user_version: Some(source),
            target_user_version: UPGRADE_TARGET_VERSION,
            apply: self.apply,
            schema_migrated: upgraded,
            auto_vacuum_converted: upgraded,
            legacy_parse_cache_rows_detected: detected,
            invalidated_parse_cache_rows: invalidated,
            pre_integrity_check: pre,
            post_integrity_check: post,
            warnings: Vec::new(),
            error: None,
        };
        assert(views(response.warnings@) =~= Seq::<DiagnosticView>::empty());
        response
    }

    /// The answer that the schema was upgraded and the file could not be converted.
    pub fn upgrade_partial_response(
        &self,
        pre: UpgradeIntegrityCheck,
        post: UpgradeIntegrityCheck,
        detected: u64,
        invalidated: u64,
        warning: Diagnostic,
    ) -> (response: UpgradeDatabaseResponseV1)
        ensures
            response@ == self@.partly(pre, post, detected, invalidated, warning@),
    {
        let mut response: UpgradeDatabaseResponseV1 = self.upgrade_ok_response(
            1,
            pre,
            post,
            true,
            detected,
            invalidated,
        );
        response.status = UpgradeStatus::Partial;
        response.auto_vacuum_converted = false;
        let mut warnings: Vec<Diagnostic> = Vec::new();
        warnings.push(warning);
        assert(views(warnings@) =~= seq![warning@]);
        response.warnings = warnings;
        response
    }

    /// The answer that something went wrong.
    pub fn upgrade_error_response(
        &self,
        source: Option<u64>,
        pre: UpgradeIntegrityCheck,
        post: UpgradeIntegrityCheck,
        upgraded: bool,
        detected: u64,
        error: Diagnostic,
    ) -> (response: UpgradeDatabaseResponseV1)
        ensures
            response@ == self@.failed(source, pre, post, upgraded, detected, error@),
    {
        let invalidated: u64 = if upgraded {
            detected
        } else {
            0
        };
        let mut response: UpgradeDatabaseResponseV1 = self.upgrade_ok_response(
            1,
            pre,
            post,
            upgraded,
            detected,
            invalidated,
        );
        response.status = UpgradeStatus::Error;
        response.source_user_version = source;
        response.auto_vacuum_converted = false;
        response.error = Some(error);
        response
    }
}

// ---------------------------------------------------------------------------
// Steps
// ---------------------------------------------------------------------------

/// What is known so far of a database that is audited or upgraded. Each part is
/// there once the step that finds it out has been made.
pub struct UpgradeFacts {
    pub opened: Option<Result<(), String>>,
    pub configured: Option<Result<(), String>>,
    pub version: Option<Result<i32, StoreError>>,
    pub integrity: Option<UpgradeIntegrityCheck>,
    pub schema: Option<Result<(), String>>,
    pub clock: Option<Result<u64, StoreError>>,
    pub live_lease: Option<bool>,
    pub detected: Option<Result<u64, StoreError>>,
    pub lease: Option<Result<(), StoreError>>,
    pub reopened: Option<Result<(), StoreError>>,
    /// How many cached parses the upgrade dropped.
    pub migrated: Option<Result<u64, String>>,
    pub post_integrity: Option<UpgradeIntegrityCheck>,
    pub converted: Option<bool>,
    pub released: bool,
}

impl UpgradeFacts {
    /// Nothing is known yet.
    pub fn new() -> (facts: Self)
        ensures
            facts.opened is None && facts.configured is None && facts.version is None
                && facts.integrity is None && facts.schema is None && facts.clock is None
                && facts.live_lease is None && facts.detected is None && facts.lease is None
                && facts.reopened is None && facts.migrated is None && facts.post_integrity is None
                && facts.converted is None && !facts.released,
    {
        UpgradeFacts {
            opened: None,
            configured: None,
            version: None,
            integrity: None,
            schema: None,
            clock: None,
            live_lease: None,
            detected: None,
            lease: None,
            reopened: None,
            migrated: None,
            post_integrity: None,
            converted: None,
            released: false,
        }
    }
}

/// What is to be done next.
pub enum UpgradeStep {
    Open,
    Configure,
    ReadVersion,
    CheckIntegrity,
    VerifySchema,
    ReadClock,
    ReadLease,
    CountCache,
    AcquireLease,
    Reopen,
    Migrate,
    CheckMigrated,
    ConvertVacuum,
    ReleaseLease,
    Respond(UpgradeDatabaseResponseV1),
}

/// What is to be done next.
#[verifier::ext_equal]
pub enum UpgradeStepView {
    Open,
    Configure,
    ReadVersion,
    CheckIntegrity,
    VerifySchema,
    ReadClock,
    ReadLease,
    CountCache,
    AcquireLease,
    Reopen,
    Migrate,
    CheckMigrated,
    ConvertVacuum,
    ReleaseLease,
    Respond(UpgradeDatabaseResponseV1View),
}

impl View for UpgradeStep {
    type V = UpgradeStepView;

    open spec fn view(&self) -> UpgradeStepView {
        match self {
            UpgradeStep::Open => UpgradeStepView::Open,
            UpgradeStep::Configure => UpgradeStepView::Configure,
            UpgradeStep::ReadVersion => UpgradeStepView::ReadVersion,
            UpgradeStep::CheckIntegrity => UpgradeStepView::CheckIntegrity,
            UpgradeStep::VerifySchema => UpgradeStepView::VerifySchema,
            UpgradeStep::ReadClock => UpgradeStepView::ReadClock,
            UpgradeStep::ReadLease => UpgradeStepView::ReadLease,
            UpgradeStep::CountCache => UpgradeStepView::CountCache,
            UpgradeStep::AcquireLease => UpgradeStepView::AcquireLease,
            UpgradeStep::Reopen => UpgradeStepView::Reopen,
            UpgradeStep::Migrate => UpgradeStepView::Migrate,
            UpgradeStep::CheckMigrated => UpgradeStepView::CheckMigrated,
            UpgradeStep::ConvertVacuum => UpgradeStepView::ConvertVacuum,
            UpgradeStep::ReleaseLease => UpgradeStepView::ReleaseLease,
            UpgradeStep::Respond(response) => UpgradeStepView::Respond(response@),
        }
    }
}

impl UpgradeDatabaseRequestV1View {
    /// The answer that the database could not be reached.
    pub open spec fn out_of_reach(self, message: Seq<char>) -> UpgradeStepView {
        UpgradeStepView::Respond(
            self.failed(
                None,
                UpgradeIntegrityCheck::NotRun,
                UpgradeIntegrityCheck::NotRun,
                false,
                0,
                upkeep_report(ErrorCode::CacheOpenFailed, message, true),
            ),
        )
    }

    /// The answer that the database was left as it is.
    pub open spec fn untouched(
        self,
        source: Option<u64>,
        pre: UpgradeIntegrityCheck,
        detected: u64,
        error: DiagnosticView,
    ) -> UpgradeStepView {
        UpgradeStepView::Respond(
            self.failed(source, pre, UpgradeIntegrityCheck::NotRun, false, detected, error),
        )
    }

    /// The step that follows from what is known, up to where an audit and an upgrade
    /// part.
    pub open spec fn next(self, latest: i32, facts: UpgradeFacts) -> UpgradeStepView {
        match facts.opened {
            None => UpgradeStepView::Open,
            Some(Err(text)) => self.out_of_reach(
                if self.apply {
                    "scan database could not be opened read-write: "@ + text@
                } else {
                    "scan database could not be opened read-only: "@ + text@
                },
            ),
            Some(Ok(_)) => match facts.configured {
                None => UpgradeStepView::Configure,
                Some(Err(text)) => self.out_of_reach(
                    if self.apply {
                        "database connection could not be configured: "@ + text@
                    } else {
                        "read-only connection could not be configured: "@ + text@
                    },
                ),
                Some(Ok(_)) => match facts.version {
                    None => UpgradeStepView::ReadVersion,
                    Some(Err(fault)) => self.out_of_reach(
                        "database user_version could not be read: "@ + fault@.message(),
                    ),
                    Some(Ok(version)) => match facts.integrity {
                        None => UpgradeStepView::CheckIntegrity,
                        Some(pre) => self.next_of_version(latest, version, pre, facts),
                    },
                },
            },
        }
    }

    /// The step that follows once the version is known and the file was checked.
    pub open spec fn next_of_version(
        self,
        latest: i32,
        version: i32,
        pre: UpgradeIntegrityCheck,
        facts: UpgradeFacts,
    ) -> UpgradeStepView {
        if version > latest {
            self.untouched(
                Some(version as u64),
                pre,
                0,
                upkeep_report(
                    ErrorCode::SchemaUpgradeRequired,
                    too_new_message(
                        version,
                        latest,
                        if self.apply {
                            "fail closed"@
                        } else {
                            "this release cannot open it"@
                        },
                    ),
                    false,
                ),
            )
        } else if version == 2 {
            UpgradeStepView::Respond(
                self.completed(2, pre, UpgradeIntegrityCheck::NotRun, false, 0, 0),
            )
        } else if version != 1 {
            self.untouched(
                None,
                pre,
                0,
                upkeep_report(
                    ErrorCode::SchemaUpgradeRequired,
                    "scanner database user_version="@ + integer_text(version as int) + (
                    if self.apply {
                        " is not a committed v1 database; upgrade-db upgrades v1 databases only"@
                    } else {
                        " is not a committed v1 database; upgrade-db audits v1 databases only"@
                    }),
                    false,
                ),
            )
        } else {
            match facts.schema {
                None => UpgradeStepView::VerifySchema,
                Some(Err(text)) => self.untouched(
                    Some(1),
                    pre,
                    0,
                    upkeep_report(
                        ErrorCode::SchemaMigrationFailed,
                        "v1 schema verification failed: "@ + text@,
                        false,
                    ),
                ),
                Some(Ok(_)) => if self.apply {
                    self.next_of_upgrade(pre, facts)
                } else {
                    self.next_of_audit(pre, facts)
                },
            }
        }
    }

    /// The step that follows in the audit of a database of the first version.
    pub open spec fn next_of_audit(
        self,
        pre: UpgradeIntegrityCheck,
        facts: UpgradeFacts,
    ) -> UpgradeStepView {
        match facts.clock {
            None => UpgradeStepView::ReadClock,
            Some(Err(_)) => self.untouched(
                Some(1),
                pre,
                0,
                upkeep_report(ErrorCode::InternalError, "system clock is invalid"@, false),
            ),
            Some(Ok(_)) => match facts.live_lease {
                None => UpgradeStepView::ReadLease,
                Some(true) => self.untouched(
                    Some(1),
                    pre,
                    0,
                    upkeep_report(
                        ErrorCode::ScanAlreadyRunning,
                        "another scanner run owns the database lease; upgrade is blocked"@,
                        true,
                    ),
                ),
                Some(false) => match facts.detected {
                    None => UpgradeStepView::CountCache,
                    Some(Err(fault)) => self.untouched(
                        Some(1),
                        pre,
                        0,
                        fault@.diagnostic(DiagnosticStage::Maintenance),
                    ),
                    Some(Ok(detected)) => UpgradeStepView::Respond(
                        self.completed(1, pre, UpgradeIntegrityCheck::NotRun, false, detected, 0),
                    ),
                },
            },
        }
    }

    /// The step that follows in the upgrade of a database of the first version.
    pub open spec fn next_of_upgrade(
        self,
        pre: UpgradeIntegrityCheck,
        facts: UpgradeFacts,
    ) -> UpgradeStepView {
        match facts.detected {
            None => UpgradeStepView::CountCache,
            Some(Err(fault)) => self.untouched(
                Some(1),
                pre,
                0,
                fault@.diagnostic(DiagnosticStage::Maintenance),
            ),
            Some(Ok(detected)) => if pre == UpgradeIntegrityCheck::Failed {
                self.untouched(
                    Some(1),
                    pre,
                    detected,
                    upkeep_report(
                        ErrorCode::SchemaMigrationFailed,
                        "pre-integrity check failed before the v1 migration"@,
                        false,
                    ),
                )
            } else {
                match facts.clock {
                    None => UpgradeStepView::ReadClock,
                    Some(Err(fault)) => self.untouched(
                        Some(1),
                        pre,
                        detected,
                        fault@.diagnostic(DiagnosticStage::Maintenance),
                    ),
                    Some(Ok(_)) => match facts.lease {
                        None => UpgradeStepView::AcquireLease,
                        Some(Err(fault)) => self.untouched(
                            Some(1),
                            pre,
                            detected,
                            fault@.diagnostic(DiagnosticStage::Maintenance),
                        ),
                        Some(Ok(_)) => {
                            let step = self.next_with_lease(pre, detected, facts);
                            if step is Respond && !facts.released {
                                UpgradeStepView::ReleaseLease
                            } else {
                                step
                            }
                        },
                    },
                }
            },
        }
    }

    /// The step that follows while the lease is held, before it is given back.
    pub open spec fn next_with_lease(
        self,
        pre: UpgradeIntegrityCheck,
        detected: u64,
        facts: UpgradeFacts,
    ) -> UpgradeStepView {
        match facts.reopened {
            None => UpgradeStepView::Reopen,
            Some(Err(fault)) => self.untouched(
                Some(1),
                pre,
                detected,
                fault@.diagnostic(DiagnosticStage::Maintenance),
            ),
            Some(Ok(_)) => match facts.migrated {
                None => UpgradeStepView::Migrate,
                Some(Err(text)) => self.untouched(
                    Some(1),
                    pre,
                    detected,
                    upkeep_report(
                        ErrorCode::SchemaMigrationFailed,
                        "v1 to v2 migration failed and was rolled back: "@ + text@,
                        false,
                    ),
                ),
                Some(Ok(invalidated)) => match facts.post_integrity {
                    None => UpgradeStepView::CheckMigrated,
                    Some(post) => if post == UpgradeIntegrityCheck::Failed {
                        UpgradeStepView::Respond(
                            self.failed(
                                Some(1),
                                pre,
                                post,
                                true,
                                detected,
                                upkeep_report(
                                    ErrorCode::SchemaMigrationFailed,
                                    "post-migration integrity check failed"@,
                                    false,
                                ),
                            ),
                        )
                    } else {
                        match facts.converted {
                            None => UpgradeStepView::ConvertVacuum,
                            Some(true) => UpgradeStepView::Respond(
                                self.completed(1, pre, post, true, detected, invalidated),
                            ),
                            Some(false) => UpgradeStepView::Respond(
                                self.partly(
                                    pre,
                                    post,
                                    detected,
                                    invalidated,
                                    upkeep_report(
                                        ErrorCode::MaintenanceModeUnavailable,
                                        "auto_vacuum=INCREMENTAL conversion failed; the v2 schema is committed but incremental maintenance is unavailable"@,
                                        false,
                                    ),
                                ),
                            ),
                        }
                    },
                },
            },
        }
    }
}

impl UpgradeDatabaseRequestV1 {
    fn out_of_reach(&self, prefix: &str, text: &str) -> (step: UpgradeStep)
        ensures
            step@ == self@.out_of_reach(prefix@ + text@),
    {
        UpgradeStep::Respond(
            self.upgrade_error_response(
                None,
                UpgradeIntegrityCheck::NotRun,
                UpgradeIntegrityCheck::NotRun,
                false,
                0,
                report_with(ErrorCode::CacheOpenFailed, prefix, text, true),
            ),
        )
    }

    fn untouched(
        &self,
        source: Option<u64>,
        pre: UpgradeIntegrityCheck,
        detected: u64,
        error: Diagnostic,
    ) -> (step: UpgradeStep)
        ensures
            step@ == self@.untouched(source, pre, detected, error@),
    {
        UpgradeStep::Respond(
            self.upgrade_error_response(
                source,
                pre,
                UpgradeIntegrityCheck::NotRun,
                false,
                detected,
                error,
            ),
        )
    }

    /// Decides what is to be done next, from what is known. `latest` is the schema
    /// version of this engine. An audit asks only for what can be read.
    pub fn next_upgrade_step(&self, latest: i32, facts: &UpgradeFacts) -> (step: UpgradeStep)
        ensures
            step@ == self@.next(latest, *facts),
    {
        match &facts.opened {
            None => {
                return UpgradeStep::Open;
            },
            Some(Err(text)) => {
                let prefix: &str = if self.apply {
                    "scan database could not be opened read-write: "
                } else {
                    "scan database could not be opened read-only: "
                };
                return self.out_of_reach(prefix, text.as_str());
            },
            Some(Ok(_)) => {},
        }
        match &facts.configured {
            None => {
                return UpgradeStep::Configure;
            },
            Some(Err(text)) => {
                let prefix: &str = if self.apply {
                    "database connection could not be configured: "
                } else {
                    "read-only connection could not be configured: "
                };
                return self.out_of_reach(prefix, text.as_str());
            },
            Some(Ok(_)) => {},
        }
        let version: i32 = match &facts.version {
            None => {
                return UpgradeStep::ReadVersion;
            },
            Some(Err(fault)) => {
                let text: String = fault.message();
                return self.out_of_reach("database user_version could not be read: ", text.as_str());
            },
            Some(Ok(version)) => *version,
        };
        match facts.integrity {
            None => UpgradeStep::CheckIntegrity,
            Some(pre) => self.step_of_version(latest, version, pre, facts),
        }
    }

    fn step_of_version(
        &self,
        latest: i32,
        version: i32,
        pre: UpgradeIntegrityCheck,
        facts: &UpgradeFacts,
    ) -> (step: UpgradeStep)
        ensures
            step@ == self@.next_of_version(latest, version, pre, *facts),
    {
        if version > latest {
            let ending: &str = if self.apply {
                "fail closed"
            } else {
                "this release cannot open it"
            };
            let message: String = form_too_new_message(version, latest, ending);
            return self.untouched(
                Some(version as u64),
                pre,
                0,
                upgrade_diagnostic(ErrorCode::SchemaUpgradeRequired, message.as_str(), false),
            );
        }
        if version == 2 {
            return UpgradeStep::Respond(
                self.upgrade_ok_response(2, pre, UpgradeIntegrityCheck::NotRun, false, 0, 0),
            );
        }
        if version != 1 {
            let mut message: String = "scanner database user_version=".to_string();
            message.append(version_text(version).as_str());
            if self.apply {
                message.append(
                    " is not a committed v1 database; upgrade-db upgrades v1 databases only",
                );
            } else {
                message.append(
                    " is not a committed v1 database; upgrade-db audits v1 databases only",
                );
            }
            return self.untouched(
                None,
                pre,
                0,
                upgrade_diagnostic(ErrorCode::SchemaUpgradeRequired, message.as_str(), false),
            );
        }
        match &facts.schema {
            None => UpgradeStep::VerifySchema,
            Some(Err(text)) => self.untouched(
                Some(1),
                pre,
                0,
                report_with(
                    ErrorCode::SchemaMigrationFailed,
                    "v1 schema verification failed: ",
                    text.as_str(),
                    false,
                ),
            ),
            Some(Ok(_)) => {
                if self.apply {
                    self.step_of_upgrade(pre, facts)
                } else {
                    self.step_of_audit(pre, facts)
                }
            },
        }
    }

    fn step_of_audit(&self, pre: UpgradeIntegrityCheck, facts: &UpgradeFacts) -> (step: UpgradeStep)
        ensures
            step@ == self@.next_of_audit(pre, *facts),
    {
        match &facts.clock {
            None => {
                return UpgradeStep::ReadClock;
            },
            Some(Err(_)) => {
                return self.untouched(
                    Some(1),
                    pre,
                    0,
                    upgrade_diagnostic(ErrorCode::InternalError, "system clock is invalid", false),
                );
            },
            Some(Ok(_)) => {},
        }
        match facts.live_lease {
            None => {
                return UpgradeStep::ReadLease;
            },
            Some(live) => {
                if live {
                    return self.untouched(
                        Some(1),
                        pre,
                        0,
                        upgrade_diagnostic(
                            ErrorCode::ScanAlreadyRunning,
                            "another scanner run owns the database lease; upgrade is blocked",
                            true,
                        ),
                    );
                }
            },
        }
        match &facts.detected {
            None => UpgradeStep::CountCache,
            Some(Err(fault)) => self.untouched(
                Some(1),
                pre,
                0,
                fault.diagnostic(DiagnosticStage::Maintenance),
            ),
            Some(Ok(detected)) => UpgradeStep::Respond(
                self.upgrade_ok_response(
                    1,
                    pre,
                    UpgradeIntegrityCheck::NotRun,
                    false,
                    *detected,
                    0,
                ),
            ),
        }
    }

    fn step_of_upgrade(&self, pre: UpgradeIntegrityCheck, facts: &UpgradeFacts) -> (step:
        UpgradeStep)
        ensures
            step@ == self@.next_of_upgrade(pre, *facts),
    {
        let detected: u64 = match &facts.detected {
            None => {
                return UpgradeStep::CountCache;
            },
            Some(Err(fault)) => {
                return self.untouched(
                    Some(1),
                    pre,
                    0,
                    fault.diagnostic(DiagnosticStage::Maintenance),
                );
            },
            Some(Ok(detected)) => *detected,
        };
        if pre == UpgradeIntegrityCheck::Failed {
            return self.untouched(
                Some(1),
                pre,
                detected,
                upgrade_diagnostic(
                    ErrorCode::SchemaMigrationFailed,
                    "pre-integrity check failed before the v1 migration",
                    false,
                ),
            );
        }
        match &facts.clock {
            None => {
                return UpgradeStep::ReadClock;
            },
            Some(Err(fault)) => {
                return self.untouched(
                    Some(1),
                    pre,
                    detected,
                    fault.diagnostic(DiagnosticStage::Maintenance),
                );
            },
            Some(Ok(_)) => {},
        }
        match &facts.lease {
            None => {
                return UpgradeStep::AcquireLease;
            },
            Some(Err(fault)) => {
                return self.untouched(
                    Some(1),
                    pre,
                    detected,
                    fault.diagnostic(DiagnosticStage::Maintenance),
                );
            },
            Some(Ok(_)) => {},
        }
        let step: UpgradeStep = self.step_with_lease(pre, detected, facts);
        match step {
            UpgradeStep::Respond(response) => {
                if facts.released {
                    UpgradeStep::Respond(response)
                } else {
                    UpgradeStep::ReleaseLease
                }
            },
            other => other,
        }
    }

    fn step_with_lease(
        &self,
        pre: UpgradeIntegrityCheck,
        detected: u64,
        facts: &UpgradeFacts,
    ) -> (step: UpgradeStep)
        ensures
            step@ == self@.next_with_lease(pre, detected, *facts),
    {
        match &facts.reopened {
            None => {
                return UpgradeStep::Reopen;
            },
            Some(Err(fault)) => {
                return self.untouched(
                    Some(1),
                    pre,
                    detected,
                    fault.diagnostic(DiagnosticStage::Maintenance),
                );
            },
            Some(Ok(_)) => {},
        }
        let invalidated: u64 = match &facts.migrated {
            None => {
                return UpgradeStep::Migrate;
            },
            Some(Err(text)) => {
                return self.untouched(
                    Some(1),
                    pre,
                    detected,
                    report_with(
                        ErrorCode::SchemaMigrationFailed,
                        "v1 to v2 migration failed and was rolled back: ",
                        text.as_str(),
                        false,
                    ),
                );
            },
            Some(Ok(invalidated)) => *invalidated,
        };
        let post: UpgradeIntegrityCheck = match facts.post_integrity {
            None => {
                return UpgradeStep::CheckMigrated;
            },
            Some(post) => post,
        };
        if post == UpgradeIntegrityCheck::Failed {
            return UpgradeStep::Respond(
                self.upgrade_error_response(
                    Some(1),
                    pre,
                    post,
                    true,
                    detected,
                    upgrade_diagnostic(
                        ErrorCode::SchemaMigrationFailed,
                        "post-migration integrity check failed",
                        false,
                    ),
                ),
            );
        }
        match facts.converted {
            None => UpgradeStep::ConvertVacuum,
            Some(converted) => {
                if converted {
                    UpgradeStep::Respond(
                        self.upgrade_ok_response(1, pre, post, true, detected, invalidated),
                    )
                } else {
                    UpgradeStep::Respond(
                        self.upgrade_partial_response(
                            pre,
                            post,
                            detected,
                            invalidated,
                            upgrade_diagnostic(
                                ErrorCode::MaintenanceModeUnavailable,
                                "auto_vacuum=INCREMENTAL conversion failed; the v2 schema is committed but incremental maintenance is unavailable",
                                false,
                            ),
                        ),
                    )
                }
            },
        }
    }
}

// ---------------------------------------------------------------------------
// Laws
// ---------------------------------------------------------------------------

/// The step changes the database.
pub open spec fn changes_the_database(step: UpgradeStepView) -> bool {
    step is AcquireLease || step is Reopen || step is Migrate || step is ConvertVacuum
        || step is ReleaseLease
}

/// An audit changes nothing, and says so.
pub proof fn law_audits_only_read(
    request: UpgradeDatabaseRequestV1View,
    latest: i32,
    facts: UpgradeFacts,
)
    requires
        !request.apply,
    ensures
        !changes_the_database(request.next(latest, facts)),
        request.next(latest, facts) matches UpgradeStepView::Respond(response) ==> {
            &&& !response.schema_migrated
            &&& !response.auto_vacuum_converted
            &&& response.invalidated_parse_cache_rows == 0
            &&& response.post_integrity_check == UpgradeIntegrityCheck::NotRun
        },
{
}

/// A database is upgraded only on request, only from the first version, only where its
/// file and its schema are sound, and only by who holds the lease.
pub proof fn law_upgrades_are_guarded(
    request: UpgradeDatabaseRequestV1View,
    latest: i32,
    facts: UpgradeFacts,
)
    requires
        request.next(latest, facts) is Migrate,
    ensures
        request.apply,
        facts.version matches Some(Ok(version)) && version == 1,
        facts.integrity matches Some(pre) && pre != UpgradeIntegrityCheck::Failed,
        facts.schema matches Some(Ok(_)),
        facts.lease matches Some(Ok(_)),
        facts.reopened matches Some(Ok(_)),
{
}

/// Where the lease was asked for and taken, the answer comes only after it was given
/// back.
pub proof fn law_upgrades_give_the_lease_back(
    request: UpgradeDatabaseRequestV1View,
    latest: i32,
    facts: UpgradeFacts,
)
    requires
        request.next(latest, (UpgradeFacts { lease: None, ..facts })) is AcquireLease,
        facts.lease matches Some(Ok(_)),
        request.next(latest, facts) is Respond,
    ensures
        facts.released,
{
}

/// As long as the upgrade drops no more cached parses than were counted, the answer
/// does not report more.
pub proof fn law_no_more_is_dropped_than_was_found(
    request: UpgradeDatabaseRequestV1View,
    latest: i32,
    facts: UpgradeFacts,
)
    requires
        request.next(latest, facts) is Respond,
        facts.migrated matches Some(Ok(dropped)) ==> (facts.detected matches Some(Ok(found))
            && dropped <= found),
    ensures
        (request.next(latest, facts)->Respond_0).invalidated_parse_cache_rows <= (request.next(
            latest,
            facts,
        )->Respond_0).legacy_parse_cache_rows_detected,
{
}

/// Only an answer without an error reports success, and only one with warnings reports
/// a part of it.
pub proof fn law_upgrade_answers_are_honest(
    request: UpgradeDatabaseRequestV1View,
    latest: i32,
    facts: UpgradeFacts,
)
    requires
        request.next(latest, facts) is Respond,
    ensures
        ({
            let response = request.next(latest, facts)->Respond_0;
            &&& response.request_id == request.request_id
            &&& response.apply == request.apply
            &&& (response.status == UpgradeStatus::Error) == (response.error is Some)
            &&& (response.status == UpgradeStatus::Partial) == (response.warnings.len() > 0)
            &&& (response.status == UpgradeStatus::Partial) ==> response.schema_migrated
                && !response.auto_vacuum_converted
        }),
{
}

/// A report tells its code, may be tried again as it says, is of the upkeep, and holds the
/// message as far as there is room for it.
pub proof fn law_reports_hold_what_was_reported(
    error_code: ErrorCode,
    message: Seq<char>,
    retryable: bool,
)
    ensures
        ({
            let report = upkeep_report(error_code, message, retryable);
            &&& report.error_code == error_code
            &&& report.retryable == retryable
            &&& report.stage == DiagnosticStage::Maintenance
            &&& report.file_path is None
            &&& report.backend is None
            &&& message.len() <= 4_096 ==> report.message == message
            &&& message.len() > 4_096 ==> report.message.len() == 4_096 && message
                == report.message + message.skip(4_096)
        }),
{
    if message.len() > 4_096 {
        assert(message =~= message.take(4_096) + message.skip(4_096));
    }
}

/// Different versions are written differently, and only one below zero with a sign.
pub proof fn law_versions_are_told_apart(left: int, right: int)
    ensures
        integer_text(left) == integer_text(right) <==> left == right,
        integer_text(left)[0] == '-' <==> left < 0,
        left >= 0 ==> integer_text(left) == decimal(left as nat),
        left < 0 ==> integer_text(left) == seq!['-'] + decimal((-left) as nat),
{
    lemma_written_integer(left);
    lemma_written_integer(right);
    if integer_text(left) == integer_text(right) {
        if left < 0 {
            assert(integer_text(left).skip(1) =~= decimal((-left) as nat));
            assert(integer_text(right).skip(1) =~= decimal((-right) as nat));
            crate::text::law_decimal_injective((-left) as nat, (-right) as nat);
        } else {
            crate::text::law_decimal_injective(left as nat, right as nat);
        }
    }
}

proof fn lemma_written_integer(value: int)
    ensures
        integer_text(value)[0] == '-' <==> value < 0,
{
    if value >= 0 {
        crate::text::lemma_decimal(value as nat);
        assert(crate::text::is_digit(decimal(value as nat)[0]));
    }
}

/// Each step of an upgrade is taken once, after those that it rests on went well.
pub proof fn law_upgrade_steps_come_in_order(
    request: UpgradeDatabaseRequestV1View,
    latest: i32,
    facts: UpgradeFacts,
)
    ensures
        ({
            let step = request.next(latest, facts);
            let first = facts.version is Some && facts.version->0 is Ok && facts.version->0->Ok_0
                == 1 && facts.integrity is Some && latest >= 1;
            let known = first && facts.schema is Some && facts.schema->0 is Ok;
            let counted = known && facts.detected is Some && facts.detected->0 is Ok;
            let timed = known && facts.clock is Some && facts.clock->0 is Ok;
            let leased = counted && timed && request.apply && facts.integrity != Some(
                UpgradeIntegrityCheck::Failed,
            ) && facts.lease is Some && facts.lease->0 is Ok;
            let reopened = leased && facts.reopened is Some && facts.reopened->0 is Ok;
            let migrated = reopened && facts.migrated is Some && facts.migrated->0 is Ok;
            &&& step is Open ==> facts.opened is None
            &&& step is Configure ==> (facts.opened is Some && facts.opened->0 is Ok)
                && facts.configured is None
            &&& step is ReadVersion ==> (facts.configured is Some && facts.configured->0 is Ok)
                && facts.version is None
            &&& step is CheckIntegrity ==> (facts.version is Some && facts.version->0 is Ok)
                && facts.integrity is None
            &&& step is VerifySchema ==> first && facts.schema is None
            &&& step is ReadClock ==> known && facts.clock is None
            &&& step is ReadLease ==> timed && facts.live_lease is None && !request.apply
            &&& step is CountCache ==> known && facts.detected is None
            &&& step is AcquireLease ==> counted && timed && request.apply && facts.lease is None
            &&& step is Reopen ==> leased && facts.reopened is None
            &&& step is Migrate ==> reopened && facts.migrated is None
            &&& step is CheckMigrated ==> migrated && facts.post_integrity is None
            &&& step is ConvertVacuum ==> migrated && facts.post_integrity is Some
                && facts.post_integrity != Some(UpgradeIntegrityCheck::Failed)
                && facts.converted is None
            &&& step is ReleaseLease ==> leased && !facts.released
        }),
{
}

/// A database that cannot be read is told as such, and may be tried again.
pub proof fn law_unreadable_databases_are_told(
    request: UpgradeDatabaseRequestV1View,
    latest: i32,
    facts: UpgradeFacts,
)
    requires
        ({
            let opened = facts.opened is Some && facts.opened->0 is Ok;
            let configured = opened && facts.configured is Some && facts.configured->0 is Ok;
            ||| facts.opened is Some && facts.opened->0 is Err
            ||| opened && facts.configured is Some && facts.configured->0 is Err
            ||| configured && facts.version is Some && facts.version->0 is Err
        }),
    ensures
        request.next(latest, facts) matches UpgradeStepView::Respond(response) && {
            &&& response.status == UpgradeStatus::Error
            &&& response.error is Some
            &&& response.error->0.error_code == ErrorCode::CacheOpenFailed
            &&& response.error->0.retryable
            &&& response.source_user_version is None
            &&& response.pre_integrity_check == UpgradeIntegrityCheck::NotRun
            &&& !response.schema_migrated
        },
{
}

/// Only a database of the first version is upgraded: one of the second is told to be done,
/// one that is newer than the engine is refused with its version, and any other is refused
/// without one.
pub proof fn law_only_first_versions_are_upgraded(
    request: UpgradeDatabaseRequestV1View,
    latest: i32,
    facts: UpgradeFacts,
    version: i32,
    pre: UpgradeIntegrityCheck,
)
    requires
        facts.opened is Some && facts.opened->0 is Ok,
        facts.configured is Some && facts.configured->0 is Ok,
        facts.version == Some(Ok::<i32, StoreError>(version)),
        facts.integrity == Some(pre),
        latest >= 2,
        version != 1,
    ensures
        request.next(latest, facts) matches UpgradeStepView::Respond(response) && {
            &&& response.target_user_version == 2
            &&& response.pre_integrity_check == pre
            &&& response.post_integrity_check == UpgradeIntegrityCheck::NotRun
            &&& !response.schema_migrated
            &&& !response.auto_vacuum_converted
            &&& response.legacy_parse_cache_rows_detected == 0
            &&& response.invalidated_parse_cache_rows == 0
            &&& response.status == UpgradeStatus::Complete <==> version == 2
            &&& version == 2 ==> response.source_user_version == Some(2u64)
            &&& version > latest ==> response.source_user_version == Some(version as u64)
            &&& version != 2 && version <= latest ==> response.source_user_version is None
            &&& version != 2 ==> response.error is Some && response.error->0.error_code
                == ErrorCode::SchemaUpgradeRequired && !response.error->0.retryable
        },
{
}

/// An audit of a database of the first version tells how many cached parses an upgrade would
/// find; one that another run works on is not audited.
pub proof fn law_audits_count_the_cached_parses(
    request: UpgradeDatabaseRequestV1View,
    pre: UpgradeIntegrityCheck,
    facts: UpgradeFacts,
    detected: u64,
)
    requires
        facts.clock is Some && facts.clock->0 is Ok,
        facts.live_lease is Some,
        facts.detected == Some(Ok::<u64, StoreError>(detected)),
    ensures
        request.next_of_audit(pre, facts) matches UpgradeStepView::Respond(response) && {
            let live = facts.live_lease == Some(true);
            &&& response.source_user_version == Some(1u64)
            &&& response.pre_integrity_check == pre
            &&& !response.schema_migrated
            &&& response.status == UpgradeStatus::Error <==> live
            &&& !live ==> response.status == UpgradeStatus::Complete
                && response.legacy_parse_cache_rows_detected == detected
            &&& live ==> response.error is Some && response.error->0.error_code
                == ErrorCode::ScanAlreadyRunning && response.error->0.retryable
        },
{
}

/// An upgrade that went through tells both checks and the rows that it found and dropped; it
/// is whole where the pages are given back from now on, a part where they are not, and failed
/// where the migrated database is not sound.
pub proof fn law_done_upgrades_tell_what_was_done(
    request: UpgradeDatabaseRequestV1View,
    pre: UpgradeIntegrityCheck,
    detected: u64,
    facts: UpgradeFacts,
    invalidated: u64,
    post: UpgradeIntegrityCheck,
    converted: bool,
)
    requires
        facts.reopened is Some && facts.reopened->0 is Ok,
        facts.migrated == Some(Ok::<u64, String>(invalidated)),
        facts.post_integrity == Some(post),
        facts.converted == Some(converted),
    ensures
        request.next_with_lease(pre, detected, facts) matches UpgradeStepView::Respond(
            response,
        ) && {
            let sound = post != UpgradeIntegrityCheck::Failed;
            &&& response.request_id == request.request_id
            &&& response.apply == request.apply
            &&& response.source_user_version == Some(1u64)
            &&& response.target_user_version == 2
            &&& response.schema_migrated
            &&& response.pre_integrity_check == pre
            &&& response.post_integrity_check == post
            &&& response.legacy_parse_cache_rows_detected == detected
            &&& response.status == UpgradeStatus::Complete <==> sound && converted
            &&& response.status == UpgradeStatus::Partial <==> sound && !converted
            &&& response.status == UpgradeStatus::Error <==> !sound
            &&& response.auto_vacuum_converted <==> sound && converted
            &&& sound ==> response.invalidated_parse_cache_rows == invalidated
            &&& sound ==> response.error is None
            &&& !sound ==> response.error is Some && response.error->0.error_code
                == ErrorCode::SchemaMigrationFailed && response.invalidated_parse_cache_rows
                == detected
            &&& sound && !converted ==> response.warnings.len() == 1
                && response.warnings[0].error_code == ErrorCode::MaintenanceModeUnavailable
            &&& converted || !sound ==> response.warnings.len() == 0
        },
{
}

/// A migration that was taken back leaves the database as it was, and tells so.
pub proof fn law_failed_migrations_change_nothing(
    request: UpgradeDatabaseRequestV1View,
    pre: UpgradeIntegrityCheck,
    detected: u64,
    facts: UpgradeFacts,
)
    requires
        facts.reopened is Some && facts.reopened->0 is Ok,
        facts.migrated is Some && facts.migrated->0 is Err,
    ensures
        request.next_with_lease(pre, detected, facts) matches UpgradeStepView::Respond(
            response,
        ) && {
            &&& response.status == UpgradeStatus::Error
            &&& response.error is Some
            &&& response.error->0.error_code == ErrorCode::SchemaMigrationFailed
            &&& !response.error->0.retryable
            &&& !response.schema_migrated
            &&& !response.auto_vacuum_converted
            &&& response.invalidated_parse_cache_rows == 0
            &&& response.legacy_parse_cache_rows_detected == detected
            &&& response.pre_integrity_check == pre
            &&& response.post_integrity_check == UpgradeIntegrityCheck::NotRun
        },
{
}

/// Each outcome of an upgrade is told by its own name.
pub proof fn law_upgrade_statuses_have_names_of_their_own(status: UpgradeStatus)
    ensures
        status.text_spec() == "ok"@ <==> status == UpgradeStatus::Complete,
        status.text_spec() == "partial"@ <==> status == UpgradeStatus::Partial,
        status.text_spec() == "error"@ <==> status == UpgradeStatus::Error,
{
    reveal_strlit("ok");
    reveal_strlit("partial");
    reveal_strlit("error");
    assert("ok"@.len() == 2);
    assert("partial"@.len() == 7);
    assert("error"@.len() == 5);
}

/// Each outcome of a check is told by its own name.
pub proof fn law_upgrade_checks_have_names_of_their_own(check: UpgradeIntegrityCheck)
    ensures
        check.text_spec() == "ok"@ <==> check == UpgradeIntegrityCheck::Passed,
        check.text_spec() == "failed"@ <==> check == UpgradeIntegrityCheck::Failed,
        check.text_spec() == "not_run"@ <==> check == UpgradeIntegrityCheck::NotRun,
{
    reveal_strlit("ok");
    reveal_strlit("failed");
    reveal_strlit("not_run");
    assert("ok"@.len() == 2);
    assert("failed"@.len() == 6);
    assert("not_run"@.len() == 7);
}

} // verus!
