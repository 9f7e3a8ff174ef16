//! Requests and their canonical form: the JSON by which a repeated request is known again.
use crate::json::{
    json_member, json_members, json_object, json_text, keys, lemma_plain_text, JsonWriter,
};
use crate::profile::{NormalizedScannerProfileV1, NormalizedScannerProfileV1View};
use crate::store::cache::{parse_json, write_parse};
use crate::store::run::{
    joined_text, CanonicalRequest, CanonicalRequestView, StoreError, StoreErrorView,
};
use crate::text::{decimal, text_eq};
use vstd::prelude::*;

verus! {

/// Where the workers of a request are.
#[derive(Debug, PartialEq, Eq)]
pub struct AdapterPaths {
    pub office_worker_path: String,
    pub python_executable: String,
    pub python_module_root: String,
    pub python_document_worker_module: String,
}

/// A request for a context.
#[derive(Debug, PartialEq, Eq)]
pub struct BuildContextRequest {
    pub contract: String,
    pub protocol_version: u64,
    pub request_id: String,
    pub work_dir: String,
    pub scan_db_path: String,
    pub start_date: String,
    pub end_date: String,
    pub report_mode: String,
    pub adapters: AdapterPaths,
}

/// What [`AdapterPaths`] say.
#[verifier::ext_equal]
pub struct AdapterPathsView {
    pub office_worker_path: Seq<char>,
    pub python_executable: Seq<char>,
    pub python_module_root: Seq<char>,
    pub python_document_worker_module: Seq<char>,
}

/// What a [`BuildContextRequest`] says.
#[verifier::ext_equal]
pub struct BuildContextRequestView {
    pub contract: Seq<char>,
    pub protocol_version: u64,
    pub request_id: Seq<char>,
    pub work_dir: Seq<char>,
    pub scan_db_path: Seq<char>,
    pub start_date: Seq<char>,
    pub end_date: Seq<char>,
    pub report_mode: Seq<char>,
    pub adapters: AdapterPathsView,
}

impl View for AdapterPaths {
    type V = AdapterPathsView;

    open spec fn view(&self) -> AdapterPathsView {
        AdapterPathsView {
            office_worker_path: self.office_worker_path@,
            python_executable: self.python_executable@,
            python_module_root: self.python_module_root@,
            python_document_worker_module: self.python_document_worker_module@,
        }
    }
}

impl View for BuildContextRequest {
    type V = BuildContextRequestView;

    open spec fn view(&self) -> BuildContextRequestView {
        BuildContextRequestView {
            contract: self.contract@,
            protocol_version: self.protocol_version,
            request_id: self.request_id@,
            work_dir: self.work_dir@,
            scan_db_path: self.scan_db_path@,
            start_date: self.start_date@,
            end_date: self.end_date@,
            report_mode: self.report_mode@,
            adapters: self.adapters@,
        }
    }
}

impl Clone for AdapterPaths {
    fn clone(&self) -> (copy: Self)
        ensures
            copy@ == self@,
    {
        AdapterPaths {
            office_worker_path: self.office_worker_path.clone(),
            python_executable: self.python_executable.clone(),
            python_module_root: self.python_module_root.clone(),
            python_document_worker_module: self.python_document_worker_module.clone(),
        }
    }
}

impl Clone for BuildContextRequest {
    fn clone(&self) -> (copy: Self)
        ensures
            copy@ == self@,
    {
        BuildContextRequest {
            contract: self.contract.clone(),
            protocol_version: self.protocol_version,
            request_id: self.request_id.clone(),
            work_dir: self.work_dir.clone(),
            scan_db_path: self.scan_db_path.clone(),
            start_date: self.start_date.clone(),
            end_date: self.end_date.clone(),
            report_mode: self.report_mode.clone(),
            adapters: self.adapters.clone(),
        }
    }
}

/// What else a normalized profile holds: its schema, and the JSON of the sections that are
/// carried as they were written. Nothing is said of what that JSON holds.
#[derive(Debug, PartialEq, Eq)]
pub struct ProfileSections {
    pub schema_version: String,
    pub discovery_json: String,
    pub execution_json: String,
    pub context_json: String,
}

/// What [`ProfileSections`] say.
#[verifier::ext_equal]
pub struct ProfileSectionsView {
    pub schema_version: Seq<char>,
    pub discovery_json: Seq<char>,
    pub execution_json: Seq<char>,
    pub context_json: Seq<char>,
}

impl View for ProfileSections {
    type V = ProfileSectionsView;

    open spec fn view(&self) -> ProfileSectionsView {
        ProfileSectionsView {
            schema_version: self.schema_version@,
            discovery_json: self.discovery_json@,
            execution_json: self.execution_json@,
            context_json: self.context_json@,
        }
    }
}

/// The canonical JSON of the scanner profile of a request.
pub open spec fn scanner_profile_json(
    profile: NormalizedScannerProfileV1View,
    sections: ProfileSectionsView,
) -> Seq<char> {
    "{\"schema_version\":"@ + json_text(sections.schema_version) + ",\"parser_profile_version\":"@
        + json_text(profile.parser_profile_version) + ",\"discovery\":"@ + sections.discovery_json
        + ",\"execution\":"@ + sections.execution_json + ",\"parse\":"@ + parse_json(profile.parse)
        + "}"@
}

/// The canonical JSON of a request: its logical input, with the working directory as it was
/// resolved. Its identity, its database and its workers are not in it.
pub open spec fn request_json(
    request: BuildContextRequestView,
    profile: NormalizedScannerProfileV1View,
    sections: ProfileSectionsView,
    work_dir: Seq<char>,
) -> Seq<char> {
    "{\"contract\":"@ + json_text(request.contract) + ",\"protocol_version\":"@ + decimal(
        request.protocol_version as nat,
    ) + ",\"work_dir\":"@ + json_text(work_dir) + ",\"start_date\":"@ + json_text(
        request.start_date,
    ) + ",\"end_date\":"@ + json_text(request.end_date) + ",\"report_mode\":"@ + json_text(
        request.report_mode,
    ) + ",\"scanner_profile\":"@ + scanner_profile_json(profile, sections)
        + ",\"context_profile\":"@ + sections.context_json + "}"@
}

fn write_request(
    request: &BuildContextRequest,
    profile: &NormalizedScannerProfileV1,
    sections: &ProfileSections,
    work_dir: &str,
) -> (json: String)
    ensures
        json@ == request_json(request@, profile@, sections@, work_dir@),
{
    let mut writer = JsonWriter::new();
    writer.raw("{\"contract\":");
    writer.text(request.contract.as_str());
    writer.raw(",\"protocol_version\":");
    writer.number(request.protocol_version);
    writer.raw(",\"work_dir\":");
    writer.text(work_dir);
    writer.raw(",\"start_date\":");
    writer.text(request.start_date.as_str());
    writer.raw(",\"end_date\":");
    writer.text(request.end_date.as_str());
    writer.raw(",\"report_mode\":");
    writer.text(request.report_mode.as_str());
    writer.raw(",\"scanner_profile\":");
    let ghost open = writer@;
    writer.raw("{\"schema_version\":");
    writer.text(sections.schema_version.as_str());
    writer.raw(",\"parser_profile_version\":");
    writer.text(profile.parser_profile_version.as_str());
    writer.raw(",\"discovery\":");
    writer.raw(sections.discovery_json.as_str());
    writer.raw(",\"execution\":");
    writer.raw(sections.execution_json.as_str());
    writer.raw(",\"parse\":");
    write_parse(&mut writer, &profile.parse);
    writer.raw("}");
    assert(writer@ =~= open + scanner_profile_json(profile@, sections@));
    writer.raw(",\"context_profile\":");
    writer.raw(sections.context_json.as_str());
    writer.raw("}");
    assert(writer@ =~= request_json(request@, profile@, sections@, work_dir@));
    writer.finish()
}

/// What keeps a request from being put into its canonical form: the wire contract refuses
/// it or its profile, their report modes differ, its working directory cannot be resolved,
/// or a section of its profile cannot be written.
pub open spec fn canonical_fault(
    request: BuildContextRequestView,
    profile_mode: Seq<char>,
    request_verdict: Result<(), String>,
    profile_verdict: Result<(), String>,
    work_dir_found: bool,
    sections: Result<ProfileSections, String>,
) -> Option<StoreErrorView> {
    if request_verdict is Err {
        Some(StoreErrorView::InvalidRequest(request_verdict->Err_0@))
    } else if profile_verdict is Err {
        Some(StoreErrorView::InvalidRequest(profile_verdict->Err_0@))
    } else if request.report_mode != profile_mode {
        Some(StoreErrorView::InvalidRequest("request and normalized report modes disagree"@))
    } else if !work_dir_found {
        Some(StoreErrorView::InvalidRequest("work_dir is unavailable"@))
    } else if sections is Err {
        Some(
            StoreErrorView::InvalidRequest(
                "canonical request serialization failed: "@ + sections->Err_0@,
            ),
        )
    } else {
        None
    }
}

/// Puts a request into its canonical form. The verdicts are those of the wire contract on
/// the request and on its profile; `work_dir` is the working directory as it was resolved.
pub fn canonicalize_request(
    request: &BuildContextRequest,
    profile: &NormalizedScannerProfileV1,
    profile_mode: &str,
    request_verdict: &Result<(), String>,
    profile_verdict: &Result<(), String>,
    work_dir: Option<&str>,
    sections: &Result<ProfileSections, String>,
) -> (canonical: Result<CanonicalRequest, StoreError>)
    ensures
        match canonical_fault(
            request@,
            profile_mode@,
            *request_verdict,
            *profile_verdict,
            work_dir is Some,
            *sections,
        ) {
            Some(fault) => canonical is Err && canonical->Err_0@ == fault,
            None => canonical is Ok && canonical->Ok_0@ == CanonicalRequestView::of(
                request.request_id@,
                request_json(request@, profile@, sections->Ok_0@, work_dir->0@),
            ),
        },
{
    if let Err(message) = request_verdict {
        return Err(StoreError::invalid(message.as_str()));
    }
    if let Err(message) = profile_verdict {
        return Err(StoreError::invalid(message.as_str()));
    }
    if !text_eq(request.report_mode.as_str(), profile_mode) {
        return Err(StoreError::invalid("request and normalized report modes disagree"));
    }
    let resolved: &str = match work_dir {
        None => {
            return Err(StoreError::invalid("work_dir is unavailable"));
        },
        Some(resolved) => resolved,
    };
    match sections {
        Err(message) => Err(
            StoreError::InvalidRequest(
                joined_text("canonical request serialization failed: ", message.as_str()),
            ),
        ),
        Ok(written) => {
            let json: String = write_request(request, profile, written, resolved);
            Ok(CanonicalRequest::from_json(request.request_id.as_str(), json))
        },
    }
}

/// The canonical form of a request holds its logical input alone: requests that differ at
/// most in their identity, their database, their workers and the spelling of the same
/// working directory have the same JSON and the same hash.
pub proof fn law_canonical_form_is_of_the_logical_input(
    left: BuildContextRequestView,
    right: BuildContextRequestView,
    profile: NormalizedScannerProfileV1View,
    sections: ProfileSectionsView,
    work_dir: Seq<char>,
)
    requires
        left == (BuildContextRequestView {
            request_id: left.request_id,
            work_dir: left.work_dir,
            scan_db_path: left.scan_db_path,
            adapters: left.adapters,
            ..right
        }),
    ensures
        ({
            let first = CanonicalRequestView::of(
                left.request_id,
                request_json(left, profile, sections, work_dir),
            );
            let second = CanonicalRequestView::of(
                right.request_id,
                request_json(right, profile, sections, work_dir),
            );
            first.json == second.json && first.hash == second.hash
        }),
{
}

/// The members of the scanner profile of a request, in their order.
pub open spec fn profile_members(
    profile: NormalizedScannerProfileV1View,
    sections: ProfileSectionsView,
) -> Seq<(Seq<char>, Seq<char>)> {
    seq![
        ("schema_version"@, json_text(sections.schema_version)),
        ("parser_profile_version"@, json_text(profile.parser_profile_version)),
        ("discovery"@, sections.discovery_json),
        ("execution"@, sections.execution_json),
        ("parse"@, parse_json(profile.parse)),
    ]
}

/// The members of the canonical form of a request, in their order.
pub open spec fn request_members(
    request: BuildContextRequestView,
    profile: NormalizedScannerProfileV1View,
    sections: ProfileSectionsView,
    work_dir: Seq<char>,
) -> Seq<(Seq<char>, Seq<char>)> {
    seq![
        ("contract"@, json_text(request.contract)),
        ("protocol_version"@, decimal(request.protocol_version as nat)),
        ("work_dir"@, json_text(work_dir)),
        ("start_date"@, json_text(request.start_date)),
        ("end_date"@, json_text(request.end_date)),
        ("report_mode"@, json_text(request.report_mode)),
        ("scanner_profile"@, scanner_profile_json(profile, sections)),
        ("context_profile"@, sections.context_json),
    ]
}

proof fn lemma_schema_version_key()
    ensures
        "{\"schema_version\":"@ == "{"@ + json_text("schema_version"@) + ":"@,
{
    reveal_strlit("{\"schema_version\":");
    reveal_strlit("{");
    reveal_strlit("schema_version");
    reveal_strlit(":");
    lemma_plain_text("schema_version"@);
    assert("{\"schema_version\":"@ =~= "{"@ + json_text("schema_version"@) + ":"@);
}

proof fn lemma_parser_profile_version_key()
    ensures
        ",\"parser_profile_version\":"@ == ","@ + json_text("parser_profile_version"@) + ":"@,
{
    reveal_strlit(",\"parser_profile_version\":");
    reveal_strlit(",");
    reveal_strlit("parser_profile_version");
    reveal_strlit(":");
    lemma_plain_text("parser_profile_version"@);
    assert(",\"parser_profile_version\":"@ =~= ","@ + json_text("parser_profile_version"@) + ":"@);
}

proof fn lemma_discovery_key()
    ensures
        ",\"discovery\":"@ == ","@ + json_text("discovery"@) + ":"@,
{
    reveal_strlit(",\"discovery\":");
    reveal_strlit(",");
    reveal_strlit("discovery");
    reveal_strlit(":");
    lemma_plain_text("discovery"@);
    assert(",\"discovery\":"@ =~= ","@ + json_text("discovery"@) + ":"@);
}

proof fn lemma_execution_key()
    ensures
        ",\"execution\":"@ == ","@ + json_text("execution"@) + ":"@,
{
    reveal_strlit(",\"execution\":");
    reveal_strlit(",");
    reveal_strlit("execution");
    reveal_strlit(":");
    lemma_plain_text("execution"@);
    assert(",\"execution\":"@ =~= ","@ + json_text("execution"@) + ":"@);
}

proof fn lemma_parse_key()
    ensures
        ",\"parse\":"@ == ","@ + json_text("parse"@) + ":"@,
{
    reveal_strlit(",\"parse\":");
    reveal_strlit(",");
    reveal_strlit("parse");
    reveal_strlit(":");
    lemma_plain_text("parse"@);
    assert(",\"parse\":"@ =~= ","@ + json_text("parse"@) + ":"@);
}

proof fn lemma_contract_key()
    ensures
        "{\"contract\":"@ == "{"@ + json_text("contract"@) + ":"@,
{
    reveal_strlit("{\"contract\":");
    reveal_strlit("{");
    reveal_strlit("contract");
    reveal_strlit(":");
    lemma_plain_text("contract"@);
    assert("{\"contract\":"@ =~= "{"@ + json_text("contract"@) + ":"@);
}

proof fn lemma_protocol_version_key()
    ensures
        ",\"protocol_version\":"@ == ","@ + json_text("protocol_version"@) + ":"@,
{
    reveal_strlit(",\"protocol_version\":");
    reveal_strlit(",");
    reveal_strlit("protocol_version");
    reveal_strlit(":");
    lemma_plain_text("protocol_version"@);
    assert(",\"protocol_version\":"@ =~= ","@ + json_text("protocol_version"@) + ":"@);
}

proof fn lemma_work_dir_key()
    ensures
        ",\"work_dir\":"@ == ","@ + json_text("work_dir"@) + ":"@,
{
    reveal_strlit(",\"work_dir\":");
    reveal_strlit(",");
    reveal_strlit("work_dir");
    reveal_strlit(":");
    lemma_plain_text("work_dir"@);
    assert(",\"work_dir\":"@ =~= ","@ + json_text("work_dir"@) + ":"@);
}

proof fn lemma_start_date_key()
    ensures
        ",\"start_date\":"@ == ","@ + json_text("start_date"@) + ":"@,
{
    reveal_strlit(",\"start_date\":");
    reveal_strlit(",");
    reveal_strlit("start_date");
    reveal_strlit(":");
    lemma_plain_text("start_date"@);
    assert(",\"start_date\":"@ =~= ","@ + json_text("start_date"@) + ":"@);
}

proof fn lemma_end_date_key()
    ensures
        ",\"end_date\":"@ == ","@ + json_text("end_date"@) + ":"@,
{
    reveal_strlit(",\"end_date\":");
    reveal_strlit(",");
    reveal_strlit("end_date");
    reveal_strlit(":");
    lemma_plain_text("end_date"@);
    assert(",\"end_date\":"@ =~= ","@ + json_text("end_date"@) + ":"@);
}

proof fn lemma_report_mode_key()
    ensures
        ",\"report_mode\":"@ == ","@ + json_text("report_mode"@) + ":"@,
{
    reveal_strlit(",\"report_mode\":");
    reveal_strlit(",");
    reveal_strlit("report_mode");
    reveal_strlit(":");
    lemma_plain_text("report_mode"@);
    assert(",\"report_mode\":"@ =~= ","@ + json_text("report_mode"@) + ":"@);
}

proof fn lemma_scanner_profile_key()
    ensures
        ",\"scanner_profile\":"@ == ","@ + json_text("scanner_profile"@) + ":"@,
{
    reveal_strlit(",\"scanner_profile\":");
    reveal_strlit(",");
    reveal_strlit("scanner_profile");
    reveal_strlit(":");
    lemma_plain_text("scanner_profile"@);
    assert(",\"scanner_profile\":"@ =~= ","@ + json_text("scanner_profile"@) + ":"@);
}

proof fn lemma_context_profile_key()
    ensures
        ",\"context_profile\":"@ == ","@ + json_text("context_profile"@) + ":"@,
{
    reveal_strlit(",\"context_profile\":");
    reveal_strlit(",");
    reveal_strlit("context_profile");
    reveal_strlit(":");
    lemma_plain_text("context_profile"@);
    assert(",\"context_profile\":"@ =~= ","@ + json_text("context_profile"@) + ":"@);
}

proof fn lemma_first_member(members: Seq<(Seq<char>, Seq<char>)>, open: Seq<char>)
    requires
        members.len() > 0,
        open == "{"@ + json_text(members[0].0) + ":"@ + members[0].1,
    ensures
        open == "{"@ + json_members(members, 1),
{
    assert(open =~= "{"@ + (json_text(members[0].0) + ":"@ + members[0].1));
}

proof fn lemma_next_member(
    members: Seq<(Seq<char>, Seq<char>)>,
    count: nat,
    open: Seq<char>,
    lead: Seq<char>,
    next: Seq<char>,
)
    requires
        0 < count < members.len(),
        open == "{"@ + json_members(members, count),
        lead == ","@ + json_text(members[count as int].0) + ":"@,
        next == open + lead + members[count as int].1,
    ensures
        next == "{"@ + json_members(members, count + 1),
{
    let member = json_member(members[count as int].0, members[count as int].1);
    assert(next =~= "{"@ + (json_members(members, count) + ","@ + member));
}

proof fn lemma_keys_of_requests(keys: Seq<Seq<char>>)
    requires
        keys == seq![
            "contract"@,
            "protocol_version"@,
            "work_dir"@,
            "start_date"@,
            "end_date"@,
            "report_mode"@,
            "scanner_profile"@,
            "context_profile"@,
        ],
    ensures
        !keys.contains("request_id"@),
        !keys.contains("scan_db_path"@),
        !keys.contains("adapters"@),
{
    reveal_strlit("contract");
    reveal_strlit("protocol_version");
    reveal_strlit("work_dir");
    reveal_strlit("start_date");
    reveal_strlit("end_date");
    reveal_strlit("report_mode");
    reveal_strlit("scanner_profile");
    reveal_strlit("context_profile");
    reveal_strlit("request_id");
    reveal_strlit("scan_db_path");
    reveal_strlit("adapters");
    assert("request_id"@[2] == 'q');
    assert("start_date"@[2] == 'a');
    assert("scan_db_path"@.len() == 12);
    assert("adapters"@[0] == 'a');
    assert("contract"@[0] == 'c');
    assert("work_dir"@[0] == 'w');
    assert("end_date"@[0] == 'e');
}

/// The canonical form of a scanner profile is the JSON object of its schema, its version and
/// its sections.
pub proof fn law_canonical_profile_holds_its_sections(
    profile: NormalizedScannerProfileV1View,
    sections: ProfileSectionsView,
)
    ensures
        scanner_profile_json(profile, sections) == json_object(profile_members(profile, sections)),
        keys(profile_members(profile, sections)) == seq![
            "schema_version"@,
            "parser_profile_version"@,
            "discovery"@,
            "execution"@,
            "parse"@,
        ],
{
    let members = profile_members(profile, sections);
    lemma_schema_version_key();
    let o1 = "{\"schema_version\":"@ + json_text(sections.schema_version);
    lemma_first_member(members, o1);
    lemma_parser_profile_version_key();
    let o2 = o1 + ",\"parser_profile_version\":"@ + json_text(profile.parser_profile_version);
    lemma_next_member(members, 1, o1, ",\"parser_profile_version\":"@, o2);
    lemma_discovery_key();
    let o3 = o2 + ",\"discovery\":"@ + sections.discovery_json;
    lemma_next_member(members, 2, o2, ",\"discovery\":"@, o3);
    lemma_execution_key();
    let o4 = o3 + ",\"execution\":"@ + sections.execution_json;
    lemma_next_member(members, 3, o3, ",\"execution\":"@, o4);
    lemma_parse_key();
    let o5 = o4 + ",\"parse\":"@ + parse_json(profile.parse);
    lemma_next_member(members, 4, o4, ",\"parse\":"@, o5);
}

/// The canonical form of a request is the JSON object of its logical input: it has these
/// eight members and no other, so neither the identity of the request nor its database nor
/// its workers.
pub proof fn law_canonical_request_holds_its_logical_input(
    request: BuildContextRequestView,
    profile: NormalizedScannerProfileV1View,
    sections: ProfileSectionsView,
    work_dir: Seq<char>,
)
    ensures
        ({
            let members = request_members(request, profile, sections, work_dir);
            &&& request_json(request, profile, sections, work_dir) == json_object(members)
            &&& keys(members) == seq![
                "contract"@,
                "protocol_version"@,
                "work_dir"@,
                "start_date"@,
                "end_date"@,
                "report_mode"@,
                "scanner_profile"@,
                "context_profile"@,
            ]
            &&& !keys(members).contains("request_id"@)
            &&& !keys(members).contains("scan_db_path"@)
            &&& !keys(members).contains("adapters"@)
        }),
{
    let members = request_members(request, profile, sections, work_dir);
    lemma_contract_key();
    let o1 = "{\"contract\":"@ + json_text(request.contract);
    lemma_first_member(members, o1);
    lemma_protocol_version_key();
    let o2 = o1 + ",\"protocol_version\":"@ + decimal(request.protocol_version as nat);
    lemma_next_member(members, 1, o1, ",\"protocol_version\":"@, o2);
    lemma_work_dir_key();
    let o3 = o2 + ",\"work_dir\":"@ + json_text(work_dir);
    lemma_next_member(members, 2, o2, ",\"work_dir\":"@, o3);
    lemma_start_date_key();
    let o4 = o3 + ",\"start_date\":"@ + json_text(request.start_date);
    lemma_next_member(members, 3, o3, ",\"start_date\":"@, o4);
    lemma_end_date_key();
    let o5 = o4 + ",\"end_date\":"@ + json_text(request.end_date);
    lemma_next_member(members, 4, o4, ",\"end_date\":"@, o5);
    lemma_report_mode_key();
    let o6 = o5 + ",\"report_mode\":"@ + json_text(request.report_mode);
    lemma_next_member(members, 5, o5, ",\"report_mode\":"@, o6);
    lemma_scanner_profile_key();
    let o7 = o6 + ",\"scanner_profile\":"@ + scanner_profile_json(profile, sections);
    lemma_next_member(members, 6, o6, ",\"scanner_profile\":"@, o7);
    lemma_context_profile_key();
    let o8 = o7 + ",\"context_profile\":"@ + sections.context_json;
    lemma_next_member(members, 7, o7, ",\"context_profile\":"@, o8);
    assert(keys(members) =~= seq![
        "contract"@,
        "protocol_version"@,
        "work_dir"@,
        "start_date"@,
        "end_date"@,
        "report_mode"@,
        "scanner_profile"@,
        "context_profile"@,
    ]);
    lemma_keys_of_requests(keys(members));
}

/// Each part of the logical input stands in the canonical form under its own name.
pub proof fn law_canonical_forms_name_each_input(
    request: BuildContextRequestView,
    profile: NormalizedScannerProfileV1View,
    sections: ProfileSectionsView,
    work_dir: Seq<char>,
)
    ensures
        request_json(request, profile, sections, work_dir) == json_object(
            seq![
                ("contract"@, json_text(request.contract)),
                ("protocol_version"@, decimal(request.protocol_version as nat)),
                ("work_dir"@, json_text(work_dir)),
                ("start_date"@, json_text(request.start_date)),
                ("end_date"@, json_text(request.end_date)),
                ("report_mode"@, json_text(request.report_mode)),
                (
                    "scanner_profile"@,
                    json_object(
                        seq![
                            ("schema_version"@, json_text(sections.schema_version)),
                            ("parser_profile_version"@, json_text(profile.parser_profile_version)),
                            ("discovery"@, sections.discovery_json),
                            ("execution"@, sections.execution_json),
                            ("parse"@, parse_json(profile.parse)),
                        ],
                    ),
                ),
                ("context_profile"@, sections.context_json),
            ],
        ),
{
    law_canonical_request_holds_its_logical_input(request, profile, sections, work_dir);
    law_canonical_profile_holds_its_sections(profile, sections);
}

/// A request has a canonical form exactly where the request and the profile are accepted,
/// their modes agree, the directory is there and the sections were written; what is amiss
/// first is told, and always as a fault of the request.
pub proof fn law_sound_requests_have_a_canonical_form(
    request: BuildContextRequestView,
    profile_mode: Seq<char>,
    request_verdict: Result<(), String>,
    profile_verdict: Result<(), String>,
    work_dir_found: bool,
    sections: Result<ProfileSections, String>,
)
    ensures
        ({
            let fault = canonical_fault(
                request,
                profile_mode,
                request_verdict,
                profile_verdict,
                work_dir_found,
                sections,
            );
            &&& fault is None <==> request_verdict is Ok && profile_verdict is Ok
                && request.report_mode == profile_mode && work_dir_found && sections is Ok
            &&& fault is Some ==> fault->0 is InvalidRequest
            &&& request_verdict matches Err(message) ==> fault == Some(
                StoreErrorView::InvalidRequest(message@),
            )
            &&& request_verdict is Ok ==> (profile_verdict matches Err(message) ==> fault == Some(
                StoreErrorView::InvalidRequest(message@),
            ))
        }),
{
}

} // verus!
