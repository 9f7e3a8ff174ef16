//! Scanner profiles: the settings that a run works with.
use crate::contract::{clone_all, views, RouteKind};
use crate::text::text_eq;
use vstd::prelude::*;

verus! {

/// The parse timeout of one extension.
#[derive(Debug, PartialEq, Eq)]
pub struct ExtensionTimeout {
    pub extension: String,
    pub timeout_ms: u64,
}

/// What a [`ExtensionTimeout`] says.
#[verifier::ext_equal]
pub struct ExtensionTimeoutView {
    pub extension: Seq<char>,
    pub timeout_ms: u64,
}

impl View for ExtensionTimeout {
    type V = ExtensionTimeoutView;

    open spec fn view(&self) -> ExtensionTimeoutView {
        ExtensionTimeoutView {
            extension: self.extension@,
            timeout_ms: self.timeout_ms,
        }
    }
}

impl Clone for ExtensionTimeout {
    fn clone(&self) -> (copy: Self)
        ensures
            copy@ == self@,
            copy == *self,
    {
        ExtensionTimeout {
            extension: self.extension.clone(),
            timeout_ms: self.timeout_ms,
        }
    }
}

/// Settings of the text parser.
#[derive(Clone, Copy, Debug, PartialEq, Eq)]
pub struct TextParseProfile {
    pub max_chars: u64,
}

/// Settings of the PDF parser.
#[derive(Clone, Copy, Debug, PartialEq, Eq)]
pub struct PdfParseProfile {
    pub max_pages: u64,
}

/// Settings of the office parser.
#[derive(Debug, PartialEq, Eq)]
pub struct OfficeParseProfile {
    pub primary_backend: String,
    pub fallback_after_timeout: bool,
    pub fallback_order: Vec<String>,
}

/// What a [`OfficeParseProfile`] says.
#[verifier::ext_equal]
pub struct OfficeParseProfileView {
    pub primary_backend: Seq<char>,
    pub fallback_after_timeout: bool,
    pub fallback_order: Seq<Seq<char>>,
}

impl View for OfficeParseProfile {
    type V = OfficeParseProfileView;

    open spec fn view(&self) -> OfficeParseProfileView {
        OfficeParseProfileView {
            primary_backend: self.primary_backend@,
            fallback_after_timeout: self.fallback_after_timeout,
            fallback_order: views(self.fallback_order@),
        }
    }
}

impl Clone for OfficeParseProfile {
    fn clone(&self) -> (copy: Self)
        ensures
            copy@ == self@,
    {
        OfficeParseProfile {
            primary_backend: self.primary_backend.clone(),
            fallback_after_timeout: self.fallback_after_timeout,
            fallback_order: clone_all(&self.fallback_order),
        }
    }
}

/// Settings that shape parsed content.
#[derive(Debug, PartialEq, Eq)]
pub struct ParseProfile {
    pub text: TextParseProfile,
    pub pdf: PdfParseProfile,
    pub office: OfficeParseProfile,
}

/// What a [`ParseProfile`] says.
#[verifier::ext_equal]
pub struct ParseProfileView {
    pub text: TextParseProfile,
    pub pdf: PdfParseProfile,
    pub office: OfficeParseProfileView,
}

impl View for ParseProfile {
    type V = ParseProfileView;

    open spec fn view(&self) -> ParseProfileView {
        ParseProfileView {
            text: self.text,
            pdf: self.pdf,
            office: self.office@,
        }
    }
}

impl Clone for ParseProfile {
    fn clone(&self) -> (copy: Self)
        ensures
            copy@ == self@,
    {
        ParseProfile {
            text: self.text,
            pdf: self.pdf,
            office: self.office.clone(),
        }
    }
}

/// Settings that bound execution.
#[derive(Debug, PartialEq, Eq)]
pub struct ExecutionProfile {
    pub max_workers: u64,
    pub max_file_size_bytes: u64,
    pub file_timeout_ms: u64,
    /// Timeouts that differ from the default, in extension order.
    pub file_timeout_by_extension_ms: Vec<ExtensionTimeout>,
}

/// What a [`ExecutionProfile`] says.
#[verifier::ext_equal]
pub struct ExecutionProfileView {
    pub max_workers: u64,
    pub max_file_size_bytes: u64,
    pub file_timeout_ms: u64,
    pub file_timeout_by_extension_ms: Seq<ExtensionTimeoutView>,
}

impl View for ExecutionProfile {
    type V = ExecutionProfileView;

    open spec fn view(&self) -> ExecutionProfileView {
        ExecutionProfileView {
            max_workers: self.max_workers,
            max_file_size_bytes: self.max_file_size_bytes,
            file_timeout_ms: self.file_timeout_ms,
            file_timeout_by_extension_ms: views(self.file_timeout_by_extension_ms@),
        }
    }
}

impl Clone for ExecutionProfile {
    fn clone(&self) -> (copy: Self)
        ensures
            copy@ == self@,
    {
        ExecutionProfile {
            max_workers: self.max_workers,
            max_file_size_bytes: self.max_file_size_bytes,
            file_timeout_ms: self.file_timeout_ms,
            file_timeout_by_extension_ms: clone_all(&self.file_timeout_by_extension_ms),
        }
    }
}

/// A normalized profile of the first schema.
#[derive(Debug, PartialEq, Eq)]
pub struct NormalizedScannerProfileV1 {
    pub parser_profile_version: String,
    pub execution: ExecutionProfile,
    pub parse: ParseProfile,
}

/// What a [`NormalizedScannerProfileV1`] says.
#[verifier::ext_equal]
pub struct NormalizedScannerProfileV1View {
    pub parser_profile_version: Seq<char>,
    pub execution: ExecutionProfileView,
    pub parse: ParseProfileView,
}

impl View for NormalizedScannerProfileV1 {
    type V = NormalizedScannerProfileV1View;

    open spec fn view(&self) -> NormalizedScannerProfileV1View {
        NormalizedScannerProfileV1View {
            parser_profile_version: self.parser_profile_version@,
            execution: self.execution@,
            parse: self.parse@,
        }
    }
}

impl Clone for NormalizedScannerProfileV1 {
    fn clone(&self) -> (copy: Self)
        ensures
            copy@ == self@,
    {
        NormalizedScannerProfileV1 {
            parser_profile_version: self.parser_profile_version.clone(),
            execution: self.execution.clone(),
            parse: self.parse.clone(),
        }
    }
}

/// A normalized profile of the second schema.
#[derive(Debug, PartialEq, Eq)]
pub struct NormalizedScannerProfileV2 {
    pub execution: ExecutionProfile,
    pub parse: ParseProfile,
    pub classifier_policy_version: String,
    pub pdf_classification_timeout_ms: u64,
    pub max_total_pdf_classification_pages: u64,
    pub session_concurrency: u64,
    pub max_requests_per_session: u64,
    pub session_idle_ttl_ms: u64,
    pub session_rss_limit_bytes: u64,
    pub total_deadline_ms: u64,
}

/// What a [`NormalizedScannerProfileV2`] says.
#[verifier::ext_equal]
pub struct NormalizedScannerProfileV2View {
    pub execution: ExecutionProfileView,
    pub parse: ParseProfileView,
    pub classifier_policy_version: Seq<char>,
    pub pdf_classification_timeout_ms: u64,
    pub max_total_pdf_classification_pages: u64,
    pub session_concurrency: u64,
    pub max_requests_per_session: u64,
    pub session_idle_ttl_ms: u64,
    pub session_rss_limit_bytes: u64,
    pub total_deadline_ms: u64,
}

impl View for NormalizedScannerProfileV2 {
    type V = NormalizedScannerProfileV2View;

    open spec fn view(&self) -> NormalizedScannerProfileV2View {
        NormalizedScannerProfileV2View {
            execution: self.execution@,
            parse: self.parse@,
            classifier_policy_version: self.classifier_policy_version@,
            pdf_classification_timeout_ms: self.pdf_classification_timeout_ms,
            max_total_pdf_classification_pages: self.max_total_pdf_classification_pages,
            session_concurrency: self.session_concurrency,
            max_requests_per_session: self.max_requests_per_session,
            session_idle_ttl_ms: self.session_idle_ttl_ms,
            session_rss_limit_bytes: self.session_rss_limit_bytes,
            total_deadline_ms: self.total_deadline_ms,
        }
    }
}

impl Clone for NormalizedScannerProfileV2 {
    fn clone(&self) -> (copy: Self)
        ensures
            copy@ == self@,
    {
        NormalizedScannerProfileV2 {
            execution: self.execution.clone(),
            parse: self.parse.clone(),
            classifier_policy_version: self.classifier_policy_version.clone(),
            pdf_classification_timeout_ms: self.pdf_classification_timeout_ms,
            max_total_pdf_classification_pages: self.max_total_pdf_classification_pages,
            session_concurrency: self.session_concurrency,
            max_requests_per_session: self.max_requests_per_session,
            session_idle_ttl_ms: self.session_idle_ttl_ms,
            session_rss_limit_bytes: self.session_rss_limit_bytes,
            total_deadline_ms: self.total_deadline_ms,
        }
    }
}

/// The timeout listed for `extension`, the first one when it is listed twice.
pub open spec fn listed_timeout(timeouts: Seq<ExtensionTimeoutView>, extension: Seq<char>) -> Option<
    u64,
>
    decreases timeouts.len(),
{
    if timeouts.len() == 0 {
        None
    } else if timeouts[0].extension == extension {
        Some(timeouts[0].timeout_ms)
    } else {
        listed_timeout(timeouts.skip(1), extension)
    }
}

/// The extension whose timeout governs a route; the other routes have the default.
pub open spec fn timeout_extension(route: RouteKind) -> Option<Seq<char>> {
    match route {
        RouteKind::Pdf => Some(".pdf"@),
        RouteKind::PythonOffice => Some(".xls"@),
        RouteKind::RustXlsx => Some(".xlsx"@),
        _ => None,
    }
}

/// The parse timeout of a route.
pub open spec fn route_timeout(route: RouteKind, execution: ExecutionProfileView) -> u64 {
    match timeout_extension(route) {
        None => execution.file_timeout_ms,
        Some(extension) => match listed_timeout(
            execution.file_timeout_by_extension_ms,
            extension,
        ) {
            Some(timeout_ms) => timeout_ms,
            None => execution.file_timeout_ms,
        },
    }
}

/// The parse timeout of a route.
pub fn route_timeout_ms(route: RouteKind, execution: &ExecutionProfile) -> (timeout_ms: u64)
    ensures
        timeout_ms == route_timeout(route, execution@),
{
    let extension: &str = match route {
        RouteKind::Pdf => ".pdf",
        RouteKind::PythonOffice => ".xls",
        RouteKind::RustXlsx => ".xlsx",
        _ => {
            return execution.file_timeout_ms;
        },
    };
    let ghost listed = execution@.file_timeout_by_extension_ms;
    assert(listed.skip(0) =~= listed);
    let mut i: usize = 0;
    while i < execution.file_timeout_by_extension_ms.len()
        invariant
            i <= execution.file_timeout_by_extension_ms.len(),
            listed == views(execution.file_timeout_by_extension_ms@),
            listed_timeout(listed, extension@) == listed_timeout(listed.skip(i as int), extension@),
            timeout_extension(route) == Some(extension@),
            listed == execution@.file_timeout_by_extension_ms,
        decreases execution.file_timeout_by_extension_ms.len() - i,
    {
        let entry: &ExtensionTimeout = &execution.file_timeout_by_extension_ms[i];
        assert(listed.skip(i as int)[0] == entry@);
        if text_eq(entry.extension.as_str(), extension) {
            return entry.timeout_ms;
        }
        assert(listed.skip(i as int).skip(1) =~= listed.skip(i + 1));
        i = i + 1;
    }
    assert(listed.skip(i as int) =~= Seq::<ExtensionTimeoutView>::empty());
    execution.file_timeout_ms
}

/// The timeout that is listed for an extension is that of its first entry, and there is none
/// only where no entry names it.
pub proof fn law_listed_timeouts_are_those_of_the_first_entry(
    timeouts: Seq<ExtensionTimeoutView>,
    extension: Seq<char>,
)
    ensures
        listed_timeout(timeouts, extension) is None <==> forall|i: int|
            0 <= i < timeouts.len() ==> (#[trigger] timeouts[i]).extension != extension,
        listed_timeout(timeouts, extension) matches Some(timeout_ms) ==> exists|at: int|
            0 <= at < timeouts.len() && (#[trigger] timeouts[at]).extension == extension
                && timeouts[at].timeout_ms == timeout_ms && forall|i: int|
                0 <= i < at ==> (#[trigger] timeouts[i]).extension != extension,
    decreases timeouts.len(),
{
    if timeouts.len() > 0 && timeouts[0].extension != extension {
        let rest = timeouts.skip(1);
        law_listed_timeouts_are_those_of_the_first_entry(rest, extension);
        assert(forall|i: int| 0 <= i < rest.len() ==> #[trigger] rest[i] == timeouts[i + 1]);
        assert forall|i: int| 1 <= i < timeouts.len() implies #[trigger] timeouts[i] == rest[i
            - 1] by {}
        if listed_timeout(timeouts, extension) is Some {
            let at = choose|at: int|
                0 <= at < rest.len() && (#[trigger] rest[at]).extension == extension
                    && rest[at].timeout_ms == listed_timeout(timeouts, extension)->0 && forall|
                    i: int,
                |
                    0 <= i < at ==> (#[trigger] rest[i]).extension != extension;
            assert(timeouts[at + 1] == rest[at]);
            assert forall|i: int| 0 <= i < at + 1 implies (#[trigger] timeouts[i]).extension
                != extension by {
                if i > 0 {
                    assert(timeouts[i] == rest[i - 1]);
                }
            }
        } else {
            assert forall|i: int| 0 <= i < timeouts.len() implies (
            #[trigger] timeouts[i]).extension != extension by {
                if i > 0 {
                    assert(timeouts[i] == rest[i - 1]);
                }
            }
        }
    } else if timeouts.len() > 0 {
        assert(timeouts[0].extension == extension);
    }
}

/// A route with an extension of its own takes the timeout that is listed for that extension,
/// or else that of all files, which the other routes always take.
pub proof fn law_routes_take_the_timeout_of_their_extension(execution: ExecutionProfileView)
    ensures
        ({
            let listed = execution.file_timeout_by_extension_ms;
            let common = execution.file_timeout_ms;
            &&& route_timeout(RouteKind::Pdf, execution) == (match listed_timeout(
                listed,
                ".pdf"@,
            ) {
                Some(timeout_ms) => timeout_ms,
                None => common,
            })
            &&& route_timeout(RouteKind::PythonOffice, execution) == (match listed_timeout(
                listed,
                ".xls"@,
            ) {
                Some(timeout_ms) => timeout_ms,
                None => common,
            })
            &&& route_timeout(RouteKind::RustXlsx, execution) == (match listed_timeout(
                listed,
                ".xlsx"@,
            ) {
                Some(timeout_ms) => timeout_ms,
                None => common,
            })
            &&& route_timeout(RouteKind::LightText, execution) == common
            &&& route_timeout(RouteKind::RustOffice, execution) == common
            &&& route_timeout(RouteKind::PythonSharepointText, execution) == common
            &&& listed.len() == 0 ==> forall|route: RouteKind|
                #[trigger] route_timeout(route, execution) == common
        }),
{
}

} // verus!
