use vstd::prelude::*;

use crate::errors::AnalysisError;
use crate::structure::{CallSite, ImplSite, NodeKind, StructureNode};

verus! {

#[verifier::external_type_specification]
#[verifier::external_body]
pub struct ExAnalysis(ra_ap_ide::Analysis);

#[verifier::external_type_specification]
#[verifier::external_body]
pub struct ExStructureNodeKind(ra_ap_ide::StructureNodeKind);

#[verifier::external_type_specification]
#[verifier::external_body]
pub struct ExCallItem(ra_ap_ide::CallItem);

#[verifier::external_type_specification]
#[verifier::external_body]
pub struct ExNavigationTarget(ra_ap_ide::NavigationTarget);

/// The greatest raw file id the analysis service works with; a larger one
/// cannot be turned back into a service file id.
pub const MAX_FILE_ID: u32 = 0x7fff_ffff;

/// An analysis together with a model of what it can be asked: the raw id
/// of the file it holds and the length of that file's text. The service
/// aborts when queried about a file it does not hold, or at an offset
/// beyond a file's end, so every query demands membership in this model.
pub struct AnalysisHandle {
    analysis: ra_ap_ide::Analysis,
    file_id: u32,
    text_len: usize,
}

impl AnalysisHandle {
    /// The analysis holds a file under this raw id.
    pub closed spec fn knows(self, file_id: u32) -> bool {
        file_id == self.file_id
    }

    /// The length of the file's text: the bound on its valid offsets.
    pub closed spec fn len_of(self, file_id: u32) -> nat {
        self.text_len as nat
    }
}

/// Relies on ra_ap_ide::Analysis::from_single_file: an analysis holding
/// exactly one file whose text is the given string. The returned raw id
/// names that file, and the text's length bounds the file's offsets.
#[verifier::external_body]
pub fn analysis_of_single_file(text: String) -> (r: (AnalysisHandle, u32))
    ensures
        r.0.knows(r.1),
        r.1 <= MAX_FILE_ID,
{
    let text_len = text.len();
    let (analysis, file_id) = ra_ap_ide::Analysis::from_single_file(text);
    let raw = file_id.index();
    (AnalysisHandle { analysis, file_id: raw, text_len }, raw)
}

/// Relies on ra_ap_ide::Analysis::parse: with a file the analysis holds,
/// it builds the syntax tree and fails only when the query cannot be
/// answered; such a failure is reported as the parse failure.
#[verifier::external_body]
pub(crate) fn query_parse(service: &AnalysisHandle, file_id: u32) -> (r: Result<
    (),
    AnalysisError,
>)
    requires
        file_id <= MAX_FILE_ID,
        service.knows(file_id),
    ensures
        r matches Err(e) ==> e == AnalysisError::ParseError,
{
    match service.analysis.parse(ra_ap_ide::FileId::from_raw(file_id)) {
        Ok(_) => Ok(()),
        Err(_) => Err(AnalysisError::ParseError),
    }
}

/// Relies on ra_ap_ide::Analysis::file_structure: one node per
/// declaration of the held file, parents referring by index into the
/// same list, every navigation range lying within the file's text. Each
/// node's label, kind, parent index and name-range start are carried
/// over.
#[verifier::external_body]
pub(crate) fn query_file_structure(service: &AnalysisHandle, file_id: u32) -> (r: Result<
    Vec<StructureNode>,
    AnalysisError,
>)
    requires
        file_id <= MAX_FILE_ID,
        service.knows(file_id),
    ensures
        r matches Err(e) ==> e == AnalysisError::ParseError,
        r matches Ok(ns) ==> forall|i: int|
            0 <= i < ns@.len() ==> (#[trigger] ns@[i]).nav_start as nat <= service.len_of(file_id),
{
    let cfg = ra_ap_ide::FileStructureConfig { exclude_locals: false };
    match service.analysis.file_structure(&cfg, ra_ap_ide::FileId::from_raw(file_id)) {
        Ok(ns) => Ok(ns.into_iter().map(|n| StructureNode {
            label: n.label,
            kind: node_kind_of(n.kind),
            parent: n.parent,
            nav_start: n.navigation_range.start().into(),
        }).collect()),
        Err(_) => Err(AnalysisError::ParseError),
    }
}

/// Relies on ra_ap_ide::Analysis::incoming_calls: asked about the held
/// file at an offset within its text, it returns every call site whose
/// target is the declaration there, or `None` when the position supports
/// no such query; it fails only when the query cannot be answered.
#[verifier::external_body]
pub(crate) fn query_incoming_calls(service: &AnalysisHandle, file_id: u32, offset: u32) -> (r:
    Result<Option<Vec<CallSite>>, AnalysisError>)
    requires
        file_id <= MAX_FILE_ID,
        service.knows(file_id),
        offset as nat <= service.len_of(file_id),
    ensures
        r matches Err(e) ==> e == AnalysisError::QueryError,
{
    let cfg = ra_ap_ide::CallHierarchyConfig {
        exclude_tests: false,
        ra_fixture: ra_ap_ide::RaFixtureConfig::default(),
    };
    let pos = ra_ap_ide::FilePosition {
        file_id: ra_ap_ide::FileId::from_raw(file_id),
        offset: offset.into(),
    };
    match service.analysis.incoming_calls(&cfg, pos) {
        Ok(Some(items)) => Ok(Some(items.into_iter().map(call_site_of).collect())),
        Ok(None) => Ok(None),
        Err(_) => Err(AnalysisError::QueryError),
    }
}

/// Relies on ra_ap_ide::Analysis::goto_implementation: asked about the
/// held file at an offset within its text, it returns every
/// implementation of the declaration there, or `None` when the position
/// supports no such query; it fails only when the query cannot be
/// answered.
#[verifier::external_body]
pub(crate) fn query_implementations(service: &AnalysisHandle, file_id: u32, offset: u32) -> (r:
    Result<Option<Vec<ImplSite>>, AnalysisError>)
    requires
        file_id <= MAX_FILE_ID,
        service.knows(file_id),
        offset as nat <= service.len_of(file_id),
    ensures
        r matches Err(e) ==> e == AnalysisError::QueryError,
{
    let cfg = ra_ap_ide::GotoImplementationConfig { filter_adjacent_derive_implementations: false };
    let pos = ra_ap_ide::FilePosition {
        file_id: ra_ap_ide::FileId::from_raw(file_id),
        offset: offset.into(),
    };
    match service.analysis.goto_implementation(&cfg, pos) {
        Ok(Some(ri)) => Ok(Some(ri.info.into_iter().map(impl_site_of).collect())),
        Ok(None) => Ok(None),
        Err(_) => Err(AnalysisError::QueryError),
    }
}

/// Relies on ra_ap_ide::StructureNodeKind: function-like declarations
/// (free functions and methods) and traits are told apart from every
/// other kind of node.
#[verifier::external_body]
pub(crate) fn node_kind_of(k: ra_ap_ide::StructureNodeKind) -> (r: NodeKind) {
    match k {
        ra_ap_ide::StructureNodeKind::SymbolKind(ra_ap_ide::SymbolKind::Function) => {
            NodeKind::Function
        },
        ra_ap_ide::StructureNodeKind::SymbolKind(ra_ap_ide::SymbolKind::Method) => {
            NodeKind::Function
        },
        ra_ap_ide::StructureNodeKind::SymbolKind(ra_ap_ide::SymbolKind::Trait) => NodeKind::Trait,
        _ => NodeKind::Other,
    }
}

/// Relies on ra_ap_ide::CallItem: the caller's file id, the start of its
/// focus range and the start of each call-expression range are carried
/// over one for one.
#[verifier::external_body]
pub(crate) fn call_site_of(item: ra_ap_ide::CallItem) -> (r: CallSite) {
    CallSite {
        target_file: item.target.file_id.index(),
        target_focus: item.target.focus_range.map(|t| t.start().into()),
        range_starts: item.ranges.iter().map(|fr| fr.range.start().into()).collect(),
    }
}

/// Relies on ra_ap_ide::NavigationTarget: the implementation's file id and
/// the start of its focus range are carried over.
#[verifier::external_body]
pub(crate) fn impl_site_of(nav: ra_ap_ide::NavigationTarget) -> (r: ImplSite) {
    ImplSite { file: nav.file_id.index(), focus: nav.focus_range.map(|t| t.start().into()) }
}

} // verus!
