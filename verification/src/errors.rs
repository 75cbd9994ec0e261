use vstd::prelude::*;

verus! {

/// Fatal conditions of a graph-building run. Every error aborts the run:
/// the tool either completes the full graph or produces none.
#[derive(Clone, Copy, Debug, PartialEq, Eq, Structural)]
pub enum AnalysisError {
    /// A file could not be parsed or analyzed.
    ParseError,
    /// A call or implementation query returned no answer where one was
    /// expected ("no calls" must be an empty list, never a missing one).
    QueryError,
    /// A call site or implementation location lacks the focus range that
    /// identifies its declaration: an input-shape violation.
    MissingFocusRange,
    /// A declaration tree whose parent links revisit a node or leave the
    /// tree: label resolution reports it instead of looping.
    InconsistentTree,
}

impl AnalysisError {
    /// A human-readable description, for the driver's final message.
    pub fn message(&self) -> (r: String)
        ensures
            r@ == self.message_spec(),
    {
        match self {
            AnalysisError::ParseError => "file cannot be parsed or analyzed".to_owned(),
            AnalysisError::QueryError => "analysis query returned no answer".to_owned(),
            AnalysisError::MissingFocusRange => "location lacks a focus range".to_owned(),
            AnalysisError::InconsistentTree => "declaration tree has a broken or cyclic parent chain".to_owned(),
        }
    }

    pub open spec fn message_spec(&self) -> Seq<char> {
        match self {
            AnalysisError::ParseError => "file cannot be parsed or analyzed"@,
            AnalysisError::QueryError => "analysis query returned no answer"@,
            AnalysisError::MissingFocusRange => "location lacks a focus range"@,
            AnalysisError::InconsistentTree => "declaration tree has a broken or cyclic parent chain"@,
        }
    }
}

} // verus!
