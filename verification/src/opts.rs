use vstd::prelude::*;

verus! {

/// The tool's command surface: one positional argument naming the file to
/// analyze. The driver owns flag parsing and hands the plain value over.
#[derive(Clone, Debug)]
pub struct CmdLineOpts {
    /// File to analyze.
    pub target: String,
}

} // verus!
