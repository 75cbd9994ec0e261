use vstd::prelude::*;

verus! {

/// What a declaration-tree node declares, as far as graph construction
/// cares: a function-like item, a trait-like container, or anything else.
#[derive(Clone, Copy, Debug, PartialEq, Eq, Structural)]
pub enum NodeKind {
    Function,
    Trait,
    Other,
}

/// One node of a file's declaration tree: an unqualified name, a kind, the
/// index of the enclosing node within the same tree (if any), and the
/// offset of the declaration's name within the file.
#[derive(Clone, Debug)]
pub struct StructureNode {
    pub label: String,
    pub kind: NodeKind,
    pub parent: Option<usize>,
    pub nav_start: u32,
}

/// One incoming call reported for a declaration: the caller's file, the
/// offset of the caller's name (absent on shape violations), and the start
/// offsets of the individual call expressions.
#[derive(Clone, Debug)]
pub struct CallSite {
    pub target_file: u32,
    pub target_focus: Option<u32>,
    pub range_starts: Vec<u32>,
}

/// One implementation location reported for a trait method: its file and
/// the offset of the implementing declaration's name (absent on shape
/// violations).
#[derive(Clone, Copy, Debug)]
pub struct ImplSite {
    pub file: u32,
    pub focus: Option<u32>,
}

} // verus!
