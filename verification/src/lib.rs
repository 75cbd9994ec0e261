use vstd::prelude::*;
use vstd::string::StringExecFns;

pub mod aggregate;
pub mod analyze;
pub mod errors;
pub mod filter;
pub mod label;
pub mod laws;
pub mod opts;
pub mod render;
pub mod service;
pub mod structure;

verus! {

/// Canonical identity of one function or method declaration: the file that
/// declares it and the offset of its name within that file. Two declarations
/// are the same entity exactly when both fields agree, and only the two
/// fields take part in equality and hashing.
#[derive(Clone, Copy, Debug, PartialEq, Eq, Hash, Structural)]
pub struct FunctionKey {
    pub file_id: u32,
    pub offset: u32,
}

impl FunctionKey {
    pub fn new(file_id: u32, offset: u32) -> (k: FunctionKey)
        ensures
            k.file_id == file_id,
            k.offset == offset,
    {
        FunctionKey { file_id, offset }
    }

    /// Equality of keys is decided by the two identity fields alone.
    pub fn same(&self, other: &FunctionKey) -> (r: bool)
        ensures
            r == (self.file_id == other.file_id && self.offset == other.offset),
            r == (*self == *other),
    {
        self.file_id == other.file_id && self.offset == other.offset
    }

    /// The key as text: file id and offset, colon-separated.
    pub fn id_string(&self) -> (r: String)
        ensures
            r@ == crate::render::dec_seq(self.file_id as nat) + ":"@ + crate::render::dec_seq(
                self.offset as nat,
            ),
    {
        let mut s = crate::render::dec_string(self.file_id as usize);
        let ghost a = s@;
        s.append(":");
        let rest = crate::render::dec_string(self.offset as usize);
        s.append(rest.as_str());
        proof {
            assert(s@ =~= a + ":"@ + rest@);
        }
        s
    }
}

} // verus!
