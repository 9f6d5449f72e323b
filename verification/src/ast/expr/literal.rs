use vstd::prelude::*;

verus! {

/// A literal in the source code.
///
/// E.g. `5`, `true`.
#[derive(Clone, Copy, Debug, PartialEq, Eq)]
pub enum Literal {
    Integer(u64),
    Bool(bool),
}

} // verus!
