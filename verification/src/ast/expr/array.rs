use vstd::prelude::*;

use super::Expression;

verus! {

/// An expression that indexes into the `base` array with an expression.
///
/// E.g. `container[x + 3]`.
#[derive(Debug, PartialEq, Eq)]
pub struct Index {
    pub base: Box<Expression>,
    pub index: Box<Expression>,
}

} // verus!
