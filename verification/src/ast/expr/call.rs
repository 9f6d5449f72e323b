use vstd::prelude::*;

use super::Expression;

verus! {

/// A call to a function with parameters.
///
/// E.g. `fibonacci(6)`.
#[derive(Debug, PartialEq, Eq)]
pub struct Call {
    pub func: Box<Expression>,
    pub params: Vec<Expression>,
}

} // verus!
