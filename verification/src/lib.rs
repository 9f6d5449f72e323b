//! Front end of the Serqlane compiler: source spans, the lexer, the syntax
//! tree and the parser, with machine-checked contracts.

pub mod diagnostic;
pub mod lexer;
pub mod text;
pub mod ast;
pub mod parser;
