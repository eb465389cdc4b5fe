//! Error and result types shared across the compiler stages.

use vstd::prelude::*;

verus! {

/// The crate-wide result alias: every fallible compiler operation returns this.
pub type CompilerResult<T> = Result<T, CompilerError>;

/// Every category of failure the compiler stages can produce.
#[derive(Debug, Clone, PartialEq)]
pub enum CompilerError {
    LexerError(String),
    ParserError(String),
    ElaborationError(String),
    TypeError(String),
    RuntimeError(String),
    InternalError(String),
}

} // verus!
