//! Patterns used by `match` arms and by pattern-binding `let`s.

use vstd::prelude::*;
use crate::ast::expr::Expression;

verus! {

/// Pattern matching variants.
#[derive(Debug, PartialEq)]
pub enum Pattern {
    /// Matches anything (`_`).
    Wildcard,
    /// Matches a specific value.
    Literal(Expression),
    /// Matches and binds to a name.
    Variable(String, Expression),
    /// Matches an enum variant.
    Variant(String, Option<Box<Pattern>>),
}

} // verus!
