//! Layer 1 (semantics) — errors.

use vstd::prelude::*;
use crate::ast::SourceLocation;
use crate::ast::source::SpecLocation;

verus! {

/// What name resolution reports.
#[derive(Debug, Clone, PartialEq)]
pub enum SemanticError {
    /// A name was used that no in-scope declaration matches.
    UndefinedName { Name: String, At: SourceLocation },
    /// Two declarations in the same scope share a name.
    DuplicateName { Name: String, First: SourceLocation, Second: SourceLocation },
    /// A shadowing attempt was rejected by policy.
    ShadowingDenied { Name: String, Outer: SourceLocation, Inner: SourceLocation },
}

/// The mathematical value of a [`SemanticError`].
pub enum SpecSemanticError {
    UndefinedName { Name: Seq<char>, At: SpecLocation },
    DuplicateName { Name: Seq<char>, First: SpecLocation, Second: SpecLocation },
    ShadowingDenied { Name: Seq<char>, Outer: SpecLocation, Inner: SpecLocation },
}

impl View for SemanticError {
    type V = SpecSemanticError;

    open spec fn view(&self) -> SpecSemanticError {
        match *self {
            SemanticError::UndefinedName { Name, At } => SpecSemanticError::UndefinedName { Name: Name@, At: At@ },
            SemanticError::DuplicateName { Name, First, Second } => SpecSemanticError::DuplicateName {
                Name: Name@,
                First: First@,
                Second: Second@,
            },
            SemanticError::ShadowingDenied { Name, Outer, Inner } => SpecSemanticError::ShadowingDenied {
                Name: Name@,
                Outer: Outer@,
                Inner: Inner@,
            },
        }
    }
}

/// The views of a list of errors.
pub open spec fn semantic_errors_view(s: Seq<SemanticError>) -> Seq<SpecSemanticError> {
    Seq::new(s.len(), |i: int| s[i]@)
}

} // verus!
