//! Layer 3 (refinements) — how constraints are represented.
//!
//! An assumption is a predicate known to hold at a program point (a
//! parameter's `where` clause, a branch condition). A goal is a predicate
//! to be proved impossible, which justifies erasing a runtime check. Goals
//! carry a `GoalId` so the solver's verdicts can be looked up.

use vstd::prelude::*;
use crate::ast::{Expression, SourceLocation, SpecExpression};
use crate::ast::expr::exprs_view;
use crate::ast::source::SpecLocation;

verus! {

/// A stable identifier for a proof obligation, assigned in the order the
/// obligations are found.
#[derive(Debug, Clone, Copy, PartialEq, Eq, Hash, Structural)]
pub struct GoalId(pub usize);

/// A predicate tracked through the tree.
#[derive(Debug, PartialEq)]
pub enum RefinementConstraint {
    /// Something the caller guaranteed, or a branch condition we're inside.
    Assumption { Predicate: Expression, At: SourceLocation },
    /// Something we want proved impossible.
    Goal { Id: GoalId, Predicate: Expression, At: SourceLocation },
}

/// A set of assumptions and one goal — what the solver is asked about.
#[derive(Debug)]
pub struct ProofObligation {
    pub Id: GoalId,
    pub Assumptions: Vec<Expression>,
    pub Goal: Expression,
    pub At: SourceLocation,
}

/// The mathematical value of a [`ProofObligation`].
pub struct SpecObligation {
    pub Id: GoalId,
    pub Assumptions: Seq<SpecExpression>,
    pub Goal: SpecExpression,
    pub At: SpecLocation,
}

impl View for ProofObligation {
    type V = SpecObligation;

    open spec fn view(&self) -> SpecObligation {
        SpecObligation {
            Id: self.Id,
            Assumptions: exprs_view(self.Assumptions@),
            Goal: self.Goal@,
            At: self.At@,
        }
    }
}

/// The views of a list of obligations.
pub open spec fn obligations_view(s: Seq<ProofObligation>) -> Seq<SpecObligation> {
    Seq::new(s.len(), |i: int| s[i]@)
}

} // verus!
