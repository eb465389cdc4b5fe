//! Logical rules attached to a layer: refinements, safety obligations,
//! POMSET ordering.

use vstd::prelude::*;
use crate::ast::LayerId;

verus! {

/// Logical rules for SMT and POMSET.
#[derive(Debug, Clone, PartialEq)]
pub enum Constraint {
    /// Refined types like `x > 0`.
    RefinedType { Variable: String, Condition: String },
    /// Making sure things are safe.
    Safety { Condition: String, ErrorMessage: String },
    /// Partial ordering for parallel tasks.
    POMSET { Before: LayerId, After: LayerId },
}

} // verus!
