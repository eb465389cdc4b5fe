//! Layer 3 — refinements: every `where` predicate and every safety goal of
//! the tree, with the assumptions in force where it stands; trivial goals
//! are settled locally and the rest go to the solver.

pub mod branch;
pub mod constraint;
pub mod local_proof;
pub mod propagate;
