//! Layer 4 — the solver: given assumptions and a goal, decide whether the
//! goal can hold. `Unsat` means it cannot, so the check guarding it may go.

pub mod interval;
pub mod normalize;
pub mod backend;
pub mod cache;
pub mod translate;
