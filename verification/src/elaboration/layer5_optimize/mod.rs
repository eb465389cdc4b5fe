//! Layer 5 — optimization: use the solver's verdicts to shrink the
//! program — erase safety checks that cannot fail, delete branches that
//! cannot be taken, fold constants, drop unobservable code.

pub mod constant_fold;
pub mod dce;
pub mod dead_branch;
pub mod safety_erasure;
