//! Layer 2 — types: a type for every value-producing layer, and a check
//! that every operator, assignment, call and return is used at a
//! compatible type.

pub mod check;
pub mod errors;
pub mod infer;
pub mod typed_ast;
pub mod walk;
