//! Layer 1 — semantics: what each name means. Every declaration gets a
//! unique `SymbolId` in a shared `SymbolTable`, and every variable or
//! function reference is checked against the scope stack.

pub mod errors;
pub mod resolve;
pub mod scope;
pub mod shadowing;
pub mod symbol;
