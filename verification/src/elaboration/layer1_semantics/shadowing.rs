//! Layer 1 (semantics) — the shadowing policy.
//!
//! A same-scope duplicate is an error (the scope stack checks that); a
//! declaration in a nested scope may shadow an outer one. Kept apart so a
//! stricter policy is a change to this file alone.

use vstd::prelude::*;

verus! {

/// Whether a shadowing declaration is let through.
#[derive(Debug, Clone, Copy, PartialEq, Eq, Structural)]
pub enum ShadowDecision {
    Allow,
    Deny,
}

/// Decide whether a new inner declaration may shadow an outer one. Every
/// shadowing is allowed; `SameScope` is kept for a future policy that
/// treats the two cases differently.
pub fn IsShadowingAllowed(_SameScope: bool) -> (d: ShadowDecision)
    ensures
        d == ShadowDecision::Allow,
{
    ShadowDecision::Allow
}

} // verus!
