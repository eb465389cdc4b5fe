//! Reactive logic attached to a variable binding (`on_change`, `on_read`, ...).

use vstd::prelude::*;
use crate::ast::LayerKind;

verus! {

/// Logic that runs when variables change.
#[derive(Debug, PartialEq)]
pub struct VariableHook {
    pub Kind: HookKind,
    pub Body: Vec<LayerKind>,
}

impl VariableHook {
    pub fn New(Kind: HookKind, Body: Vec<LayerKind>) -> (h: Self)
        ensures
            h.Kind == Kind,
            h.Body == Body,
    {
        Self { Kind, Body }
    }
}

/// The different kinds of variable behaviors.
#[derive(Debug, Clone, Copy, PartialEq, Eq, Structural)]
pub enum HookKind {
    OnChange,
    OnRead,
    OnAssign,
    OnDrop,
    OnError,
}

} // verus!
