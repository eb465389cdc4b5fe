//! The per-layer bookkeeping the `layertrace` runtime reads for introspection.

use vstd::prelude::*;
use crate::ast::storage::TypeStorage;

verus! {

/// Info for the layertrace runtime.
#[derive(Debug, Clone, PartialEq)]
pub struct TraceInfo {
    pub TraceId: String,
    pub Depth: usize,
    pub Context: TraceContext,
    pub TypeEnv: TypeStorage,
}

impl TraceInfo {
    pub fn default() -> (t: Self)
        ensures
            t.TraceId@ == Seq::<char>::empty(),
            t.Depth == 0,
            t.Context == TraceContext::Root,
            t.TypeEnv.DefinedTypes@.is_empty(),
            t.TypeEnv.TypeAliases@.is_empty(),
    {
        Self {
            TraceId: String::new(),
            Depth: 0,
            Context: TraceContext::Root,
            TypeEnv: TypeStorage::default(),
        }
    }
}

/// What the trace is actually inside of.
#[derive(Debug, Clone, PartialEq)]
pub enum TraceContext {
    Root,
    Function { Name: String },
    Loop { Iteration: usize },
    Block,
}

} // verus!
