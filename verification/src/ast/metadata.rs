//! Anything that decorates a layer without being part of its shape: metadata
//! values, directives, optimizer hints and observability flags.

use vstd::prelude::*;
use crate::ast::expr::Expression;

verus! {

/// Values for metadata like doc comments. A decimal value keeps the text it
/// was written with.
#[derive(Debug, PartialEq)]
pub enum MetadataValue {
    String(String),
    Int(i64),
    Float(String),
    Bool(bool),
    List(Vec<MetadataValue>),
    /// A table of named values, in order (named `Map` in the language).
    Table(Vec<(String, MetadataValue)>),
    Null,
}

/// The mathematical value of a [`MetadataValue`].
pub enum SpecMetadataValue {
    String(Seq<char>),
    Int(i64),
    Float(Seq<char>),
    Bool(bool),
    List(Seq<SpecMetadataValue>),
    Table(Seq<(Seq<char>, SpecMetadataValue)>),
    Null,
}

pub open spec fn metadata_view(m: MetadataValue) -> SpecMetadataValue
    decreases m,
{
    match m {
        MetadataValue::String(s) => SpecMetadataValue::String(s@),
        MetadataValue::Int(n) => SpecMetadataValue::Int(n),
        MetadataValue::Float(s) => SpecMetadataValue::Float(s@),
        MetadataValue::Bool(b) => SpecMetadataValue::Bool(b),
        MetadataValue::List(items) => SpecMetadataValue::List(
            Seq::new(
                items@.len(),
                |i: int|
                    if 0 <= i < items@.len() {
                        metadata_view(items@[i])
                    } else {
                        SpecMetadataValue::Null
                    },
            ),
        ),
        MetadataValue::Table(items) => SpecMetadataValue::Table(
            Seq::new(
                items@.len(),
                |i: int|
                    if 0 <= i < items@.len() {
                        (items@[i].0@, metadata_view(items@[i].1))
                    } else {
                        (Seq::empty(), SpecMetadataValue::Null)
                    },
            ),
        ),
        MetadataValue::Null => SpecMetadataValue::Null,
    }
}

impl View for MetadataValue {
    type V = SpecMetadataValue;

    open spec fn view(&self) -> SpecMetadataValue {
        metadata_view(*self)
    }
}

impl Clone for MetadataValue {
    #[verifier::loop_isolation(false)]
    fn clone(&self) -> (r: Self)
        ensures
            r@ == self@,
        decreases self,
    {
        match self {
            MetadataValue::String(s) => MetadataValue::String(s.clone()),
            MetadataValue::Int(n) => MetadataValue::Int(*n),
            MetadataValue::Float(s) => MetadataValue::Float(s.clone()),
            MetadataValue::Bool(b) => MetadataValue::Bool(*b),
            MetadataValue::List(items) => {
                let mut out: Vec<MetadataValue> = Vec::new();
                let mut i: usize = 0;
                while i < items.len()
                    invariant
                        i <= items@.len(),
                        out@.len() == i,
                        forall|j: int| 0 <= j < i ==> (#[trigger] out@[j])@ == items@[j]@,
                    decreases items.len() - i,
                {
                    proof {
                        broadcast use vstd::std_specs::vec::axiom_vec_index_decreases;
                        assert(decreases_to!(*items => items@[i as int]));
                        assert(decreases_to!(*self => *items));
                    }
                    out.push(items[i].clone());
                    i = i + 1;
                }
                let r = MetadataValue::List(out);
                assert(r@ == self@) by {
                    assert(r@->List_0 =~= self@->List_0);
                }
                r
            },
            MetadataValue::Table(items) => {
                let mut out: Vec<(String, MetadataValue)> = Vec::new();
                let mut i: usize = 0;
                while i < items.len()
                    invariant
                        i <= items@.len(),
                        out@.len() == i,
                        forall|j: int|
                            0 <= j < i ==> (#[trigger] out@[j]).0@ == items@[j].0@ && out@[j].1@ == items@[j].1@,
                    decreases items.len() - i,
                {
                    proof {
                        broadcast use vstd::std_specs::vec::axiom_vec_index_decreases;
                        assert(decreases_to!(*items => items@[i as int]));
                        assert(decreases_to!(items@[i as int] => items@[i as int].1));
                        assert(decreases_to!(*self => *items));
                    }
                    out.push((items[i].0.clone(), items[i].1.clone()));
                    i = i + 1;
                }
                let r = MetadataValue::Table(out);
                assert(r@ == self@) by {
                    assert(r@->Table_0 =~= self@->Table_0);
                }
                r
            },
            MetadataValue::Null => MetadataValue::Null,
        }
    }
}

/// Compiler directives like `#[inline]`.
#[derive(Debug, Clone, PartialEq)]
pub enum Directive {
    Inline,
    NoInline,
    Align(usize),
    Section(String),
    Cold,
    Hot,
    Unsafe,
    Extern,
}

/// Legacy compile-status enum.
#[derive(Debug, Clone, Copy, PartialEq, Eq, Structural)]
pub enum CompilerResult {
    Error(usize),
    Success,
}

/// Hints for the optimizer.
#[derive(Debug, Clone, Copy, PartialEq, Eq, Structural)]
pub struct OptimizationHints {
    pub AggressiveLoopFolding: bool,
    pub TraceObservability: ObservabilityMode,
    pub RegisterPressure: RegisterPressureMode,
    pub InlineThreshold: Option<usize>,
}

/// How much the compiler should care about traces.
#[derive(Debug, Clone, Copy, PartialEq, Eq, Structural)]
pub enum ObservabilityMode {
    Strict,
    Relaxed,
    Aggressive,
}

/// How many registers the compiler can use.
#[derive(Debug, Clone, Copy, PartialEq, Eq, Structural)]
pub enum RegisterPressureMode {
    Low,
    High,
    Auto,
}

/// Flags for the observability boundary.
#[derive(Debug, Clone, PartialEq)]
pub struct ObservabilityFlags {
    pub ObservableValues: Vec<ObservableValue>,
    pub AffectsOutput: bool,
    pub AffectsHardware: bool,
    pub ObservableToTrace: bool,
}

/// Values that we can actually see outside the program.
#[derive(Debug, Clone, PartialEq)]
pub enum ObservableValue {
    Register(String),
    MemoryAddress(Expression),
    ReturnValue,
    SideEffect,
    Variable(String),
}

} // verus!
