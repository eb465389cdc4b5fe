//! The layer tree: the main building block for all code in LayerScript, and
//! the expression, type and declaration pieces it is made of.

use vstd::prelude::*;

pub mod constraint;
pub mod copy;
pub mod decl;
pub mod expr;
pub mod hook;
pub mod metadata;
pub mod pattern;
pub mod source;
pub mod storage;
pub mod trace;
pub mod ty;

pub use constraint::Constraint;
pub use decl::{EnumVariant, GenericParam, Param, StructField};
pub use expr::{Expression, SpecExpression};
pub use hook::{HookKind, VariableHook};
pub use metadata::{
    CompilerResult, Directive, MetadataValue, ObservabilityFlags, ObservabilityMode,
    ObservableValue, OptimizationHints, RegisterPressureMode,
};
pub use pattern::Pattern;
pub use source::SourceLocation;
pub use storage::{SpecVariable, TypeDefinition, TypeKind, TypeStorage, VariableDefinition, VariableStorage, variables_view};
pub use trace::{TraceContext, TraceInfo};
pub use ty::{SpecType, Type};

use crate::names::NameMap;

verus! {

#[derive(Debug, Clone, Copy, PartialEq, Eq, Structural)]
pub enum BinaryOp {
    Add,
    Sub,
    Mul,
    Div,
}

/// The main building block for all code in LayerScript.
#[derive(Debug, PartialEq)]
pub struct Layer {
    /// Unique id for this layer.
    pub Id: LayerId,
    /// What kind of thing this is (function, block, variable, ...).
    pub Kind: LayerKind,
    /// Extra info like docs and hints.
    pub Metadata: LayerMetadata,
    /// Nested layers inside this one.
    pub Children: Vec<Layer>,
    /// Logical constraints for proof erasure.
    pub Constraints: Vec<Constraint>,
    /// Boundary flags for observability.
    pub Observability: ObservabilityFlags,
    /// Types defined specifically for this scope.
    pub TypeStorage: TypeStorage,
    /// Variables bound in this scope, with their initial values.
    pub VariableStorage: VariableStorage,
    /// Runtime info for layertrace.
    pub TraceInfo: TraceInfo,
}

/// The identity of a layer.
#[derive(Debug, Clone, Copy, PartialEq, Eq, Hash, Structural)]
pub struct LayerId(pub usize);

/// All the different things a layer can represent.
#[derive(Debug, PartialEq)]
pub enum LayerKind {
    /// The whole script.
    Program,
    /// A logic procedure with params.
    Function {
        Name: String,
        Params: Vec<Param>,
        ReturnType: Option<Type>,
        IsUnsafe: bool,
        IsExtern: bool,
    },
    /// Binding a value to a name.
    VariableBinding {
        Name: String,
        TypeAnnotation: Option<Type>,
        IsMutable: bool,
        Hooks: Vec<VariableHook>,
        InitialValue: Option<Expression>,
    },
    /// Updating an existing variable.
    Assignment { Target: Expression, Value: Expression },
    /// A single standalone expression.
    Expression(Expression),
    /// A curly brace scope.
    Block,
    /// Iterative control flow.
    Loop { Label: Option<String>, Kind: LoopKind },
    /// Branching logic.
    Conditional { Condition: Expression, HasElse: bool },
    /// One arm of a match block.
    MatchArm { Pattern: Pattern, Guard: Option<Expression> },
    /// Leaving the current function, with an optional value.
    Return { Value: Option<Expression> },
    /// Stopping everything with a crash.
    Panic,
    /// Telling the compiler this path is impossible.
    Unreachable,
    /// Invalidating register caches.
    Havoc { Target: Expression },
    /// Jumping to a hardware boundary.
    Interrupt { Syscall: String },
    /// Physical layout definition.
    Struct { Name: String, Fields: Vec<StructField>, IsPacked: bool },
    /// Algebraic data type.
    Enum { Name: String, Variants: Vec<EnumVariant> },
}

/// The specific flavor of the loop.
#[derive(Debug, PartialEq)]
pub enum LoopKind {
    /// Loop forever.
    Infinite,
    /// Loop while true.
    While(Expression),
    /// Loop with init and update.
    For { Init: Box<Layer>, Condition: Expression, Update: Box<Layer> },
}

/// All the secondary info for a layer.
#[derive(Debug, Clone, PartialEq)]
pub struct LayerMetadata {
    pub SourceLocation: SourceLocation,
    pub Docs: Option<String>,
    pub Directives: Vec<Directive>,
    pub Optimization: OptimizationHints,
    pub Custom: NameMap<MetadataValue>,
}

/// The fields that every freshly built layer starts with.
pub open spec fn fresh_layer(l: Layer, kind: LayerKind, loc: SourceLocation) -> bool {
    &&& l.Kind == kind
    &&& l.Metadata.SourceLocation == loc
    &&& l.Metadata.Docs.is_none()
    &&& l.Metadata.Directives@.len() == 0
    &&& l.Metadata.Optimization == OptimizationHints {
        AggressiveLoopFolding: false,
        TraceObservability: ObservabilityMode::Strict,
        RegisterPressure: RegisterPressureMode::Auto,
        InlineThreshold: None,
    }
    &&& l.Metadata.Custom@.is_empty()
    &&& l.Children@.len() == 0
    &&& l.Constraints@.len() == 0
    &&& l.Observability.ObservableValues@.len() == 0
    &&& !l.Observability.AffectsOutput
    &&& !l.Observability.AffectsHardware
    &&& l.Observability.ObservableToTrace
    &&& l.TypeStorage.DefinedTypes@.is_empty()
    &&& l.TypeStorage.TypeAliases@.is_empty()
    &&& l.VariableStorage.Variables@.is_empty()
    &&& l.TraceInfo.TraceId@ == "unknown"@
    &&& l.TraceInfo.Depth == 0
    &&& l.TraceInfo.Context == TraceContext::Root
    &&& l.TraceInfo.TypeEnv.DefinedTypes@.is_empty()
    &&& l.TraceInfo.TypeEnv.TypeAliases@.is_empty()
}

/// Two layers agree on every field but their children.
pub open spec fn same_but_children(a: Layer, b: Layer) -> bool {
    &&& a.Id == b.Id
    &&& a.Kind == b.Kind
    &&& a.Metadata == b.Metadata
    &&& a.Constraints == b.Constraints
    &&& a.Observability == b.Observability
    &&& a.TypeStorage == b.TypeStorage
    &&& a.VariableStorage == b.VariableStorage
    &&& a.TraceInfo == b.TraceInfo
}

/// The id after `n`; the ids wrap around after `usize::MAX`.
pub open spec fn next_id(n: usize) -> usize {
    if n == usize::MAX {
        0
    } else {
        (n + 1) as usize
    }
}

/// The id that the `k`-th layer taken from a counter at `start` gets
/// (counting from 0), for `k` up to `usize::MAX`.
pub open spec fn id_after(start: usize, k: nat) -> usize {
    if start + k <= usize::MAX {
        (start + k) as usize
    } else {
        (start + k - usize::MAX - 1) as usize
    }
}

/// The ids of the first `n` layers taken from a counter at `start`.
pub open spec fn ids_taken(start: usize, n: nat) -> Seq<usize> {
    Seq::new(n, |k: int| id_after(start, k as nat))
}

/// Where layer ids come from: every layer built takes the counter's next
/// id, so layers built from one counter get distinct ids.
#[derive(Debug, Clone, Copy)]
pub struct LayerIds {
    pub Next: usize,
}

impl LayerIds {
    /// A counter whose first id is 0.
    pub fn New() -> (c: Self)
        ensures
            c.Next == 0,
    {
        LayerIds { Next: 0 }
    }

    /// Hands out the next id.
    pub fn Take(&mut self) -> (id: LayerId)
        ensures
            id == LayerId(old(self).Next),
            final(self).Next == next_id(old(self).Next),
    {
        let id = self.Next;
        self.Next = self.Next.wrapping_add(1);
        LayerId(id)
    }
}

/// Taking one more id from a counter that handed out `k` ids: the counter
/// then stands at the id of the next layer, `next_id` of the one before.
pub proof fn lemma_take_steps(start: usize, k: nat)
    requires
        k < usize::MAX,
    ensures
        id_after(start, 0) == start,
        id_after(start, k + 1) == next_id(id_after(start, k)),
{
}

/// Layers taken from one counter get distinct ids, as long as no more than
/// `usize::MAX + 1` of them are taken.
pub proof fn lemma_ids_distinct(start: usize, n: nat)
    requires
        n <= usize::MAX + 1,
    ensures
        ids_taken(start, n).no_duplicates(),
{
    assert forall|i: int, j: int| 0 <= i < n && 0 <= j < n && i != j implies ids_taken(start, n)[i] != ids_taken(
        start,
        n,
    )[j] by {
        assert(id_after(start, i as nat) != id_after(start, j as nat));
    }
}

/// Helper to make creating layers easier.
pub struct LayerBuilder {
    layer: Layer,
}

impl View for LayerBuilder {
    type V = Layer;

    closed spec fn view(&self) -> Layer {
        self.layer
    }
}

impl LayerBuilder {
    /// Starts a new layer builder; the layer takes the next id of `ids`.
    pub fn New(kind: LayerKind, source_location: SourceLocation, ids: &mut LayerIds) -> (b: Self)
        ensures
            fresh_layer(b@, kind, source_location),
            b@.Id == LayerId(old(ids).Next),
            final(ids).Next == next_id(old(ids).Next),
    {
        let id = ids.Take();
        Self {
            layer: Layer {
                Id: id,
                Kind: kind,
                Metadata: LayerMetadata {
                    SourceLocation: source_location,
                    Docs: None,
                    Directives: Vec::new(),
                    Optimization: OptimizationHints {
                        AggressiveLoopFolding: false,
                        TraceObservability: ObservabilityMode::Strict,
                        RegisterPressure: RegisterPressureMode::Auto,
                        InlineThreshold: None,
                    },
                    Custom: NameMap::New(),
                },
                Children: Vec::new(),
                Constraints: Vec::new(),
                Observability: ObservabilityFlags {
                    ObservableValues: Vec::new(),
                    AffectsOutput: false,
                    AffectsHardware: false,
                    ObservableToTrace: true,
                },
                TypeStorage: TypeStorage::default(),
                VariableStorage: VariableStorage::default(),
                TraceInfo: TraceInfo {
                    TraceId: String::from_str("unknown"),
                    Depth: 0,
                    Context: TraceContext::Root,
                    TypeEnv: TypeStorage::default(),
                },
            },
        }
    }

    /// Gives the layer its id.
    pub fn WithId(self, id: LayerId) -> (b: Self)
        ensures
            b@ == (Layer { Id: id, ..self@ }),
    {
        let mut s = self;
        s.layer.Id = id;
        s
    }

    /// Adds a doc comment to the layer.
    pub fn WithDoc(self, doc: String) -> (b: Self)
        ensures
            b@.Metadata == (LayerMetadata { Docs: Some(doc), ..self@.Metadata }),
            b@ == (Layer { Metadata: b@.Metadata, ..self@ }),
    {
        let mut s = self;
        s.layer.Metadata.Docs = Some(doc);
        s
    }

    /// Nests a child layer inside.
    pub fn WithChild(self, child: Layer) -> (b: Self)
        ensures
            same_but_children(b@, self@),
            b@.Children@ == self@.Children@.push(child),
    {
        let mut s = self;
        s.layer.Children.push(child);
        s
    }

    /// Nests a bunch of children at once, in order.
    pub fn WithChildren(self, children: Vec<Layer>) -> (b: Self)
        ensures
            same_but_children(b@, self@),
            b@.Children@ == self@.Children@ + children@,
    {
        let mut s = self;
        let mut c = children;
        s.layer.Children.append(&mut c);
        s
    }

    /// Adds an SMT or POMSET rule.
    pub fn WithConstraint(self, constraint: Constraint) -> (b: Self)
        ensures
            b@.Constraints@ == self@.Constraints@.push(constraint),
            b@ == (Layer { Constraints: b@.Constraints, ..self@ }),
    {
        let mut s = self;
        s.layer.Constraints.push(constraint);
        s
    }

    /// Finishes building the layer.
    pub fn Build(self) -> (l: Layer)
        ensures
            l == self@,
    {
        self.layer
    }
}

impl Layer {
    /// Registers a new type in this scope, under its name.
    pub fn AddType(&mut self, type_def: TypeDefinition)
        ensures
            final(self).TypeStorage.DefinedTypes@ == old(self).TypeStorage.DefinedTypes@.insert(
                type_def.Name@,
                type_def,
            ),
            *final(self) == (Layer { TypeStorage: final(self).TypeStorage, ..*old(self) }),
            final(self).TypeStorage.TypeAliases == old(self).TypeStorage.TypeAliases,
    {
        let name = type_def.Name.clone();
        self.TypeStorage.DefinedTypes.Insert(name.as_str(), type_def);
    }

    /// Records a variable bound in this scope, under its name.
    pub fn AddVariable(&mut self, var_def: VariableDefinition)
        ensures
            final(self).VariableStorage.Variables@ == old(self).VariableStorage.Variables@.insert(
                var_def.Name@,
                var_def,
            ),
            *final(self) == (Layer { VariableStorage: final(self).VariableStorage, ..*old(self) }),
    {
        let name = var_def.Name.clone();
        self.VariableStorage.Variables.Insert(name.as_str(), var_def);
    }

    /// Checks if we are at the top level.
    pub fn IsRoot(&self) -> (b: bool)
        ensures
            b == (self.Kind is Program),
    {
        matches!(self.Kind, LayerKind::Program)
    }

    /// Adds a POMSET rule between two layers.
    pub fn AddDependency(&mut self, before: LayerId, after: LayerId)
        ensures
            final(self).Constraints@ == old(self).Constraints@.push(
                Constraint::POMSET { Before: before, After: after },
            ),
            *final(self) == (Layer { Constraints: final(self).Constraints, ..*old(self) }),
    {
        self.Constraints.push(Constraint::POMSET { Before: before, After: after });
    }
}

} // verus!
