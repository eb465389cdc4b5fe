//! Copying layers. A copy agrees with the layer it copies on every name (as text),
//! expression and type (by their views) and on the shape of the tree.

use vstd::prelude::*;
use crate::ast::{EnumVariant, Expression, Layer, LayerKind, LayerMetadata, LoopKind, Param, Pattern, SpecExpression, StructField, VariableHook};
use crate::ast::metadata::ObservabilityFlags;
use crate::ast::ty::opt_type_view;

verus! {

pub open spec fn param_copy(a: Param, b: Param) -> bool {
    a.Name@ == b.Name@ && a.Type_@ == b.Type_@ && a.Value@ == b.Value@
}

pub open spec fn field_copy(a: StructField, b: StructField) -> bool {
    a.Name@ == b.Name@ && a.Type_@ == b.Type_@
}

pub open spec fn variant_copy(a: EnumVariant, b: EnumVariant) -> bool {
    a.Name@ == b.Name@ && opt_type_view(a.Payload) == opt_type_view(b.Payload)
}

pub open spec fn opt_expr_view(e: Option<Expression>) -> Option<SpecExpression> {
    match e {
        Some(x) => Some(x@),
        None => None,
    }
}

pub open spec fn opt_text(s: Option<String>) -> Option<Seq<char>> {
    match s {
        Some(x) => Some(x@),
        None => None,
    }
}

pub open spec fn pattern_copy(a: Pattern, b: Pattern) -> bool
    decreases a,
{
    match (a, b) {
        (Pattern::Wildcard, Pattern::Wildcard) => true,
        (Pattern::Literal(x), Pattern::Literal(y)) => x@ == y@,
        (Pattern::Variable(n, x), Pattern::Variable(m, y)) => n@ == m@ && x@ == y@,
        (Pattern::Variant(n, x), Pattern::Variant(m, y)) => n@ == m@ && match (x, y) {
            (None, None) => true,
            (Some(p), Some(q)) => pattern_copy(*p, *q),
            _ => false,
        },
        _ => false,
    }
}

pub open spec fn hook_copy(a: VariableHook, b: VariableHook) -> bool
    decreases a, 0int,
{
    a.Kind == b.Kind && a.Body@.len() == b.Body@.len() && forall|i: int|
        0 <= i < a.Body@.len() ==> kind_copy(#[trigger] a.Body@[i], b.Body@[i])
}

pub open spec fn loop_copy(a: LoopKind, b: LoopKind) -> bool
    decreases a, 0int,
{
    match (a, b) {
        (LoopKind::Infinite, LoopKind::Infinite) => true,
        (LoopKind::While(x), LoopKind::While(y)) => x@ == y@,
        (
            LoopKind::For { Init: i1, Condition: c1, Update: u1 },
            LoopKind::For { Init: i2, Condition: c2, Update: u2 },
        ) => layer_copy(*i1, *i2) && c1@ == c2@ && layer_copy(*u1, *u2),
        _ => false,
    }
}

/// The two layers carry the same observability flags.
pub open spec fn same_flags(a: Layer, b: Layer) -> bool {
    &&& a.Observability.AffectsOutput == b.Observability.AffectsOutput
    &&& a.Observability.AffectsHardware == b.Observability.AffectsHardware
    &&& a.Observability.ObservableToTrace == b.Observability.ObservableToTrace
}

/// `b` is a copy of the layer kind `a`.
pub open spec fn kind_copy(a: LayerKind, b: LayerKind) -> bool
    decreases a, 1int,
{
    match (a, b) {
        (LayerKind::Program, LayerKind::Program) => true,
        (
            LayerKind::Function { Name: n1, Params: p1, ReturnType: r1, IsUnsafe: u1, IsExtern: e1 },
            LayerKind::Function { Name: n2, Params: p2, ReturnType: r2, IsUnsafe: u2, IsExtern: e2 },
        ) => n1@ == n2@ && p1@.len() == p2@.len() && (forall|i: int|
            0 <= i < p1@.len() ==> param_copy(#[trigger] p1@[i], p2@[i])) && opt_type_view(r1)
            == opt_type_view(r2) && u1 == u2 && e1 == e2,
        (
            LayerKind::VariableBinding {
                Name: n1,
                TypeAnnotation: t1,
                IsMutable: m1,
                Hooks: h1,
                InitialValue: v1,
            },
            LayerKind::VariableBinding {
                Name: n2,
                TypeAnnotation: t2,
                IsMutable: m2,
                Hooks: h2,
                InitialValue: v2,
            },
        ) => n1@ == n2@ && opt_type_view(t1) == opt_type_view(t2) && m1 == m2 && h1@.len()
            == h2@.len() && (forall|i: int| 0 <= i < h1@.len() ==> hook_copy(#[trigger] h1@[i], h2@[i]))
            && opt_expr_view(v1) == opt_expr_view(v2),
        (
            LayerKind::Assignment { Target: t1, Value: v1 },
            LayerKind::Assignment { Target: t2, Value: v2 },
        ) => t1@ == t2@ && v1@ == v2@,
        (LayerKind::Expression(x), LayerKind::Expression(y)) => x@ == y@,
        (LayerKind::Block, LayerKind::Block) => true,
        (LayerKind::Loop { Label: l1, Kind: k1 }, LayerKind::Loop { Label: l2, Kind: k2 }) => opt_text(
            l1,
        ) == opt_text(l2) && loop_copy(k1, k2),
        (
            LayerKind::Conditional { Condition: c1, HasElse: h1 },
            LayerKind::Conditional { Condition: c2, HasElse: h2 },
        ) => c1@ == c2@ && h1 == h2,
        (
            LayerKind::MatchArm { Pattern: p1, Guard: g1 },
            LayerKind::MatchArm { Pattern: p2, Guard: g2 },
        ) => pattern_copy(p1, p2) && opt_expr_view(g1) == opt_expr_view(g2),
        (LayerKind::Return { Value: v1 }, LayerKind::Return { Value: v2 }) => opt_expr_view(v1)
            == opt_expr_view(v2),
        (LayerKind::Panic, LayerKind::Panic) => true,
        (LayerKind::Unreachable, LayerKind::Unreachable) => true,
        (LayerKind::Havoc { Target: t1 }, LayerKind::Havoc { Target: t2 }) => t1@ == t2@,
        (LayerKind::Interrupt { Syscall: s1 }, LayerKind::Interrupt { Syscall: s2 }) => s1@ == s2@,
        (
            LayerKind::Struct { Name: n1, Fields: f1, IsPacked: p1 },
            LayerKind::Struct { Name: n2, Fields: f2, IsPacked: p2 },
        ) => n1@ == n2@ && f1@.len() == f2@.len() && (forall|i: int|
            0 <= i < f1@.len() ==> field_copy(#[trigger] f1@[i], f2@[i])) && p1 == p2,
        (
            LayerKind::Enum { Name: n1, Variants: v1 },
            LayerKind::Enum { Name: n2, Variants: v2 },
        ) => n1@ == n2@ && v1@.len() == v2@.len() && (forall|i: int|
            0 <= i < v1@.len() ==> variant_copy(#[trigger] v1@[i], v2@[i])),
        _ => false,
    }
}

/// `b` is a copy of the layer `a`: same id and source location, the same
/// observability flags, a copy of its kind, and copies of its children in
/// order.
pub open spec fn layer_copy(a: Layer, b: Layer) -> bool
    decreases a, 2int,
{
    a.Id == b.Id && a.Metadata.SourceLocation@ == b.Metadata.SourceLocation@ && same_flags(a, b) && kind_copy(
        a.Kind,
        b.Kind,
    ) && a.Children@.len() == b.Children@.len() && (forall|
        i: int,
    |
        0 <= i < a.Children@.len() ==> layer_copy(#[trigger] a.Children@[i], b.Children@[i]))
}

} // verus!

verus! {

impl Clone for Param {
    fn clone(&self) -> (r: Self)
        ensures
            param_copy(*self, r),
    {
        Param { Name: self.Name.clone(), Type_: self.Type_.clone(), Value: self.Value.clone() }
    }
}

impl Clone for StructField {
    fn clone(&self) -> (r: Self)
        ensures
            field_copy(*self, r),
    {
        StructField { Name: self.Name.clone(), Type_: self.Type_.clone() }
    }
}

impl Clone for EnumVariant {
    fn clone(&self) -> (r: Self)
        ensures
            variant_copy(*self, r),
    {
        EnumVariant { Name: self.Name.clone(), Payload: crate::ast::ty::clone_opt_type(&self.Payload) }
    }
}

pub fn copy_opt_expr(e: &Option<Expression>) -> (r: Option<Expression>)
    ensures
        opt_expr_view(r) == opt_expr_view(*e),
{
    match e {
        Some(x) => Some(x.clone()),
        None => None,
    }
}

pub fn copy_opt_text(s: &Option<String>) -> (r: Option<String>)
    ensures
        opt_text(r) == opt_text(*s),
{
    match s {
        Some(x) => Some(x.clone()),
        None => None,
    }
}

impl Clone for Pattern {
    fn clone(&self) -> (r: Self)
        ensures
            pattern_copy(*self, r),
        decreases self,
    {
        match self {
            Pattern::Wildcard => Pattern::Wildcard,
            Pattern::Literal(x) => Pattern::Literal(x.clone()),
            Pattern::Variable(n, x) => Pattern::Variable(n.clone(), x.clone()),
            Pattern::Variant(n, x) => Pattern::Variant(
                n.clone(),
                match x {
                    Some(p) => Some(Box::new((**p).clone())),
                    None => None,
                },
            ),
        }
    }
}

fn copy_params(v: &Vec<Param>) -> (r: Vec<Param>)
    ensures
        r@.len() == v@.len(),
        forall|i: int| 0 <= i < v@.len() ==> param_copy(#[trigger] v@[i], r@[i]),
{
    let mut out: Vec<Param> = Vec::new();
    let mut i: usize = 0;
    while i < v.len()
        invariant
            i <= v@.len(),
            out@.len() == i,
            forall|j: int| 0 <= j < i ==> param_copy(#[trigger] v@[j], out@[j]),
        decreases v@.len() - i,
    {
        out.push(v[i].clone());
        i = i + 1;
    }
    out
}

fn copy_fields(v: &Vec<StructField>) -> (r: Vec<StructField>)
    ensures
        r@.len() == v@.len(),
        forall|i: int| 0 <= i < v@.len() ==> field_copy(#[trigger] v@[i], r@[i]),
{
    let mut out: Vec<StructField> = Vec::new();
    let mut i: usize = 0;
    while i < v.len()
        invariant
            i <= v@.len(),
            out@.len() == i,
            forall|j: int| 0 <= j < i ==> field_copy(#[trigger] v@[j], out@[j]),
        decreases v@.len() - i,
    {
        out.push(v[i].clone());
        i = i + 1;
    }
    out
}

fn copy_variants(v: &Vec<EnumVariant>) -> (r: Vec<EnumVariant>)
    ensures
        r@.len() == v@.len(),
        forall|i: int| 0 <= i < v@.len() ==> variant_copy(#[trigger] v@[i], r@[i]),
{
    let mut out: Vec<EnumVariant> = Vec::new();
    let mut i: usize = 0;
    while i < v.len()
        invariant
            i <= v@.len(),
            out@.len() == i,
            forall|j: int| 0 <= j < i ==> variant_copy(#[trigger] v@[j], out@[j]),
        decreases v@.len() - i,
    {
        out.push(v[i].clone());
        i = i + 1;
    }
    out
}

#[verifier::loop_isolation(false)]
fn copy_hook(h: &VariableHook) -> (r: VariableHook)
    ensures
        hook_copy(*h, r),
    decreases h, 0int,
{
    let mut out: Vec<LayerKind> = Vec::new();
    let mut i: usize = 0;
    while i < h.Body.len()
        invariant
            i <= h.Body@.len(),
            out@.len() == i,
            forall|j: int| 0 <= j < i ==> kind_copy(#[trigger] h.Body@[j], out@[j]),
        decreases h.Body@.len() - i,
    {
        proof {
            broadcast use vstd::std_specs::vec::axiom_vec_index_decreases;
            assert(decreases_to!(h.Body => h.Body@[i as int]));
        }
        out.push(copy_kind(&h.Body[i]));
        i = i + 1;
    }
    VariableHook { Kind: h.Kind, Body: out }
}

#[verifier::loop_isolation(false)]
pub(crate) fn copy_hooks(v: &Vec<VariableHook>) -> (r: Vec<VariableHook>)
    ensures
        r@.len() == v@.len(),
        forall|i: int| 0 <= i < v@.len() ==> hook_copy(#[trigger] v@[i], r@[i]),
    decreases v, 1int,
{
    let mut out: Vec<VariableHook> = Vec::new();
    let mut i: usize = 0;
    while i < v.len()
        invariant
            i <= v@.len(),
            out@.len() == i,
            forall|j: int| 0 <= j < i ==> hook_copy(#[trigger] v@[j], out@[j]),
        decreases v@.len() - i,
    {
        proof {
            broadcast use vstd::std_specs::vec::axiom_vec_index_decreases;
            assert(decreases_to!(*v => v@[i as int]));
        }
        out.push(copy_hook(&v[i]));
        i = i + 1;
    }
    out
}

fn copy_loop(k: &LoopKind) -> (r: LoopKind)
    ensures
        loop_copy(*k, r),
    decreases k, 0int,
{
    match k {
        LoopKind::Infinite => LoopKind::Infinite,
        LoopKind::While(x) => LoopKind::While(x.clone()),
        LoopKind::For { Init, Condition, Update } => LoopKind::For {
            Init: Box::new(copy_layer(Init)),
            Condition: Condition.clone(),
            Update: Box::new(copy_layer(Update)),
        },
    }
}

/// Copies a layer kind.
pub fn copy_kind(k: &LayerKind) -> (r: LayerKind)
    ensures
        kind_copy(*k, r),
    decreases k, 1int,
{
    match k {
        LayerKind::Program => LayerKind::Program,
        LayerKind::Function { Name, Params, ReturnType, IsUnsafe, IsExtern } => LayerKind::Function {
            Name: Name.clone(),
            Params: copy_params(Params),
            ReturnType: crate::ast::ty::clone_opt_type(ReturnType),
            IsUnsafe: *IsUnsafe,
            IsExtern: *IsExtern,
        },
        LayerKind::VariableBinding { Name, TypeAnnotation, IsMutable, Hooks, InitialValue } => {
            proof {
                assert(decreases_to!(*k => *Hooks));
            }
            LayerKind::VariableBinding {
                Name: Name.clone(),
                TypeAnnotation: crate::ast::ty::clone_opt_type(TypeAnnotation),
                IsMutable: *IsMutable,
                Hooks: copy_hooks(Hooks),
                InitialValue: copy_opt_expr(InitialValue),
            }
        },
        LayerKind::Assignment { Target, Value } => LayerKind::Assignment {
            Target: Target.clone(),
            Value: Value.clone(),
        },
        LayerKind::Expression(x) => LayerKind::Expression(x.clone()),
        LayerKind::Block => LayerKind::Block,
        LayerKind::Loop { Label, Kind } => LayerKind::Loop {
            Label: copy_opt_text(Label),
            Kind: copy_loop(Kind),
        },
        LayerKind::Conditional { Condition, HasElse } => LayerKind::Conditional {
            Condition: Condition.clone(),
            HasElse: *HasElse,
        },
        LayerKind::MatchArm { Pattern, Guard } => LayerKind::MatchArm {
            Pattern: Pattern.clone(),
            Guard: copy_opt_expr(Guard),
        },
        LayerKind::Return { Value } => LayerKind::Return { Value: copy_opt_expr(Value) },
        LayerKind::Panic => LayerKind::Panic,
        LayerKind::Unreachable => LayerKind::Unreachable,
        LayerKind::Havoc { Target } => LayerKind::Havoc { Target: Target.clone() },
        LayerKind::Interrupt { Syscall } => LayerKind::Interrupt { Syscall: Syscall.clone() },
        LayerKind::Struct { Name, Fields, IsPacked } => LayerKind::Struct {
            Name: Name.clone(),
            Fields: copy_fields(Fields),
            IsPacked: *IsPacked,
        },
        LayerKind::Enum { Name, Variants } => LayerKind::Enum {
            Name: Name.clone(),
            Variants: copy_variants(Variants),
        },
    }
}

/// A layer like `l` — same id, metadata, constraints, flags, storage and
/// trace info — but with the given kind and children.
pub fn rebuild_layer(l: &Layer, kind: LayerKind, children: Vec<Layer>) -> (r: Layer)
    ensures
        r.Id == l.Id,
        r.Metadata.SourceLocation@ == l.Metadata.SourceLocation@,
        same_flags(*l, r),
        r.Kind == kind,
        r.Children == children,
{
    Layer {
        Id: l.Id,
        Kind: kind,
        Metadata: LayerMetadata {
            SourceLocation: l.Metadata.SourceLocation.clone(),
            Docs: copy_opt_text(&l.Metadata.Docs),
            Directives: l.Metadata.Directives.clone(),
            Optimization: l.Metadata.Optimization,
            Custom: l.Metadata.Custom.clone(),
        },
        Children: children,
        Constraints: l.Constraints.clone(),
        Observability: ObservabilityFlags {
            ObservableValues: l.Observability.ObservableValues.clone(),
            AffectsOutput: l.Observability.AffectsOutput,
            AffectsHardware: l.Observability.AffectsHardware,
            ObservableToTrace: l.Observability.ObservableToTrace,
        },
        TypeStorage: l.TypeStorage.clone(),
        VariableStorage: l.VariableStorage.clone(),
        TraceInfo: l.TraceInfo.clone(),
    }
}

/// Copies a layer and everything below it.
#[verifier::loop_isolation(false)]
pub fn copy_layer(l: &Layer) -> (r: Layer)
    ensures
        layer_copy(*l, r),
    decreases l, 2int,
{
    let mut children: Vec<Layer> = Vec::new();
    let mut i: usize = 0;
    while i < l.Children.len()
        invariant
            i <= l.Children@.len(),
            children@.len() == i,
            forall|j: int| 0 <= j < i ==> layer_copy(#[trigger] l.Children@[j], children@[j]),
        decreases l.Children@.len() - i,
    {
        proof {
            broadcast use vstd::std_specs::vec::axiom_vec_index_decreases;
            assert(decreases_to!(l.Children => l.Children@[i as int]));
        }
        children.push(copy_layer(&l.Children[i]));
        i = i + 1;
    }
    Layer {
        Id: l.Id,
        Kind: copy_kind(&l.Kind),
        Metadata: LayerMetadata {
            SourceLocation: l.Metadata.SourceLocation.clone(),
            Docs: copy_opt_text(&l.Metadata.Docs),
            Directives: l.Metadata.Directives.clone(),
            Optimization: l.Metadata.Optimization,
            Custom: l.Metadata.Custom.clone(),
        },
        Children: children,
        Constraints: l.Constraints.clone(),
        Observability: ObservabilityFlags {
            ObservableValues: l.Observability.ObservableValues.clone(),
            AffectsOutput: l.Observability.AffectsOutput,
            AffectsHardware: l.Observability.AffectsHardware,
            ObservableToTrace: l.Observability.ObservableToTrace,
        },
        TypeStorage: l.TypeStorage.clone(),
        VariableStorage: l.VariableStorage.clone(),
        TraceInfo: l.TraceInfo.clone(),
    }
}

impl Clone for VariableHook {
    fn clone(&self) -> (r: Self)
        ensures
            hook_copy(*self, r),
    {
        copy_hook(self)
    }
}

impl Clone for LoopKind {
    fn clone(&self) -> (r: Self)
        ensures
            loop_copy(*self, r),
    {
        copy_loop(self)
    }
}

impl Clone for LayerKind {
    fn clone(&self) -> (r: Self)
        ensures
            kind_copy(*self, r),
    {
        copy_kind(self)
    }
}

impl Clone for Layer {
    fn clone(&self) -> (r: Self)
        ensures
            layer_copy(*self, r),
    {
        copy_layer(self)
    }
}

} // verus!
