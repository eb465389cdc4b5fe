//! Layer 2 (types) — the checking walk.
//!
//! Traverses the layer tree, threading a `TypeEnv` through the scopes and
//! filling a `TypeTable`; mismatch, arity and operator errors are reported
//! as they are met.

use vstd::prelude::*;
use crate::ast::{Layer, LayerKind, Param, SpecType, Type};
use crate::ast::ty::{clone_opt_type, opt_type_view};
use crate::elaboration::layer1_semantics::resolve::ResolvedProgram;
use crate::elaboration::layer2_types::check::{CheckAssignment, CheckReturn, check_assignment};
use crate::elaboration::layer2_types::errors::{SpecTypeError, TypeError, type_errors_view};
use crate::elaboration::layer2_types::infer::{InferExpression, infer};
use crate::elaboration::layer2_types::typed_ast::{
    EnvMaps, TypeEnv, TypeTable, env_enter, env_insert, env_leave, env_of_symbols,
};

verus! {

/// The full output of layer 2: a per-layer type map plus any errors.
#[derive(Debug)]
pub struct TypedProgram {
    pub Types: TypeTable,
    pub Errors: Vec<TypeError>,
}

/// What the walk carries: the environment, the layer types, the errors so
/// far, and the declared return type of the function being walked.
pub struct TState {
    pub env: EnvMaps,
    pub types: Map<usize, SpecType>,
    pub errors: Seq<SpecTypeError>,
    pub ret: Option<SpecType>,
}

/// The error of a failed check, as a list.
pub open spec fn check_errors(r: Result<(), SpecTypeError>) -> Seq<SpecTypeError> {
    match r {
        Ok(()) => Seq::empty(),
        Err(e) => seq![e],
    }
}

/// The environment with each parameter bound to its type, from `i` on.
pub open spec fn bind_params(env: EnvMaps, ps: Seq<Param>, i: nat) -> EnvMaps
    decreases ps.len() - i,
{
    if i >= ps.len() {
        env
    } else {
        bind_params(env_insert(env, ps[i as int].Name@, ps[i as int].Type_@), ps, i + 1)
    }
}

/// The type a binding ends up with and the errors met on the way: the
/// annotation if there is one (the initializer must be assignable to it),
/// else the initializer's type; with no initializer, the annotation or
/// "to be inferred".
pub open spec fn binding_type(
    env: EnvMaps,
    annotation: Option<SpecType>,
    init: Option<crate::ast::SpecExpression>,
) -> (SpecType, Seq<SpecTypeError>) {
    let declared = match annotation {
        Some(t) => t,
        None => SpecType::Inferred,
    };
    match init {
        Some(e) => match infer(env, e) {
            Ok(t) => if !(declared is Inferred) {
                (declared, check_errors(check_assignment(declared, t)))
            } else {
                (t, Seq::empty())
            },
            Err(x) => (declared, seq![x]),
        },
        None => (declared, Seq::empty()),
    }
}

/// The state after checking a layer.
pub open spec fn walk_types(s: TState, l: Layer) -> TState
    decreases l, 1int,
{
    let cs = l.Children@;
    let id = l.Id.0;
    match l.Kind {
        LayerKind::Program => walk_types_children(s, cs, 0),
        LayerKind::Function { Params, ReturnType, .. } => {
            let s1 = TState { env: bind_params(env_enter(s.env), Params@, 0), ret: opt_type_view(ReturnType), ..s };
            let s2 = walk_types_children(s1, cs, 0);
            TState { env: env_leave(s2.env), ret: s.ret, ..s2 }
        },
        LayerKind::VariableBinding { Name, TypeAnnotation, InitialValue, .. } => {
            let (t, es) = binding_type(
                s.env,
                opt_type_view(TypeAnnotation),
                match InitialValue {
                    Some(e) => Some(e@),
                    None => None,
                },
            );
            TState { env: env_insert(s.env, Name@, t), types: s.types.insert(id, t), errors: s.errors + es, ..s }
        },
        LayerKind::Assignment { Target, Value } => {
            let es = match (infer(s.env, Target@), infer(s.env, Value@)) {
                (Ok(lt), Ok(rt)) => check_errors(check_assignment(lt, rt)),
                (Err(x), _) => seq![x],
                (_, Err(x)) => seq![x],
            };
            TState { errors: s.errors + es, ..s }
        },
        LayerKind::Expression(e) => match infer(s.env, e@) {
            Ok(t) => TState { types: s.types.insert(id, t), ..s },
            Err(x) => TState { errors: s.errors.push(x), ..s },
        },
        LayerKind::Return { Value } => {
            let (produced, es1) = match Value {
                Some(v) => match infer(s.env, v@) {
                    Ok(t) => (t, Seq::empty()),
                    Err(x) => (SpecType::Inferred, seq![x]),
                },
                None => (SpecType::Unit, Seq::empty()),
            };
            let es2 = match s.ret {
                Some(d) => check_errors(check_assignment(d, produced)),
                None => Seq::empty(),
            };
            TState { types: s.types.insert(id, produced), errors: s.errors + es1 + es2, ..s }
        },
        LayerKind::Conditional { Condition, .. } => {
            let es = match infer(s.env, Condition@) {
                Ok(t) => if t matches SpecType::BitPrecise(k, _) && k == 'b' {
                    Seq::empty()
                } else {
                    seq![
                        SpecTypeError::Mismatch {
                            Expected: SpecType::BitPrecise('b', 1),
                            Found: t,
                            At: l.Metadata.SourceLocation@,
                        },
                    ]
                },
                Err(x) => seq![x],
            };
            walk_types_children(TState { errors: s.errors + es, ..s }, cs, 0)
        },
        LayerKind::Block => {
            let s2 = walk_types_children(TState { env: env_enter(s.env), ..s }, cs, 0);
            TState { env: env_leave(s2.env), ..s2 }
        },
        _ => walk_types_children(s, cs, 0),
    }
}

/// The state after checking the layers from `i` on, in order.
pub open spec fn walk_types_children(s: TState, cs: Seq<Layer>, i: nat) -> TState
    decreases cs, cs.len() - i,
{
    if i >= cs.len() {
        s
    } else {
        walk_types_children(walk_types(s, cs[i as int]), cs, i + 1)
    }
}

/// Public entry point: type-check the whole program, starting from an
/// environment of every declared symbol's type.
pub fn CheckProgram(Root: &Layer, Resolved: &ResolvedProgram) -> (r: TypedProgram)
    ensures
        ({
            let f = walk_types(
                TState {
                    env: env_of_symbols(Resolved.Symbols@, Resolved.Symbols@.len()),
                    types: Map::empty(),
                    errors: Seq::empty(),
                    ret: None,
                },
                *Root,
            );
            r.Types@ == f.types && type_errors_view(r.Errors@) == f.errors
        }),
{
    let mut w = Walker {
        env: TypeEnv::FromSymbolTable(&Resolved.Symbols),
        types: TypeTable::New(),
        errors: Vec::new(),
        CurrentReturn: None,
    };
    assert(type_errors_view(w.errors@) =~= Seq::<SpecTypeError>::empty());
    w.Walk(Root);
    TypedProgram { Types: w.types, Errors: w.errors }
}

struct Walker {
    env: TypeEnv,
    types: TypeTable,
    errors: Vec<TypeError>,
    /// While inside a function, its declared return type.
    CurrentReturn: Option<Type>,
}

impl Walker {
    spec fn state(&self) -> TState {
        TState {
            env: self.env@,
            types: self.types@,
            errors: type_errors_view(self.errors@),
            ret: opt_type_view(self.CurrentReturn),
        }
    }

    /// Report one error.
    fn Report(&mut self, e: TypeError)
        ensures
            final(self).state() == (TState { errors: old(self).state().errors.push(e@), ..old(self).state() }),
    {
        let ghost before = self.errors@;
        let ghost ev = e@;
        self.errors.push(e);
        assert(type_errors_view(self.errors@) =~= type_errors_view(before).push(ev));
    }

    /// Report the error of a failed check.
    fn ReportCheck(&mut self, r: Result<(), TypeError>)
        ensures
            final(self).state() == (TState {
                errors: old(self).state().errors + check_errors(crate::elaboration::layer2_types::errors::unit_type_result(r)),
                ..old(self).state()
            }),
    {
        match r {
            Ok(()) => {
                assert(old(self).state().errors + Seq::<SpecTypeError>::empty() =~= old(self).state().errors);
            },
            Err(e) => {
                let ghost ev = e@;
                self.Report(e);
                assert(old(self).state().errors.push(ev) =~= old(self).state().errors + seq![ev]);
            },
        }
    }

    /// Check the children in order.
    #[verifier::loop_isolation(false)]
    fn WalkChildren(&mut self, L: &Layer)
        ensures
            final(self).state() == walk_types_children(old(self).state(), L.Children@, 0),
        decreases L, 0int,
    {
        let ghost s0 = self.state();
        let mut i: usize = 0;
        while i < L.Children.len()
            invariant
                i <= L.Children@.len(),
                walk_types_children(s0, L.Children@, 0) == walk_types_children(self.state(), L.Children@, i as nat),
            decreases L.Children@.len() - i,
        {
            proof {
                broadcast use vstd::std_specs::vec::axiom_vec_index_decreases;
                assert(decreases_to!(L.Children => L.Children@[i as int]));
                assert(decreases_to!(*L => L.Children));
            }
            self.Walk(&L.Children[i]);
            i = i + 1;
        }
    }

    #[verifier::loop_isolation(false)]
    fn Walk(&mut self, L: &Layer)
        ensures
            final(self).state() == walk_types(old(self).state(), *L),
        decreases L, 1int,
    {
        let ghost s0 = self.state();
        match &L.Kind {
            LayerKind::Program => self.WalkChildren(L),
            LayerKind::Function { Params, ReturnType, .. } => {
                self.env.Enter();
                let ghost e1 = self.env@;
                let mut i: usize = 0;
                while i < Params.len()
                    invariant
                        i <= Params@.len(),
                        bind_params(e1, Params@, 0) == bind_params(self.env@, Params@, i as nat),
                        self.types@ == s0.types,
                        type_errors_view(self.errors@) == s0.errors,
                        opt_type_view(self.CurrentReturn) == s0.ret,
                    decreases Params@.len() - i,
                {
                    self.env.Insert(Params[i].Name.as_str(), Params[i].Type_.clone());
                    i = i + 1;
                }
                let PrevReturn = self.CurrentReturn.take();
                self.CurrentReturn = clone_opt_type(ReturnType);
                self.WalkChildren(L);
                self.CurrentReturn = PrevReturn;
                self.env.Leave();
            },
            LayerKind::VariableBinding { Name, TypeAnnotation, InitialValue, .. } => {
                let Declared = match TypeAnnotation {
                    Some(t) => t.clone(),
                    None => Type::Inferred,
                };
                let FinalType = match InitialValue {
                    Some(init) => match InferExpression(init, &self.env) {
                        Ok(inferred) => {
                            if !matches!(Declared, Type::Inferred) {
                                let c = CheckAssignment(&Declared, &inferred);
                                self.ReportCheck(c);
                                Declared
                            } else {
                                assert(s0.errors + Seq::<SpecTypeError>::empty() =~= s0.errors);
                                inferred
                            }
                        },
                        Err(e) => {
                            let ghost ev = e@;
                            self.Report(e);
                            assert(s0.errors.push(ev) =~= s0.errors + seq![ev]);
                            Declared
                        },
                    },
                    None => {
                        assert(s0.errors + Seq::<SpecTypeError>::empty() =~= s0.errors);
                        Declared
                    },
                };
                self.env.Insert(Name.as_str(), FinalType.clone());
                self.types.SetType(L.Id, FinalType);
            },
            LayerKind::Assignment { Target, Value } => {
                let lt = InferExpression(Target, &self.env);
                let rt = InferExpression(Value, &self.env);
                match (lt, rt) {
                    (Ok(l), Ok(r)) => {
                        let c = CheckAssignment(&l, &r);
                        self.ReportCheck(c);
                    },
                    (Err(e), _) => {
                        let ghost ev = e@;
                        self.Report(e);
                        assert(s0.errors.push(ev) =~= s0.errors + seq![ev]);
                    },
                    (_, Err(e)) => {
                        let ghost ev = e@;
                        self.Report(e);
                        assert(s0.errors.push(ev) =~= s0.errors + seq![ev]);
                    },
                }
            },
            LayerKind::Expression(e) => match InferExpression(e, &self.env) {
                Ok(t) => self.types.SetType(L.Id, t),
                Err(x) => self.Report(x),
            },
            LayerKind::Return { Value } => {
                let Produced = match Value {
                    Some(v) => match InferExpression(v, &self.env) {
                        Ok(t) => {
                            assert(s0.errors + Seq::<SpecTypeError>::empty() =~= s0.errors);
                            t
                        },
                        Err(e) => {
                            let ghost ev = e@;
                            self.Report(e);
                            assert(s0.errors.push(ev) =~= s0.errors + seq![ev]);
                            Type::Inferred
                        },
                    },
                    None => {
                        assert(s0.errors + Seq::<SpecTypeError>::empty() =~= s0.errors);
                        Type::Unit
                    },
                };
                let ghost s1 = self.state();
                match &self.CurrentReturn {
                    Some(Decl) => {
                        let c = CheckReturn(Decl, &Produced);
                        self.ReportCheck(c);
                    },
                    None => {
                        assert(s1.errors + Seq::<SpecTypeError>::empty() =~= s1.errors);
                    },
                }
                self.types.SetType(L.Id, Produced);
            },
            LayerKind::Conditional { Condition, .. } => {
                match InferExpression(Condition, &self.env) {
                    Ok(t) => {
                        let is_bool = match &t {
                            Type::BitPrecise(k, _) => *k == 'b',
                            _ => false,
                        };
                        if !is_bool {
                            let e = TypeError::Mismatch {
                                Expected: Type::BitPrecise('b', 1),
                                Found: t,
                                At: L.Metadata.SourceLocation.clone(),
                            };
                            let ghost ev = e@;
                            self.Report(e);
                            assert(s0.errors.push(ev) =~= s0.errors + seq![ev]);
                        } else {
                            assert(s0.errors + Seq::<SpecTypeError>::empty() =~= s0.errors);
                        }
                    },
                    Err(e) => {
                        let ghost ev = e@;
                        self.Report(e);
                        assert(s0.errors.push(ev) =~= s0.errors + seq![ev]);
                    },
                }
                self.WalkChildren(L);
            },
            LayerKind::Block => {
                self.env.Enter();
                self.WalkChildren(L);
                self.env.Leave();
            },
            _ => self.WalkChildren(L),
        }
    }
}

} // verus!
