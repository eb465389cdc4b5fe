//! The elaboration context and the layer-tree walk that collects
//! constraints.

use vstd::prelude::*;
use crate::ast::{Layer, LayerKind, Param, Type, SpecType};
use crate::ast::ty::opt_type_view;
use crate::names::NameMap;
use crate::order::names_view;
use crate::render::{prefixed, type_debug, type_text, wrap};
use crate::elaboration::layer4_smt::translate::smt_text;

verus! {

/// The context for analyzing layers and constraints.
#[derive(Debug, PartialEq)]
pub struct ElaborationContext {
    /// Collected SMT assertions.
    pub Constraints: Vec<String>,
    /// Variables we know about in this scope.
    pub KnownVars: NameMap<()>,
    /// What the walk reports as it goes, one line each, in order.
    pub Messages: Vec<String>,
}

/// What the walk has gathered: the constraints, the known names and the
/// report lines.
pub struct ElabState {
    pub constraints: Seq<Seq<char>>,
    pub known: Set<Seq<char>>,
    pub messages: Seq<Seq<char>>,
}

impl ElaborationContext {
    /// The gathered state.
    pub open spec fn state(&self) -> ElabState {
        ElabState {
            constraints: names_view(self.Constraints@),
            known: self.KnownVars@.dom(),
            messages: names_view(self.Messages@),
        }
    }
}

/// The report line for an optional type: `Some(<type>)` or `None`.
pub open spec fn opt_type_text(t: Option<SpecType>) -> Seq<char> {
    match t {
        Some(x) => "Some("@ + type_text(x) + ")"@,
        None => "None"@,
    }
}

/// The state after recording a refinement's predicate as an assertion, or
/// the translation's failure.
pub open spec fn assert_refinement(s: ElabState, t: SpecType) -> (ElabState, Option<Seq<char>>) {
    match t {
        SpecType::Where(_, c, _) => match smt_text(c) {
            Ok(x) => (ElabState { constraints: s.constraints.push("(assert "@ + x + ")"@), ..s }, None),
            Err(m) => (s, Some(m)),
        },
        _ => (s, None),
    }
}

/// The state after the parameters from `i` on: each name becomes known,
/// and a refined parameter's predicate becomes an assertion.
pub open spec fn elab_params(s: ElabState, ps: Seq<Param>, i: nat) -> (ElabState, Option<Seq<char>>)
    decreases ps.len() - i,
{
    if i >= ps.len() {
        (s, None)
    } else {
        let s1 = ElabState { known: s.known.insert(ps[i as int].Name@), ..s };
        let (s2, e) = assert_refinement(s1, ps[i as int].Type_@);
        if e is Some {
            (s2, e)
        } else {
            elab_params(s2, ps, i + 1)
        }
    }
}

/// What one layer itself contributes, before its children.
pub open spec fn elab_kind(s: ElabState, k: LayerKind) -> (ElabState, Option<Seq<char>>) {
    match k {
        LayerKind::Function { Name, Params, .. } => elab_params(
            ElabState { messages: s.messages.push("Elaborating function: "@ + Name@), ..s },
            Params@,
            0,
        ),
        LayerKind::VariableBinding { Name, TypeAnnotation, .. } => {
            let s1 = ElabState {
                known: s.known.insert(Name@),
                messages: s.messages.push(
                    "TypeAnnotation for "@ + Name@ + ": "@ + opt_type_text(opt_type_view(TypeAnnotation)),
                ),
                ..s
            };
            match TypeAnnotation {
                Some(t) => assert_refinement(s1, t@),
                None => (s1, None),
            }
        },
        LayerKind::Panic => (
            ElabState { messages: s.messages.push("🔍 SMT Goal: Is 'panic' unreachable?"@), ..s },
            None,
        ),
        LayerKind::Conditional { Condition, .. } => match smt_text(Condition@) {
            Ok(x) => (ElabState { messages: s.messages.push("   Branch Constraint: "@ + x), ..s }, None),
            Err(m) => (s, Some(m)),
        },
        _ => (s, None),
    }
}

/// The state after walking a layer: its own contribution, then its
/// children in order; the first failure stops the walk.
pub open spec fn elab_layer(s: ElabState, l: Layer) -> (ElabState, Option<Seq<char>>)
    decreases l, 1int,
{
    let (s1, e) = elab_kind(s, l.Kind);
    if e is Some {
        (s1, e)
    } else {
        elab_children(s1, l.Children@, 0)
    }
}

/// The state after walking the layers from `i` on.
pub open spec fn elab_children(s: ElabState, cs: Seq<Layer>, i: nat) -> (ElabState, Option<Seq<char>>)
    decreases cs, cs.len() - i,
{
    if i >= cs.len() {
        (s, None)
    } else {
        let (s1, e) = elab_layer(s, cs[i as int]);
        if e is Some {
            (s1, e)
        } else {
            elab_children(s1, cs, i + 1)
        }
    }
}

/// The error of a walk, as the walk's result.
pub open spec fn elab_result(e: Option<Seq<char>>) -> Result<(), Seq<char>> {
    match e {
        Some(m) => Err(m),
        None => Ok(()),
    }
}

/// The view of a result without a value.
pub open spec fn unit_result(r: Result<(), String>) -> Result<(), Seq<char>> {
    match r {
        Ok(()) => Ok(()),
        Err(m) => Err(m@),
    }
}

impl ElaborationContext {
    /// Starts a fresh context.
    pub fn New() -> (c: Self)
        ensures
            c.Constraints@.len() == 0,
            c.KnownVars@ == Map::<Seq<char>, ()>::empty(),
            c.Messages@.len() == 0,
    {
        Self { Constraints: Vec::new(), KnownVars: NameMap::New(), Messages: Vec::new() }
    }

    /// Records a refinement's predicate as an assertion.
    fn AssertRefinement(&mut self, t: &Type) -> (r: Result<(), String>)
        ensures
            (final(self).state(), match r {
                Ok(()) => None,
                Err(m) => Some(m@),
            }) == assert_refinement(old(self).state(), t@),
    {
        if let Type::Where(_base, constraint, _) = t {
            let smt = self.TranslateToSmt(constraint)?;
            let ghost before = self.Constraints@;
            self.Constraints.push(wrap("(assert ", smt, ")"));
            assert(names_view(self.Constraints@) =~= names_view(before).push(self.Constraints@.last()@));
        }
        Ok(())
    }

    /// Walks the layer tree and finds constraints.
    #[verifier::loop_isolation(false)]
    pub fn ElaborateLayer(&mut self, L: &Layer) -> (r: Result<(), String>)
        ensures
            (final(self).state(), unit_result(r)) == ({
                let (s, e) = elab_layer(old(self).state(), *L);
                (s, elab_result(e))
            }),
        decreases L,
    {
        match &L.Kind {
            LayerKind::Function { Name, Params, .. } => {
                let ghost before = self.Messages@;
                self.Messages.push(prefixed("Elaborating function: ", Name.clone()));
                assert(names_view(self.Messages@) =~= names_view(before).push(self.Messages@.last()@));
                let mut i: usize = 0;
                while i < Params.len()
                    invariant
                        i <= Params@.len(),
                        elab_kind(old(self).state(), L.Kind) == elab_params(self.state(), Params@, i as nat),
                    decreases Params@.len() - i,
                {
                    self.KnownVars.Insert(Params[i].Name.as_str(), ());
                    self.AssertRefinement(&Params[i].Type_)?;
                    i = i + 1;
                }
            },
            LayerKind::VariableBinding { Name, TypeAnnotation, .. } => {
                self.KnownVars.Insert(Name.as_str(), ());
                let shown = match TypeAnnotation {
                    Some(t) => wrap("Some(", type_debug(t), ")"),
                    None => String::from_str("None"),
                };
                let a = wrap("TypeAnnotation for ", Name.clone(), ": ");
                let ghost before = self.Messages@;
                self.Messages.push(prefixed(a.as_str(), shown));
                assert(names_view(self.Messages@) =~= names_view(before).push(self.Messages@.last()@));
                if let Some(t) = TypeAnnotation {
                    self.AssertRefinement(t)?;
                }
            },
            LayerKind::Panic => {
                let ghost before = self.Messages@;
                self.Messages.push(String::from_str("🔍 SMT Goal: Is 'panic' unreachable?"));
                assert(names_view(self.Messages@) =~= names_view(before).push(self.Messages@.last()@));
            },
            LayerKind::Conditional { Condition, .. } => {
                let smt = self.TranslateToSmt(Condition)?;
                let ghost before = self.Messages@;
                self.Messages.push(prefixed("   Branch Constraint: ", smt));
                assert(names_view(self.Messages@) =~= names_view(before).push(self.Messages@.last()@));
            },
            _ => {},
        }
        let ghost s1 = self.state();
        let mut i: usize = 0;
        while i < L.Children.len()
            invariant
                i <= L.Children@.len(),
                elab_children(s1, L.Children@, 0) == elab_children(self.state(), L.Children@, i as nat),
            decreases L.Children@.len() - i,
        {
            proof {
                broadcast use vstd::std_specs::vec::axiom_vec_index_decreases;
                assert(decreases_to!(L.Children => L.Children@[i as int]));
                assert(decreases_to!(*L => L.Children));
            }
            self.ElaborateLayer(&L.Children[i])?;
            i = i + 1;
        }
        Ok(())
    }
}

} // verus!
