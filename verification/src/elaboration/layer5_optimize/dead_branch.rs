//! Layer 5 (optimization) — removing branches that cannot be taken.
//!
//! For each conditional, the solver is asked whether its condition can hold
//! under the assumptions in force: `Unsat` deletes the then-arm. The
//! negated condition decides the else-arm the same way.

use vstd::prelude::*;
use crate::ast::{Expression, Layer, LayerKind, SpecExpression};
use crate::ast::copy::{copy_kind, kind_copy, rebuild_layer, same_flags};
use crate::ast::expr::exprs_view;
use crate::elaboration::layer3_refinements::propagate::{Negate, negate};
use crate::elaboration::layer4_smt::backend::{Query, SolverVerdict, lemma_unsat_means_no_model, query_prop, query_verdict};
use crate::elaboration::layer4_smt::normalize::eval_prop;

verus! {

/// An arm may be taken: the solver does not call its condition impossible
/// under the assumptions.
pub open spec fn arm_alive(known: Seq<SpecExpression>, cond: SpecExpression) -> bool {
    !(query_verdict(known, cond) is Unsat)
}

/// Only arms that cannot be taken are removed: when an arm is judged dead,
/// its condition and the assumptions lower to a formula that no assignment
/// of values makes true.
pub proof fn lemma_dead_arm_cannot_be_taken(known: Seq<SpecExpression>, cond: SpecExpression, env: Map<Seq<char>, i64>)
    requires
        !arm_alive(known, cond),
    ensures
        query_prop(known, cond) is Some,
        eval_prop(query_prop(known, cond)->0, env) != Some(true),
{
    lemma_unsat_means_no_model(known, cond, env);
}

/// `b` is `a` with its impossible branches removed, under the assumptions
/// `known`: a conditional keeps its then-arm (walked with the condition
/// assumed) and its else-arm (walked with the negated condition assumed)
/// only when they may be taken, and drops any further children; other
/// layers keep all their children, walked under the same assumptions.
pub open spec fn branches_removed(a: Layer, known: Seq<SpecExpression>, b: Layer) -> bool
    decreases a,
{
    let cs = a.Children@;
    &&& a.Id == b.Id
    &&& a.Metadata.SourceLocation@ == b.Metadata.SourceLocation@
    &&& same_flags(a, b)
    &&& kind_copy(a.Kind, b.Kind)
    &&& match a.Kind {
        LayerKind::Conditional { Condition, .. } => {
            let c = Condition@;
            let t = cs.len() > 0 && arm_alive(known, c);
            let e = cs.len() > 1 && arm_alive(known, negate(c));
            &&& b.Children@.len() == (if t { 1int } else { 0int }) + (if e { 1int } else { 0int })
            &&& (t ==> branches_removed(cs[0], known.push(c), b.Children@[0]))
            &&& (e ==> branches_removed(cs[1], known.push(negate(c)), b.Children@[if t { 1int } else { 0int }]))
        },
        _ => b.Children@.len() == cs.len() && forall|i: int|
            0 <= i < cs.len() ==> branches_removed(#[trigger] cs[i], known, b.Children@[i]),
    }
}

/// Rewrite `Root`: a new tree with the dead branches pruned.
pub fn RemoveDeadBranches(Root: &Layer) -> (r: Layer)
    ensures
        branches_removed(*Root, Seq::empty(), r),
{
    let mut assumptions: Vec<Expression> = Vec::new();
    assert(exprs_view(assumptions@) =~= Seq::<SpecExpression>::empty());
    Walk(Root, &mut assumptions)
}

/// Whether an arm with condition `cond` may be taken.
fn ArmAlive(assumptions: &Vec<Expression>, cond: &Expression) -> (b: bool)
    ensures
        b == arm_alive(exprs_view(assumptions@), cond@),
{
    match Query(assumptions.as_slice(), cond) {
        SolverVerdict::Sat { .. } | SolverVerdict::Unknown => true,
        SolverVerdict::Unsat => false,
    }
}

/// Walk one arm with `cond` assumed.
fn WalkArm(arm: &Layer, cond: Expression, assumptions: &mut Vec<Expression>) -> (r: Layer)
    ensures
        final(assumptions)@ == old(assumptions)@,
        branches_removed(*arm, exprs_view(old(assumptions)@).push(cond@), r),
    decreases arm, 3int,
{
    let ghost before = assumptions@;
    let ghost cv = cond@;
    assumptions.push(cond);
    assert(exprs_view(assumptions@) =~= exprs_view(before).push(cv));
    let r = Walk(arm, assumptions);
    assumptions.pop();
    assert(assumptions@ =~= before);
    r
}

#[verifier::loop_isolation(false)]
fn Walk(L: &Layer, assumptions: &mut Vec<Expression>) -> (r: Layer)
    ensures
        final(assumptions)@ == old(assumptions)@,
        branches_removed(*L, exprs_view(old(assumptions)@), r),
    decreases L, 2int,
{
    let ghost known = exprs_view(assumptions@);
    let ghost cs = L.Children@;
    if let LayerKind::Conditional { Condition, .. } = &L.Kind {
        let mut kept: Vec<Layer> = Vec::new();
        let mut took_then = false;
        if L.Children.len() > 0 {
            if ArmAlive(assumptions, Condition) {
                proof {
                    broadcast use vstd::std_specs::vec::axiom_vec_index_decreases;
                    assert(decreases_to!(L.Children => L.Children@[0]));
                    assert(decreases_to!(*L => L.Children));
                }
                let arm = WalkArm(&L.Children[0], Condition.clone(), assumptions);
                kept.push(arm);
                took_then = true;
            }
        }
        if L.Children.len() > 1 {
            let neg = Negate(Condition.clone());
            if ArmAlive(assumptions, &neg) {
                proof {
                    broadcast use vstd::std_specs::vec::axiom_vec_index_decreases;
                    assert(decreases_to!(L.Children => L.Children@[1]));
                    assert(decreases_to!(*L => L.Children));
                }
                let arm = WalkArm(&L.Children[1], neg, assumptions);
                kept.push(arm);
            }
        }
        return rebuild_layer(L, copy_kind(&L.Kind), kept);
    }
    let mut children: Vec<Layer> = Vec::new();
    let mut i: usize = 0;
    while i < L.Children.len()
        invariant
            i <= cs.len(),
            cs == L.Children@,
            children@.len() == i,
            assumptions@ == old(assumptions)@,
            forall|j: int| 0 <= j < i ==> branches_removed(#[trigger] cs[j], known, children@[j]),
        decreases cs.len() - i,
    {
        proof {
            broadcast use vstd::std_specs::vec::axiom_vec_index_decreases;
            assert(decreases_to!(L.Children => L.Children@[i as int]));
            assert(decreases_to!(*L => L.Children));
        }
        let c = Walk(&L.Children[i], assumptions);
        children.push(c);
        i = i + 1;
    }
    rebuild_layer(L, copy_kind(&L.Kind), children)
}

} // verus!
