//! Layer 3 (refinements) — cheap local proof rules, tried before a goal is
//! handed to the solver.

use vstd::prelude::*;
use crate::ast::{Expression, SpecExpression};
use crate::ast::expr::ExprEq;
use crate::elaboration::layer3_refinements::constraint::{ProofObligation, SpecObligation};
use crate::elaboration::layer4_smt::backend::query_prop;
use crate::elaboration::layer4_smt::normalize::{SpecProp, eval_and, eval_prop};

verus! {

/// Every assumption is a literal `true`.
pub open spec fn all_true(es: Seq<SpecExpression>) -> bool {
    forall|k: int| 0 <= k < es.len() ==> es[k] == SpecExpression::LiteralBool(true)
}

/// The local verdict on an obligation: `Some(true)` when the goal is
/// trivially impossible (a literal `false`, or a literal `true` under an
/// assumed literal `false`) — safe to erase; `Some(false)` when it is
/// trivially reachable (a literal `true` goal under assumptions that are
/// all literal `true`, so every assignment reaches it); `None` when the
/// solver has to decide, which includes every goal under assumptions that
/// might contradict each other.
pub open spec fn try_local(o: SpecObligation) -> Option<bool> {
    if o.Goal == SpecExpression::LiteralBool(false) {
        Some(true)
    } else if o.Goal == SpecExpression::LiteralBool(true) {
        if o.Assumptions.contains(SpecExpression::LiteralBool(false)) {
            Some(true)
        } else if all_true(o.Assumptions) {
            Some(false)
        } else {
            None
        }
    } else {
        None
    }
}

/// A local proof result for an obligation.
#[verifier::loop_isolation(false)]
pub fn TryLocal(o: &ProofObligation) -> (r: Option<bool>)
    ensures
        r == try_local(o@),
{
    let ghost ov = o@;
    if let Expression::LiteralBool(false) = o.Goal {
        return Some(true);
    }
    if let Expression::LiteralBool(true) = o.Goal {
        let mut i: usize = 0;
        let mut all: bool = true;
        while i < o.Assumptions.len()
            invariant
                i <= o.Assumptions@.len(),
                ov == o@,
                forall|j: int| 0 <= j < i ==> ov.Assumptions[j] != SpecExpression::LiteralBool(false),
                all == all_true(ov.Assumptions.subrange(0, i as int)),
            decreases o.Assumptions@.len() - i,
        {
            if let Expression::LiteralBool(false) = o.Assumptions[i] {
                assert(ov.Assumptions[i as int] == SpecExpression::LiteralBool(false));
                assert(ov.Assumptions.contains(SpecExpression::LiteralBool(false)));
                return Some(true);
            }
            let is_true = match o.Assumptions[i] {
                Expression::LiteralBool(true) => true,
                _ => false,
            };
            assert(is_true == (ov.Assumptions[i as int] == SpecExpression::LiteralBool(true)));
            assert(all_true(ov.Assumptions.subrange(0, i + 1)) == (all_true(ov.Assumptions.subrange(0, i as int))
                && ov.Assumptions[i as int] == SpecExpression::LiteralBool(true))) by {
                let a = ov.Assumptions.subrange(0, i + 1);
                let b = ov.Assumptions.subrange(0, i as int);
                assert forall|k: int| 0 <= k < b.len() implies b[k] == a[k] by {}
                assert(a[i as int] == ov.Assumptions[i as int]);
            }
            all = all && is_true;
            i = i + 1;
        }
        assert(ov.Assumptions.subrange(0, i as int) =~= ov.Assumptions);
        if all {
            return Some(false);
        }
        return None;
    }
    None
}

/// A conjunction with a false part is never true.
proof fn lemma_and_with_false(ps: Seq<SpecProp>, i: nat, k: int, env: Map<Seq<char>, i64>)
    requires
        i <= k < ps.len(),
        ps[k] == SpecProp::False,
    ensures
        eval_and(ps, i, env) != Some(true),
    decreases ps.len() - i,
{
    if i < k {
        lemma_and_with_false(ps, i + 1, k, env);
    } else {
        assert(eval_prop(ps[k], env) == Some(false));
    }
    assert(eval_and(ps, i, env) == match eval_prop(ps[i as int], env) {
        Some(true) => eval_and(ps, i + 1, env),
        other => other,
    });
}

/// When the local rules call a goal impossible, it is: no assignment makes
/// the assumptions and the goal true together.
pub proof fn lemma_try_local_sound(o: SpecObligation, env: Map<Seq<char>, i64>)
    requires
        try_local(o) == Some(true),
        query_prop(o.Assumptions, o.Goal) is Some,
    ensures
        eval_prop(query_prop(o.Assumptions, o.Goal)->0, env) != Some(true),
{
    let p = query_prop(o.Assumptions, o.Goal)->0;
    let ps = p->And_0;
    if o.Goal == SpecExpression::LiteralBool(false) {
        lemma_and_with_false(ps, 0, ps.len() - 1, env);
    } else {
        let k = choose|k: int| 0 <= k < o.Assumptions.len() && o.Assumptions[k] == SpecExpression::LiteralBool(false);
        lemma_to_props_index(o.Assumptions, k);
        lemma_and_with_false(ps, 0, k, env);
    }
}

/// A conjunction of parts that are all `True` is true.
proof fn lemma_and_all_true(ps: Seq<SpecProp>, i: nat, env: Map<Seq<char>, i64>)
    requires
        forall|k: int| 0 <= k < ps.len() ==> ps[k] == SpecProp::True,
    ensures
        eval_and(ps, i, env) == Some(true),
    decreases ps.len() - i,
{
    if i < ps.len() {
        lemma_and_all_true(ps, i + 1, env);
        assert(eval_prop(ps[i as int], env) == Some(true));
    }
}

/// Assumptions that are all literal `true` lower to `True` each.
proof fn lemma_to_props_all_true(es: Seq<SpecExpression>)
    requires
        all_true(es),
    ensures
        crate::elaboration::layer4_smt::backend::to_props(es) == Some(Seq::new(es.len(), |k: int| SpecProp::True)),
    decreases es.len(),
{
    if es.len() > 0 {
        lemma_to_props_all_true(es.drop_last());
        assert(es.last() == SpecExpression::LiteralBool(true));
        assert(Seq::new((es.len() - 1) as nat, |k: int| SpecProp::True).push(SpecProp::True) =~= Seq::new(
            es.len(),
            |k: int| SpecProp::True,
        ));
    } else {
        assert(Seq::<SpecProp>::empty() =~= Seq::new(es.len(), |k: int| SpecProp::True));
    }
}

/// When the local rules call a goal reachable, it is: every assignment
/// makes the assumptions and the goal true together.
pub proof fn lemma_try_local_reachable(o: SpecObligation, env: Map<Seq<char>, i64>)
    requires
        try_local(o) == Some(false),
    ensures
        query_prop(o.Assumptions, o.Goal) is Some,
        eval_prop(query_prop(o.Assumptions, o.Goal)->0, env) == Some(true),
{
    lemma_to_props_all_true(o.Assumptions);
    let ps = Seq::new(o.Assumptions.len(), |k: int| SpecProp::True).push(SpecProp::True);
    assert(query_prop(o.Assumptions, o.Goal) == Some(SpecProp::And(ps)));
    lemma_and_all_true(ps, 0, env);
}

/// The lowering of a list lowers each element in place.
proof fn lemma_to_props_index(es: Seq<SpecExpression>, k: int)
    requires
        0 <= k < es.len(),
        crate::elaboration::layer4_smt::backend::to_props(es) is Some,
    ensures
        crate::elaboration::layer4_smt::backend::to_props(es)->0.len() == es.len(),
        crate::elaboration::layer4_smt::normalize::to_prop(es[k]) == Some(
            crate::elaboration::layer4_smt::backend::to_props(es)->0[k],
        ),
    decreases es.len(),
{
    lemma_to_props_len(es);
    if k < es.len() - 1 {
        lemma_to_props_index(es.drop_last(), k);
    }
}

proof fn lemma_to_props_len(es: Seq<SpecExpression>)
    requires
        crate::elaboration::layer4_smt::backend::to_props(es) is Some,
    ensures
        crate::elaboration::layer4_smt::backend::to_props(es)->0.len() == es.len(),
    decreases es.len(),
{
    if es.len() > 0 {
        lemma_to_props_len(es.drop_last());
    }
}

} // verus!
