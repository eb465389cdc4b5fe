//! Layer 5 (optimization) — erasing checks proved safe.
//!
//! For every obligation of layer 3 on which the solver answers `Unsat`, the
//! goal is marked erased; whoever emits code skips the corresponding
//! runtime check.

use vstd::prelude::*;
use crate::elaboration::layer3_refinements::constraint::{GoalId, SpecObligation, obligations_view};
use crate::elaboration::layer3_refinements::propagate::ConstraintGraph;
use crate::elaboration::layer4_smt::backend::{Query, SolverVerdict, lemma_unsat_means_no_model, query_prop, query_verdict};
use crate::elaboration::layer4_smt::normalize::eval_prop;

verus! {

/// The goals proved impossible; each appears once.
#[derive(Debug)]
pub struct ErasureSet {
    pub Erased: Vec<GoalId>,
}

impl ErasureSet {
    /// No goal erased.
    pub fn New() -> (s: Self)
        ensures
            s.Erased@.len() == 0,
    {
        ErasureSet { Erased: Vec::new() }
    }

    /// Whether goal `id` is erased.
    pub fn Contains(&self, id: GoalId) -> (b: bool)
        ensures
            b == self.Erased@.contains(id),
    {
        let mut i: usize = 0;
        while i < self.Erased.len()
            invariant
                i <= self.Erased@.len(),
                forall|j: int| 0 <= j < i ==> self.Erased@[j] != id,
            decreases self.Erased@.len() - i,
        {
            if self.Erased[i] == id {
                return true;
            }
            i = i + 1;
        }
        false
    }
}

/// The goals among the first `n` obligations that the solver calls
/// impossible.
pub open spec fn proven_safe(obs: Seq<SpecObligation>, n: nat) -> Set<GoalId>
    decreases n,
{
    if n == 0 || n > obs.len() {
        Set::empty()
    } else {
        let rest = proven_safe(obs, (n - 1) as nat);
        let o = obs[n - 1];
        if query_verdict(o.Assumptions, o.Goal) is Unsat {
            rest.insert(o.Id)
        } else {
            rest
        }
    }
}

/// Ask the solver about every obligation; each `Unsat` goal is erased.
pub fn EraseProvenSafe(graph: &ConstraintGraph) -> (s: ErasureSet)
    ensures
        s.Erased@.to_set() == proven_safe(obligations_view(graph.obligations()), graph.obligations().len()),
        s.Erased@.no_duplicates(),
{
    let mut set = ErasureSet::New();
    let ghost obs = obligations_view(graph.obligations());
    assert(graph.Obligations@ == graph.obligations());
    assert(set.Erased@.to_set() =~= Set::<GoalId>::empty());
    let mut i: usize = 0;
    while i < graph.Obligations.len()
        invariant
            i <= graph.Obligations@.len(),
            obs == obligations_view(graph.Obligations@),
            set.Erased@.to_set() == proven_safe(obs, i as nat),
            set.Erased@.no_duplicates(),
        decreases graph.Obligations@.len() - i,
    {
        let ob = &graph.Obligations[i];
        if let SolverVerdict::Unsat = Query(ob.Assumptions.as_slice(), &ob.Goal) {
            if !set.Contains(ob.Id) {
                let ghost before = set.Erased@;
                set.Erased.push(ob.Id);
                assert(set.Erased@.to_set() =~= before.to_set().insert(ob.Id)) by {
                    assert forall|x: GoalId| set.Erased@.to_set().contains(x) <==> before.to_set().insert(ob.Id).contains(x) by {
                        if set.Erased@.to_set().contains(x) {
                            let k = choose|k: int| 0 <= k < set.Erased@.len() && set.Erased@[k] == x;
                            if k < before.len() {
                                assert(before[k] == x);
                            }
                        }
                        if before.to_set().contains(x) {
                            let k = choose|k: int| 0 <= k < before.len() && before[k] == x;
                            assert(set.Erased@[k] == x);
                        }
                        if x == ob.Id {
                            assert(set.Erased@[before.len() as int] == x);
                        }
                    }
                }
            } else {
                assert(set.Erased@.to_set().insert(ob.Id) =~= set.Erased@.to_set());
            }
        }
        i = i + 1;
    }
    set
}

/// Erasing is safe: every erased goal is that of an obligation whose goal,
/// together with its assumptions, no assignment of values makes true.
pub proof fn lemma_erased_goals_cannot_fail(obs: Seq<SpecObligation>, n: nat, g: GoalId, env: Map<Seq<char>, i64>)
    requires
        proven_safe(obs, n).contains(g),
    ensures
        exists|k: int|
            0 <= k < n && k < obs.len() && (#[trigger] obs[k]).Id == g && query_prop(obs[k].Assumptions, obs[k].Goal)
                is Some && eval_prop(query_prop(obs[k].Assumptions, obs[k].Goal)->0, env) != Some(true),
    decreases n,
{
    let o = obs[n - 1];
    if query_verdict(o.Assumptions, o.Goal) is Unsat && o.Id == g {
        lemma_unsat_means_no_model(o.Assumptions, o.Goal, env);
        assert(obs[n - 1].Id == g);
    } else {
        lemma_erased_goals_cannot_fail(obs, (n - 1) as nat, g, env);
    }
}

} // verus!
