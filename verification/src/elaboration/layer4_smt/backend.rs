//! Layer 4 (solver) — the backend.
//!
//! A small satisfiability engine for the fragment refinements generate:
//! integer arithmetic, comparisons and boolean combinators. Given
//! assumptions `A1 ∧ … ∧ An` and a goal `G` it asks `sat(A1 ∧ … ∧ An ∧ G)`:
//!
//! 1. Lower each expression to a `Prop`; anything that does not lower gives
//!    `Unknown`.
//! 2. Push the conjunction through interval propagation: every top-level
//!    `var op const` atom tightens the variable's interval.
//! 3. An empty interval is a contradiction: `Unsat`.
//! 4. Otherwise enumerate assignments over (capped) intervals, depth first,
//!    until one satisfies the formula (`Sat`, with that model). When none
//!    does, the answer is `Unsat` only if every value of every variable was
//!    tried; a search that ran out of budget, or that tried only a window of
//!    an open or too wide interval, gives `Unknown`.

use vstd::prelude::*;
use crate::ast::{Expression, SpecExpression};
use crate::ast::expr::exprs_view;
use crate::names::NameMap;
use crate::order::{lemma_lex_irreflexive, lemma_sorted_listing_exists, names_view, strictly_sorted};
use crate::elaboration::layer4_smt::interval::{Interval, IntervalStore, has_empty, interval_of};
use crate::elaboration::layer4_smt::normalize::{
    Atom, EvalProp, Prop, SpecAtom, SpecProp, SpecTerm, Term, ToProp, VarsOf, agree_on, eval_and, eval_atom,
    eval_prop, lemma_prop_agree, lemma_prop_vars_finite, prop_vars, props_view, to_prop,
};

verus! {

/// Verdict returned by [`Query`].
#[derive(Debug, PartialEq)]
pub enum SolverVerdict {
    /// A model exists: the goal is reachable under the assumptions. Erasing
    /// a safety check on this verdict would be wrong.
    Sat { Model: NameMap<i64> },
    /// No model: the conjunction is impossible. Safe to erase.
    Unsat,
    /// The solver could not decide (unsupported syntax, budget exhausted,
    /// a variable whose values could not all be tried).
    Unknown,
}

/// Two verdicts say the same thing: the same kind, and for `Sat` the same
/// model.
pub open spec fn same_verdict(a: SolverVerdict, b: SolverVerdict) -> bool {
    match (a, b) {
        (SolverVerdict::Sat { Model: x }, SolverVerdict::Sat { Model: y }) => x@ == y@,
        (SolverVerdict::Unsat, SolverVerdict::Unsat) => true,
        (SolverVerdict::Unknown, SolverVerdict::Unknown) => true,
        _ => false,
    }
}

impl Clone for SolverVerdict {
    fn clone(&self) -> (r: Self)
        ensures
            same_verdict(r, *self),
    {
        match self {
            SolverVerdict::Sat { Model } => {
                SolverVerdict::Sat { Model: Model.Duplicate() }
            },
            SolverVerdict::Unsat => SolverVerdict::Unsat,
            SolverVerdict::Unknown => SolverVerdict::Unknown,
        }
    }
}

/// The mathematical value of a [`SolverVerdict`].
pub enum SpecVerdict {
    Sat(Map<Seq<char>, i64>),
    Unsat,
    Unknown,
}

/// What a verdict says: its kind, and for `Sat` the satisfying assignment.
pub open spec fn verdict_view(v: SolverVerdict) -> SpecVerdict {
    match v {
        SolverVerdict::Sat { Model } => SpecVerdict::Sat(Model@),
        SolverVerdict::Unsat => SpecVerdict::Unsat,
        SolverVerdict::Unknown => SpecVerdict::Unknown,
    }
}

/// Maximum number of leaves the enumerator will visit before giving up.
pub const BUDGET: usize = 4096;

/// Cap on enumeration width per variable, to avoid exploding on huge ranges.
pub const ENUM_WIDTH_CAP: i64 = 256;

// ------------------------------------------------------------------
// What gets asked
// ------------------------------------------------------------------

/// The lowering of every expression of a list, if each lowers.
pub open spec fn to_props(es: Seq<SpecExpression>) -> Option<Seq<SpecProp>>
    decreases es.len(),
{
    if es.len() == 0 {
        Some(Seq::empty())
    } else {
        match (to_props(es.drop_last()), to_prop(es.last())) {
            (Some(ps), Some(p)) => Some(ps.push(p)),
            _ => None,
        }
    }
}

/// The formula a query decides: the conjunction of the assumptions and the
/// goal, in that order, when every one of them lowers.
pub open spec fn query_prop(assumptions: Seq<SpecExpression>, goal: SpecExpression) -> Option<SpecProp> {
    match (to_props(assumptions), to_prop(goal)) {
        (Some(ps), Some(g)) => Some(SpecProp::And(ps.push(g))),
        _ => None,
    }
}

// ------------------------------------------------------------------
// Interval propagation, as a function
// ------------------------------------------------------------------

/// `k - 1`, staying at `i64::MIN`.
pub open spec fn dec_sat(k: i64) -> i64 {
    if k == i64::MIN {
        k
    } else {
        (k - 1) as i64
    }
}

/// `k + 1`, staying at `i64::MAX`.
pub open spec fn inc_sat(k: i64) -> i64 {
    if k == i64::MAX {
        k
    } else {
        (k + 1) as i64
    }
}

/// The bound that `var op k` puts on the variable, for the five orderings
/// `<`, `<=`, `>`, `>=`, `==` numbered 0 to 4.
pub open spec fn bound_for(order: u8, k: i64) -> Interval {
    if order == 0 {
        Interval { lo: None, hi: Some(dec_sat(k)) }
    } else if order == 1 {
        Interval { lo: None, hi: Some(k) }
    } else if order == 2 {
        Interval { lo: Some(inc_sat(k)), hi: None }
    } else if order == 3 {
        Interval { lo: Some(k), hi: None }
    } else {
        Interval { lo: Some(k), hi: Some(k) }
    }
}

/// The ordering read from the other side: `k < x` is `x > k`.
pub open spec fn mirror(order: u8) -> u8 {
    if order == 0 {
        2
    } else if order == 1 {
        3
    } else if order == 2 {
        0
    } else if order == 3 {
        1
    } else {
        order
    }
}

/// The ordering an atom states, `None` for `!=`.
pub open spec fn atom_order(a: SpecAtom) -> Option<u8> {
    match a {
        SpecAtom::Lt(_, _) => Some(0u8),
        SpecAtom::Le(_, _) => Some(1u8),
        SpecAtom::Gt(_, _) => Some(2u8),
        SpecAtom::Ge(_, _) => Some(3u8),
        SpecAtom::Eq(_, _) => Some(4u8),
        SpecAtom::Ne(_, _) => None,
    }
}

/// The variable an atom bounds and the bound, when it compares a variable
/// with a constant, on either side, with anything but `!=`.
pub open spec fn atom_bound(a: SpecAtom) -> Option<(Seq<char>, Interval)> {
    match atom_order(a) {
        None => None,
        Some(o) => {
            let (l, r) = crate::elaboration::layer4_smt::normalize::atom_sides(a);
            match (l, r) {
                (SpecTerm::Var(n), SpecTerm::Const(k)) => Some((n, bound_for(o, k))),
                (SpecTerm::Const(k), SpecTerm::Var(n)) => Some((n, bound_for(mirror(o), k))),
                _ => None,
            }
        },
    }
}

/// The store after pushing `p` into it: the parts of a conjunction in
/// order, an atom's bound met with the variable's interval; `||`, `!`
/// and constants leave it as it was.
pub open spec fn propagate(p: SpecProp, m: Map<Seq<char>, Interval>) -> Map<Seq<char>, Interval>
    decreases p, 0int,
{
    match p {
        SpecProp::And(ps) => propagate_from(ps, 0, m),
        SpecProp::Atom(a) => match atom_bound(a) {
            Some((x, iv)) => m.insert(x, interval_of(m, x).meet_spec(iv)),
            None => m,
        },
        _ => m,
    }
}

/// The store after pushing the parts from `i` on, in order.
pub open spec fn propagate_from(ps: Seq<SpecProp>, i: nat, m: Map<Seq<char>, Interval>) -> Map<
    Seq<char>,
    Interval,
>
    decreases ps, ps.len() - i,
{
    if i >= ps.len() {
        m
    } else {
        propagate_from(ps, i + 1, propagate(ps[i as int], m))
    }
}

/// Every interval of the store holds the assignment's value of its variable.
pub open spec fn store_holds(m: Map<Seq<char>, Interval>, env: Map<Seq<char>, i64>) -> bool {
    forall|x: Seq<char>| #[trigger] m.contains_key(x) ==> env.contains_key(x) && m[x].has(env[x] as int)
}

/// A true atom keeps its bound.
proof fn lemma_atom_bound_sound(a: SpecAtom, env: Map<Seq<char>, i64>)
    requires
        eval_atom(a, env) == Some(true),
        atom_bound(a) is Some,
    ensures
        match atom_bound(a) {
            Some((x, iv)) => env.contains_key(x) && iv.has(env[x] as int),
            None => true,
        },
{
}

/// Pushing a true proposition into a store that the assignment satisfies
/// gives a store that it satisfies.
proof fn lemma_propagate_sound(p: SpecProp, m: Map<Seq<char>, Interval>, env: Map<Seq<char>, i64>)
    requires
        eval_prop(p, env) == Some(true),
        store_holds(m, env),
    ensures
        store_holds(propagate(p, m), env),
    decreases p, 0int,
{
    match p {
        SpecProp::And(ps) => {
            lemma_propagate_from_sound(ps, 0, m, env);
        },
        SpecProp::Atom(a) => {
            if atom_bound(a) is Some {
                lemma_atom_bound_sound(a, env);
            }
        },
        _ => {},
    }
}

proof fn lemma_propagate_from_sound(ps: Seq<SpecProp>, i: nat, m: Map<Seq<char>, Interval>, env: Map<Seq<char>, i64>)
    requires
        eval_and(ps, i, env) == Some(true),
        store_holds(m, env),
    ensures
        store_holds(propagate_from(ps, i, m), env),
    decreases ps, ps.len() - i,
{
    if i < ps.len() {
        lemma_propagate_sound(ps[i as int], m, env);
        lemma_propagate_from_sound(ps, i + 1, propagate(ps[i as int], m), env);
    }
}

/// The names of a set, sorted.
pub open spec fn sorted_names(s: Set<Seq<char>>) -> Seq<Seq<char>> {
    choose|q: Seq<Seq<char>>| strictly_sorted(q) && q.to_set() == s
}

/// Every variable of `vars` has an interval bounded on both sides and at
/// most `ENUM_WIDTH_CAP` wide, so that the search tries each of its values.
pub open spec fn complete_ranges(store: Map<Seq<char>, Interval>, vars: Seq<Seq<char>>) -> bool {
    forall|i: int|
        0 <= i < vars.len() ==> (#[trigger] interval_of(store, vars[i])).lo is Some && interval_of(
            store,
            vars[i],
        ).hi is Some && interval_of(store, vars[i]).hi->0 - interval_of(store, vars[i]).lo->0 <= ENUM_WIDTH_CAP
}

/// The verdict on a query: `Unknown` when something does not lower;
/// `Unsat` when interval propagation finds a contradiction; otherwise the
/// search over the formula's variables, in sorted order, from an empty
/// assignment: `Sat` with the model it finds; when it finds none, `Unknown`
/// if it ran out of budget or tried only a window of some variable's
/// values (an interval open on a side or wider than `ENUM_WIDTH_CAP`), and
/// `Unsat` when it tried every value of every variable.
pub open spec fn query_verdict(assumptions: Seq<SpecExpression>, goal: SpecExpression) -> SpecVerdict {
    match query_prop(assumptions, goal) {
        None => SpecVerdict::Unknown,
        Some(full) => {
            let store = propagate(full, Map::empty());
            if has_empty(store) {
                SpecVerdict::Unsat
            } else {
                let (found, env, visited) = search(full, sorted_names(prop_vars(full)), 0, store, Map::empty(), 0);
                if found {
                    SpecVerdict::Sat(env)
                } else if visited >= BUDGET || !complete_ranges(store, sorted_names(prop_vars(full))) {
                    SpecVerdict::Unknown
                } else {
                    SpecVerdict::Unsat
                }
            }
        },
    }
}

/// When interval propagation finds an empty interval, no assignment makes
/// the formula true: an `Unsat` reached that way is sound.
pub proof fn lemma_contradiction_means_no_model(p: SpecProp, env: Map<Seq<char>, i64>)
    requires
        has_empty(propagate(p, Map::empty())),
    ensures
        eval_prop(p, env) != Some(true),
{
    if eval_prop(p, env) == Some(true) {
        lemma_propagate_sound(p, Map::empty(), env);
        let m = propagate(p, Map::empty());
        let x = choose|x: Seq<char>| m.contains_key(x) && #[trigger] m[x].empty_spec();
        assert(m[x].has(env[x] as int));
    }
}

// ------------------------------------------------------------------
// The query
// ------------------------------------------------------------------

/// Decide whether the goal can hold together with the assumptions.
///
/// `Assumptions` are what is known to be true (parameter `where` clauses,
/// branch conditions). `Goal` is what the solver is asked to satisfy —
/// typically the failure condition of a runtime check. `Unsat` means "safe
/// to erase the check".
pub fn Query(Assumptions: &[Expression], Goal: &Expression) -> (r: SolverVerdict)
    ensures
        verdict_view(r) == query_verdict(exprs_view(Assumptions@), Goal@),
        query_prop(exprs_view(Assumptions@), Goal@) is None ==> r is Unknown,
        query_prop(exprs_view(Assumptions@), Goal@) matches Some(full) ==> {
            &&& (r matches SolverVerdict::Sat { Model } ==> eval_prop(full, Model@) == Some(true)
                && Model@.dom() == prop_vars(full))
            &&& (has_empty(propagate(full, Map::empty())) ==> r is Unsat)
        },
{
    let ghost es = exprs_view(Assumptions@);
    let mut props: Vec<Prop> = Vec::new();
    let mut i: usize = 0;
    while i < Assumptions.len()
        invariant
            i <= Assumptions@.len(),
            es == exprs_view(Assumptions@),
            to_props(es.subrange(0, i as int)) == Some(props_view(props@)),
        decreases Assumptions@.len() - i,
    {
        assert(es.subrange(0, i + 1).drop_last() =~= es.subrange(0, i as int));
        match ToProp(&Assumptions[i]) {
            Some(p) => {
                props.push(p);
                assert(props_view(props@) =~= props_view(props@.drop_last()).push(p@));
            },
            None => {
                proof { lemma_to_props_prefix_none(es, (i + 1) as nat); }
                assert(es.subrange(0, es.len() as int) =~= es);
                return SolverVerdict::Unknown;
            },
        }
        i = i + 1;
    }
    assert(es.subrange(0, es.len() as int) =~= es);
    let GoalProp = match ToProp(Goal) {
        Some(p) => p,
        None => {
            return SolverVerdict::Unknown;
        },
    };
    let ghost before = props@;
    let ghost gv = GoalProp@;
    props.push(GoalProp);
    assert(props_view(props@) =~= props_view(before).push(gv));
    let full = Prop::And(props);
    let ghost fullv = full@;
    assert(fullv->And_0 =~= props_view(props@));
    assert(query_prop(es, Goal@) == Some(fullv));
    let mut store = IntervalStore::New();
    PropagateProp(&full, &mut store);
    if store.HasContradiction() {
        return SolverVerdict::Unsat;
    }
    let vars = VarsOf(&full);
    proof {
        crate::order::lemma_sorted_unique(names_view(vars@), sorted_names(prop_vars(fullv)));
    }
    let mut assignment: NameMap<i64> = NameMap::New();
    let mut visited: usize = 0;
    proof {
        let nv = names_view(vars@);
        assert forall|i: int, j: int| 0 <= i < nv.len() && 0 <= j < nv.len() && i != j implies nv[i] != nv[j] by {
            if i < j {
                crate::order::lemma_lex_irreflexive(nv[i]);
            } else {
                crate::order::lemma_lex_irreflexive(nv[j]);
            }
        }
    }
    if Enumerate(&full, &vars, 0, &store, &mut assignment, &mut visited) {
        assert(names_view(vars@).subrange(0, vars@.len() as int) =~= names_view(vars@));
        assert(assignment@.dom() =~= first_vars(vars@, vars@.len() as int));
        SolverVerdict::Sat { Model: assignment }
    } else if visited >= BUDGET || !AllRangesComplete(&vars, &store) {
        SolverVerdict::Unknown
    } else {
        SolverVerdict::Unsat
    }
}

/// Whether every variable's interval is bounded on both sides and at most
/// `ENUM_WIDTH_CAP` wide.
fn AllRangesComplete(vars: &Vec<String>, store: &IntervalStore) -> (b: bool)
    ensures
        b == complete_ranges(store@, names_view(vars@)),
{
    let mut i: usize = 0;
    while i < vars.len()
        invariant
            i <= vars@.len(),
            complete_ranges(store@, names_view(vars@).subrange(0, i as int)),
        decreases vars@.len() - i,
    {
        let iv = store.Get(vars[i].as_str());
        let ghost nv = names_view(vars@);
        assert(nv[i as int] == vars@[i as int]@);
        match (iv.lo, iv.hi) {
            (Some(l), Some(h)) => {
                if sat_sub(h, l) > ENUM_WIDTH_CAP {
                    return false;
                }
            },
            _ => {
                return false;
            },
        }
        assert forall|j: int| 0 <= j < i + 1 implies (#[trigger] interval_of(store@, nv.subrange(0, i + 1)[j])).lo is Some
            && interval_of(store@, nv.subrange(0, i + 1)[j]).hi is Some && interval_of(store@, nv.subrange(0, i + 1)[j]).hi->0
            - interval_of(store@, nv.subrange(0, i + 1)[j]).lo->0 <= ENUM_WIDTH_CAP by {
            if j < i {
                assert(nv.subrange(0, i + 1)[j] == nv.subrange(0, i as int)[j]);
            }
        }
        i = i + 1;
    }
    assert(names_view(vars@).subrange(0, vars@.len() as int) =~= names_view(vars@));
    true
}

/// A list whose prefix fails to lower fails to lower.
proof fn lemma_to_props_prefix_none(es: Seq<SpecExpression>, n: nat)
    requires
        n <= es.len(),
        to_props(es.subrange(0, n as int)) is None,
    ensures
        to_props(es) is None,
    decreases es.len() - n,
{
    if n < es.len() {
        assert(es.subrange(0, (n + 1) as int).drop_last() =~= es.subrange(0, n as int));
        lemma_to_props_prefix_none(es, n + 1);
    } else {
        assert(es.subrange(0, n as int) =~= es);
    }
}

// ------------------------------------------------------------------
// Interval propagation
// ------------------------------------------------------------------

/// Walk `p` and push whatever it can into the interval store. Only atoms
/// of the shape `var op const` (either way round) tighten bounds; the rest
/// is left to the enumerator.
#[verifier::loop_isolation(false)]
fn PropagateProp(p: &Prop, store: &mut IntervalStore)
    ensures
        final(store)@ == propagate(p@, old(store)@),
    decreases p,
{
    match p {
        Prop::And(children) => {
            let ghost sp = p@->And_0;
            let ghost m0 = store@;
            let mut i: usize = 0;
            while i < children.len()
                invariant
                    i <= children@.len(),
                    sp.len() == children@.len(),
                    forall|j: int| 0 <= j < children@.len() ==> sp[j] == (#[trigger] children@[j])@,
                    propagate_from(sp, 0, m0) == propagate_from(sp, i as nat, store@),
                decreases children@.len() - i,
            {
                proof {
                    broadcast use vstd::std_specs::vec::axiom_vec_index_decreases;
                    assert(decreases_to!(*children => children@[i as int]));
                    assert(decreases_to!(*p => *children));
                }
                PropagateProp(&children[i], store);
                i = i + 1;
            }
        },
        Prop::Atom(a) => PropagateAtom(a, store),
        _ => {},
    }
}

/// Push one atom's bound, if it has one, into the store. `x < 10` and
/// `10 > x` give the same bound.
fn PropagateAtom(a: &Atom, store: &mut IntervalStore)
    ensures
        final(store)@ == propagate(SpecProp::Atom(a@), old(store)@),
{
    let (l, r, order) = match a {
        Atom::Lt(l, r) => (l, r, 0u8),
        Atom::Le(l, r) => (l, r, 1u8),
        Atom::Gt(l, r) => (l, r, 2u8),
        Atom::Ge(l, r) => (l, r, 3u8),
        Atom::Eq(l, r) => (l, r, 4u8),
        Atom::Ne(_, _) => {
            return;
        },
    };
    let (var, k) = match Pair(l, r) {
        (Some(v), Some(k)) => (v, k),
        _ => {
            return;
        },
    };
    let order = match l {
        Term::Const(_) => {
            if order == 0 {
                2u8
            } else if order == 1 {
                3u8
            } else if order == 2 {
                0u8
            } else if order == 3 {
                1u8
            } else {
                order
            }
        },
        _ => order,
    };
    let iv = if order == 0 {
        Interval { lo: None, hi: Some(if k == i64::MIN { k } else { k - 1 }) }
    } else if order == 1 {
        Interval { lo: None, hi: Some(k) }
    } else if order == 2 {
        Interval { lo: Some(if k == i64::MAX { k } else { k + 1 }), hi: None }
    } else if order == 3 {
        Interval { lo: Some(k), hi: None }
    } else {
        Interval::Point(k)
    };
    store.Tighten(var.as_str(), iv);
}

/// If exactly one side is a variable and the other a constant, return
/// `(Some(name), Some(constant))`; otherwise `(None, None)`.
fn Pair(l: &Term, r: &Term) -> (p: (Option<String>, Option<i64>))
    ensures
        match (l@, r@) {
            (SpecTerm::Var(n), SpecTerm::Const(k)) => p.0 matches Some(s) && s@ == n && p.1 == Some(k),
            (SpecTerm::Const(k), SpecTerm::Var(n)) => p.0 matches Some(s) && s@ == n && p.1 == Some(k),
            _ => p.0 is None && p.1 is None,
        },
{
    match (l, r) {
        (Term::Var(n), Term::Const(k)) => (Some(n.clone()), Some(*k)),
        (Term::Const(k), Term::Var(n)) => (Some(n.clone()), Some(*k)),
        _ => (None, None),
    }
}

// ------------------------------------------------------------------
// Bounded enumeration
// ------------------------------------------------------------------

/// `a - b`, clamped to the range of `i64`.
fn sat_sub(a: i64, b: i64) -> (r: i64)
    ensures
        r == (if a - b > i64::MAX {
            i64::MAX as int
        } else if a - b < i64::MIN {
            i64::MIN as int
        } else {
            a - b
        }),
{
    match a.checked_sub(b) {
        Some(v) => v,
        None => if b < 0 {
            i64::MAX
        } else {
            i64::MIN
        },
    }
}

/// `a + b`, clamped to the range of `i64`.
fn sat_add(a: i64, b: i64) -> (r: i64)
    ensures
        r == (if a + b > i64::MAX {
            i64::MAX as int
        } else if a + b < i64::MIN {
            i64::MIN as int
        } else {
            a + b
        }),
{
    match a.checked_add(b) {
        Some(v) => v,
        None => if b > 0 {
            i64::MAX
        } else {
            i64::MIN
        },
    }
}

/// `a + b`, clamped to the range of `i64`.
pub open spec fn clamp_add(a: i64, b: i64) -> i64 {
    if a + b > i64::MAX {
        i64::MAX
    } else if a + b < i64::MIN {
        i64::MIN
    } else {
        (a + b) as i64
    }
}

/// `a - b`, clamped to the range of `i64`.
pub open spec fn clamp_sub(a: i64, b: i64) -> i64 {
    if a - b > i64::MAX {
        i64::MAX
    } else if a - b < i64::MIN {
        i64::MIN
    } else {
        (a - b) as i64
    }
}

/// The candidate range for a variable with interval `iv`: the interval
/// itself, a window of `ENUM_WIDTH_CAP` values from the given bound where
/// one side is open, or `[-128, 128]` where both are.
pub open spec fn candidate_range(iv: Interval) -> (i64, i64) {
    match (iv.lo, iv.hi) {
        (Some(l), Some(h)) => (l, h),
        (Some(l), None) => (l, clamp_add(l, ENUM_WIDTH_CAP)),
        (None, Some(h)) => (clamp_sub(h, ENUM_WIDTH_CAP), h),
        (None, None) => (-128i64, 128i64),
    }
}

/// The last value tried: the range's top, or `ENUM_WIDTH_CAP` values above
/// its bottom where the range is wider.
pub open spec fn step_top(lo: i64, hi: i64) -> i64 {
    if clamp_sub(hi, lo) > ENUM_WIDTH_CAP {
        clamp_add(lo, ENUM_WIDTH_CAP)
    } else {
        hi
    }
}

/// `n + 1`, staying at `usize::MAX`.
pub open spec fn count_up(n: usize) -> usize {
    if n == usize::MAX {
        n
    } else {
        (n + 1) as usize
    }
}

/// The depth-first search over the values of `vars[idx..]`: whether it
/// finds an assignment making `p` true, the assignment it ends with (the
/// model when found, the one it started from otherwise), and the count of
/// visited nodes. A node past `BUDGET` gives up at once; a full assignment
/// is evaluated; otherwise the variable takes each candidate value in turn.
pub open spec fn search(
    p: SpecProp,
    vars: Seq<Seq<char>>,
    idx: nat,
    store: Map<Seq<char>, Interval>,
    env: Map<Seq<char>, i64>,
    visited: usize,
) -> (bool, Map<Seq<char>, i64>, usize)
    decreases vars.len() - idx, 1int, 0int,
{
    let v1 = count_up(visited);
    if v1 > BUDGET {
        (false, env, v1)
    } else if idx >= vars.len() {
        (eval_prop(p, env) == Some(true), env, v1)
    } else {
        let (lo, hi) = candidate_range(interval_of(store, vars[idx as int]));
        if clamp_sub(hi, lo) < 0 {
            (false, env, v1)
        } else {
            search_from(p, vars, idx, store, env, v1, lo, step_top(lo, hi))
        }
    }
}

/// The search at `vars[idx]` from the value `v` up to `top`.
pub open spec fn search_from(
    p: SpecProp,
    vars: Seq<Seq<char>>,
    idx: nat,
    store: Map<Seq<char>, Interval>,
    env: Map<Seq<char>, i64>,
    visited: usize,
    v: i64,
    top: i64,
) -> (bool, Map<Seq<char>, i64>, usize)
    decreases vars.len() - idx, 0int, top - v,
{
    if idx >= vars.len() || v > top {
        (false, env, visited)
    } else {
        let (found, e2, vis2) = search(p, vars, idx + 1, store, env.insert(vars[idx as int], v), visited);
        if found {
            (true, e2, vis2)
        } else if v == top {
            (false, env, vis2)
        } else {
            search_from(p, vars, idx, store, env, vis2, (v + 1) as i64, top)
        }
    }
}

/// The names `vars[0..n]`, as a set.
pub open spec fn first_vars(vars: Seq<String>, n: int) -> Set<Seq<char>> {
    names_view(vars).subrange(0, n).to_set()
}

/// The names `vars[n..]`, as a set.
pub open spec fn later_vars(vars: Seq<String>, n: int) -> Set<Seq<char>> {
    names_view(vars).subrange(n, vars.len() as int).to_set()
}

/// The names from `n` on are `vars[n]` and those from `n + 1` on.
proof fn lemma_later_vars_step(vars: Seq<String>, n: int)
    requires
        0 <= n < vars.len(),
    ensures
        later_vars(vars, n) == later_vars(vars, n + 1).insert(names_view(vars)[n]),
{
    let nv = names_view(vars);
    let s0 = nv.subrange(n, vars.len() as int);
    let s1 = nv.subrange(n + 1, vars.len() as int);
    assert(s0 =~= seq![nv[n]] + s1);
    assert forall|x: Seq<char>| s0.to_set().contains(x) <==> s1.to_set().insert(nv[n]).contains(x) by {
        if s0.to_set().contains(x) {
            let j = choose|j: int| 0 <= j < s0.len() && s0[j] == x;
            if j > 0 {
                assert(s1[j - 1] == x);
            }
        }
        if s1.to_set().contains(x) {
            let j = choose|j: int| 0 <= j < s1.len() && s1[j] == x;
            assert(s0[j + 1] == x);
        }
        if x == nv[n] {
            assert(s0[0] == x);
        }
    }
    assert(s0.to_set() =~= s1.to_set().insert(nv[n]));
}

/// Depth-first search over assignments of `vars[idx..]`, each variable over
/// its interval (a window of `ENUM_WIDTH_CAP` values where that is wider or
/// unbounded). Returns `true` on the first assignment that makes `p` true,
/// leaving it in `env`; on `false`, `env` is as it was.
fn Enumerate(
    p: &Prop,
    vars: &Vec<String>,
    idx: usize,
    store: &IntervalStore,
    env: &mut NameMap<i64>,
    visited: &mut usize,
) -> (found: bool)
    requires
        idx <= vars@.len(),
        names_view(vars@).no_duplicates(),
        forall|j: int| idx <= j < vars@.len() ==> !old(env)@.contains_key(#[trigger] names_view(vars@)[j]),
    ensures
        found ==> eval_prop(p@, final(env)@) == Some(true),
        found ==> final(env)@.dom() == old(env)@.dom() + later_vars(vars@, idx as int),
        found ==> forall|k: Seq<char>| #[trigger] old(env)@.contains_key(k) ==> final(env)@[k] == old(env)@[k],
        !found ==> final(env)@ == old(env)@,
        (found, final(env)@, *final(visited)) == search(p@, names_view(vars@), idx as nat, store@, old(env)@, *old(visited)),
    decreases vars@.len() - idx,
{
    *visited = (*visited).saturating_add(1);
    if *visited > BUDGET {
        return false;
    }
    if idx == vars.len() {
        assert(later_vars(vars@, idx as int) =~= Set::<Seq<char>>::empty());
        assert(env@.dom() + later_vars(vars@, idx as int) =~= env@.dom());
        return match EvalProp(p, env) {
            Some(b) => b,
            None => false,
        };
    }
    let name = &vars[idx];
    let iv = store.Get(name.as_str());
    let (lo, hi) = match (iv.lo, iv.hi) {
        (Some(l), Some(h)) => (l, h),
        (Some(l), None) => (l, sat_add(l, ENUM_WIDTH_CAP)),
        (None, Some(h)) => (sat_sub(h, ENUM_WIDTH_CAP), h),
        (None, None) => (-ENUM_WIDTH_CAP / 2, ENUM_WIDTH_CAP / 2),
    };
    let width = sat_sub(hi, lo);
    if width < 0 {
        return false;
    }
    let StepHi = if width > ENUM_WIDTH_CAP { sat_add(lo, ENUM_WIDTH_CAP) } else { hi };
    let ghost base = env@;
    let ghost nv = names_view(vars@);
    proof {
        assert(!base.contains_key(nv[idx as int]));
        lemma_later_vars_step(vars@, idx as int);
    }
    let next = idx + 1;
    let mut v = lo;
    assert(env@.insert(name@, v) == base.insert(nv[idx as int], v));
    loop
        invariant_except_break
            search(p@, nv, idx as nat, store@, base, *old(visited)) == search_from(
                p@,
                nv,
                idx as nat,
                store@,
                base,
                *visited,
                v,
                StepHi,
            ),
        invariant
            lo <= v <= StepHi,
            env@ == base,
            base == old(env)@,
            !base.contains_key(name@),
            name@ == nv[idx as int],
            forall|j: int| idx <= j < vars@.len() ==> !base.contains_key(#[trigger] nv[j]),
            later_vars(vars@, idx as int) == later_vars(vars@, idx + 1).insert(nv[idx as int]),
            idx < vars@.len(),
            next == idx + 1,
            nv.no_duplicates(),
            nv == names_view(vars@),
        ensures
            env@ == base,
            search(p@, nv, idx as nat, store@, base, *old(visited)) == (false, base, *visited),
        decreases StepHi - v,
    {
        env.Insert(name.as_str(), v);
        let ghost vis0 = *visited;
        let ghost e0 = env@;
        assert(e0 == base.insert(nv[idx as int], v));
        assert forall|j: int| next <= j < vars@.len() implies !e0.contains_key(#[trigger] nv[j]) by {
            assert(nv[j] != nv[idx as int]);
        }
        let found = Enumerate(p, vars, next, store, env, visited);
        assert(search_from(p@, nv, idx as nat, store@, base, vis0, v, StepHi) == {
            let (f, e2, vis2) = search(p@, nv, (idx + 1) as nat, store@, base.insert(nv[idx as int], v), vis0);
            if f {
                (true, e2, vis2)
            } else if v == StepHi {
                (false, base, vis2)
            } else {
                search_from(p@, nv, idx as nat, store@, base, vis2, (v + 1) as i64, StepHi)
            }
        });
        if found {
            assert(env@.dom() =~= base.dom() + later_vars(vars@, idx as int));
            assert forall|k: Seq<char>| #[trigger] base.contains_key(k) implies env@[k] == base[k] by {
                assert(e0.contains_key(k) && e0[k] == base[k]);
            }
            return true;
        }
        env.Remove(name.as_str());
        assert(env@ =~= base);
        if v == StepHi {
            break;
        }
        v = v + 1;
    }
    false
}

/// The search's count of visited nodes only grows.
proof fn lemma_search_grows(
    p: SpecProp,
    vars: Seq<Seq<char>>,
    idx: nat,
    store: Map<Seq<char>, Interval>,
    env: Map<Seq<char>, i64>,
    visited: usize,
)
    ensures
        search(p, vars, idx, store, env, visited).2 >= visited,
    decreases vars.len() - idx, 1int, 0int,
{
    let v1 = count_up(visited);
    if v1 <= BUDGET && idx < vars.len() {
        let (lo, hi) = candidate_range(interval_of(store, vars[idx as int]));
        if clamp_sub(hi, lo) >= 0 {
            lemma_search_from_grows(p, vars, idx, store, env, v1, lo, step_top(lo, hi));
        }
    }
}

proof fn lemma_search_from_grows(
    p: SpecProp,
    vars: Seq<Seq<char>>,
    idx: nat,
    store: Map<Seq<char>, Interval>,
    env: Map<Seq<char>, i64>,
    visited: usize,
    v: i64,
    top: i64,
)
    ensures
        search_from(p, vars, idx, store, env, visited, v, top).2 >= visited,
    decreases vars.len() - idx, 0int, top - v,
{
    if idx < vars.len() && v <= top {
        let x = vars[idx as int];
        lemma_search_grows(p, vars, idx + 1, store, env.insert(x, v), visited);
        let (found, e2, vis2) = search(p, vars, idx + 1, store, env.insert(x, v), visited);
        if !found && v != top {
            lemma_search_from_grows(p, vars, idx, store, env, vis2, (v + 1) as i64, top);
        }
    }
}

/// `env` gives the first `idx` variables the values `m` gives them, and `m`
/// gives every later one a value in its interval.
pub open spec fn extends_to(
    vars: Seq<Seq<char>>,
    idx: int,
    store: Map<Seq<char>, Interval>,
    env: Map<Seq<char>, i64>,
    m: Map<Seq<char>, i64>,
) -> bool {
    &&& forall|j: int|
        0 <= j < idx ==> env.contains_key(#[trigger] vars[j]) && m.contains_key(vars[j]) && env[vars[j]] == m[vars[j]]
    &&& forall|j: int|
        idx <= j < vars.len() ==> m.contains_key(#[trigger] vars[j]) && interval_of(store, vars[j]).has(
            m[vars[j]] as int,
        )
}

/// A search that does not run out of budget, over complete ranges, finds
/// an assignment wherever one within the intervals makes the formula true.
proof fn lemma_search_finds(
    p: SpecProp,
    vars: Seq<Seq<char>>,
    idx: nat,
    store: Map<Seq<char>, Interval>,
    env: Map<Seq<char>, i64>,
    visited: usize,
    m: Map<Seq<char>, i64>,
)
    requires
        idx <= vars.len(),
        vars.no_duplicates(),
        prop_vars(p).subset_of(vars.to_set()),
        complete_ranges(store, vars),
        extends_to(vars, idx as int, store, env, m),
        eval_prop(p, m) == Some(true),
        search(p, vars, idx, store, env, visited).2 <= BUDGET,
    ensures
        search(p, vars, idx, store, env, visited).0,
    decreases vars.len() - idx, 1int, 0int,
{
    let v1 = count_up(visited);
    if idx >= vars.len() {
        assert(agree_on(prop_vars(p), env, m)) by {
            assert forall|x: Seq<char>| #[trigger] prop_vars(p).contains(x) implies env.contains_key(x)
                == m.contains_key(x) && (env.contains_key(x) ==> env[x] == m[x]) by {
                assert(vars.to_set().contains(x));
                let j = choose|j: int| 0 <= j < vars.len() && vars[j] == x;
                assert(env.contains_key(vars[j]));
            }
        }
        lemma_prop_agree(p, env, m);
    } else {
        let x = vars[idx as int];
        let iv = interval_of(store, x);
        assert(iv.lo is Some && iv.hi is Some && iv.hi->0 - iv.lo->0 <= ENUM_WIDTH_CAP);
        assert(iv.has(m[x] as int));
        let (lo, hi) = candidate_range(iv);
        assert(lo == iv.lo->0 && hi == iv.hi->0);
        assert(clamp_sub(hi, lo) == hi - lo);
        assert(step_top(lo, hi) == hi);
        lemma_search_from_finds(p, vars, idx, store, env, v1, lo, hi, m);
    }
}

proof fn lemma_search_from_finds(
    p: SpecProp,
    vars: Seq<Seq<char>>,
    idx: nat,
    store: Map<Seq<char>, Interval>,
    env: Map<Seq<char>, i64>,
    visited: usize,
    v: i64,
    top: i64,
    m: Map<Seq<char>, i64>,
)
    requires
        idx < vars.len(),
        vars.no_duplicates(),
        prop_vars(p).subset_of(vars.to_set()),
        complete_ranges(store, vars),
        extends_to(vars, idx as int, store, env, m),
        v <= m[vars[idx as int]] <= top,
        eval_prop(p, m) == Some(true),
        search_from(p, vars, idx, store, env, visited, v, top).2 <= BUDGET,
    ensures
        search_from(p, vars, idx, store, env, visited, v, top).0,
    decreases vars.len() - idx, 0int, top - v,
{
    let x = vars[idx as int];
    let e1 = env.insert(x, v);
    let (found, e2, vis2) = search(p, vars, idx + 1, store, e1, visited);
    if !found {
        if v == top {
            assert(vis2 <= BUDGET);
        } else {
            lemma_search_from_grows(p, vars, idx, store, env, vis2, (v + 1) as i64, top);
            assert(vis2 <= BUDGET);
        }
        if v == m[x] {
            assert(extends_to(vars, (idx + 1) as int, store, e1, m)) by {
                assert forall|j: int| 0 <= j < idx + 1 implies e1.contains_key(#[trigger] vars[j]) && m.contains_key(
                    vars[j],
                ) && e1[vars[j]] == m[vars[j]] by {
                    if j < idx {
                        assert(vars[j] != x);
                    }
                }
            }
            lemma_search_finds(p, vars, idx + 1, store, e1, visited, m);
        } else {
            lemma_search_from_finds(p, vars, idx, store, env, vis2, (v + 1) as i64, top, m);
        }
    }
}

/// `Unsat` is sound: when the solver answers `Unsat`, the assumptions and
/// the goal lower to a formula that no assignment of values to its
/// variables makes true, so the check it stands for can be erased.
pub proof fn lemma_unsat_means_no_model(
    assumptions: Seq<SpecExpression>,
    goal: SpecExpression,
    env: Map<Seq<char>, i64>,
)
    requires
        query_verdict(assumptions, goal) is Unsat,
    ensures
        query_prop(assumptions, goal) is Some,
        eval_prop(query_prop(assumptions, goal)->0, env) != Some(true),
{
    let full = query_prop(assumptions, goal)->0;
    let store = propagate(full, Map::empty());
    if has_empty(store) {
        lemma_contradiction_means_no_model(full, env);
    } else if eval_prop(full, env) == Some(true) {
        let vars = sorted_names(prop_vars(full));
        lemma_prop_vars_finite(full);
        lemma_sorted_listing_exists(prop_vars(full));
        assert(strictly_sorted(vars) && vars.to_set() == prop_vars(full));
        assert(vars.no_duplicates()) by {
            assert forall|i: int, j: int| 0 <= i < vars.len() && 0 <= j < vars.len() && i != j implies vars[i]
                != vars[j] by {
                lemma_lex_irreflexive(vars[i]);
            }
        }
        lemma_propagate_sound(full, Map::empty(), env);
        assert(extends_to(vars, 0, store, Map::empty(), env)) by {
            assert forall|j: int| 0 <= j < vars.len() implies env.contains_key(#[trigger] vars[j])
                && interval_of(store, vars[j]).has(env[vars[j]] as int) by {
                assert(interval_of(store, vars[j]).lo is Some);
                assert(store.contains_key(vars[j]));
            }
        }
        lemma_search_finds(full, vars, 0, store, Map::empty(), 0, env);
    }
}

} // verus!
