//! Layer 5 (optimization) — dead-code elimination.
//!
//! Deletes layers that produce no observable effect: an expression
//! statement whose flags claim no output or hardware effect and that the
//! trace cannot observe, with no observable children. Terminals are never
//! dropped.

use vstd::prelude::*;
use crate::ast::{Layer, LayerKind};
use crate::ast::copy::{copy_kind, kind_copy, rebuild_layer, same_flags};

verus! {

/// A layer is observable: a terminal (`return`, `panic`, `unreachable`,
/// `havoc`, `interrupt`), a layer whose flags claim an output or hardware
/// effect or that the trace observes, a layer with an observable child, or
/// anything but an expression statement.
pub open spec fn observable(l: Layer) -> bool
    decreases l, 1int,
{
    match l.Kind {
        LayerKind::Return { .. } => true,
        LayerKind::Panic => true,
        LayerKind::Unreachable => true,
        LayerKind::Havoc { .. } => true,
        LayerKind::Interrupt { .. } => true,
        _ => l.Observability.AffectsOutput || l.Observability.AffectsHardware || l.Observability.ObservableToTrace
            || any_observable(
            l.Children@,
            l.Children@.len(),
        ) || !(l.Kind is Expression),
    }
}

/// Some layer among the first `n` is observable.
pub open spec fn any_observable(cs: Seq<Layer>, n: nat) -> bool
    decreases cs, n,
{
    if n == 0 || n > cs.len() {
        false
    } else {
        any_observable(cs, (n - 1) as nat) || observable(cs[n - 1])
    }
}

/// How many of the first `n` layers are observable.
pub open spec fn kept_count(cs: Seq<Layer>, n: nat) -> nat
    decreases n,
{
    if n == 0 || n > cs.len() {
        0
    } else {
        kept_count(cs, (n - 1) as nat) + if observable(cs[n - 1]) {
            1nat
        } else {
            0nat
        }
    }
}

/// `b` is `a` with its unobservable children removed, the rest kept in
/// order and pruned the same way.
pub open spec fn pruned(a: Layer, b: Layer) -> bool
    decreases a,
{
    let cs = a.Children@;
    &&& a.Id == b.Id
    &&& a.Metadata.SourceLocation@ == b.Metadata.SourceLocation@
    &&& same_flags(a, b)
    &&& kind_copy(a.Kind, b.Kind)
    &&& b.Children@.len() == kept_count(cs, cs.len())
    &&& forall|i: int| #![trigger cs[i]] 0 <= i < cs.len() && observable(cs[i]) ==> pruned(
        cs[i],
        b.Children@[kept_count(cs, i as nat) as int],
    )
}

/// Rewrite `Root`: a new tree with the unobservable layers removed.
pub fn Eliminate(Root: &Layer) -> (r: Layer)
    ensures
        pruned(*Root, r),
{
    Prune(Root)
}

#[verifier::loop_isolation(false)]
fn Prune(L: &Layer) -> (r: Layer)
    ensures
        pruned(*L, r),
    decreases L, 2int,
{
    let ghost cs = L.Children@;
    let mut children: Vec<Layer> = Vec::new();
    let mut i: usize = 0;
    while i < L.Children.len()
        invariant
            i <= cs.len(),
            cs == L.Children@,
            children@.len() == kept_count(cs, i as nat),
            forall|j: int| #![trigger cs[j]] 0 <= j < i && observable(cs[j]) ==> pruned(
                cs[j],
                children@[kept_count(cs, j as nat) as int],
            ),
        decreases cs.len() - i,
    {
        proof {
            broadcast use vstd::std_specs::vec::axiom_vec_index_decreases;
            assert(decreases_to!(L.Children => L.Children@[i as int]));
            assert(decreases_to!(*L => L.Children));
        }
        if IsObservable(&L.Children[i]) {
            let c = Prune(&L.Children[i]);
            let ghost before = children@;
            children.push(c);
            proof {
                assert forall|j: int| #![trigger cs[j]] 0 <= j < i && observable(cs[j]) implies children@[kept_count(
                    cs,
                    j as nat,
                ) as int] == before[kept_count(cs, j as nat) as int] by {
                    lemma_kept_count_mono(cs, j as nat, i as nat);
                }
            }
        }
        assert(kept_count(cs, (i + 1) as nat) == kept_count(cs, i as nat) + if observable(cs[i as int]) {
            1nat
        } else {
            0nat
        });
        i = i + 1;
    }
    rebuild_layer(L, copy_kind(&L.Kind), children)
}

/// Whether a layer is observable.
#[verifier::loop_isolation(false)]
fn IsObservable(L: &Layer) -> (b: bool)
    ensures
        b == observable(*L),
    decreases L, 1int,
{
    match L.Kind {
        LayerKind::Return { .. } | LayerKind::Panic | LayerKind::Unreachable | LayerKind::Havoc { .. }
        | LayerKind::Interrupt { .. } => {
            return true;
        },
        _ => {},
    }
    if L.Observability.AffectsOutput || L.Observability.AffectsHardware || L.Observability.ObservableToTrace {
        return true;
    }
    let ghost cs = L.Children@;
    let mut i: usize = 0;
    while i < L.Children.len()
        invariant
            i <= cs.len(),
            cs == L.Children@,
            !any_observable(cs, i as nat),
        decreases cs.len() - i,
    {
        proof {
            broadcast use vstd::std_specs::vec::axiom_vec_index_decreases;
            assert(decreases_to!(L.Children => L.Children@[i as int]));
            assert(decreases_to!(*L => L.Children));
        }
        if IsObservable(&L.Children[i]) {
            proof { lemma_any_observable_grows(cs, (i + 1) as nat, cs.len()); }
            return true;
        }
        i = i + 1;
    }
    !matches!(L.Kind, LayerKind::Expression(_))
}

/// Counting over a longer prefix counts no fewer; an observable layer
/// before the end of the prefix is counted.
proof fn lemma_kept_count_mono(cs: Seq<Layer>, a: nat, b: nat)
    requires
        a <= b <= cs.len(),
    ensures
        kept_count(cs, a) <= kept_count(cs, b),
        a < b && observable(cs[a as int]) ==> kept_count(cs, a) < kept_count(cs, b),
    decreases b - a,
{
    if a < b {
        lemma_kept_count_mono(cs, a, (b - 1) as nat);
        if a == b - 1 {
        } else {
            lemma_kept_count_mono(cs, a, (b - 1) as nat);
        }
    }
}

/// Once some layer is observable, a longer prefix has one too.
proof fn lemma_any_observable_grows(cs: Seq<Layer>, i: nat, n: nat)
    requires
        1 <= i <= n <= cs.len(),
        any_observable(cs, i),
    ensures
        any_observable(cs, n),
    decreases n - i,
{
    if n > i {
        lemma_any_observable_grows(cs, i, (n - 1) as nat);
    }
}

} // verus!
