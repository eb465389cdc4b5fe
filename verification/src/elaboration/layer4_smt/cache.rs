//! Layer 4 (solver) — the proof cache.
//!
//! Optimization passes ask the solver about the same `(assumptions, goal)`
//! pair many times; the cache remembers each verdict under its pair, so a
//! second identical query is answered from memory.

use vstd::prelude::*;
use crate::ast::{Expression, SpecExpression};
use crate::ast::expr::{ExprEq, exprs_view};
use crate::elaboration::layer4_smt::backend::SolverVerdict;

verus! {

/// The key a query is remembered under: the goal, then the assumptions in
/// order.
pub open spec fn cache_key(assumptions: Seq<SpecExpression>, goal: SpecExpression) -> Seq<SpecExpression> {
    seq![goal] + assumptions
}

/// The verdict each key is bound to in a list of entries, later entries
/// winning.
pub open spec fn cache_map(s: Seq<(Vec<Expression>, SolverVerdict)>) -> Map<Seq<SpecExpression>, SolverVerdict>
    decreases s.len(),
{
    if s.len() == 0 {
        Map::empty()
    } else {
        cache_map(s.drop_last()).insert(exprs_view(s.last().0@), s.last().1)
    }
}

/// Remembers solver verdicts by `(assumptions, goal)`.
#[derive(Debug)]
pub struct ProofCache {
    entries: Vec<(Vec<Expression>, SolverVerdict)>,
}

impl View for ProofCache {
    type V = Map<Seq<SpecExpression>, SolverVerdict>;

    closed spec fn view(&self) -> Map<Seq<SpecExpression>, SolverVerdict> {
        cache_map(self.entries@)
    }
}

/// Whether two lists of expressions are the same, element by element.
fn exprs_eq(a: &Vec<Expression>, b: &Vec<Expression>) -> (r: bool)
    ensures
        r == (exprs_view(a@) == exprs_view(b@)),
{
    if a.len() != b.len() {
        assert(exprs_view(a@).len() != exprs_view(b@).len());
        return false;
    }
    let mut i: usize = 0;
    while i < a.len()
        invariant
            i <= a@.len(),
            a@.len() == b@.len(),
            forall|j: int| 0 <= j < i ==> (#[trigger] a@[j])@ == b@[j]@,
        decreases a@.len() - i,
    {
        if !ExprEq(&a[i], &b[i]) {
            assert(exprs_view(a@)[i as int] != exprs_view(b@)[i as int]);
            return false;
        }
        i = i + 1;
    }
    assert(exprs_view(a@) =~= exprs_view(b@));
    true
}

/// A lookup of the last entry bound to `k`, from the back of the list.
proof fn lemma_cache_map_lookup(s: Seq<(Vec<Expression>, SolverVerdict)>, k: Seq<SpecExpression>, i: int)
    requires
        0 <= i < s.len(),
        exprs_view(s[i].0@) == k,
        forall|j: int| i < j < s.len() ==> exprs_view((#[trigger] s[j]).0@) != k,
    ensures
        cache_map(s).contains_key(k),
        cache_map(s)[k] == s[i].1,
    decreases s.len(),
{
    if i < s.len() - 1 {
        lemma_cache_map_lookup(s.drop_last(), k, i);
    }
}

/// A key bound by no entry is not in the map.
proof fn lemma_cache_map_absent(s: Seq<(Vec<Expression>, SolverVerdict)>, k: Seq<SpecExpression>)
    requires
        forall|j: int| 0 <= j < s.len() ==> exprs_view((#[trigger] s[j]).0@) != k,
    ensures
        !cache_map(s).contains_key(k),
    decreases s.len(),
{
    if s.len() > 0 {
        lemma_cache_map_absent(s.drop_last(), k);
    }
}

impl ProofCache {
    /// An empty cache.
    pub fn New() -> (c: Self)
        ensures
            c@ == Map::<Seq<SpecExpression>, SolverVerdict>::empty(),
    {
        ProofCache { entries: Vec::new() }
    }

    /// The key of `(assumptions, goal)`: the goal, then the assumptions.
    fn Key(assumptions: &[Expression], goal: &Expression) -> (k: Vec<Expression>)
        ensures
            exprs_view(k@) == cache_key(exprs_view(assumptions@), goal@),
    {
        let mut k: Vec<Expression> = Vec::new();
        k.push(goal.clone());
        let mut i: usize = 0;
        while i < assumptions.len()
            invariant
                i <= assumptions@.len(),
                exprs_view(k@) == seq![goal@] + exprs_view(assumptions@).subrange(0, i as int),
            decreases assumptions@.len() - i,
        {
            let ghost before = k@;
            k.push(assumptions[i].clone());
            assert(exprs_view(k@) =~= exprs_view(before).push(assumptions@[i as int]@));
            assert(exprs_view(assumptions@).subrange(0, i + 1) =~= exprs_view(assumptions@).subrange(
                0,
                i as int,
            ).push(assumptions@[i as int]@));
            i = i + 1;
        }
        assert(exprs_view(assumptions@).subrange(0, assumptions@.len() as int) =~= exprs_view(assumptions@));
        k
    }

    /// The verdict remembered for `(assumptions, goal)`, if any.
    pub fn Get(&self, assumptions: &[Expression], goal: &Expression) -> (r: Option<&SolverVerdict>)
        ensures
            r == (if self@.contains_key(cache_key(exprs_view(assumptions@), goal@)) {
                Some(&self@[cache_key(exprs_view(assumptions@), goal@)])
            } else {
                None::<&SolverVerdict>
            }),
    {
        let key = Self::Key(assumptions, goal);
        let ghost k = exprs_view(key@);
        let mut i: usize = self.entries.len();
        while i > 0
            invariant
                i <= self.entries@.len(),
                k == exprs_view(key@),
                k == cache_key(exprs_view(assumptions@), goal@),
                forall|j: int| i <= j < self.entries@.len() ==> exprs_view((#[trigger] self.entries@[j]).0@) != k,
            decreases i,
        {
            i = i - 1;
            if exprs_eq(&self.entries[i].0, &key) {
                proof {
                    lemma_cache_map_lookup(self.entries@, k, i as int);
                }
                return Some(&self.entries[i].1);
            }
        }
        proof { lemma_cache_map_absent(self.entries@, k); }
        None
    }

    /// Remember `verdict` for `(assumptions, goal)`, replacing what was
    /// remembered for it before.
    pub fn Put(&mut self, assumptions: &[Expression], goal: &Expression, verdict: SolverVerdict)
        ensures
            final(self)@ == old(self)@.insert(cache_key(exprs_view(assumptions@), goal@), verdict),
    {
        let key = Self::Key(assumptions, goal);
        self.entries.push((key, verdict));
        assert(self.entries@.drop_last() =~= old(self).entries@);
    }
}

/// What a `Put` stores, a `Get` of the same pair gives back; other pairs
/// keep what they had.
pub proof fn lemma_get_after_put(
    c: Map<Seq<SpecExpression>, SolverVerdict>,
    assumptions: Seq<SpecExpression>,
    goal: SpecExpression,
    v: SolverVerdict,
    other: Seq<SpecExpression>,
)
    ensures
        c.insert(cache_key(assumptions, goal), v).contains_key(cache_key(assumptions, goal)),
        c.insert(cache_key(assumptions, goal), v)[cache_key(assumptions, goal)] == v,
        other != cache_key(assumptions, goal) ==> c.insert(cache_key(assumptions, goal), v).contains_key(other)
            == c.contains_key(other) && (c.contains_key(other) ==> c.insert(cache_key(assumptions, goal), v)[other]
            == c[other]),
{
}

/// The cache after putting each of `ps` in turn: assumptions, goal and
/// verdict. Each `ProofCache::Put` inserts into the cache's map exactly as
/// one step here does, so this is the cache after that sequence of calls.
pub open spec fn put_all(
    c: Map<Seq<SpecExpression>, SolverVerdict>,
    ps: Seq<(Seq<SpecExpression>, SpecExpression, SolverVerdict)>,
) -> Map<Seq<SpecExpression>, SolverVerdict>
    decreases ps.len(),
{
    if ps.len() == 0 {
        c
    } else {
        let p = ps.last();
        put_all(c, ps.drop_last()).insert(cache_key(p.0, p.1), p.2)
    }
}

/// Different pairs have different keys.
proof fn lemma_cache_key_injective(a: Seq<SpecExpression>, g: SpecExpression, a2: Seq<SpecExpression>, g2: SpecExpression)
    requires
        cache_key(a, g) == cache_key(a2, g2),
    ensures
        a == a2,
        g == g2,
{
    let k = cache_key(a, g);
    assert(k[0] == g);
    assert(cache_key(a2, g2)[0] == g2);
    assert(k.subrange(1, k.len() as int) =~= a);
    assert(cache_key(a2, g2).subrange(1, k.len() as int) =~= a2);
}

/// A `Get` after a `Put` gives back what was put, however many puts of
/// other pairs came in between; a new cache gives back nothing.
pub proof fn lemma_get_after_puts(
    c: Map<Seq<SpecExpression>, SolverVerdict>,
    assumptions: Seq<SpecExpression>,
    goal: SpecExpression,
    v: SolverVerdict,
    later: Seq<(Seq<SpecExpression>, SpecExpression, SolverVerdict)>,
)
    requires
        forall|i: int| 0 <= i < later.len() ==> (#[trigger] later[i]).0 != assumptions || later[i].1 != goal,
    ensures
        put_all(c.insert(cache_key(assumptions, goal), v), later).contains_key(cache_key(assumptions, goal)),
        put_all(c.insert(cache_key(assumptions, goal), v), later)[cache_key(assumptions, goal)] == v,
        !Map::<Seq<SpecExpression>, SolverVerdict>::empty().contains_key(cache_key(assumptions, goal)),
    decreases later.len(),
{
    if later.len() > 0 {
        let p = later.last();
        assert(later[later.len() - 1] == p);
        lemma_get_after_puts(c, assumptions, goal, v, later.drop_last());
        if cache_key(p.0, p.1) == cache_key(assumptions, goal) {
            lemma_cache_key_injective(p.0, p.1, assumptions, goal);
        }
    }
}

} // verus!
