//! Layer 1 (semantics) — the scope stack.
//!
//! A `Scope` is one lexical region — a function body, a block. Each maps
//! names to symbol ids. Scopes nest, and lookup walks from the innermost
//! outwards until it finds the name or runs out of scopes. The root scope is
//! never popped.

use vstd::prelude::*;
use crate::ast::SourceLocation;
use crate::ast::source::SpecLocation;
use crate::names::NameMap;
use crate::elaboration::layer1_semantics::errors::SemanticError;
use crate::elaboration::layer1_semantics::shadowing::{IsShadowingAllowed, ShadowDecision};
use crate::elaboration::layer1_semantics::symbol::SymbolId;

verus! {

/// One lexical scope: a name→entry map.
#[derive(Debug)]
pub struct Scope {
    pub Symbols: NameMap<ScopeEntry>,
}

/// What a scope records of a declaration.
#[derive(Debug, PartialEq)]
pub struct ScopeEntry {
    pub Id: SymbolId,
    pub DeclaredAt: SourceLocation,
}

/// The mathematical value of a [`ScopeEntry`].
pub struct SpecScopeEntry {
    pub Id: SymbolId,
    pub DeclaredAt: SpecLocation,
}

impl View for ScopeEntry {
    type V = SpecScopeEntry;

    open spec fn view(&self) -> SpecScopeEntry {
        SpecScopeEntry { Id: self.Id, DeclaredAt: self.DeclaredAt@ }
    }
}

impl Clone for ScopeEntry {
    fn clone(&self) -> (r: Self)
        ensures
            r == *self,
    {
        ScopeEntry { Id: self.Id, DeclaredAt: self.DeclaredAt.clone() }
    }
}

impl Scope {
    /// An empty scope.
    pub fn New() -> (s: Self)
        ensures
            s.Symbols@ == Map::<Seq<char>, ScopeEntry>::empty(),
    {
        Scope { Symbols: NameMap::New() }
    }
}

/// The scopes' maps, outermost first.
pub type ScopeMaps = Seq<Map<Seq<char>, SpecScopeEntry>>;

/// The entry `name` finds among the first `n` scopes, searching from the
/// `n`-th inwards-out.
pub open spec fn lookup_in(st: ScopeMaps, name: Seq<char>, n: int) -> Option<SpecScopeEntry>
    decreases n,
{
    if n <= 0 {
        None
    } else if st[n - 1].contains_key(name) {
        Some(st[n - 1][name])
    } else {
        lookup_in(st, name, n - 1)
    }
}

/// The id `name` resolves to: the innermost scope that binds it decides.
pub open spec fn lookup(st: ScopeMaps, name: Seq<char>) -> Option<SymbolId> {
    match lookup_in(st, name, st.len() as int) {
        Some(e) => Some(e.Id),
        None => None,
    }
}

/// The scopes after entering a region: one more, empty, innermost.
pub open spec fn enter(st: ScopeMaps) -> ScopeMaps {
    st.push(Map::empty())
}

/// The scopes after leaving a region: the innermost goes, unless it is the
/// root.
pub open spec fn leave(st: ScopeMaps) -> ScopeMaps {
    if st.len() > 1 {
        st.drop_last()
    } else {
        st
    }
}

/// Declaring `name` in the innermost scope: a duplicate there is refused
/// with both locations; otherwise it is bound (shadowing an outer binding
/// is allowed).
pub open spec fn insert_result(st: ScopeMaps, name: Seq<char>, id: SymbolId, at: SpecLocation) -> (
    ScopeMaps,
    Option<(SpecLocation, SpecLocation)>,
) {
    let top = st.last();
    if top.contains_key(name) {
        (st, Some((top[name].DeclaredAt, at)))
    } else {
        (st.update(st.len() - 1, top.insert(name, SpecScopeEntry { Id: id, DeclaredAt: at })), None)
    }
}

/// What a scope binds, each entry by its value.
pub open spec fn scope_view(s: Scope) -> Map<Seq<char>, SpecScopeEntry> {
    s.Symbols@.map_values(|e: ScopeEntry| e@)
}

/// Stack of scopes maintained during a walk.
#[derive(Debug)]
pub struct ScopeStack {
    stack: Vec<Scope>,
}

impl View for ScopeStack {
    type V = ScopeMaps;

    closed spec fn view(&self) -> ScopeMaps {
        Seq::new(self.stack@.len(), |i: int| scope_view(self.stack@[i]))
    }
}

impl ScopeStack {
    /// The root scope is never popped.
    #[verifier::type_invariant]
    closed spec fn has_root(&self) -> bool {
        self.stack@.len() >= 1
    }

    /// A stack holding the empty root scope.
    pub fn New() -> (s: Self)
        ensures
            s@ == seq![Map::<Seq<char>, SpecScopeEntry>::empty()],
    {
        let s = Self { stack: vec![Scope::New()] };
        assert(scope_view(s.stack@[0]) =~= Map::<Seq<char>, SpecScopeEntry>::empty());
        assert(s@ =~= seq![Map::<Seq<char>, SpecScopeEntry>::empty()]);
        s
    }

    /// Push a fresh scope (entering a function body, block, ...).
    pub fn Enter(&mut self)
        ensures
            final(self)@ == enter(old(self)@),
    {
        let mut stack: Vec<Scope> = vec![Scope::New()];
        std::mem::swap(&mut stack, &mut self.stack);
        let fresh = Scope::New();
        assert(scope_view(fresh) =~= Map::<Seq<char>, SpecScopeEntry>::empty());
        stack.push(fresh);
        self.stack = stack;
        assert(self@ =~= enter(old(self)@));
    }

    /// Pop the innermost scope; the root scope is never popped.
    pub fn Leave(&mut self)
        ensures
            final(self)@ == leave(old(self)@),
    {
        proof { use_type_invariant(&*self); }
        if self.stack.len() > 1 {
            let mut stack: Vec<Scope> = vec![Scope::New()];
            std::mem::swap(&mut stack, &mut self.stack);
            stack.pop();
            self.stack = stack;
            assert(self@ =~= leave(old(self)@));
        }
    }

    /// Insert a symbol into the innermost scope. A name already bound there
    /// is a duplicate; a name bound further out may be shadowed if the
    /// policy allows it, which it does.
    pub fn Insert(&mut self, Name: &str, Id: SymbolId, At: SourceLocation) -> (r: Result<(), SemanticError>)
        ensures
            final(self)@ == insert_result(old(self)@, Name@, Id, At@).0,
            match insert_result(old(self)@, Name@, Id, At@).1 {
                None => r is Ok,
                Some((first, second)) => r matches Err(SemanticError::DuplicateName { Name: n, First, Second })
                    && n@ == Name@ && First@ == first && Second@ == second,
            },
    {
        proof { use_type_invariant(&*self); }
        let last = self.stack.len() - 1;
        match self.stack[last].Symbols.Get(Name) {
            Some(existing) => {
                return Err(
                    SemanticError::DuplicateName {
                        Name: Name.to_owned(),
                        First: existing.DeclaredAt.clone(),
                        Second: At,
                    },
                );
            },
            None => {},
        }
        let mut i: usize = last;
        let mut outer: Option<SourceLocation> = None;
        while i > 0
            invariant
                i <= last,
                last < self.stack@.len(),
            decreases i,
        {
            i = i - 1;
            if let Some(e) = self.stack[i].Symbols.Get(Name) {
                outer = Some(e.DeclaredAt.clone());
                break;
            }
        }
        if let Some(o) = outer {
            if IsShadowingAllowed(false) == ShadowDecision::Deny {
                return Err(SemanticError::ShadowingDenied { Name: Name.to_owned(), Outer: o, Inner: At });
            }
        }
        let mut stack: Vec<Scope> = vec![Scope::New()];
        std::mem::swap(&mut stack, &mut self.stack);
        let mut top = stack.pop().unwrap();
        let ghost before = scope_view(top);
        let entry = ScopeEntry { Id, DeclaredAt: At };
        let ghost ev = entry@;
        top.Symbols.Insert(Name, entry);
        assert(scope_view(top) =~= before.insert(Name@, ev));
        stack.push(top);
        self.stack = stack;
        assert(self@ =~= insert_result(old(self)@, Name@, Id, At@).0);
        Ok(())
    }

    /// Look a name up through the stack, innermost to outermost; `None`
    /// when no scope binds it.
    pub fn Lookup(&self, Name: &str) -> (r: Option<SymbolId>)
        ensures
            r == lookup(self@, Name@),
    {
        let mut i: usize = self.stack.len();
        while i > 0
            invariant
                i <= self.stack@.len(),
                self@.len() == self.stack@.len(),
                lookup_in(self@, Name@, self@.len() as int) == lookup_in(self@, Name@, i as int),
            decreases i,
        {
            if let Some(e) = self.stack[i - 1].Symbols.Get(Name) {
                return Some(e.Id);
            }
            i = i - 1;
        }
        None
    }

    /// Number of scopes, the root included.
    pub fn Depth(&self) -> (n: usize)
        ensures
            n == self@.len(),
            n >= 1,
    {
        proof { use_type_invariant(self); }
        self.stack.len()
    }
}

/// A name declared in the innermost scope is found there, whatever outer
/// scopes bind it to.
pub proof fn lemma_lookup_after_insert(st: ScopeMaps, name: Seq<char>, id: SymbolId, at: SpecLocation)
    requires
        st.len() >= 1,
        insert_result(st, name, id, at).1 is None,
    ensures
        lookup(insert_result(st, name, id, at).0, name) == Some(id),
{
}

/// Entering a region and leaving it again restores the scopes.
pub proof fn lemma_enter_leave(st: ScopeMaps)
    requires
        st.len() >= 1,
    ensures
        leave(enter(st)) == st,
{
    assert(enter(st).drop_last() =~= st);
}

/// A binding made inside a region is gone once the region is left: what
/// the name resolved to before entering, it resolves to again.
pub proof fn lemma_inner_binding_ends_with_region(
    st: ScopeMaps,
    name: Seq<char>,
    id: SymbolId,
    at: SpecLocation,
    other: Seq<char>,
)
    requires
        st.len() >= 1,
    ensures
        leave(insert_result(enter(st), name, id, at).0) == st,
        lookup(leave(insert_result(enter(st), name, id, at).0), other) == lookup(st, other),
{
    let inner = insert_result(enter(st), name, id, at).0;
    assert(inner.drop_last() =~= st);
}

/// The scopes after declaring each of `ds` in turn (name, symbol and
/// location), refused duplicates changing nothing.
pub open spec fn insert_all(st: ScopeMaps, ds: Seq<(Seq<char>, SymbolId, SpecLocation)>) -> ScopeMaps
    decreases ds.len(),
{
    if ds.len() == 0 {
        st
    } else {
        let d = ds.last();
        insert_result(insert_all(st, ds.drop_last()), d.0, d.1, d.2).0
    }
}

/// Declaring names changes only the innermost scope.
proof fn lemma_insert_all_keeps_outer(st: ScopeMaps, ds: Seq<(Seq<char>, SymbolId, SpecLocation)>)
    requires
        st.len() >= 1,
    ensures
        insert_all(st, ds).len() == st.len(),
        insert_all(st, ds).drop_last() == st.drop_last(),
    decreases ds.len(),
{
    if ds.len() > 0 {
        lemma_insert_all_keeps_outer(st, ds.drop_last());
        let d = ds.last();
        let t = insert_all(st, ds.drop_last());
        assert(insert_result(t, d.0, d.1, d.2).0.drop_last() =~= t.drop_last());
    }
}

/// Whatever is declared inside a region, any number of names, leaving it
/// restores the scopes: every name resolves as it did before entering.
pub proof fn lemma_leave_restores_after_inserts(
    st: ScopeMaps,
    ds: Seq<(Seq<char>, SymbolId, SpecLocation)>,
    name: Seq<char>,
)
    requires
        st.len() >= 1,
    ensures
        leave(insert_all(enter(st), ds)) == st,
        leave(insert_all(enter(st), ds)).len() == st.len(),
        lookup(leave(insert_all(enter(st), ds)), name) == lookup(st, name),
{
    lemma_insert_all_keeps_outer(enter(st), ds);
    assert(enter(st).drop_last() =~= st);
}

/// The root scope is never left: leaving at the root changes nothing.
pub proof fn lemma_root_stays(st: ScopeMaps)
    requires
        st.len() == 1,
    ensures
        leave(st) == st,
{
}

} // verus!
