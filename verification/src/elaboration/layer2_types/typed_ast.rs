//! Layer 2 (types) — the typed side tables.
//!
//! Rather than a parallel tree, layer 2 keeps a side map from layer id to
//! type for the layers whose result type matters, and a lexical `TypeEnv`
//! stack that mirrors the resolver's scope stack.

use vstd::prelude::*;
use crate::ast::{Expression, LayerId, SpecType, Type};
use crate::names::NameMap;
use crate::elaboration::layer1_semantics::symbol::{SpecSymbol, SymbolKind, SymbolTable};

verus! {

/// The scopes of a type environment, outermost first.
pub type EnvMaps = Seq<Map<Seq<char>, SpecType>>;

/// The type `name` has in the innermost of the first `n` scopes that binds
/// it.
pub open spec fn env_lookup_in(st: EnvMaps, name: Seq<char>, n: int) -> Option<SpecType>
    decreases n,
{
    if n <= 0 {
        None
    } else if st[n - 1].contains_key(name) {
        Some(st[n - 1][name])
    } else {
        env_lookup_in(st, name, n - 1)
    }
}

/// The type of `name`: the innermost scope that binds it decides.
pub open spec fn env_lookup(st: EnvMaps, name: Seq<char>) -> Option<SpecType> {
    env_lookup_in(st, name, st.len() as int)
}

/// The scopes after binding `name` in the innermost one (no change when
/// there is none).
pub open spec fn env_insert(st: EnvMaps, name: Seq<char>, t: SpecType) -> EnvMaps {
    if st.len() == 0 {
        st
    } else {
        st.update(st.len() - 1, st.last().insert(name, t))
    }
}

/// The scopes after entering a region.
pub open spec fn env_enter(st: EnvMaps) -> EnvMaps {
    st.push(Map::empty())
}

/// The scopes after leaving a region; the outermost scope stays.
pub open spec fn env_leave(st: EnvMaps) -> EnvMaps {
    if st.len() > 1 {
        st.drop_last()
    } else {
        st
    }
}

/// The symbol's declared type is bound by name: it has one, and it is not
/// a type or namespace name.
pub open spec fn binds_value(s: SpecSymbol) -> bool {
    s.DeclaredType is Some && !(s.Kind is Type) && !(s.Kind is Namespace)
}

/// The environment holding the declared types of the first `n` symbols,
/// later ones winning.
pub open spec fn env_of_symbols(syms: Seq<SpecSymbol>, n: nat) -> EnvMaps
    decreases n,
{
    if n == 0 || n > syms.len() {
        seq![Map::empty()]
    } else {
        let e = env_of_symbols(syms, (n - 1) as nat);
        let s = syms[n - 1];
        if binds_value(s) {
            env_insert(e, s.Name, s.DeclaredType->0)
        } else {
            e
        }
    }
}

/// What a scope binds, each type by its value.
pub open spec fn type_scope_view(m: NameMap<Type>) -> Map<Seq<char>, SpecType> {
    m@.map_values(|t: Type| t@)
}

/// Association of names to types at the current scope.
#[derive(Debug)]
pub struct TypeEnv {
    /// Stack of name-map scopes; the newest (innermost) is last.
    stack: Vec<NameMap<Type>>,
}

impl View for TypeEnv {
    type V = EnvMaps;

    closed spec fn view(&self) -> EnvMaps {
        Seq::new(self.stack@.len(), |i: int| type_scope_view(self.stack@[i]))
    }
}

impl TypeEnv {
    /// An environment with one empty scope.
    pub fn New() -> (e: Self)
        ensures
            e@ == seq![Map::<Seq<char>, SpecType>::empty()],
    {
        let e = Self { stack: vec![NameMap::New()] };
        assert(type_scope_view(e.stack@[0]) =~= Map::<Seq<char>, SpecType>::empty());
        assert(e@ =~= seq![Map::<Seq<char>, SpecType>::empty()]);
        e
    }

    /// An environment holding every declared symbol's type, for names that
    /// denote values.
    pub fn FromSymbolTable(tbl: &SymbolTable) -> (e: Self)
        ensures
            e@ == env_of_symbols(tbl@, tbl@.len()),
    {
        let mut env = Self::New();
        let syms = tbl.Iter();
        let mut i: usize = 0;
        while i < syms.len()
            invariant
                i <= syms@.len(),
                syms@.len() == tbl@.len(),
                forall|j: int| 0 <= j < syms@.len() ==> (#[trigger] syms@[j])@ == tbl@[j],
                env@ == env_of_symbols(tbl@, i as nat),
            decreases syms@.len() - i,
        {
            let sym = &syms[i];
            if let Some(t) = &sym.DeclaredType {
                let is_type_name = match sym.Kind {
                    SymbolKind::Type | SymbolKind::Namespace => true,
                    _ => false,
                };
                if !is_type_name {
                    env.Insert(sym.Name.as_str(), t.clone());
                }
            }
            i = i + 1;
        }
        env
    }

    /// Push a fresh scope.
    pub fn Enter(&mut self)
        ensures
            final(self)@ == env_enter(old(self)@),
    {
        let m: NameMap<Type> = NameMap::New();
        assert(type_scope_view(m) =~= Map::<Seq<char>, SpecType>::empty());
        self.stack.push(m);
        assert(self@ =~= env_enter(old(self)@));
    }

    /// Pop the innermost scope; the outermost stays.
    pub fn Leave(&mut self)
        ensures
            final(self)@ == env_leave(old(self)@),
    {
        if self.stack.len() > 1 {
            self.stack.pop();
            assert(self@ =~= env_leave(old(self)@));
        }
    }

    /// Bind `name` to `ty` in the innermost scope.
    pub fn Insert(&mut self, name: &str, ty: Type)
        ensures
            final(self)@ == env_insert(old(self)@, name@, ty@),
    {
        if self.stack.len() > 0 {
            let mut top = self.stack.pop().unwrap();
            let ghost before = type_scope_view(top);
            let ghost tv = ty@;
            top.Insert(name, ty);
            assert(type_scope_view(top) =~= before.insert(name@, tv));
            self.stack.push(top);
            assert(self@ =~= env_insert(old(self)@, name@, tv));
        }
    }

    /// The type of `name`, from the innermost scope that binds it.
    pub fn Lookup(&self, name: &str) -> (r: Option<&Type>)
        ensures
            match r {
                Some(t) => env_lookup(self@, name@) == Some(t@),
                None => env_lookup(self@, name@) is None,
            },
    {
        let mut i: usize = self.stack.len();
        while i > 0
            invariant
                i <= self.stack@.len(),
                self@.len() == self.stack@.len(),
                env_lookup_in(self@, name@, self@.len() as int) == env_lookup_in(self@, name@, i as int),
            decreases i,
        {
            if let Some(t) = self.stack[i - 1].Get(name) {
                return Some(t);
            }
            i = i - 1;
        }
        None
    }
}

/// The type each layer id is bound to by a list of entries, later entries
/// winning.
pub open spec fn table_map(s: Seq<(usize, Type)>) -> Map<usize, SpecType>
    decreases s.len(),
{
    if s.len() == 0 {
        Map::empty()
    } else {
        table_map(s.drop_last()).insert(s.last().0, s.last().1@)
    }
}

/// The type of the value produced by each layer, filled in during type
/// checking and read by the later layers.
#[derive(Debug)]
pub struct TypeTable {
    by_layer: Vec<(usize, Type)>,
}

impl View for TypeTable {
    type V = Map<usize, SpecType>;

    closed spec fn view(&self) -> Map<usize, SpecType> {
        table_map(self.by_layer@)
    }
}

proof fn lemma_table_lookup(s: Seq<(usize, Type)>, k: usize, i: int)
    requires
        0 <= i < s.len(),
        s[i].0 == k,
        forall|j: int| i < j < s.len() ==> (#[trigger] s[j]).0 != k,
    ensures
        table_map(s).contains_key(k),
        table_map(s)[k] == s[i].1@,
    decreases s.len(),
{
    if i < s.len() - 1 {
        lemma_table_lookup(s.drop_last(), k, i);
    }
}

proof fn lemma_table_absent(s: Seq<(usize, Type)>, k: usize)
    requires
        forall|j: int| 0 <= j < s.len() ==> (#[trigger] s[j]).0 != k,
    ensures
        !table_map(s).contains_key(k),
    decreases s.len(),
{
    if s.len() > 0 {
        lemma_table_absent(s.drop_last(), k);
    }
}

impl TypeTable {
    /// An empty table.
    pub fn New() -> (t: Self)
        ensures
            t@ == Map::<usize, SpecType>::empty(),
    {
        TypeTable { by_layer: Vec::new() }
    }

    /// Record `t` as the type of layer `id`.
    pub fn SetType(&mut self, id: LayerId, t: Type)
        ensures
            final(self)@ == old(self)@.insert(id.0, t@),
    {
        self.by_layer.push((id.0, t));
        assert(self.by_layer@.drop_last() =~= old(self).by_layer@);
    }

    /// The type recorded for layer `id`.
    pub fn Get(&self, id: LayerId) -> (r: Option<&Type>)
        ensures
            match r {
                Some(t) => self@.contains_key(id.0) && self@[id.0] == t@,
                None => !self@.contains_key(id.0),
            },
    {
        let mut i: usize = self.by_layer.len();
        while i > 0
            invariant
                i <= self.by_layer@.len(),
                forall|j: int| i <= j < self.by_layer@.len() ==> (#[trigger] self.by_layer@[j]).0 != id.0,
            decreases i,
        {
            i = i - 1;
            if self.by_layer[i].0 == id.0 {
                proof { lemma_table_lookup(self.by_layer@, id.0, i as int); }
                return Some(&self.by_layer[i].1);
            }
        }
        proof { lemma_table_absent(self.by_layer@, id.0); }
        None
    }
}

/// An expression together with its inferred type.
#[derive(Debug)]
pub struct TypedExpr {
    pub Expr: Expression,
    pub Ty: Type,
}

} // verus!
