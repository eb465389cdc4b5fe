//! Layer 1 (semantics) — symbols.
//!
//! A `Symbol` is the resolved identity of a declaration: every `var x`,
//! `function foo` and parameter becomes exactly one symbol, and distinct
//! declarations that share a name get distinct ids. The `SymbolTable` is an
//! arena: a symbol's id is its position in it.

use vstd::prelude::*;
use crate::ast::{SourceLocation, SpecType, Type};
use crate::ast::source::SpecLocation;
use crate::ast::ty::opt_type_view;

verus! {

/// Identifies a declaration: its position in the symbol table.
#[derive(Debug, Clone, Copy, PartialEq, Eq, Hash, Structural)]
pub struct SymbolId(pub usize);

/// One declaration's full record.
#[derive(Debug, PartialEq)]
pub struct Symbol {
    pub Id: SymbolId,
    pub Name: String,
    pub Kind: SymbolKind,
    pub DeclaredType: Option<Type>,
    pub DeclaredAt: SourceLocation,
}

/// What kind of declaration a symbol is.
#[derive(Debug, Clone, Copy, PartialEq, Eq, Structural)]
pub enum SymbolKind {
    /// A `var` / `let` binding; `IsMutable` is `true` for `var`.
    Variable { IsMutable: bool },
    /// A `function` declaration.
    Function,
    /// A formal parameter of a function.
    Parameter,
    /// A user-defined type (`struct`, `enum`, or `type` alias).
    Type,
    /// A `namespace` block.
    Namespace,
}

/// The mathematical value of a [`Symbol`].
pub struct SpecSymbol {
    pub Id: SymbolId,
    pub Name: Seq<char>,
    pub Kind: SymbolKind,
    pub DeclaredType: Option<SpecType>,
    pub DeclaredAt: SpecLocation,
}

impl View for Symbol {
    type V = SpecSymbol;

    open spec fn view(&self) -> SpecSymbol {
        SpecSymbol {
            Id: self.Id,
            Name: self.Name@,
            Kind: self.Kind,
            DeclaredType: opt_type_view(self.DeclaredType),
            DeclaredAt: self.DeclaredAt@,
        }
    }
}

impl Clone for Symbol {
    fn clone(&self) -> (r: Self)
        ensures
            r@ == self@,
    {
        Symbol {
            Id: self.Id,
            Name: self.Name.clone(),
            Kind: self.Kind,
            DeclaredType: crate::ast::ty::clone_opt_type(&self.DeclaredType),
            DeclaredAt: self.DeclaredAt.clone(),
        }
    }
}

/// Arena of every symbol in the program.
#[derive(Debug)]
pub struct SymbolTable {
    entries: Vec<Symbol>,
}

impl View for SymbolTable {
    type V = Seq<SpecSymbol>;

    closed spec fn view(&self) -> Seq<SpecSymbol> {
        Seq::new(self.entries@.len(), |i: int| self.entries@[i]@)
    }
}

impl SymbolTable {
    /// Each symbol's id is its position.
    #[verifier::type_invariant]
    closed spec fn ids_are_positions(&self) -> bool {
        forall|i: int| 0 <= i < self.entries@.len() ==> (#[trigger] self.entries@[i]).Id == SymbolId(i as usize)
    }

    /// An empty table.
    pub fn New() -> (t: Self)
        ensures
            t@.len() == 0,
    {
        let t = Self { entries: Vec::new() };
        assert(t@ =~= Seq::<SpecSymbol>::empty());
        t
    }

    /// Store `sym` under a fresh id — the table's length — and return the
    /// id; whatever id `sym` carried is replaced.
    pub fn Intern(&mut self, sym: Symbol) -> (id: SymbolId)
        ensures
            id == SymbolId(old(self)@.len() as usize),
            final(self)@ == old(self)@.push(SpecSymbol { Id: id, ..sym@ }),
    {
        proof { use_type_invariant(&*self); }
        let id = SymbolId(self.entries.len());
        let mut sym = sym;
        sym.Id = id;
        let mut entries: Vec<Symbol> = Vec::new();
        std::mem::swap(&mut entries, &mut self.entries);
        entries.push(sym);
        self.entries = entries;
        assert(self@ =~= old(self)@.push(SpecSymbol { Id: id, ..sym@ }));
        id
    }

    /// The symbol with id `id`; `None` only for an id this table never
    /// issued.
    pub fn Get(&self, id: SymbolId) -> (r: Option<&Symbol>)
        ensures
            match r {
                Some(s) => id.0 < self@.len() && s@ == self@[id.0 as int],
                None => id.0 >= self@.len(),
            },
    {
        if id.0 < self.entries.len() {
            Some(&self.entries[id.0])
        } else {
            None
        }
    }

    /// Number of symbols.
    pub fn Len(&self) -> (n: usize)
        ensures
            n == self@.len(),
    {
        self.entries.len()
    }

    /// Every symbol, in id order.
    pub fn Iter(&self) -> (r: &[Symbol])
        ensures
            r@.len() == self@.len(),
            forall|i: int| 0 <= i < r@.len() ==> (#[trigger] r@[i])@ == self@[i],
            forall|i: int| 0 <= i < self@.len() ==> (#[trigger] self@[i]).Id == SymbolId(i as usize),
    {
        proof { use_type_invariant(self); }
        self.entries.as_slice()
    }
}

} // verus!
