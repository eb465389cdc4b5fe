//! Layer 1 (semantics) — the name resolution walk.
//!
//! The walk goes over the layer tree, opens a fresh scope at every
//! function, block and loop, interns each declaration as a `Symbol`, and
//! checks every variable and call name against the scope stack. It
//! produces the symbol table and the list of errors (undefined names and
//! duplicate declarations), in the order met.

use vstd::prelude::*;
use crate::ast::{Expression, Layer, LayerKind, Param, SourceLocation, SpecExpression, SpecType, Type};
use crate::ast::source::{SpecLocation, builtin_location};
use crate::ast::ty::opt_type_view;
use crate::elaboration::layer1_semantics::errors::{SemanticError, SpecSemanticError, semantic_errors_view};
use crate::elaboration::layer1_semantics::scope::{ScopeMaps, ScopeStack, enter, insert_result, leave, lookup};
use crate::elaboration::layer1_semantics::symbol::{SpecSymbol, Symbol, SymbolId, SymbolKind, SymbolTable};

verus! {

/// The output of layer 1: every declaration's symbol, and everything the
/// resolver found to report (the caller decides whether an error is
/// fatal).
#[derive(Debug)]
pub struct ResolvedProgram {
    pub Symbols: SymbolTable,
    pub Errors: Vec<SemanticError>,
}

/// What the walk has built so far.
pub struct ResState {
    pub symbols: Seq<SpecSymbol>,
    pub scopes: ScopeMaps,
    pub errors: Seq<SpecSemanticError>,
}

/// The state with more errors reported.
pub open spec fn with_errors(s: ResState, es: Seq<SpecSemanticError>) -> ResState {
    ResState { errors: s.errors + es, ..s }
}

/// Declaring a name: a new symbol with the next id, bound in the innermost
/// scope, or a duplicate reported.
pub open spec fn declare(s: ResState, name: Seq<char>, kind: SymbolKind, ty: Option<SpecType>, at: SpecLocation) -> ResState {
    let id = SymbolId(s.symbols.len() as usize);
    let (sc, dup) = insert_result(s.scopes, name, id, at);
    ResState {
        symbols: s.symbols.push(SpecSymbol { Id: id, Name: name, Kind: kind, DeclaredType: ty, DeclaredAt: at }),
        scopes: sc,
        errors: match dup {
            Some((first, second)) => s.errors.push(
                SpecSemanticError::DuplicateName { Name: name, First: first, Second: second },
            ),
            None => s.errors,
        },
    }
}

/// The error for `name`, if it resolves to nothing.
pub open spec fn undefined(sc: ScopeMaps, name: Seq<char>, at: SpecLocation) -> Seq<SpecSemanticError> {
    if lookup(sc, name) is None {
        seq![SpecSemanticError::UndefinedName { Name: name, At: at }]
    } else {
        Seq::empty()
    }
}

/// The undefined names of an expression, in reading order: variables and
/// called function names.
pub open spec fn expr_errors(sc: ScopeMaps, e: SpecExpression, at: SpecLocation) -> Seq<SpecSemanticError>
    decreases e, 1int,
{
    match e {
        SpecExpression::Variable(n) => undefined(sc, n, at),
        SpecExpression::BinaryOp { Lhs, Rhs, .. } => expr_errors(sc, *Lhs, at) + expr_errors(sc, *Rhs, at),
        SpecExpression::UnaryOp { Target, .. } => expr_errors(sc, *Target, at),
        SpecExpression::FunctionCall { Name, Args } => undefined(sc, Name, at) + args_errors(sc, Args, Args.len(), at),
        SpecExpression::MemberAccess { Target, .. } => expr_errors(sc, *Target, at),
        SpecExpression::IndexAccess { Target, Index } => expr_errors(sc, *Target, at) + expr_errors(sc, *Index, at),
        _ => Seq::empty(),
    }
}

/// The undefined names of the first `n` arguments.
pub open spec fn args_errors(sc: ScopeMaps, args: Seq<SpecExpression>, n: nat, at: SpecLocation) -> Seq<
    SpecSemanticError,
>
    decreases args, n,
{
    if n == 0 || n > args.len() {
        Seq::empty()
    } else {
        args_errors(sc, args, (n - 1) as nat, at) + expr_errors(sc, args[n - 1], at)
    }
}

/// Declaring the parameters from `i` on.
pub open spec fn declare_params(s: ResState, ps: Seq<Param>, i: nat, at: SpecLocation) -> ResState
    decreases ps.len() - i,
{
    if i >= ps.len() {
        s
    } else {
        declare_params(
            declare(s, ps[i as int].Name@, SymbolKind::Parameter, Some(ps[i as int].Type_@), at),
            ps,
            i + 1,
            at,
        )
    }
}

/// The state with the scopes entered or left.
pub open spec fn entered(s: ResState) -> ResState {
    ResState { scopes: enter(s.scopes), ..s }
}

pub open spec fn left(s: ResState) -> ResState {
    ResState { scopes: leave(s.scopes), ..s }
}

/// The state after resolving a layer.
///
/// A function is declared in the enclosing scope, then its parameters and
/// body in a fresh one. A variable's initializer is checked before the
/// variable is declared, so `var x = x;` reports the right-hand `x`. Blocks
/// and loops get a scope of their own. Struct and enum names are declared;
/// hook bodies are not walked.
pub open spec fn walk(s: ResState, l: Layer) -> ResState
    decreases l, 1int,
{
    let at = l.Metadata.SourceLocation@;
    let cs = l.Children@;
    match l.Kind {
        LayerKind::Program => walk_children(s, cs, 0),
        LayerKind::Function { Name, Params, ReturnType, .. } => {
            let s1 = declare(s, Name@, SymbolKind::Function, opt_type_view(ReturnType), at);
            left(walk_children(declare_params(entered(s1), Params@, 0, at), cs, 0))
        },
        LayerKind::VariableBinding { Name, TypeAnnotation, IsMutable, InitialValue, .. } => {
            let s1 = match InitialValue {
                Some(e) => with_errors(s, expr_errors(s.scopes, e@, at)),
                None => s,
            };
            declare(s1, Name@, SymbolKind::Variable { IsMutable }, opt_type_view(TypeAnnotation), at)
        },
        LayerKind::Assignment { Target, Value } => with_errors(
            s,
            expr_errors(s.scopes, Target@, at) + expr_errors(s.scopes, Value@, at),
        ),
        LayerKind::Expression(e) => with_errors(s, expr_errors(s.scopes, e@, at)),
        LayerKind::Block => left(walk_children(entered(s), cs, 0)),
        LayerKind::Conditional { Condition, .. } => walk_children(
            with_errors(s, expr_errors(s.scopes, Condition@, at)),
            cs,
            0,
        ),
        LayerKind::Loop { .. } => left(walk_children(entered(s), cs, 0)),
        LayerKind::Return { Value } => match Value {
            Some(v) => with_errors(s, expr_errors(s.scopes, v@, at)),
            None => s,
        },
        LayerKind::Havoc { Target } => with_errors(s, expr_errors(s.scopes, Target@, at)),
        LayerKind::Interrupt { .. } => walk_children(s, cs, 0),
        LayerKind::Struct { Name, .. } => declare(s, Name@, SymbolKind::Type, None, at),
        LayerKind::Enum { Name, .. } => declare(s, Name@, SymbolKind::Type, None, at),
        LayerKind::Panic => s,
        LayerKind::Unreachable => s,
        _ => walk_children(s, cs, 0),
    }
}

/// The state after resolving the layers from `i` on, in order.
pub open spec fn walk_children(s: ResState, cs: Seq<Layer>, i: nat) -> ResState
    decreases cs, cs.len() - i,
{
    if i >= cs.len() {
        s
    } else {
        walk_children(walk(s, cs[i as int]), cs, i + 1)
    }
}

/// The state the walk starts from: no symbols, the root scope, no errors,
/// and the runtime's built-in functions `print` and `println` declared.
pub open spec fn seeded() -> ResState {
    let s0 = ResState { symbols: Seq::empty(), scopes: seq![Map::empty()], errors: Seq::empty() };
    let s1 = declare(s0, "print"@, SymbolKind::Function, Some(SpecType::Unit), builtin_location());
    declare(s1, "println"@, SymbolKind::Function, Some(SpecType::Unit), builtin_location())
}

/// Public entry point: resolve the names of the whole program.
pub fn Resolve(Root: &Layer) -> (r: ResolvedProgram)
    ensures
        r.Symbols@ == walk(seeded(), *Root).symbols,
        semantic_errors_view(r.Errors@) == walk(seeded(), *Root).errors,
{
    let mut r = Resolver::New();
    let names: Vec<&str> = vec!["print", "println"];
    proof {
        reveal_strlit("print");
        reveal_strlit("println");
    }
    r.SeedBuiltins(names.as_slice());
    assert(r.state() == seeded());
    r.WalkLayer(Root);
    ResolvedProgram { Symbols: r.symbols, Errors: r.errors }
}

/// The walker's state.
struct Resolver {
    symbols: SymbolTable,
    scopes: ScopeStack,
    errors: Vec<SemanticError>,
}

impl Resolver {
    spec fn state(&self) -> ResState {
        ResState { symbols: self.symbols@, scopes: self.scopes@, errors: semantic_errors_view(self.errors@) }
    }

    fn New() -> (r: Self)
        ensures
            r.state() == (ResState { symbols: Seq::empty(), scopes: seq![Map::empty()], errors: Seq::empty() }),
    {
        let r = Self { symbols: SymbolTable::New(), scopes: ScopeStack::New(), errors: Vec::new() };
        assert(r.state().symbols =~= Seq::<SpecSymbol>::empty());
        assert(r.state().errors =~= Seq::<SpecSemanticError>::empty());
        r
    }

    /// Declare built-in function names in the root scope so that references
    /// to them from user code resolve.
    fn SeedBuiltins(&mut self, Names: &[&str])
        requires
            Names@.len() == 2,
            Names@[0]@ == "print"@,
            Names@[1]@ == "println"@,
            old(self).state() == (ResState { symbols: Seq::empty(), scopes: seq![Map::empty()], errors: Seq::empty() }),
        ensures
            final(self).state() == seeded(),
    {
        let mut i: usize = 0;
        while i < Names.len()
            invariant
                i <= Names@.len(),
                Names@.len() == 2,
                Names@[0]@ == "print"@,
                Names@[1]@ == "println"@,
                i == 0 ==> self.state() == (ResState {
                    symbols: Seq::empty(),
                    scopes: seq![Map::empty()],
                    errors: Seq::empty(),
                }),
                i == 1 ==> self.state() == declare(
                    ResState { symbols: Seq::empty(), scopes: seq![Map::empty()], errors: Seq::empty() },
                    "print"@,
                    SymbolKind::Function,
                    Some(SpecType::Unit),
                    builtin_location(),
                ),
                i == 2 ==> self.state() == seeded(),
            decreases Names@.len() - i,
        {
            self.DeclareSymbol(Names[i], SymbolKind::Function, Some(Type::Unit), SourceLocation::Builtin());
            i = i + 1;
        }
    }

    /// Intern a declaration and insert it into the current scope, reporting
    /// a duplicate if the scope refuses it.
    fn DeclareSymbol(&mut self, name: &str, kind: SymbolKind, declared_type: Option<Type>, at: SourceLocation) -> (id: SymbolId)
        ensures
            final(self).state() == declare(old(self).state(), name@, kind, opt_type_view(declared_type), at@),
            id == SymbolId(old(self).state().symbols.len() as usize),
    {
        let id = self.symbols.Intern(
            Symbol {
                Id: SymbolId(0),
                Name: name.to_owned(),
                Kind: kind,
                DeclaredType: declared_type,
                DeclaredAt: at.clone(),
            },
        );
        match self.scopes.Insert(name, id, at) {
            Ok(()) => {},
            Err(e) => {
                let ghost before = self.errors@;
                self.errors.push(e);
                assert(semantic_errors_view(self.errors@) =~= semantic_errors_view(before).push(e@));
            },
        }
        id
    }

    /// Report `name` if it resolves to nothing.
    fn CheckName(&mut self, name: &String, at: &SourceLocation)
        ensures
            final(self).state() == with_errors(old(self).state(), undefined(old(self).state().scopes, name@, at@)),
    {
        if self.scopes.Lookup(name.as_str()).is_none() {
            let ghost before = self.errors@;
            let e = SemanticError::UndefinedName { Name: name.clone(), At: at.clone() };
            self.errors.push(e);
            assert(semantic_errors_view(self.errors@) =~= semantic_errors_view(before) + seq![e@]);
        } else {
            assert(semantic_errors_view(self.errors@) =~= semantic_errors_view(self.errors@) + Seq::<
                SpecSemanticError,
            >::empty());
        }
    }

    /// Walk an expression tree, reporting every variable or call name that
    /// does not resolve in the current scope stack.
    #[verifier::loop_isolation(false)]
    fn CheckExpr(&mut self, e: &Expression, at: &SourceLocation)
        ensures
            final(self).state() == with_errors(old(self).state(), expr_errors(old(self).state().scopes, e@, at@)),
        decreases e,
    {
        let ghost s0 = self.state();
        match e {
            Expression::Variable(name) => {
                self.CheckName(name, at);
            },
            Expression::BinaryOp { Lhs, Rhs, .. } => {
                self.CheckExpr(Lhs, at);
                self.CheckExpr(Rhs, at);
                assert(s0.errors + expr_errors(s0.scopes, Lhs@, at@) + expr_errors(s0.scopes, Rhs@, at@) =~= s0.errors
                    + expr_errors(s0.scopes, e@, at@));
            },
            Expression::UnaryOp { Target, .. } => self.CheckExpr(Target, at),
            Expression::FunctionCall { Name, Args } => {
                self.CheckName(Name, at);
                let ghost av = e@->FunctionCall_Args;
                let ghost s1 = self.state();
                let mut i: usize = 0;
                assert(s1.errors + args_errors(s0.scopes, av, 0, at@) =~= s1.errors);
                while i < Args.len()
                    invariant
                        i <= Args@.len(),
                        av.len() == Args@.len(),
                        forall|j: int| 0 <= j < Args@.len() ==> av[j] == (#[trigger] Args@[j])@,
                        self.state() == with_errors(s1, args_errors(s0.scopes, av, i as nat, at@)),
                        s1.scopes == s0.scopes,
                    decreases Args@.len() - i,
                {
                    proof {
                        broadcast use vstd::std_specs::vec::axiom_vec_index_decreases;
                        assert(decreases_to!(*Args => Args@[i as int]));
                        assert(decreases_to!(*e => *Args));
                    }
                    self.CheckExpr(&Args[i], at);
                    assert(s1.errors + args_errors(s0.scopes, av, i as nat, at@) + expr_errors(s0.scopes, av[i as int], at@)
                        =~= s1.errors + args_errors(s0.scopes, av, (i + 1) as nat, at@));
                    i = i + 1;
                }
                assert(s0.errors + undefined(s0.scopes, Name@, at@) + args_errors(s0.scopes, av, av.len(), at@) =~= s0.errors
                    + expr_errors(s0.scopes, e@, at@));
            },
            Expression::MemberAccess { Target, .. } => self.CheckExpr(Target, at),
            Expression::IndexAccess { Target, Index } => {
                self.CheckExpr(Target, at);
                self.CheckExpr(Index, at);
                assert(s0.errors + expr_errors(s0.scopes, Target@, at@) + expr_errors(s0.scopes, Index@, at@) =~= s0.errors
                    + expr_errors(s0.scopes, e@, at@));
            },
            _ => {
                assert(s0.errors + expr_errors(s0.scopes, e@, at@) =~= s0.errors);
            },
        }
    }

    /// Walk the children in order.
    #[verifier::loop_isolation(false)]
    fn WalkChildren(&mut self, L: &Layer)
        ensures
            final(self).state() == walk_children(old(self).state(), L.Children@, 0),
        decreases L, 0int,
    {
        let ghost s0 = self.state();
        let mut i: usize = 0;
        while i < L.Children.len()
            invariant
                i <= L.Children@.len(),
                walk_children(s0, L.Children@, 0) == walk_children(self.state(), L.Children@, i as nat),
            decreases L.Children@.len() - i,
        {
            proof {
                broadcast use vstd::std_specs::vec::axiom_vec_index_decreases;
                assert(decreases_to!(L.Children => L.Children@[i as int]));
                assert(decreases_to!(*L => L.Children));
            }
            self.WalkLayer(&L.Children[i]);
            i = i + 1;
        }
    }

    /// Walks one layer: declarations are interned into the current scope,
    /// blocks open a fresh scope, expressions have their names checked.
    #[verifier::loop_isolation(false)]
    fn WalkLayer(&mut self, L: &Layer)
        ensures
            final(self).state() == walk(old(self).state(), *L),
        decreases L, 1int,
    {
        let at = &L.Metadata.SourceLocation;
        match &L.Kind {
            LayerKind::Program => self.WalkChildren(L),
            LayerKind::Function { Name, Params, ReturnType, .. } => {
                self.DeclareSymbol(
                    Name.as_str(),
                    SymbolKind::Function,
                    crate::ast::ty::clone_opt_type(ReturnType),
                    at.clone(),
                );
                self.scopes.Enter();
                let ghost s1 = self.state();
                let mut i: usize = 0;
                while i < Params.len()
                    invariant
                        i <= Params@.len(),
                        declare_params(s1, Params@, 0, at@) == declare_params(self.state(), Params@, i as nat, at@),
                    decreases Params@.len() - i,
                {
                    self.DeclareSymbol(
                        Params[i].Name.as_str(),
                        SymbolKind::Parameter,
                        Some(Params[i].Type_.clone()),
                        at.clone(),
                    );
                    i = i + 1;
                }
                self.WalkChildren(L);
                self.scopes.Leave();
            },
            LayerKind::VariableBinding { Name, TypeAnnotation, IsMutable, InitialValue, .. } => {
                if let Some(init) = InitialValue {
                    self.CheckExpr(init, at);
                }
                self.DeclareSymbol(
                    Name.as_str(),
                    SymbolKind::Variable { IsMutable: *IsMutable },
                    crate::ast::ty::clone_opt_type(TypeAnnotation),
                    at.clone(),
                );
            },
            LayerKind::Assignment { Target, Value } => {
                let ghost s0 = self.state();
                self.CheckExpr(Target, at);
                self.CheckExpr(Value, at);
                assert(s0.errors + expr_errors(s0.scopes, Target@, at@) + expr_errors(s0.scopes, Value@, at@) =~= s0.errors
                    + (expr_errors(s0.scopes, Target@, at@) + expr_errors(s0.scopes, Value@, at@)));
            },
            LayerKind::Expression(e) => self.CheckExpr(e, at),
            LayerKind::Block => {
                self.scopes.Enter();
                self.WalkChildren(L);
                self.scopes.Leave();
            },
            LayerKind::Conditional { Condition, .. } => {
                self.CheckExpr(Condition, at);
                self.WalkChildren(L);
            },
            LayerKind::Loop { .. } => {
                self.scopes.Enter();
                self.WalkChildren(L);
                self.scopes.Leave();
            },
            LayerKind::Return { Value } => {
                if let Some(v) = Value {
                    self.CheckExpr(v, at);
                }
            },
            LayerKind::Havoc { Target } => self.CheckExpr(Target, at),
            LayerKind::Interrupt { .. } => self.WalkChildren(L),
            LayerKind::Struct { Name, .. } => {
                self.DeclareSymbol(Name.as_str(), SymbolKind::Type, None, at.clone());
            },
            LayerKind::Enum { Name, .. } => {
                self.DeclareSymbol(Name.as_str(), SymbolKind::Type, None, at.clone());
            },
            LayerKind::Panic | LayerKind::Unreachable => {},
            _ => self.WalkChildren(L),
        }
    }
}

/// The name `n` occurs in `e`: as a variable, or as the name of a called
/// function, anywhere among its sub-expressions (a member's field name is
/// not a name to resolve).
pub open spec fn mentions(e: SpecExpression, n: Seq<char>) -> bool
    decreases e, 1int,
{
    match e {
        SpecExpression::Variable(m) => m == n,
        SpecExpression::BinaryOp { Lhs, Rhs, .. } => mentions(*Lhs, n) || mentions(*Rhs, n),
        SpecExpression::UnaryOp { Target, .. } => mentions(*Target, n),
        SpecExpression::FunctionCall { Name, Args } => Name == n || mentions_args(Args, Args.len(), n),
        SpecExpression::MemberAccess { Target, .. } => mentions(*Target, n),
        SpecExpression::IndexAccess { Target, Index } => mentions(*Target, n) || mentions(*Index, n),
        _ => false,
    }
}

/// The names occurring in `e`, as a predicate.
pub open spec fn names_in(e: SpecExpression) -> spec_fn(Seq<char>) -> bool {
    |n: Seq<char>| mentions(e, n)
}

/// The names occurring in the first `k` arguments, as a predicate.
pub open spec fn names_in_args(args: Seq<SpecExpression>, k: nat) -> spec_fn(Seq<char>) -> bool {
    |n: Seq<char>| mentions_args(args, k, n)
}

/// The one name `m`, as a predicate.
pub open spec fn just(m: Seq<char>) -> spec_fn(Seq<char>) -> bool {
    |n: Seq<char>| n == m
}

/// The name `n` occurs in one of the first `k` arguments.
pub open spec fn mentions_args(args: Seq<SpecExpression>, k: nat, n: Seq<char>) -> bool
    decreases args, k,
{
    if k == 0 || k > args.len() {
        false
    } else {
        mentions_args(args, (k - 1) as nat, n) || mentions(args[k - 1], n)
    }
}

/// A report of an undefined name at `at` that occurs in the checked text
/// and does not resolve.
pub open spec fn justified(x: SpecSemanticError, sc: ScopeMaps, at: SpecLocation, occurs: spec_fn(Seq<char>) -> bool) -> bool {
    match x {
        SpecSemanticError::UndefinedName { Name, At } => At == at && occurs(Name) && lookup(sc, Name) is None,
        _ => false,
    }
}

/// Each report among `errs` is an undefined name at `at` that occurs in the
/// checked text and does not resolve; and every such name is reported.
pub open spec fn reports_exactly(
    errs: Seq<SpecSemanticError>,
    sc: ScopeMaps,
    at: SpecLocation,
    occurs: spec_fn(Seq<char>) -> bool,
) -> bool {
    &&& forall|i: int| 0 <= i < errs.len() ==> justified(#[trigger] errs[i], sc, at, occurs)
    &&& forall|n: Seq<char>| #[trigger] occurs(n) && lookup(sc, n) is None ==> errs.contains(
        SpecSemanticError::UndefinedName { Name: n, At: at },
    )
}

/// Joining the reports of two parts reports exactly the names of either.
proof fn lemma_reports_join(
    a: Seq<SpecSemanticError>,
    b: Seq<SpecSemanticError>,
    sc: ScopeMaps,
    at: SpecLocation,
    fa: spec_fn(Seq<char>) -> bool,
    fb: spec_fn(Seq<char>) -> bool,
    f: spec_fn(Seq<char>) -> bool,
)
    requires
        reports_exactly(a, sc, at, fa),
        reports_exactly(b, sc, at, fb),
        forall|n: Seq<char>| #[trigger] f(n) == (fa(n) || fb(n)),
    ensures
        reports_exactly(a + b, sc, at, f),
{
    let ab = a + b;
    assert forall|i: int| 0 <= i < ab.len() implies justified(#[trigger] ab[i], sc, at, f) by {
        if i < a.len() {
            assert(ab[i] == a[i]);
        } else {
            assert(ab[i] == b[i - a.len()]);
        }
    }
    assert forall|n: Seq<char>| #[trigger] f(n) && lookup(sc, n) is None implies ab.contains(
        SpecSemanticError::UndefinedName { Name: n, At: at },
    ) by {
        let x = SpecSemanticError::UndefinedName { Name: n, At: at };
        if fa(n) {
            let j = choose|j: int| 0 <= j < a.len() && a[j] == x;
            assert(ab[j] == x);
        } else {
            assert(fb(n));
            let j = choose|j: int| 0 <= j < b.len() && b[j] == x;
            assert(ab[a.len() + j] == x);
        }
    }
}

/// Checking an expression reports exactly its unresolved names: every
/// name occurring in `e` (a variable or a called function, in any part of
/// it) that does not resolve in the scopes is reported as undefined at
/// `at`, and nothing else is reported.
pub proof fn lemma_expr_errors_exact(sc: ScopeMaps, e: SpecExpression, at: SpecLocation)
    ensures
        reports_exactly(expr_errors(sc, e, at), sc, at, names_in(e)),
    decreases e, 1int,
{
    let f = names_in(e);
    match e {
        SpecExpression::Variable(m) => {
            let errs = expr_errors(sc, e, at);
            assert(f(m));
            assert forall|i: int| 0 <= i < errs.len() implies justified(#[trigger] errs[i], sc, at, f) by {
                assert(errs[i] == SpecSemanticError::UndefinedName { Name: m, At: at });
            }
            assert forall|n: Seq<char>| #[trigger] f(n) && lookup(sc, n) is None implies errs.contains(
                SpecSemanticError::UndefinedName { Name: n, At: at },
            ) by {
                assert(errs[0] == SpecSemanticError::UndefinedName { Name: n, At: at });
            }
            assert(reports_exactly(errs, sc, at, f));
        },
        SpecExpression::BinaryOp { Lhs, Rhs, .. } => {
            lemma_expr_errors_exact(sc, *Lhs, at);
            lemma_expr_errors_exact(sc, *Rhs, at);
            lemma_reports_join(
                expr_errors(sc, *Lhs, at),
                expr_errors(sc, *Rhs, at),
                sc,
                at,
                names_in(*Lhs),
                names_in(*Rhs),
                f,
            );
        },
        SpecExpression::UnaryOp { Target, .. } => {
            lemma_expr_errors_exact(sc, *Target, at);
            assert(forall|n: Seq<char>| #[trigger] f(n) == names_in(*Target)(n));
        },
        SpecExpression::FunctionCall { Name, Args } => {
            let u = undefined(sc, Name, at);
            let is_name = just(Name);
            assert forall|n: Seq<char>| #[trigger] is_name(n) && lookup(sc, n) is None implies u.contains(
                SpecSemanticError::UndefinedName { Name: n, At: at },
            ) by {
                assert(u[0] == SpecSemanticError::UndefinedName { Name: n, At: at });
            }
            assert(reports_exactly(u, sc, at, is_name));
            lemma_args_errors_exact(sc, Args, Args.len(), at);
            lemma_reports_join(
                u,
                args_errors(sc, Args, Args.len(), at),
                sc,
                at,
                is_name,
                names_in_args(Args, Args.len()),
                f,
            );
        },
        SpecExpression::MemberAccess { Target, .. } => {
            lemma_expr_errors_exact(sc, *Target, at);
            assert(forall|n: Seq<char>| #[trigger] f(n) == names_in(*Target)(n));
        },
        SpecExpression::IndexAccess { Target, Index } => {
            lemma_expr_errors_exact(sc, *Target, at);
            lemma_expr_errors_exact(sc, *Index, at);
            lemma_reports_join(
                expr_errors(sc, *Target, at),
                expr_errors(sc, *Index, at),
                sc,
                at,
                names_in(*Target),
                names_in(*Index),
                f,
            );
        },
        _ => {},
    }
}

/// The arguments' reports are exactly their unresolved names.
proof fn lemma_args_errors_exact(sc: ScopeMaps, args: Seq<SpecExpression>, k: nat, at: SpecLocation)
    ensures
        reports_exactly(args_errors(sc, args, k, at), sc, at, names_in_args(args, k)),
    decreases args, k,
{
    if k == 0 || k > args.len() {
    } else {
        lemma_args_errors_exact(sc, args, (k - 1) as nat, at);
        lemma_expr_errors_exact(sc, args[k - 1], at);
        lemma_reports_join(
            args_errors(sc, args, (k - 1) as nat, at),
            expr_errors(sc, args[k - 1], at),
            sc,
            at,
            names_in_args(args, (k - 1) as nat),
            names_in(args[k - 1]),
            names_in_args(args, k),
        );
    }
}

} // verus!
