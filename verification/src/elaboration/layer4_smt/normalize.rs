//! Layer 4 (solver) — the normal-form language.
//!
//! To reason about `Expression`s they are lowered into a small, restricted
//! representation the solver understands:
//!
//! - `Term` — an arithmetic expression over integer variables and constants.
//! - `Atom` — a comparison between two `Term`s.
//! - `Prop` — a boolean combination of atoms.
//!
//! Anything outside that fragment (floats, strings, calls, member access,
//! pointers, arrays) does not lower, and the solver answers `Unknown`.

use vstd::prelude::*;
use crate::ast::{Expression, SpecExpression};
use crate::names::NameMap;
use crate::order::{insert_sorted, name_set, names_view, strictly_sorted};

verus! {

/// An arithmetic term. All variables are treated as integers.
#[derive(Debug, PartialEq, Eq, Hash)]
pub enum Term {
    Const(i64),
    Var(String),
    Add(Box<Term>, Box<Term>),
    Sub(Box<Term>, Box<Term>),
    Mul(Box<Term>, Box<Term>),
    Neg(Box<Term>),
}

/// A single atomic proposition — a comparison of two terms.
#[derive(Debug, PartialEq)]
pub enum Atom {
    Eq(Term, Term),
    Ne(Term, Term),
    Lt(Term, Term),
    Le(Term, Term),
    Gt(Term, Term),
    Ge(Term, Term),
}

/// A boolean formula.
#[derive(Debug, PartialEq)]
pub enum Prop {
    True,
    False,
    Atom(Atom),
    And(Vec<Prop>),
    Or(Vec<Prop>),
    Not(Box<Prop>),
}

/// The mathematical value of a [`Term`].
pub enum SpecTerm {
    Const(i64),
    Var(Seq<char>),
    Add(Box<SpecTerm>, Box<SpecTerm>),
    Sub(Box<SpecTerm>, Box<SpecTerm>),
    Mul(Box<SpecTerm>, Box<SpecTerm>),
    Neg(Box<SpecTerm>),
}

/// The mathematical value of an [`Atom`].
pub enum SpecAtom {
    Eq(SpecTerm, SpecTerm),
    Ne(SpecTerm, SpecTerm),
    Lt(SpecTerm, SpecTerm),
    Le(SpecTerm, SpecTerm),
    Gt(SpecTerm, SpecTerm),
    Ge(SpecTerm, SpecTerm),
}

/// The mathematical value of a [`Prop`].
pub enum SpecProp {
    True,
    False,
    Atom(SpecAtom),
    And(Seq<SpecProp>),
    Or(Seq<SpecProp>),
    Not(Box<SpecProp>),
}

pub open spec fn term_view(t: Term) -> SpecTerm
    decreases t,
{
    match t {
        Term::Const(n) => SpecTerm::Const(n),
        Term::Var(n) => SpecTerm::Var(n@),
        Term::Add(a, b) => SpecTerm::Add(Box::new(term_view(*a)), Box::new(term_view(*b))),
        Term::Sub(a, b) => SpecTerm::Sub(Box::new(term_view(*a)), Box::new(term_view(*b))),
        Term::Mul(a, b) => SpecTerm::Mul(Box::new(term_view(*a)), Box::new(term_view(*b))),
        Term::Neg(a) => SpecTerm::Neg(Box::new(term_view(*a))),
    }
}

impl View for Term {
    type V = SpecTerm;

    open spec fn view(&self) -> SpecTerm {
        term_view(*self)
    }
}

pub open spec fn atom_view(a: Atom) -> SpecAtom {
    match a {
        Atom::Eq(l, r) => SpecAtom::Eq(l@, r@),
        Atom::Ne(l, r) => SpecAtom::Ne(l@, r@),
        Atom::Lt(l, r) => SpecAtom::Lt(l@, r@),
        Atom::Le(l, r) => SpecAtom::Le(l@, r@),
        Atom::Gt(l, r) => SpecAtom::Gt(l@, r@),
        Atom::Ge(l, r) => SpecAtom::Ge(l@, r@),
    }
}

impl View for Atom {
    type V = SpecAtom;

    open spec fn view(&self) -> SpecAtom {
        atom_view(*self)
    }
}

pub open spec fn prop_view(p: Prop) -> SpecProp
    decreases p,
{
    match p {
        Prop::True => SpecProp::True,
        Prop::False => SpecProp::False,
        Prop::Atom(a) => SpecProp::Atom(a@),
        Prop::And(ps) => SpecProp::And(
            Seq::new(ps@.len(), |i: int| if 0 <= i < ps@.len() { prop_view(ps@[i]) } else { SpecProp::True }),
        ),
        Prop::Or(ps) => SpecProp::Or(
            Seq::new(ps@.len(), |i: int| if 0 <= i < ps@.len() { prop_view(ps@[i]) } else { SpecProp::True }),
        ),
        Prop::Not(q) => SpecProp::Not(Box::new(prop_view(*q))),
    }
}

impl View for Prop {
    type V = SpecProp;

    open spec fn view(&self) -> SpecProp {
        prop_view(*self)
    }
}

/// The views of a list of propositions.
pub open spec fn props_view(ps: Seq<Prop>) -> Seq<SpecProp> {
    Seq::new(ps.len(), |i: int| ps[i]@)
}

impl Clone for Term {
    fn clone(&self) -> (r: Self)
        ensures
            r == *self,
        decreases self,
    {
        match self {
            Term::Const(n) => Term::Const(*n),
            Term::Var(n) => Term::Var(n.clone()),
            Term::Add(a, b) => Term::Add(Box::new((**a).clone()), Box::new((**b).clone())),
            Term::Sub(a, b) => Term::Sub(Box::new((**a).clone()), Box::new((**b).clone())),
            Term::Mul(a, b) => Term::Mul(Box::new((**a).clone()), Box::new((**b).clone())),
            Term::Neg(a) => Term::Neg(Box::new((**a).clone())),
        }
    }
}

impl Clone for Atom {
    fn clone(&self) -> (r: Self)
        ensures
            r == *self,
    {
        match self {
            Atom::Eq(l, r) => Atom::Eq(l.clone(), r.clone()),
            Atom::Ne(l, r) => Atom::Ne(l.clone(), r.clone()),
            Atom::Lt(l, r) => Atom::Lt(l.clone(), r.clone()),
            Atom::Le(l, r) => Atom::Le(l.clone(), r.clone()),
            Atom::Gt(l, r) => Atom::Gt(l.clone(), r.clone()),
            Atom::Ge(l, r) => Atom::Ge(l.clone(), r.clone()),
        }
    }
}

/// Copies a list of propositions.
fn clone_props(ps: &Vec<Prop>) -> (r: Vec<Prop>)
    ensures
        props_view(r@) == props_view(ps@),
    decreases ps@, 0int,
{
    let mut out: Vec<Prop> = Vec::new();
    let mut i: usize = 0;
    while i < ps.len()
        invariant
            i <= ps@.len(),
            out@.len() == i,
            forall|j: int| 0 <= j < i ==> (#[trigger] out@[j])@ == ps@[j]@,
        decreases ps@.len() - i,
    {
        let c = clone_prop(&ps[i]);
        out.push(c);
        i = i + 1;
    }
    assert(props_view(out@) =~= props_view(ps@));
    out
}

/// Copies a proposition.
fn clone_prop(p: &Prop) -> (r: Prop)
    ensures
        r@ == p@,
    decreases p, 1int,
{
    match p {
        Prop::True => Prop::True,
        Prop::False => Prop::False,
        Prop::Atom(a) => Prop::Atom(a.clone()),
        Prop::And(ps) => {
            let c = clone_props(ps);
            let r = Prop::And(c);
            assert(r@ == p@) by {
                assert(props_view(c@) == props_view(ps@));
                assert(r@->And_0 =~= p@->And_0) by {
                    assert forall|i: int| 0 <= i < c@.len() implies r@->And_0[i] == p@->And_0[i] by {
                        assert(props_view(c@)[i] == props_view(ps@)[i]);
                    }
                }
            }
            r
        },
        Prop::Or(ps) => {
            let c = clone_props(ps);
            let r = Prop::Or(c);
            assert(r@ == p@) by {
                assert(props_view(c@) == props_view(ps@));
                assert(r@->Or_0 =~= p@->Or_0) by {
                    assert forall|i: int| 0 <= i < c@.len() implies r@->Or_0[i] == p@->Or_0[i] by {
                        assert(props_view(c@)[i] == props_view(ps@)[i]);
                    }
                }
            }
            r
        },
        Prop::Not(q) => Prop::Not(Box::new(clone_prop(q))),
    }
}

impl Clone for Prop {
    fn clone(&self) -> (r: Self)
        ensures
            r@ == self@,
    {
        clone_prop(self)
    }
}

// ------------------------------------------------------------------
// Expression → Term / Prop lowering
// ------------------------------------------------------------------

/// The term an arithmetic operator builds, if it is one of `+ - *`.
pub open spec fn arith_term(op: Seq<char>, l: SpecTerm, r: SpecTerm) -> Option<SpecTerm> {
    if op == "+"@ {
        Some(SpecTerm::Add(Box::new(l), Box::new(r)))
    } else if op == "-"@ {
        Some(SpecTerm::Sub(Box::new(l), Box::new(r)))
    } else if op == "*"@ {
        Some(SpecTerm::Mul(Box::new(l), Box::new(r)))
    } else {
        None
    }
}

/// The lowering of an expression believed to be numeric: literals,
/// booleans as 1 and 0, variables, `+ - *` and unary `-`; anything else
/// does not lower.
pub open spec fn to_term(e: SpecExpression) -> Option<SpecTerm>
    decreases e,
{
    match e {
        SpecExpression::LiteralInt(n) => Some(SpecTerm::Const(n)),
        SpecExpression::LiteralBool(b) => Some(SpecTerm::Const(if b { 1 } else { 0 })),
        SpecExpression::Variable(n) => Some(SpecTerm::Var(n)),
        SpecExpression::BinaryOp { Op, Lhs, Rhs } => match (to_term(*Lhs), to_term(*Rhs)) {
            (Some(l), Some(r)) => arith_term(Op, l, r),
            _ => None,
        },
        SpecExpression::UnaryOp { Op, Target } => if Op == "-"@ {
            match to_term(*Target) {
                Some(t) => Some(SpecTerm::Neg(Box::new(t))),
                None => None,
            }
        } else {
            None
        },
        _ => None,
    }
}

/// The comparison an operator names, if it is one.
pub open spec fn compare_atom(op: Seq<char>, l: SpecTerm, r: SpecTerm) -> Option<SpecAtom> {
    if op == "=="@ {
        Some(SpecAtom::Eq(l, r))
    } else if op == "!="@ {
        Some(SpecAtom::Ne(l, r))
    } else if op == "<"@ {
        Some(SpecAtom::Lt(l, r))
    } else if op == "<="@ {
        Some(SpecAtom::Le(l, r))
    } else if op == ">"@ {
        Some(SpecAtom::Gt(l, r))
    } else if op == ">="@ {
        Some(SpecAtom::Ge(l, r))
    } else {
        None
    }
}

/// The operator is one of the six comparisons.
pub open spec fn is_comparison(op: Seq<char>) -> bool {
    op == "=="@ || op == "!="@ || op == "<"@ || op == "<="@ || op == ">"@ || op == ">="@
}

/// The complementary comparison: `==`/`!=`, `<`/`>=`, `<=`/`>`.
pub open spec fn flip_atom(a: SpecAtom) -> SpecAtom {
    match a {
        SpecAtom::Eq(l, r) => SpecAtom::Ne(l, r),
        SpecAtom::Ne(l, r) => SpecAtom::Eq(l, r),
        SpecAtom::Lt(l, r) => SpecAtom::Ge(l, r),
        SpecAtom::Le(l, r) => SpecAtom::Gt(l, r),
        SpecAtom::Gt(l, r) => SpecAtom::Le(l, r),
        SpecAtom::Ge(l, r) => SpecAtom::Lt(l, r),
    }
}

/// The lowering of an expression believed to be boolean, negated when
/// `neg` holds: literal booleans, `&&` and `||` as two-element
/// conjunctions and disjunctions (swapped under negation, by De Morgan),
/// comparisons of terms (their complements under negation), `!` by
/// flipping the negation, and a bare variable `x` as `x != 0`. Negation is
/// pushed down to the atoms, so no `Not` is built.
pub open spec fn to_prop_signed(e: SpecExpression, neg: bool) -> Option<SpecProp>
    decreases e,
{
    match e {
        SpecExpression::LiteralBool(b) => Some(if b != neg { SpecProp::True } else { SpecProp::False }),
        SpecExpression::BinaryOp { Op, Lhs, Rhs } => if Op == "&&"@ || Op == "||"@ {
            match (to_prop_signed(*Lhs, neg), to_prop_signed(*Rhs, neg)) {
                (Some(l), Some(r)) => Some(
                    if (Op == "&&"@) != neg {
                        SpecProp::And(seq![l, r])
                    } else {
                        SpecProp::Or(seq![l, r])
                    },
                ),
                _ => None,
            }
        } else if is_comparison(Op) {
            match (to_term(*Lhs), to_term(*Rhs)) {
                (Some(l), Some(r)) => match compare_atom(Op, l, r) {
                    Some(a) => Some(SpecProp::Atom(if neg { flip_atom(a) } else { a })),
                    None => None,
                },
                _ => None,
            }
        } else {
            None
        },
        SpecExpression::UnaryOp { Op, Target } => if Op == "!"@ {
            to_prop_signed(*Target, !neg)
        } else {
            None
        },
        SpecExpression::Variable(n) => Some(
            SpecProp::Atom(
                if neg {
                    SpecAtom::Eq(SpecTerm::Var(n), SpecTerm::Const(0))
                } else {
                    SpecAtom::Ne(SpecTerm::Var(n), SpecTerm::Const(0))
                },
            ),
        ),
        _ => None,
    }
}

/// The lowering of an expression believed to be boolean.
pub open spec fn to_prop(e: SpecExpression) -> Option<SpecProp> {
    to_prop_signed(e, false)
}

/// The proposition has no `Not` node.
pub open spec fn not_free(p: SpecProp) -> bool
    decreases p,
{
    match p {
        SpecProp::Not(_) => false,
        SpecProp::And(ps) => forall|i: int| 0 <= i < ps.len() ==> not_free(#[trigger] ps[i]),
        SpecProp::Or(ps) => forall|i: int| 0 <= i < ps.len() ==> not_free(#[trigger] ps[i]),
        _ => true,
    }
}

/// Negating an optional truth value.
pub open spec fn opt_not(b: Option<bool>) -> Option<bool> {
    match b {
        Some(x) => Some(!x),
        None => None,
    }
}

/// The view of an optional term.
pub open spec fn opt_term_view(t: Option<Term>) -> Option<SpecTerm> {
    match t {
        Some(x) => Some(x@),
        None => None,
    }
}

/// The view of an optional proposition.
pub open spec fn opt_prop_view(p: Option<Prop>) -> Option<SpecProp> {
    match p {
        Some(x) => Some(x@),
        None => None,
    }
}

/// Whether the operator text is `lit`.
pub fn op_is(op: &String, lit: &str) -> (b: bool)
    ensures
        b == (op@ == lit@),
{
    let l = String::from_str(lit);
    *op == l
}

/// Lower an expression believed to be numeric; `None` where it uses a
/// feature the solver cannot reason about.
pub fn ToTerm(e: &Expression) -> (r: Option<Term>)
    ensures
        opt_term_view(r) == to_term(e@),
    decreases e,
{
    match e {
        Expression::LiteralInt(n) => Some(Term::Const(*n)),
        Expression::LiteralBool(b) => Some(Term::Const(if *b { 1 } else { 0 })),
        Expression::Variable(n) => Some(Term::Var(n.clone())),
        Expression::BinaryOp { Op, Lhs, Rhs } => {
            let l = ToTerm(Lhs)?;
            let r = ToTerm(Rhs)?;
            if op_is(Op, "+") {
                Some(Term::Add(Box::new(l), Box::new(r)))
            } else if op_is(Op, "-") {
                Some(Term::Sub(Box::new(l), Box::new(r)))
            } else if op_is(Op, "*") {
                Some(Term::Mul(Box::new(l), Box::new(r)))
            } else {
                None
            }
        },
        Expression::UnaryOp { Op, Target } => {
            if op_is(Op, "-") {
                let t = ToTerm(Target)?;
                Some(Term::Neg(Box::new(t)))
            } else {
                None
            }
        },
        _ => None,
    }
}

/// Lower an expression believed to be boolean; `None` on the cases the
/// solver does not handle.
pub fn ToProp(e: &Expression) -> (r: Option<Prop>)
    ensures
        opt_prop_view(r) == to_prop(e@),
        r matches Some(p) ==> not_free(p@),
{
    proof {
        lemma_lowering_not_free(e@, false);
    }
    ToPropSigned(e, false)
}

/// Lower an expression believed to be boolean, negated when `neg` holds.
fn ToPropSigned(e: &Expression, neg: bool) -> (r: Option<Prop>)
    ensures
        opt_prop_view(r) == to_prop_signed(e@, neg),
    decreases e,
{
    match e {
        Expression::LiteralBool(b) => Some(if *b != neg { Prop::True } else { Prop::False }),
        Expression::BinaryOp { Op, Lhs, Rhs } => {
            let is_and = op_is(Op, "&&");
            let is_or = op_is(Op, "||");
            if is_and || is_or {
                let l = ToPropSigned(Lhs, neg)?;
                let r = ToPropSigned(Rhs, neg)?;
                let ghost lv = l@;
                let ghost rv = r@;
                let conj = is_and != neg;
                let parts = vec![l, r];
                let p = if conj { Prop::And(parts) } else { Prop::Or(parts) };
                assert(p@ == (if conj { SpecProp::And(seq![lv, rv]) } else { SpecProp::Or(seq![lv, rv]) })) by {
                    if conj {
                        assert(p@->And_0 =~= seq![lv, rv]);
                    } else {
                        assert(p@->Or_0 =~= seq![lv, rv]);
                    }
                }
                return Some(p);
            }
            let is_cmp = op_is(Op, "==") || op_is(Op, "!=") || op_is(Op, "<") || op_is(Op, "<=")
                || op_is(Op, ">") || op_is(Op, ">=");
            if !is_cmp {
                return None;
            }
            let l = ToTerm(Lhs)?;
            let r = ToTerm(Rhs)?;
            let a = if op_is(Op, "==") {
                if neg { Atom::Ne(l, r) } else { Atom::Eq(l, r) }
            } else if op_is(Op, "!=") {
                if neg { Atom::Eq(l, r) } else { Atom::Ne(l, r) }
            } else if op_is(Op, "<") {
                if neg { Atom::Ge(l, r) } else { Atom::Lt(l, r) }
            } else if op_is(Op, "<=") {
                if neg { Atom::Gt(l, r) } else { Atom::Le(l, r) }
            } else if op_is(Op, ">") {
                if neg { Atom::Le(l, r) } else { Atom::Gt(l, r) }
            } else {
                if neg { Atom::Lt(l, r) } else { Atom::Ge(l, r) }
            };
            Some(Prop::Atom(a))
        },
        Expression::UnaryOp { Op, Target } => {
            if op_is(Op, "!") {
                ToPropSigned(Target, !neg)
            } else {
                None
            }
        },
        Expression::Variable(n) => Some(
            Prop::Atom(
                if neg {
                    Atom::Eq(Term::Var(n.clone()), Term::Const(0))
                } else {
                    Atom::Ne(Term::Var(n.clone()), Term::Const(0))
                },
            ),
        ),
        _ => None,
    }
}

/// Lowering builds no `Not` node, whatever the sign.
proof fn lemma_lowering_not_free(e: SpecExpression, neg: bool)
    ensures
        to_prop_signed(e, neg) matches Some(p) ==> not_free(p),
    decreases e,
{
    match e {
        SpecExpression::BinaryOp { Op, Lhs, Rhs } => {
            lemma_lowering_not_free(*Lhs, neg);
            lemma_lowering_not_free(*Rhs, neg);
            match (to_prop_signed(*Lhs, neg), to_prop_signed(*Rhs, neg)) {
                (Some(l), Some(r)) => {
                    let ps = seq![l, r];
                    assert(forall|i: int| 0 <= i < ps.len() ==> not_free(#[trigger] ps[i]));
                },
                _ => {},
            }
        },
        SpecExpression::UnaryOp { Op, Target } => lemma_lowering_not_free(*Target, !neg),
        _ => {},
    }
}

/// The complement of a comparison has the opposite truth value.
proof fn lemma_flip_atom(a: SpecAtom, env: Map<Seq<char>, i64>)
    ensures
        eval_atom(flip_atom(a), env) == opt_not(eval_atom(a, env)),
{
}

/// Lowering with the opposite sign gives the opposite truth value, under
/// every assignment.
proof fn lemma_lowering_sign(e: SpecExpression, env: Map<Seq<char>, i64>)
    ensures
        (to_prop_signed(e, true) is Some) == (to_prop_signed(e, false) is Some),
        to_prop_signed(e, false) is Some ==> eval_prop(to_prop_signed(e, true)->0, env) == opt_not(
            eval_prop(to_prop_signed(e, false)->0, env),
        ),
    decreases e,
{
    match e {
        SpecExpression::BinaryOp { Op, Lhs, Rhs } => {
            lemma_lowering_sign(*Lhs, env);
            lemma_lowering_sign(*Rhs, env);
            if (Op == "&&"@ || Op == "||"@) && to_prop_signed(*Lhs, false) is Some && to_prop_signed(*Rhs, false) is Some {
                let l = to_prop_signed(*Lhs, false)->0;
                let r = to_prop_signed(*Rhs, false)->0;
                let nl = to_prop_signed(*Lhs, true)->0;
                let nr = to_prop_signed(*Rhs, true)->0;
                let ps = seq![l, r];
                let ns = seq![nl, nr];
                assert(eval_and(ps, 2, env) == Some(true));
                assert(eval_or(ps, 2, env) == Some(false));
                assert(eval_and(ns, 2, env) == Some(true));
                assert(eval_or(ns, 2, env) == Some(false));
                assert(eval_and(ps, 1, env) == match eval_prop(r, env) { Some(true) => Some(true), other => other });
                assert(eval_or(ps, 1, env) == match eval_prop(r, env) { Some(false) => Some(false), other => other });
                assert(eval_and(ns, 1, env) == match eval_prop(nr, env) { Some(true) => Some(true), other => other });
                assert(eval_or(ns, 1, env) == match eval_prop(nr, env) { Some(false) => Some(false), other => other });
                assert(eval_and(ps, 0, env) == match eval_prop(l, env) { Some(true) => eval_and(ps, 1, env), other => other });
                assert(eval_or(ps, 0, env) == match eval_prop(l, env) { Some(false) => eval_or(ps, 1, env), other => other });
                assert(eval_and(ns, 0, env) == match eval_prop(nl, env) { Some(true) => eval_and(ns, 1, env), other => other });
                assert(eval_or(ns, 0, env) == match eval_prop(nl, env) { Some(false) => eval_or(ns, 1, env), other => other });
            } else if is_comparison(Op) {
                match (to_term(*Lhs), to_term(*Rhs)) {
                    (Some(l), Some(r)) => match compare_atom(Op, l, r) {
                        Some(a) => lemma_flip_atom(a, env),
                        None => {},
                    },
                    _ => {},
                }
            }
        },
        SpecExpression::UnaryOp { Op, Target } => lemma_lowering_sign(*Target, env),
        _ => {},
    }
}

/// Negation is pushed down to the atoms: the lowering of `!e` has no `Not`
/// node, lowers exactly when `e` does, and under every assignment has the
/// opposite truth value of `e`'s lowering.
pub proof fn lemma_negation_pushed_down(e: SpecExpression, env: Map<Seq<char>, i64>)
    ensures
        ({
            let ne = SpecExpression::UnaryOp { Op: "!"@, Target: Box::new(e) };
            &&& to_prop(ne) matches Some(p) ==> not_free(p)
            &&& (to_prop(ne) is Some) == (to_prop(e) is Some)
            &&& to_prop(e) is Some ==> eval_prop(to_prop(ne)->0, env) == opt_not(eval_prop(to_prop(e)->0, env))
        }),
{
    lemma_lowering_not_free(e, true);
    lemma_lowering_sign(e, env);
}

// ------------------------------------------------------------------
// Evaluation under an assignment
// ------------------------------------------------------------------

/// Negation that wraps at the boundary: `-i64::MIN` is `i64::MIN`.
pub open spec fn wrap_neg(x: i64) -> i64 {
    if x == i64::MIN {
        x
    } else {
        (-x) as i64
    }
}

/// The value of a term under an assignment, with wrapping arithmetic;
/// `None` when it uses a variable the assignment does not give.
pub open spec fn eval_term(t: SpecTerm, env: Map<Seq<char>, i64>) -> Option<i64>
    decreases t,
{
    match t {
        SpecTerm::Const(n) => Some(n),
        SpecTerm::Var(n) => if env.contains_key(n) {
            Some(env[n])
        } else {
            None
        },
        SpecTerm::Add(a, b) => match (eval_term(*a, env), eval_term(*b, env)) {
            (Some(x), Some(y)) => Some(vstd::wrapping::i64_specs::wrapping_add(x, y)),
            _ => None,
        },
        SpecTerm::Sub(a, b) => match (eval_term(*a, env), eval_term(*b, env)) {
            (Some(x), Some(y)) => Some(vstd::wrapping::i64_specs::wrapping_sub(x, y)),
            _ => None,
        },
        SpecTerm::Mul(a, b) => match (eval_term(*a, env), eval_term(*b, env)) {
            (Some(x), Some(y)) => Some(vstd::wrapping::i64_specs::wrapping_mul(x, y)),
            _ => None,
        },
        SpecTerm::Neg(a) => match eval_term(*a, env) {
            Some(x) => Some(wrap_neg(x)),
            None => None,
        },
    }
}

/// The two sides of an atom.
pub open spec fn atom_sides(a: SpecAtom) -> (SpecTerm, SpecTerm) {
    match a {
        SpecAtom::Eq(l, r) => (l, r),
        SpecAtom::Ne(l, r) => (l, r),
        SpecAtom::Lt(l, r) => (l, r),
        SpecAtom::Le(l, r) => (l, r),
        SpecAtom::Gt(l, r) => (l, r),
        SpecAtom::Ge(l, r) => (l, r),
    }
}

/// The truth of an atom under an assignment; `None` when a side has no
/// value.
pub open spec fn eval_atom(a: SpecAtom, env: Map<Seq<char>, i64>) -> Option<bool> {
    match (eval_term(atom_sides(a).0, env), eval_term(atom_sides(a).1, env)) {
        (Some(l), Some(r)) => Some(
            match a {
                SpecAtom::Eq(_, _) => l == r,
                SpecAtom::Ne(_, _) => l != r,
                SpecAtom::Lt(_, _) => l < r,
                SpecAtom::Le(_, _) => l <= r,
                SpecAtom::Gt(_, _) => l > r,
                SpecAtom::Ge(_, _) => l >= r,
            },
        ),
        _ => None,
    }
}

/// The truth of a proposition under an assignment. A conjunction is read
/// left to right and stops at the first part that is false or has no
/// value; a disjunction stops at the first part that is true or has no
/// value.
pub open spec fn eval_prop(p: SpecProp, env: Map<Seq<char>, i64>) -> Option<bool>
    decreases p, 0int,
{
    match p {
        SpecProp::True => Some(true),
        SpecProp::False => Some(false),
        SpecProp::Atom(a) => eval_atom(a, env),
        SpecProp::And(ps) => eval_and(ps, 0, env),
        SpecProp::Or(ps) => eval_or(ps, 0, env),
        SpecProp::Not(q) => match eval_prop(*q, env) {
            Some(b) => Some(!b),
            None => None,
        },
    }
}

/// The conjunction of the parts from `i` on.
pub open spec fn eval_and(ps: Seq<SpecProp>, i: nat, env: Map<Seq<char>, i64>) -> Option<bool>
    decreases ps, ps.len() - i,
{
    if i >= ps.len() {
        Some(true)
    } else {
        match eval_prop(ps[i as int], env) {
            Some(true) => eval_and(ps, i + 1, env),
            other => other,
        }
    }
}

/// The disjunction of the parts from `i` on.
pub open spec fn eval_or(ps: Seq<SpecProp>, i: nat, env: Map<Seq<char>, i64>) -> Option<bool>
    decreases ps, ps.len() - i,
{
    if i >= ps.len() {
        Some(false)
    } else {
        match eval_prop(ps[i as int], env) {
            Some(false) => eval_or(ps, i + 1, env),
            other => other,
        }
    }
}

/// Evaluate a term under a variable assignment.
pub fn EvalTerm(t: &Term, env: &NameMap<i64>) -> (r: Option<i64>)
    ensures
        r == eval_term(t@, env@),
    decreases t,
{
    match t {
        Term::Const(n) => Some(*n),
        Term::Var(n) => match env.Get(n.as_str()) {
            Some(v) => Some(*v),
            None => None,
        },
        Term::Add(a, b) => {
            let x = EvalTerm(a, env)?;
            let y = EvalTerm(b, env)?;
            Some(x.wrapping_add(y))
        },
        Term::Sub(a, b) => {
            let x = EvalTerm(a, env)?;
            let y = EvalTerm(b, env)?;
            Some(x.wrapping_sub(y))
        },
        Term::Mul(a, b) => {
            let x = EvalTerm(a, env)?;
            let y = EvalTerm(b, env)?;
            Some(x.wrapping_mul(y))
        },
        Term::Neg(a) => {
            let x = EvalTerm(a, env)?;
            Some(if x == i64::MIN { x } else { -x })
        },
    }
}

/// Evaluate an atom under a variable assignment.
pub fn EvalAtom(a: &Atom, env: &NameMap<i64>) -> (r: Option<bool>)
    ensures
        r == eval_atom(a@, env@),
{
    let (l, r) = match a {
        Atom::Eq(l, r) => (l, r),
        Atom::Ne(l, r) => (l, r),
        Atom::Lt(l, r) => (l, r),
        Atom::Le(l, r) => (l, r),
        Atom::Gt(l, r) => (l, r),
        Atom::Ge(l, r) => (l, r),
    };
    let x = EvalTerm(l, env)?;
    let y = EvalTerm(r, env)?;
    Some(
        match a {
            Atom::Eq(_, _) => x == y,
            Atom::Ne(_, _) => x != y,
            Atom::Lt(_, _) => x < y,
            Atom::Le(_, _) => x <= y,
            Atom::Gt(_, _) => x > y,
            Atom::Ge(_, _) => x >= y,
        },
    )
}

/// Evaluate a full proposition under an assignment.
#[verifier::loop_isolation(false)]
pub fn EvalProp(p: &Prop, env: &NameMap<i64>) -> (r: Option<bool>)
    ensures
        r == eval_prop(p@, env@),
    decreases p,
{
    match p {
        Prop::True => Some(true),
        Prop::False => Some(false),
        Prop::Atom(a) => EvalAtom(a, env),
        Prop::And(ps) => {
            let ghost sp = p@->And_0;
            let mut i: usize = 0;
            while i < ps.len()
                invariant
                    i <= ps@.len(),
                    sp.len() == ps@.len(),
                    forall|j: int| 0 <= j < ps@.len() ==> sp[j] == (#[trigger] ps@[j])@,
                    eval_and(sp, 0, env@) == eval_and(sp, i as nat, env@),
                decreases ps@.len() - i,
            {
                proof {
                    broadcast use vstd::std_specs::vec::axiom_vec_index_decreases;
                    assert(decreases_to!(*ps => ps@[i as int]));
                    assert(decreases_to!(*p => *ps));
                }
                let v = EvalProp(&ps[i], env)?;
                if !v {
                    return Some(false);
                }
                i = i + 1;
            }
            Some(true)
        },
        Prop::Or(ps) => {
            let ghost sp = p@->Or_0;
            let mut i: usize = 0;
            while i < ps.len()
                invariant
                    i <= ps@.len(),
                    sp.len() == ps@.len(),
                    forall|j: int| 0 <= j < ps@.len() ==> sp[j] == (#[trigger] ps@[j])@,
                    eval_or(sp, 0, env@) == eval_or(sp, i as nat, env@),
                decreases ps@.len() - i,
            {
                proof {
                    broadcast use vstd::std_specs::vec::axiom_vec_index_decreases;
                    assert(decreases_to!(*ps => ps@[i as int]));
                    assert(decreases_to!(*p => *ps));
                }
                let v = EvalProp(&ps[i], env)?;
                if v {
                    return Some(true);
                }
                i = i + 1;
            }
            Some(false)
        },
        Prop::Not(q) => {
            let v = EvalProp(q, env)?;
            Some(!v)
        },
    }
}

// ------------------------------------------------------------------
// Variables
// ------------------------------------------------------------------

/// The variables a term mentions.
pub open spec fn term_vars(t: SpecTerm) -> Set<Seq<char>>
    decreases t,
{
    match t {
        SpecTerm::Const(_) => Set::empty(),
        SpecTerm::Var(n) => set![n],
        SpecTerm::Add(a, b) => term_vars(*a) + term_vars(*b),
        SpecTerm::Sub(a, b) => term_vars(*a) + term_vars(*b),
        SpecTerm::Mul(a, b) => term_vars(*a) + term_vars(*b),
        SpecTerm::Neg(a) => term_vars(*a),
    }
}

/// The variables a proposition mentions.
pub open spec fn prop_vars(p: SpecProp) -> Set<Seq<char>>
    decreases p, 0int,
{
    match p {
        SpecProp::True => Set::empty(),
        SpecProp::False => Set::empty(),
        SpecProp::Atom(a) => term_vars(atom_sides(a).0) + term_vars(atom_sides(a).1),
        SpecProp::And(ps) => vars_prefix(ps, ps.len()),
        SpecProp::Or(ps) => vars_prefix(ps, ps.len()),
        SpecProp::Not(q) => prop_vars(*q),
    }
}

/// The variables the first `n` propositions mention.
pub open spec fn vars_prefix(ps: Seq<SpecProp>, n: nat) -> Set<Seq<char>>
    decreases ps, n,
{
    if n == 0 || n > ps.len() {
        Set::empty()
    } else {
        vars_prefix(ps, (n - 1) as nat) + prop_vars(ps[n - 1])
    }
}

/// Adds the variables of `t` to a sorted list of names.
fn CollectTerm(t: &Term, out: &mut Vec<String>)
    requires
        strictly_sorted(names_view(old(out)@)),
    ensures
        strictly_sorted(names_view(final(out)@)),
        name_set(names_view(final(out)@)) == name_set(names_view(old(out)@)) + term_vars(t@),
    decreases t,
{
    let ghost s0 = name_set(names_view(out@));
    match t {
        Term::Const(_) => {
            assert(s0 + term_vars(t@) =~= s0);
        },
        Term::Var(n) => {
            insert_sorted(out, n.as_str());
            assert(s0.insert(n@) =~= s0 + term_vars(t@));
        },
        Term::Add(a, b) | Term::Sub(a, b) | Term::Mul(a, b) => {
            CollectTerm(a, out);
            CollectTerm(b, out);
            assert(s0 + term_vars(a@) + term_vars(b@) =~= s0 + term_vars(t@));
        },
        Term::Neg(a) => {
            CollectTerm(a, out);
        },
    }
}

/// Adds the variables of `p` to a sorted list of names.
#[verifier::loop_isolation(false)]
fn CollectProp(p: &Prop, out: &mut Vec<String>)
    requires
        strictly_sorted(names_view(old(out)@)),
    ensures
        strictly_sorted(names_view(final(out)@)),
        name_set(names_view(final(out)@)) == name_set(names_view(old(out)@)) + prop_vars(p@),
    decreases p,
{
    let ghost s0 = name_set(names_view(out@));
    match p {
        Prop::True | Prop::False => {
            assert(s0 + prop_vars(p@) =~= s0);
        },
        Prop::Atom(a) => {
            let (l, r) = match a {
                Atom::Eq(l, r) => (l, r),
                Atom::Ne(l, r) => (l, r),
                Atom::Lt(l, r) => (l, r),
                Atom::Le(l, r) => (l, r),
                Atom::Gt(l, r) => (l, r),
                Atom::Ge(l, r) => (l, r),
            };
            CollectTerm(l, out);
            CollectTerm(r, out);
            assert(s0 + term_vars(l@) + term_vars(r@) =~= s0 + prop_vars(p@));
        },
        Prop::And(ps) | Prop::Or(ps) => {
            let ghost sp = if p is And { p@->And_0 } else { p@->Or_0 };
            assert(prop_vars(p@) == vars_prefix(sp, sp.len()));
            let mut i: usize = 0;
            assert(s0 + vars_prefix(sp, 0) =~= s0);
            while i < ps.len()
                invariant
                    i <= ps@.len(),
                    sp.len() == ps@.len(),
                    forall|j: int| 0 <= j < ps@.len() ==> sp[j] == (#[trigger] ps@[j])@,
                    strictly_sorted(names_view(out@)),
                    name_set(names_view(out@)) == s0 + vars_prefix(sp, i as nat),
                decreases ps@.len() - i,
            {
                proof {
                    broadcast use vstd::std_specs::vec::axiom_vec_index_decreases;
                    assert(decreases_to!(*ps => ps@[i as int]));
                    assert(decreases_to!(*p => *ps));
                }
                CollectProp(&ps[i], out);
                assert(s0 + vars_prefix(sp, i as nat) + prop_vars(sp[i as int]) =~= s0 + vars_prefix(
                    sp,
                    (i + 1) as nat,
                ));
                i = i + 1;
            }
        },
        Prop::Not(q) => {
            CollectProp(q, out);
        },
    }
}

/// Every variable name a proposition mentions, sorted, each once. Used by
/// the solver to know which variables to search over.
pub fn VarsOf(p: &Prop) -> (r: Vec<String>)
    ensures
        strictly_sorted(names_view(r@)),
        name_set(names_view(r@)) == prop_vars(p@),
{
    let mut out: Vec<String> = Vec::new();
    assert(names_view(out@) =~= Seq::<Seq<char>>::empty());
    assert(name_set(names_view(out@)) =~= Set::<Seq<char>>::empty());
    CollectProp(p, &mut out);
    assert(Set::<Seq<char>>::empty() + prop_vars(p@) =~= prop_vars(p@));
    out
}

/// Two assignments agree on the names of `s`: each gives a value to the
/// same ones, and the same value.
pub open spec fn agree_on(s: Set<Seq<char>>, e1: Map<Seq<char>, i64>, e2: Map<Seq<char>, i64>) -> bool {
    forall|x: Seq<char>|
        #[trigger] s.contains(x) ==> (e1.contains_key(x) == e2.contains_key(x) && (e1.contains_key(x) ==> e1[x]
            == e2[x]))
}

/// A term's value depends only on the values of its variables.
pub proof fn lemma_term_agree(t: SpecTerm, e1: Map<Seq<char>, i64>, e2: Map<Seq<char>, i64>)
    requires
        agree_on(term_vars(t), e1, e2),
    ensures
        eval_term(t, e1) == eval_term(t, e2),
    decreases t,
{
    match t {
        SpecTerm::Var(n) => {
            assert(term_vars(t).contains(n));
        },
        SpecTerm::Add(a, b) | SpecTerm::Sub(a, b) | SpecTerm::Mul(a, b) => {
            assert(agree_on(term_vars(*a), e1, e2)) by {
                assert forall|x: Seq<char>| #[trigger] term_vars(*a).contains(x) implies term_vars(t).contains(x) by {}
            }
            assert(agree_on(term_vars(*b), e1, e2)) by {
                assert forall|x: Seq<char>| #[trigger] term_vars(*b).contains(x) implies term_vars(t).contains(x) by {}
            }
            lemma_term_agree(*a, e1, e2);
            lemma_term_agree(*b, e1, e2);
        },
        SpecTerm::Neg(a) => {
            lemma_term_agree(*a, e1, e2);
        },
        _ => {},
    }
}

/// The variables of one of the first `n` propositions are among theirs.
proof fn lemma_vars_prefix_has(ps: Seq<SpecProp>, n: nat, k: int)
    requires
        0 <= k < n <= ps.len(),
    ensures
        prop_vars(ps[k]).subset_of(vars_prefix(ps, n)),
    decreases n,
{
    if k < n - 1 {
        lemma_vars_prefix_has(ps, (n - 1) as nat, k);
    }
}

/// A proposition's truth depends only on the values of its variables.
pub proof fn lemma_prop_agree(p: SpecProp, e1: Map<Seq<char>, i64>, e2: Map<Seq<char>, i64>)
    requires
        agree_on(prop_vars(p), e1, e2),
    ensures
        eval_prop(p, e1) == eval_prop(p, e2),
    decreases p, 0int,
{
    match p {
        SpecProp::Atom(a) => {
            let (l, r) = atom_sides(a);
            assert(agree_on(term_vars(l), e1, e2)) by {
                assert forall|x: Seq<char>| #[trigger] term_vars(l).contains(x) implies prop_vars(p).contains(x) by {}
            }
            assert(agree_on(term_vars(r), e1, e2)) by {
                assert forall|x: Seq<char>| #[trigger] term_vars(r).contains(x) implies prop_vars(p).contains(x) by {}
            }
            lemma_term_agree(l, e1, e2);
            lemma_term_agree(r, e1, e2);
        },
        SpecProp::And(ps) => {
            lemma_parts_agree(ps, 0, e1, e2);
        },
        SpecProp::Or(ps) => {
            lemma_parts_agree(ps, 0, e1, e2);
        },
        SpecProp::Not(q) => {
            lemma_prop_agree(*q, e1, e2);
        },
        _ => {},
    }
}

/// The conjunction and disjunction of the parts from `i` on depend only on
/// the values of the parts' variables.
proof fn lemma_parts_agree(ps: Seq<SpecProp>, i: nat, e1: Map<Seq<char>, i64>, e2: Map<Seq<char>, i64>)
    requires
        agree_on(vars_prefix(ps, ps.len()), e1, e2),
    ensures
        eval_and(ps, i, e1) == eval_and(ps, i, e2),
        eval_or(ps, i, e1) == eval_or(ps, i, e2),
    decreases ps, ps.len() - i,
{
    if i < ps.len() {
        lemma_vars_prefix_has(ps, ps.len(), i as int);
        assert(agree_on(prop_vars(ps[i as int]), e1, e2)) by {
            assert forall|x: Seq<char>| #[trigger] prop_vars(ps[i as int]).contains(x) implies vars_prefix(
                ps,
                ps.len(),
            ).contains(x) by {}
        }
        lemma_prop_agree(ps[i as int], e1, e2);
        lemma_parts_agree(ps, i + 1, e1, e2);
    }
}

/// A term mentions finitely many variables.
pub proof fn lemma_term_vars_finite(t: SpecTerm)
    ensures
        term_vars(t).finite(),
    decreases t,
{
    match t {
        SpecTerm::Add(a, b) | SpecTerm::Sub(a, b) | SpecTerm::Mul(a, b) => {
            lemma_term_vars_finite(*a);
            lemma_term_vars_finite(*b);
        },
        SpecTerm::Neg(a) => lemma_term_vars_finite(*a),
        _ => {},
    }
}

/// A proposition mentions finitely many variables.
pub proof fn lemma_prop_vars_finite(p: SpecProp)
    ensures
        prop_vars(p).finite(),
    decreases p, 0int,
{
    match p {
        SpecProp::Atom(a) => {
            lemma_term_vars_finite(atom_sides(a).0);
            lemma_term_vars_finite(atom_sides(a).1);
        },
        SpecProp::And(ps) => lemma_vars_prefix_finite(ps, ps.len()),
        SpecProp::Or(ps) => lemma_vars_prefix_finite(ps, ps.len()),
        SpecProp::Not(q) => lemma_prop_vars_finite(*q),
        _ => {},
    }
}

proof fn lemma_vars_prefix_finite(ps: Seq<SpecProp>, n: nat)
    ensures
        vars_prefix(ps, n).finite(),
    decreases ps, n,
{
    if n > 0 && n <= ps.len() {
        lemma_vars_prefix_finite(ps, (n - 1) as nat);
        lemma_prop_vars_finite(ps[n - 1]);
    }
}

} // verus!
