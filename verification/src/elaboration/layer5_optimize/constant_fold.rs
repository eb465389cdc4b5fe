//! Layer 5 (optimization) — constant folding.
//!
//! Evaluates the constant sub-expressions of the tree: an operator whose
//! operands are literals becomes a literal.

use vstd::prelude::*;
use crate::ast::{Expression, Layer, LayerKind, SpecExpression};
use crate::ast::copy::{copy_hooks, copy_kind, hook_copy, kind_copy, opt_expr_view, rebuild_layer, same_flags};
use crate::ast::ty::{clone_opt_type, opt_type_view};
use crate::elaboration::layer4_smt::normalize::{
    SpecProp, SpecTerm, arith_term, compare_atom, lemma_negation_pushed_down, eval_and, eval_atom, eval_or, eval_prop, eval_term, is_comparison,
    op_is, to_prop, to_term, wrap_neg,
};

verus! {

/// `a / b`, truncating, with `i64::MIN / -1` wrapping to `i64::MIN`.
pub open spec fn wrap_div(a: i64, b: i64) -> i64 {
    match a.checked_div(b) {
        Some(q) => q,
        None => a,
    }
}

/// `a % b`, with `i64::MIN % -1` giving 0.
pub open spec fn wrap_rem(a: i64, b: i64) -> i64 {
    match a.checked_rem(b) {
        Some(r) => r,
        None => 0,
    }
}

/// The value of an integer operator on two integer literals, with wrapping
/// arithmetic; division and remainder by zero have none.
pub open spec fn int_op(op: Seq<char>, a: i64, b: i64) -> Option<i64> {
    if op == "+"@ {
        Some(vstd::wrapping::i64_specs::wrapping_add(a, b))
    } else if op == "-"@ {
        Some(vstd::wrapping::i64_specs::wrapping_sub(a, b))
    } else if op == "*"@ {
        Some(vstd::wrapping::i64_specs::wrapping_mul(a, b))
    } else if op == "/"@ && b != 0 {
        Some(wrap_div(a, b))
    } else if op == "%"@ && b != 0 {
        Some(wrap_rem(a, b))
    } else {
        None
    }
}

/// The truth of a comparison of two integer literals.
pub open spec fn int_cmp(op: Seq<char>, a: i64, b: i64) -> Option<bool> {
    if op == "=="@ {
        Some(a == b)
    } else if op == "!="@ {
        Some(a != b)
    } else if op == "<"@ {
        Some(a < b)
    } else if op == "<="@ {
        Some(a <= b)
    } else if op == ">"@ {
        Some(a > b)
    } else if op == ">="@ {
        Some(a >= b)
    } else {
        None
    }
}

/// A binary operator over folded operands: integer arithmetic and
/// comparisons of two integer literals, and `==` and `!=` of two boolean
/// literals, become literals; `&&` and `||` with a literal left side
/// short-circuit; anything else stays.
pub open spec fn fold_binary(op: Seq<char>, l: SpecExpression, r: SpecExpression) -> SpecExpression {
    let kept = SpecExpression::BinaryOp { Op: op, Lhs: Box::new(l), Rhs: Box::new(r) };
    if l matches SpecExpression::LiteralInt(a) && r matches SpecExpression::LiteralInt(b) && int_op(op, a, b) is Some {
        SpecExpression::LiteralInt(int_op(op, l->LiteralInt_0, r->LiteralInt_0)->0)
    } else if l matches SpecExpression::LiteralInt(a) && r matches SpecExpression::LiteralInt(b) && int_cmp(op, a, b) is Some {
        SpecExpression::LiteralBool(int_cmp(op, l->LiteralInt_0, r->LiteralInt_0)->0)
    } else if l is LiteralBool && r is LiteralBool && op == "=="@ {
        SpecExpression::LiteralBool(l->LiteralBool_0 == r->LiteralBool_0)
    } else if l is LiteralBool && r is LiteralBool && op == "!="@ {
        SpecExpression::LiteralBool(l->LiteralBool_0 != r->LiteralBool_0)
    } else if op == "&&"@ && l == SpecExpression::LiteralBool(false) {
        SpecExpression::LiteralBool(false)
    } else if op == "&&"@ && l == SpecExpression::LiteralBool(true) {
        r
    } else if op == "||"@ && l == SpecExpression::LiteralBool(true) {
        SpecExpression::LiteralBool(true)
    } else if op == "||"@ && l == SpecExpression::LiteralBool(false) {
        r
    } else {
        kept
    }
}

/// A unary operator over a folded operand: `-` of an integer literal and
/// `!` of a boolean literal become literals.
pub open spec fn fold_unary(op: Seq<char>, t: SpecExpression) -> SpecExpression {
    if op == "-"@ && t is LiteralInt {
        SpecExpression::LiteralInt(wrap_neg(t->LiteralInt_0))
    } else if op == "!"@ && t is LiteralBool {
        SpecExpression::LiteralBool(!t->LiteralBool_0)
    } else {
        SpecExpression::UnaryOp { Op: op, Target: Box::new(t) }
    }
}

/// The folded form of an expression, bottom-up; call arguments are folded
/// too.
pub open spec fn fold_expr(e: SpecExpression) -> SpecExpression
    decreases e,
{
    match e {
        SpecExpression::BinaryOp { Op, Lhs, Rhs } => fold_binary(Op, fold_expr(*Lhs), fold_expr(*Rhs)),
        SpecExpression::UnaryOp { Op, Target } => fold_unary(Op, fold_expr(*Target)),
        SpecExpression::FunctionCall { Name, Args } => SpecExpression::FunctionCall {
            Name,
            Args: Seq::new(Args.len(), |i: int| if 0 <= i < Args.len() { fold_expr(Args[i]) } else { Args[i] }),
        },
        _ => e,
    }
}

/// The folded form of an optional expression.
pub open spec fn fold_opt(e: Option<SpecExpression>) -> Option<SpecExpression> {
    match e {
        Some(x) => Some(fold_expr(x)),
        None => None,
    }
}

/// `b` is `a` with the expressions of an expression statement, an
/// assignment, a binding's initializer, a return value or a condition
/// folded; other kinds are copied.
pub open spec fn kind_folded(a: LayerKind, b: LayerKind) -> bool {
    match (a, b) {
        (LayerKind::Expression(x), LayerKind::Expression(y)) => y@ == fold_expr(x@),
        (LayerKind::Assignment { Target: t1, Value: v1 }, LayerKind::Assignment { Target: t2, Value: v2 }) => t2@
            == fold_expr(t1@) && v2@ == fold_expr(v1@),
        (
            LayerKind::VariableBinding { Name: n1, TypeAnnotation: t1, IsMutable: m1, Hooks: h1, InitialValue: v1 },
            LayerKind::VariableBinding { Name: n2, TypeAnnotation: t2, IsMutable: m2, Hooks: h2, InitialValue: v2 },
        ) => n1@ == n2@ && opt_type_view(t1) == opt_type_view(t2) && m1 == m2 && h1@.len() == h2@.len() && (forall|
            i: int,
        | 0 <= i < h1@.len() ==> hook_copy(#[trigger] h1@[i], h2@[i])) && opt_expr_view(v2) == fold_opt(
            opt_expr_view(v1),
        ),
        (LayerKind::Return { Value: v1 }, LayerKind::Return { Value: v2 }) => opt_expr_view(v2) == fold_opt(
            opt_expr_view(v1),
        ),
        (
            LayerKind::Conditional { Condition: c1, HasElse: h1 },
            LayerKind::Conditional { Condition: c2, HasElse: h2 },
        ) => c2@ == fold_expr(c1@) && h1 == h2,
        (LayerKind::Expression(_), _) => false,
        (LayerKind::Assignment { .. }, _) => false,
        (LayerKind::VariableBinding { .. }, _) => false,
        (LayerKind::Return { .. }, _) => false,
        (LayerKind::Conditional { .. }, _) => false,
        _ => kind_copy(a, b),
    }
}

/// `b` is `a` with every layer's expressions folded.
pub open spec fn layer_folded(a: Layer, b: Layer) -> bool
    decreases a,
{
    &&& a.Id == b.Id
    &&& a.Metadata.SourceLocation@ == b.Metadata.SourceLocation@
    &&& same_flags(a, b)
    &&& kind_folded(a.Kind, b.Kind)
    &&& a.Children@.len() == b.Children@.len()
    &&& forall|i: int| 0 <= i < a.Children@.len() ==> layer_folded(#[trigger] a.Children@[i], b.Children@[i])
}

/// Rewrite `Root`: a new tree with the constant sub-expressions folded.
pub fn Fold(Root: &Layer) -> (r: Layer)
    ensures
        layer_folded(*Root, r),
{
    FoldLayer(Root)
}

fn FoldOpt(e: &Option<Expression>) -> (r: Option<Expression>)
    ensures
        opt_expr_view(r) == fold_opt(opt_expr_view(*e)),
{
    match e {
        Some(x) => Some(FoldExpr(x.clone())),
        None => None,
    }
}

fn FoldKind(k: &LayerKind) -> (r: LayerKind)
    ensures
        kind_folded(*k, r),
{
    match k {
        LayerKind::Expression(e) => LayerKind::Expression(FoldExpr(e.clone())),
        LayerKind::Assignment { Target, Value } => LayerKind::Assignment {
            Target: FoldExpr(Target.clone()),
            Value: FoldExpr(Value.clone()),
        },
        LayerKind::VariableBinding { Name, TypeAnnotation, IsMutable, Hooks, InitialValue } => LayerKind::VariableBinding {
            Name: Name.clone(),
            TypeAnnotation: clone_opt_type(TypeAnnotation),
            IsMutable: *IsMutable,
            Hooks: copy_hooks(Hooks),
            InitialValue: FoldOpt(InitialValue),
        },
        LayerKind::Return { Value } => LayerKind::Return { Value: FoldOpt(Value) },
        LayerKind::Conditional { Condition, HasElse } => LayerKind::Conditional {
            Condition: FoldExpr(Condition.clone()),
            HasElse: *HasElse,
        },
        _ => copy_kind(k),
    }
}

#[verifier::loop_isolation(false)]
fn FoldLayer(L: &Layer) -> (r: Layer)
    ensures
        layer_folded(*L, r),
    decreases L,
{
    let kind = FoldKind(&L.Kind);
    let mut children: Vec<Layer> = Vec::new();
    let mut i: usize = 0;
    while i < L.Children.len()
        invariant
            i <= L.Children@.len(),
            children@.len() == i,
            forall|j: int| 0 <= j < i ==> layer_folded(#[trigger] L.Children@[j], children@[j]),
        decreases L.Children@.len() - i,
    {
        proof {
            broadcast use vstd::std_specs::vec::axiom_vec_index_decreases;
            assert(decreases_to!(L.Children => L.Children@[i as int]));
            assert(decreases_to!(*L => L.Children));
        }
        children.push(FoldLayer(&L.Children[i]));
        i = i + 1;
    }
    rebuild_layer(L, kind, children)
}

/// Fold one expression: an operator whose folded operands are literals
/// becomes a literal.
#[verifier::loop_isolation(false)]
pub fn FoldExpr(e: Expression) -> (r: Expression)
    ensures
        r@ == fold_expr(e@),
    decreases e@,
{
    let ghost ev = e@;
    match e {
        Expression::BinaryOp { Op, Lhs, Rhs } => {
            let l = FoldExpr(*Lhs);
            let r = FoldExpr(*Rhs);
            FoldBinary(&Op, l, r)
        },
        Expression::UnaryOp { Op, Target } => {
            let t = FoldExpr(*Target);
            FoldUnary(&Op, t)
        },
        Expression::FunctionCall { Name, Args } => {
            let ghost av = ev->FunctionCall_Args;
            let mut out: Vec<Expression> = Vec::new();
            let mut i: usize = 0;
            while i < Args.len()
                invariant
                    i <= Args@.len(),
                    out@.len() == i,
                    av.len() == Args@.len(),
                    forall|j: int| 0 <= j < Args@.len() ==> av[j] == (#[trigger] Args@[j])@,
                    forall|j: int| 0 <= j < i ==> (#[trigger] out@[j])@ == fold_expr(av[j]),
                decreases Args@.len() - i,
            {
                let a = Args[i].clone();
                assert(decreases_to!(ev => ev->FunctionCall_Args[i as int]));
                out.push(FoldExpr(a));
                i = i + 1;
            }
            let r = Expression::FunctionCall { Name, Args: out };
            assert(r@->FunctionCall_Args =~= fold_expr(ev)->FunctionCall_Args);
            r
        },
        other => other,
    }
}

fn FoldBinary(Op: &String, L: Expression, R: Expression) -> (r: Expression)
    ensures
        r@ == fold_binary(Op@, L@, R@),
{
    if let (Expression::LiteralInt(a), Expression::LiteralInt(b)) = (&L, &R) {
        let a = *a;
        let b = *b;
        let v: Option<i64> = if op_is(Op, "+") {
            Some(a.wrapping_add(b))
        } else if op_is(Op, "-") {
            Some(a.wrapping_sub(b))
        } else if op_is(Op, "*") {
            Some(a.wrapping_mul(b))
        } else if op_is(Op, "/") && b != 0 {
            Some(
                match a.checked_div(b) {
                    Some(q) => q,
                    None => a,
                },
            )
        } else if op_is(Op, "%") && b != 0 {
            Some(
                match a.checked_rem(b) {
                    Some(q) => q,
                    None => 0,
                },
            )
        } else {
            None
        };
        if let Some(v) = v {
            return Expression::LiteralInt(v);
        }
        let c: Option<bool> = if op_is(Op, "==") {
            Some(a == b)
        } else if op_is(Op, "!=") {
            Some(a != b)
        } else if op_is(Op, "<") {
            Some(a < b)
        } else if op_is(Op, "<=") {
            Some(a <= b)
        } else if op_is(Op, ">") {
            Some(a > b)
        } else if op_is(Op, ">=") {
            Some(a >= b)
        } else {
            None
        };
        if let Some(c) = c {
            return Expression::LiteralBool(c);
        }
    }
    if let (Expression::LiteralBool(a), Expression::LiteralBool(b)) = (&L, &R) {
        let a = *a;
        let b = *b;
        if op_is(Op, "==") {
            return Expression::LiteralBool(a == b);
        }
        if op_is(Op, "!=") {
            return Expression::LiteralBool(a != b);
        }
    }
    if op_is(Op, "&&") {
        if let Expression::LiteralBool(false) = L {
            return Expression::LiteralBool(false);
        }
        if let Expression::LiteralBool(true) = L {
            return R;
        }
    }
    if op_is(Op, "||") {
        if let Expression::LiteralBool(true) = L {
            return Expression::LiteralBool(true);
        }
        if let Expression::LiteralBool(false) = L {
            return R;
        }
    }
    Expression::BinaryOp { Op: Op.clone(), Lhs: Box::new(L), Rhs: Box::new(R) }
}

fn FoldUnary(Op: &String, T: Expression) -> (r: Expression)
    ensures
        r@ == fold_unary(Op@, T@),
{
    if op_is(Op, "-") {
        if let Expression::LiteralInt(n) = T {
            return Expression::LiteralInt(if n == i64::MIN { n } else { -n });
        }
    }
    if op_is(Op, "!") {
        if let Expression::LiteralBool(b) = T {
            return Expression::LiteralBool(!b);
        }
    }
    Expression::UnaryOp { Op: Op.clone(), Target: Box::new(T) }
}

/// Integer literals combined with `+`, `-`, `*` and unary `-`.
pub open spec fn int_arith(e: SpecExpression) -> bool
    decreases e,
{
    match e {
        SpecExpression::LiteralInt(_) => true,
        SpecExpression::BinaryOp { Op, Lhs, Rhs } => (Op == "+"@ || Op == "-"@ || Op == "*"@) && int_arith(*Lhs)
            && int_arith(*Rhs),
        SpecExpression::UnaryOp { Op, Target } => Op == "-"@ && int_arith(*Target),
        _ => false,
    }
}

/// Folding an expression of integer literals under `+ - *` and unary `-`
/// gives one literal, whose value is what the solver's evaluation gives
/// the same expression: folding and solving agree on constants.
pub proof fn lemma_fold_constant_arith(e: SpecExpression)
    requires
        int_arith(e),
    ensures
        to_term(e) is Some,
        eval_term(to_term(e)->0, Map::empty()) is Some,
        fold_expr(e) == SpecExpression::LiteralInt(eval_term(to_term(e)->0, Map::empty())->0),
    decreases e,
{
    match e {
        SpecExpression::BinaryOp { Op, Lhs, Rhs } => {
            lemma_fold_constant_arith(*Lhs);
            lemma_fold_constant_arith(*Rhs);
        },
        SpecExpression::UnaryOp { Op, Target } => {
            lemma_fold_constant_arith(*Target);
        },
        _ => {},
    }
}

/// The operator names that folding and lowering tell apart, character by
/// character.
proof fn lemma_operator_names()
    ensures
        "+"@.len() == 1 && "+"@[0] == '+',
        "-"@.len() == 1 && "-"@[0] == '-',
        "*"@.len() == 1 && "*"@[0] == '*',
        "/"@.len() == 1 && "/"@[0] == '/',
        "%"@.len() == 1 && "%"@[0] == '%',
        "&&"@.len() == 2 && "&&"@[0] == '&' && "&&"@[1] == '&',
        "||"@.len() == 2 && "||"@[0] == '|' && "||"@[1] == '|',
        "=="@.len() == 2 && "=="@[0] == '=' && "=="@[1] == '=',
        "!="@.len() == 2 && "!="@[0] == '!' && "!="@[1] == '=',
        "<"@.len() == 1 && "<"@[0] == '<',
        "<="@.len() == 2 && "<="@[0] == '<' && "<="@[1] == '=',
        ">"@.len() == 1 && ">"@[0] == '>',
        ">="@.len() == 2 && ">="@[0] == '>' && ">="@[1] == '=',
        "!"@.len() == 1 && "!"@[0] == '!',
{
    reveal_strlit("+");
    reveal_strlit("-");
    reveal_strlit("*");
    reveal_strlit("/");
    reveal_strlit("%");
    reveal_strlit("&&");
    reveal_strlit("||");
    reveal_strlit("==");
    reveal_strlit("!=");
    reveal_strlit("<");
    reveal_strlit("<=");
    reveal_strlit(">");
    reveal_strlit(">=");
    reveal_strlit("!");
}

/// Combining terms of equal values by the same operator gives terms of
/// equal values.
proof fn lemma_arith_term_congruent(
    op: Seq<char>,
    l1: SpecTerm,
    r1: SpecTerm,
    l2: SpecTerm,
    r2: SpecTerm,
    env: Map<Seq<char>, i64>,
)
    requires
        arith_term(op, l1, r1) is Some,
        eval_term(l1, env) == eval_term(l2, env),
        eval_term(r1, env) == eval_term(r2, env),
    ensures
        arith_term(op, l2, r2) is Some,
        eval_term(arith_term(op, l1, r1)->0, env) == eval_term(arith_term(op, l2, r2)->0, env),
{
}

/// Folding two literals by an operator that lowers to a term gives what
/// evaluating that term gives.
proof fn lemma_int_op_is_term_value(op: Seq<char>, a: i64, b: i64, env: Map<Seq<char>, i64>)
    requires
        arith_term(op, SpecTerm::Const(a), SpecTerm::Const(b)) is Some,
    ensures
        int_op(op, a, b) == eval_term(arith_term(op, SpecTerm::Const(a), SpecTerm::Const(b))->0, env),
{
    lemma_operator_names();
    reveal_with_fuel(eval_term, 2);
    if op == "+"@ {
    } else if op == "-"@ {
    } else {
        assert(op == "*"@);
    }
}

/// Comparing terms of equal values by the same operator gives atoms of
/// equal truth; comparing two integers gives what the folding of the
/// comparison gives.
proof fn lemma_compare_atom_congruent(
    op: Seq<char>,
    l1: SpecTerm,
    r1: SpecTerm,
    l2: SpecTerm,
    r2: SpecTerm,
    env: Map<Seq<char>, i64>,
)
    requires
        compare_atom(op, l1, r1) is Some,
        eval_term(l1, env) == eval_term(l2, env),
        eval_term(r1, env) == eval_term(r2, env),
    ensures
        compare_atom(op, l2, r2) is Some,
        eval_atom(compare_atom(op, l1, r1)->0, env) == eval_atom(compare_atom(op, l2, r2)->0, env),
        eval_term(l1, env) is Some && eval_term(r1, env) is Some ==> Some(
            int_cmp(op, eval_term(l1, env)->0, eval_term(r1, env)->0)->0,
        ) == eval_atom(compare_atom(op, l1, r1)->0, env) && int_cmp(op, eval_term(l1, env)->0, eval_term(r1, env)->0) is Some,
{
    lemma_operator_names();
}

/// A two-part conjunction's truth depends on its parts' truth alone.
proof fn lemma_and_pair_congruent(a1: SpecProp, b1: SpecProp, a2: SpecProp, b2: SpecProp, env: Map<Seq<char>, i64>)
    requires
        eval_prop(a1, env) == eval_prop(a2, env),
        eval_prop(b1, env) == eval_prop(b2, env),
    ensures
        eval_prop(SpecProp::And(seq![a1, b1]), env) == eval_prop(SpecProp::And(seq![a2, b2]), env),
{
    let s1 = seq![a1, b1];
    let s2 = seq![a2, b2];
    assert(s1[0] == a1 && s1[1] == b1 && s1.len() == 2);
    assert(s2[0] == a2 && s2[1] == b2 && s2.len() == 2);
    assert(eval_and(s1, 2, env) == eval_and(s2, 2, env));
    assert(eval_and(s1, 1, env) == eval_and(s2, 1, env));
    assert(eval_and(s1, 0, env) == eval_and(s2, 0, env));
}

/// A two-part disjunction's truth depends on its parts' truth alone.
proof fn lemma_or_pair_congruent(a1: SpecProp, b1: SpecProp, a2: SpecProp, b2: SpecProp, env: Map<Seq<char>, i64>)
    requires
        eval_prop(a1, env) == eval_prop(a2, env),
        eval_prop(b1, env) == eval_prop(b2, env),
    ensures
        eval_prop(SpecProp::Or(seq![a1, b1]), env) == eval_prop(SpecProp::Or(seq![a2, b2]), env),
{
    let s1 = seq![a1, b1];
    let s2 = seq![a2, b2];
    assert(s1[0] == a1 && s1[1] == b1 && s1.len() == 2);
    assert(s2[0] == a2 && s2[1] == b2 && s2.len() == 2);
    assert(eval_or(s1, 2, env) == eval_or(s2, 2, env));
    assert(eval_or(s1, 1, env) == eval_or(s2, 1, env));
    assert(eval_or(s1, 0, env) == eval_or(s2, 0, env));
}

/// A conjunction whose left part has a truth value: false decides it,
/// true leaves it to the right part.
proof fn lemma_and_left_decided(a: SpecProp, b: SpecProp, env: Map<Seq<char>, i64>)
    requires
        eval_prop(a, env) is Some,
    ensures
        eval_prop(SpecProp::And(seq![a, b]), env) == if eval_prop(a, env) == Some(false) {
            Some(false)
        } else {
            eval_prop(b, env)
        },
{
    let s = seq![a, b];
    assert(s[0] == a && s[1] == b && s.len() == 2);
    assert(eval_and(s, 2, env) == Some(true));
    assert(eval_and(s, 1, env) == eval_prop(b, env));
    assert(eval_and(s, 0, env) == if eval_prop(a, env) == Some(true) {
        eval_and(s, 1, env)
    } else {
        eval_prop(a, env)
    });
    assert(eval_prop(SpecProp::And(s), env) == eval_and(s, 0, env));
}

/// A disjunction whose left part has a truth value: true decides it,
/// false leaves it to the right part.
proof fn lemma_or_left_decided(a: SpecProp, b: SpecProp, env: Map<Seq<char>, i64>)
    requires
        eval_prop(a, env) is Some,
    ensures
        eval_prop(SpecProp::Or(seq![a, b]), env) == if eval_prop(a, env) == Some(true) {
            Some(true)
        } else {
            eval_prop(b, env)
        },
{
    let s = seq![a, b];
    assert(s[0] == a && s[1] == b && s.len() == 2);
    assert(eval_or(s, 2, env) == Some(false));
    assert(eval_or(s, 1, env) == eval_prop(b, env));
    assert(eval_or(s, 0, env) == if eval_prop(a, env) == Some(false) {
        eval_or(s, 1, env)
    } else {
        eval_prop(a, env)
    });
    assert(eval_prop(SpecProp::Or(s), env) == eval_or(s, 0, env));
}

/// Folding keeps the value the solver gives a numeric expression: where an
/// expression lowers to a term, its folded form lowers to a term too, with
/// the same value under every assignment.
pub proof fn lemma_fold_keeps_term_value(e: SpecExpression, env: Map<Seq<char>, i64>)
    requires
        to_term(e) is Some,
    ensures
        to_term(fold_expr(e)) is Some,
        eval_term(to_term(fold_expr(e))->0, env) == eval_term(to_term(e)->0, env),
    decreases e,
{
    lemma_operator_names();
    match e {
        SpecExpression::BinaryOp { Op, Lhs, Rhs } => {
            lemma_fold_keeps_term_value(*Lhs, env);
            lemma_fold_keeps_term_value(*Rhs, env);
            let fl = fold_expr(*Lhs);
            let fr = fold_expr(*Rhs);
            assert(Op == "+"@ || Op == "-"@ || Op == "*"@);
            assert(fold_expr(e) == fold_binary(Op, fl, fr));
            let tl = to_term(*Lhs)->0;
            let tr = to_term(*Rhs)->0;
            if fl is LiteralInt && fr is LiteralInt {
                let a = fl->LiteralInt_0;
                let b = fr->LiteralInt_0;
                assert(eval_term(tl, env) == Some(a));
                assert(eval_term(tr, env) == Some(b));
                assert(int_op(Op, a, b) is Some);
                assert(fold_expr(e) == SpecExpression::LiteralInt(int_op(Op, a, b)->0));
                lemma_arith_term_congruent(Op, tl, tr, SpecTerm::Const(a), SpecTerm::Const(b), env);
                lemma_int_op_is_term_value(Op, a, b, env);
                assert(to_term(e) == arith_term(Op, tl, tr));
                assert(to_term(fold_expr(e)) == Some(SpecTerm::Const(int_op(Op, a, b)->0)));
                assert(eval_term(to_term(fold_expr(e))->0, env) == int_op(Op, a, b));
                assert(eval_term(to_term(e)->0, env) == int_op(Op, a, b));
            } else {
                assert(Op != "&&"@ && Op != "||"@);
                assert(fold_expr(e) == SpecExpression::BinaryOp { Op, Lhs: Box::new(fl), Rhs: Box::new(fr) });
                lemma_arith_term_congruent(Op, tl, tr, to_term(fl)->0, to_term(fr)->0, env);
                assert(to_term(e) == arith_term(Op, tl, tr));
                assert(to_term(fold_expr(e)) == arith_term(Op, to_term(fl)->0, to_term(fr)->0));
                assert(eval_term(to_term(fold_expr(e))->0, env) == eval_term(to_term(e)->0, env));
            }
        },
        SpecExpression::UnaryOp { Op, Target } => {
            lemma_fold_keeps_term_value(*Target, env);
            let ft = fold_expr(*Target);
            assert(Op == "-"@);
            if ft is LiteralInt {
                assert(eval_term(to_term(*Target)->0, env) == Some(ft->LiteralInt_0));
                assert(fold_expr(e) == SpecExpression::LiteralInt(wrap_neg(ft->LiteralInt_0)));
            } else {
                assert(fold_expr(e) == SpecExpression::UnaryOp { Op, Target: Box::new(ft) });
            }
        },
        _ => {},
    }
}

/// Folding keeps what the solver decides of a condition: where an
/// expression lowers to a proposition, its folded form lowers to one too,
/// with the same truth (or lack of one) under every assignment.
pub proof fn lemma_fold_keeps_prop_value(e: SpecExpression, env: Map<Seq<char>, i64>)
    requires
        to_prop(e) is Some,
    ensures
        to_prop(fold_expr(e)) is Some,
        eval_prop(to_prop(fold_expr(e))->0, env) == eval_prop(to_prop(e)->0, env),
    decreases e,
{
    lemma_operator_names();
    match e {
        SpecExpression::BinaryOp { Op, Lhs, Rhs } => {
            let fl = fold_expr(*Lhs);
            let fr = fold_expr(*Rhs);
            assert(fold_expr(e) == fold_binary(Op, fl, fr));
            if Op == "&&"@ || Op == "||"@ {
                lemma_fold_keeps_prop_value(*Lhs, env);
                lemma_fold_keeps_prop_value(*Rhs, env);
                let pl = to_prop(*Lhs)->0;
                let pr = to_prop(*Rhs)->0;
                assert(!(fl is LiteralInt));
                if Op == "&&"@ {
                    assert(to_prop(e) == Some(SpecProp::And(seq![pl, pr])));
                    if fl == SpecExpression::LiteralBool(false) || fl == SpecExpression::LiteralBool(true) {
                        lemma_and_left_decided(pl, pr, env);
                        if fl == SpecExpression::LiteralBool(true) {
                            assert(fold_expr(e) == fr);
                        } else {
                            assert(fold_expr(e) == SpecExpression::LiteralBool(false));
                        }
                    } else {
                        assert(fold_expr(e) == SpecExpression::BinaryOp { Op, Lhs: Box::new(fl), Rhs: Box::new(fr) });
                        assert(to_prop(fold_expr(e)) == Some(SpecProp::And(seq![to_prop(fl)->0, to_prop(fr)->0])));
                        lemma_and_pair_congruent(to_prop(fl)->0, to_prop(fr)->0, pl, pr, env);
                    }
                } else {
                    assert(to_prop(e) == Some(SpecProp::Or(seq![pl, pr])));
                    if fl == SpecExpression::LiteralBool(false) || fl == SpecExpression::LiteralBool(true) {
                        lemma_or_left_decided(pl, pr, env);
                        if fl == SpecExpression::LiteralBool(false) {
                            assert(fold_expr(e) == fr);
                        } else {
                            assert(fold_expr(e) == SpecExpression::LiteralBool(true));
                        }
                    } else {
                        assert(fold_expr(e) == SpecExpression::BinaryOp { Op, Lhs: Box::new(fl), Rhs: Box::new(fr) });
                        assert(to_prop(fold_expr(e)) == Some(SpecProp::Or(seq![to_prop(fl)->0, to_prop(fr)->0])));
                        lemma_or_pair_congruent(to_prop(fl)->0, to_prop(fr)->0, pl, pr, env);
                    }
                }
            } else {
                lemma_fold_keeps_term_value(*Lhs, env);
                lemma_fold_keeps_term_value(*Rhs, env);
                let tl = to_term(*Lhs)->0;
                let tr = to_term(*Rhs)->0;
                assert(is_comparison(Op));
                assert(to_prop(e) == Some(SpecProp::Atom(compare_atom(Op, tl, tr)->0)));
                if fl is LiteralInt && fr is LiteralInt {
                    let a = fl->LiteralInt_0;
                    let b = fr->LiteralInt_0;
                    assert(eval_term(tl, env) == Some(a));
                    assert(eval_term(tr, env) == Some(b));
                    lemma_compare_atom_congruent(Op, tl, tr, tl, tr, env);
                    assert(int_op(Op, a, b) is None);
                    assert(fold_expr(e) == SpecExpression::LiteralBool(int_cmp(Op, a, b)->0));
                    assert(eval_prop(to_prop(fold_expr(e))->0, env) == eval_prop(to_prop(e)->0, env));
                } else if fl is LiteralBool && fr is LiteralBool && (Op == "=="@ || Op == "!="@) {
                    let a: i64 = if fl->LiteralBool_0 { 1 } else { 0 };
                    let b: i64 = if fr->LiteralBool_0 { 1 } else { 0 };
                    assert(eval_term(tl, env) == Some(a));
                    assert(eval_term(tr, env) == Some(b));
                    lemma_compare_atom_congruent(Op, tl, tr, tl, tr, env);
                    assert(eval_prop(to_prop(fold_expr(e))->0, env) == eval_prop(to_prop(e)->0, env));
                } else {
                    assert(fold_expr(e) == SpecExpression::BinaryOp { Op, Lhs: Box::new(fl), Rhs: Box::new(fr) });
                    lemma_compare_atom_congruent(Op, tl, tr, to_term(fl)->0, to_term(fr)->0, env);
                    assert(to_prop(fold_expr(e)) == Some(
                        SpecProp::Atom(compare_atom(Op, to_term(fl)->0, to_term(fr)->0)->0),
                    ));
                    assert(eval_prop(to_prop(fold_expr(e))->0, env) == eval_prop(to_prop(e)->0, env));
                }
            }
        },
        SpecExpression::UnaryOp { Op, Target } => {
            assert(Op == "!"@);
            let ft = fold_expr(*Target);
            lemma_negation_pushed_down(*Target, env);
            lemma_fold_keeps_prop_value(*Target, env);
            lemma_negation_pushed_down(ft, env);
            if ft is LiteralBool {
                assert(eval_prop(to_prop(*Target)->0, env) == Some(ft->LiteralBool_0));
                assert(fold_expr(e) == SpecExpression::LiteralBool(!ft->LiteralBool_0));
            } else {
                assert(fold_expr(e) == SpecExpression::UnaryOp { Op, Target: Box::new(ft) });
            }
        },
        _ => {},
    }
}

/// The absolute value of an integer.
pub open spec fn abs(x: int) -> int {
    if x < 0 {
        -x
    } else {
        x
    }
}

/// Euclidean division of a natural number by a positive one: quotient and
/// remainder, with the quotient at most the dividend (at most half of it
/// when dividing by two or more).
proof fn lemma_nat_div(x: int, d: int)
    requires
        x >= 0,
        d > 0,
    ensures
        x == d * (x / d) + x % d,
        0 <= x % d < d,
        0 <= x / d <= x,
        d >= 2 ==> 2 * (x / d) <= x,
{
    vstd::arithmetic::div_mod::lemma_fundamental_div_mod(x, d);
    vstd::arithmetic::div_mod::lemma_mod_pos_bound(x, d);
    let q = x / d;
    let r = x % d;
    assert(0 <= q <= x && (d >= 2 ==> 2 * q <= x)) by (nonlinear_arith)
        requires
            x == d * q + r,
            0 <= r < d,
            x >= 0,
            d > 0,
    ;
}

/// Truncating division and remainder of two `i64`s other than
/// `i64::MIN / -1`: the quotient times the divisor plus the remainder is
/// the dividend, the remainder is smaller than the divisor in size, and it
/// is zero or has the dividend's sign.
proof fn lemma_wrap_div_rem(a: i64, b: i64)
    requires
        b != 0,
        !(a == i64::MIN && b == -1),
    ensures
        wrap_div(a, b) * b + wrap_rem(a, b) == a,
        abs(wrap_rem(a, b) as int) < abs(b as int),
        wrap_rem(a, b) == 0 || (wrap_rem(a, b) < 0) == (a < 0),
{
    let x = a as int;
    let d = b as int;
    if x == 0 {
        assert(wrap_div(a, b) == 0);
        assert(wrap_rem(a, b) == 0);
    } else if x > 0 && d > 0 {
        lemma_nat_div(x, d);
        let q = x / d;
        let r = x % d;
        assert(wrap_div(a, b) == q);
        assert(wrap_rem(a, b) == r);
        assert(q * d + r == x) by (nonlinear_arith)
            requires
                x == d * q + r,
        ;
    } else if x < 0 && d < 0 {
        lemma_nat_div(-x, -d);
        let q = (-x) / (-d);
        let r = (-x) % (-d);
        assert(q <= 0x7fff_ffff_ffff_ffff) by {
            if -d >= 2 {
            } else {
                assert(-d == 1);
                assert(x != i64::MIN);
            }
        }
        assert(wrap_div(a, b) == q);
        assert(wrap_rem(a, b) == -r);
        assert(q * d + (-r) == x) by (nonlinear_arith)
            requires
                -x == (-d) * q + r,
        ;
    } else if x < 0 {
        lemma_nat_div(-x, d);
        let q = (-x) / d;
        let r = (-x) % d;
        assert(wrap_div(a, b) == -q);
        assert(wrap_rem(a, b) == -r);
        assert((-q) * d + (-r) == x) by (nonlinear_arith)
            requires
                -x == d * q + r,
        ;
    } else {
        lemma_nat_div(x, -d);
        let q = x / (-d);
        let r = x % (-d);
        assert(wrap_div(a, b) == -q);
        assert(wrap_rem(a, b) == r);
        assert((-q) * d + r == x) by (nonlinear_arith)
            requires
                x == (-d) * q + r,
        ;
    }
}

/// Folding `a / b` and `a % b` of two integer literals, `b` not zero,
/// gives integer literals `q` and `r` with `a == q * b + r`, `|r| < |b|`,
/// and `r` zero or of `a`'s sign: the truncating quotient and remainder.
/// The one quotient that does not fit, `i64::MIN / -1`, wraps to
/// `i64::MIN`, and its remainder is 0.
pub proof fn lemma_fold_division(a: i64, b: i64)
    requires
        b != 0,
    ensures
        ({
            let q = fold_expr(SpecExpression::BinaryOp {
                Op: "/"@,
                Lhs: Box::new(SpecExpression::LiteralInt(a)),
                Rhs: Box::new(SpecExpression::LiteralInt(b)),
            });
            let r = fold_expr(SpecExpression::BinaryOp {
                Op: "%"@,
                Lhs: Box::new(SpecExpression::LiteralInt(a)),
                Rhs: Box::new(SpecExpression::LiteralInt(b)),
            });
            &&& q is LiteralInt && r is LiteralInt
            &&& (a == i64::MIN && b == -1) ==> q->LiteralInt_0 == i64::MIN && r->LiteralInt_0 == 0
            &&& !(a == i64::MIN && b == -1) ==> {
                &&& q->LiteralInt_0 * b + r->LiteralInt_0 == a
                &&& abs(r->LiteralInt_0 as int) < abs(b as int)
                &&& r->LiteralInt_0 == 0 || (r->LiteralInt_0 < 0) == (a < 0)
            }
        }),
{
    lemma_operator_names();
    let la = SpecExpression::LiteralInt(a);
    let lb = SpecExpression::LiteralInt(b);
    assert(fold_expr(la) == la);
    assert(fold_expr(lb) == lb);
    assert(int_op("/"@, a, b) == Some(wrap_div(a, b)));
    assert(int_op("%"@, a, b) == Some(wrap_rem(a, b)));
    assert(fold_expr(SpecExpression::BinaryOp { Op: "/"@, Lhs: Box::new(la), Rhs: Box::new(lb) })
        == SpecExpression::LiteralInt(wrap_div(a, b)));
    assert(fold_expr(SpecExpression::BinaryOp { Op: "%"@, Lhs: Box::new(la), Rhs: Box::new(lb) })
        == SpecExpression::LiteralInt(wrap_rem(a, b)));
    if !(a == i64::MIN && b == -1) {
        lemma_wrap_div_rem(a, b);
    } else {
        assert(wrap_div(a, b) == i64::MIN);
        assert(wrap_rem(a, b) == 0);
    }
}

/// The folded form of `l op r`.
pub open spec fn folded(op: Seq<char>, l: SpecExpression, r: SpecExpression) -> SpecExpression {
    fold_expr(SpecExpression::BinaryOp { Op: op, Lhs: Box::new(l), Rhs: Box::new(r) })
}

/// Folding `a + b`, `a - b` and `a * b` of two integer literals gives the
/// integer literal equal to the sum, difference and product up to a
/// multiple of 2^64 (their difference is divisible by 2^64): the value itself whenever it fits in an `i64`, and
/// its two's-complement wrap otherwise.
pub proof fn lemma_fold_arithmetic(a: i64, b: i64)
    ensures
        ({
            let la = SpecExpression::LiteralInt(a);
            let lb = SpecExpression::LiteralInt(b);
            let (s, d, m) = (folded("+"@, la, lb), folded("-"@, la, lb), folded("*"@, la, lb));
            &&& s is LiteralInt && d is LiteralInt && m is LiteralInt
            &&& (s->LiteralInt_0 - (a + b)) % 0x1_0000_0000_0000_0000int == 0
            &&& (d->LiteralInt_0 - (a - b)) % 0x1_0000_0000_0000_0000int == 0
            &&& (m->LiteralInt_0 - (a * b)) % 0x1_0000_0000_0000_0000int == 0
            &&& (i64::MIN <= a + b <= i64::MAX ==> s->LiteralInt_0 == a + b)
            &&& (i64::MIN <= a - b <= i64::MAX ==> d->LiteralInt_0 == a - b)
            &&& (i64::MIN <= a * b <= i64::MAX ==> m->LiteralInt_0 == a * b)
        }),
{
    lemma_operator_names();
    let la = SpecExpression::LiteralInt(a);
    let lb = SpecExpression::LiteralInt(b);
    assert(fold_expr(la) == la);
    assert(fold_expr(lb) == lb);
    let R: int = 0x1_0000_0000_0000_0000;
    let sv = vstd::wrapping::i64_specs::wrapping_add(a, b);
    let dv = vstd::wrapping::i64_specs::wrapping_sub(a, b);
    let mv = vstd::wrapping::i64_specs::wrapping_mul(a, b);
    assert(folded("+"@, la, lb) == SpecExpression::LiteralInt(sv));
    assert(folded("-"@, la, lb) == SpecExpression::LiteralInt(dv));
    assert(folded("*"@, la, lb) == SpecExpression::LiteralInt(mv));
    let ks: int = if a + b > i64::MAX { -1 } else if a + b < i64::MIN { 1 } else { 0 };
    assert(sv == a + b + ks * R);
    let kd: int = if a - b > i64::MAX { -1 } else if a - b < i64::MIN { 1 } else { 0 };
    assert(dv == a - b + kd * R);
    let p = a * b;
    vstd::arithmetic::div_mod::lemma_fundamental_div_mod(p, R);
    vstd::arithmetic::div_mod::lemma_mod_bound(p, R);
    let c = p % R;
    let km: int = if c > i64::MAX { -(p / R) - 1 } else { -(p / R) };
    assert(mv == p + km * R) by (nonlinear_arith)
        requires
            p == R * (p / R) + c,
            mv == (if c > i64::MAX { c - R } else { c }),
            km == (if c > i64::MAX { -(p / R) - 1 } else { -(p / R) }),
    ;
    vstd::arithmetic::div_mod::lemma_mod_multiples_basic(ks, R);
    vstd::arithmetic::div_mod::lemma_mod_multiples_basic(kd, R);
    vstd::arithmetic::div_mod::lemma_mod_multiples_basic(km, R);
    assert(sv - (a + b) == ks * R);
    assert(dv - (a - b) == kd * R);
    assert(mv - p == km * R);
    if i64::MIN <= p <= i64::MAX {
        assert(km == 0) by (nonlinear_arith)
            requires
                mv == p + km * R,
                i64::MIN <= mv <= i64::MAX,
                i64::MIN <= p <= i64::MAX,
                R == 0x1_0000_0000_0000_0000int,
        ;
    }
}

/// Folding a comparison of two integer literals gives the boolean literal
/// of that comparison, and `==`, `!=` of two boolean literals fold the
/// same way.
pub proof fn lemma_fold_comparisons(a: i64, b: i64, x: bool, y: bool)
    ensures
        ({
            let la = SpecExpression::LiteralInt(a);
            let lb = SpecExpression::LiteralInt(b);
            let lx = SpecExpression::LiteralBool(x);
            let ly = SpecExpression::LiteralBool(y);
            &&& folded("=="@, la, lb) == SpecExpression::LiteralBool(a == b)
            &&& folded("!="@, la, lb) == SpecExpression::LiteralBool(a != b)
            &&& folded("<"@, la, lb) == SpecExpression::LiteralBool(a < b)
            &&& folded("<="@, la, lb) == SpecExpression::LiteralBool(a <= b)
            &&& folded(">"@, la, lb) == SpecExpression::LiteralBool(a > b)
            &&& folded(">="@, la, lb) == SpecExpression::LiteralBool(a >= b)
            &&& folded("=="@, lx, ly) == SpecExpression::LiteralBool(x == y)
            &&& folded("!="@, lx, ly) == SpecExpression::LiteralBool(x != y)
        }),
{
    lemma_operator_names();
    let la = SpecExpression::LiteralInt(a);
    let lb = SpecExpression::LiteralInt(b);
    let lx = SpecExpression::LiteralBool(x);
    let ly = SpecExpression::LiteralBool(y);
    assert(fold_expr(la) == la);
    assert(fold_expr(lb) == lb);
    assert(fold_expr(lx) == lx);
    assert(fold_expr(ly) == ly);
}

} // verus!
