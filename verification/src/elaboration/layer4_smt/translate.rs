//! Layer 4 — SMT-LIB text.
//!
//! A prefix SMT-LIB view of a predicate, for outside tools and for the
//! constraint list the elaboration context collects. The solver itself
//! works on the `Prop` form instead.

use vstd::prelude::*;
use crate::ast::{Expression, SpecExpression};
use crate::elaboration::context::ElaborationContext;
use crate::render::{expr_debug, expr_text, prefixed, wrap};
use crate::text::{i64_text, int_text};
use crate::elaboration::layer4_smt::normalize::{SpecTerm, compare_atom, eval_atom, is_comparison, op_is};

verus! {

/// The SMT-LIB name of a binary operator, if it has one.
pub open spec fn smt_op(op: Seq<char>) -> Option<Seq<char>> {
    if op == "+"@ {
        Some("+"@)
    } else if op == "-"@ {
        Some("-"@)
    } else if op == "*"@ {
        Some("*"@)
    } else if op == "/"@ {
        Some("/"@)
    } else if op == "=="@ {
        Some("="@)
    } else if op == "!="@ {
        Some("distinct"@)
    } else if op == "<"@ {
        Some("<"@)
    } else if op == ">"@ {
        Some(">"@)
    } else if op == "<="@ {
        Some("<="@)
    } else if op == ">="@ {
        Some(">="@)
    } else if op == "&&"@ {
        Some("and"@)
    } else if op == "||"@ {
        Some("or"@)
    } else {
        None
    }
}

/// The prefix SMT-LIB text of an expression. Integers, booleans and
/// variables stand for themselves; a binary operator becomes `(op l r)`,
/// failing on an operator without an SMT-LIB name; `!e` becomes
/// `(not e)`; a call `(f a b ...)`; anything else its debug text. The
/// first failure, reading left to right, is the result.
pub open spec fn smt_text(e: SpecExpression) -> Result<Seq<char>, Seq<char>>
    decreases e, 1int,
{
    match e {
        SpecExpression::LiteralInt(v) => Ok(int_text(v as int)),
        SpecExpression::LiteralBool(b) => Ok(if b { "true"@ } else { "false"@ }),
        SpecExpression::Variable(n) => Ok(n),
        SpecExpression::BinaryOp { Op, Lhs, Rhs } => match smt_text(*Lhs) {
            Err(m) => Err(m),
            Ok(l) => match smt_text(*Rhs) {
                Err(m) => Err(m),
                Ok(r) => match smt_op(Op) {
                    Some(o) => Ok("("@ + o + " "@ + l + " "@ + r + ")"@),
                    None => Err("Unsupported SMT operator: "@ + Op),
                },
            },
        },
        SpecExpression::UnaryOp { Op, Target } => if Op == "!"@ {
            match smt_text(*Target) {
                Ok(t) => Ok("(not "@ + t + ")"@),
                Err(m) => Err(m),
            }
        } else {
            Ok(expr_text(e))
        },
        SpecExpression::FunctionCall { Name, Args } => match smt_args(Args, Args.len()) {
            Ok(a) => Ok("("@ + Name + " "@ + a + ")"@),
            Err(m) => Err(m),
        },
        _ => Ok(expr_text(e)),
    }
}

/// The texts of the first `n` arguments, separated by spaces, or the
/// first failure among them.
pub open spec fn smt_args(args: Seq<SpecExpression>, n: nat) -> Result<Seq<char>, Seq<char>>
    decreases args, n,
{
    if n == 0 || n > args.len() {
        Ok(Seq::empty())
    } else {
        match smt_args(args, (n - 1) as nat) {
            Err(m) => Err(m),
            Ok(prefix) => match smt_text(args[n - 1]) {
                Err(m) => Err(m),
                Ok(t) => Ok(if n == 1 { t } else { prefix + " "@ + t }),
            },
        }
    }
}

/// Once the arguments fail, more arguments fail the same way.
proof fn lemma_smt_args_err(args: Seq<SpecExpression>, i: nat, n: nat)
    requires
        1 <= i <= n <= args.len(),
        smt_args(args, i) is Err,
    ensures
        smt_args(args, n) == smt_args(args, i),
    decreases n - i,
{
    if n > i {
        lemma_smt_args_err(args, i, (n - 1) as nat);
    }
}

/// The view of a result of two strings.
pub open spec fn text_result(r: Result<String, String>) -> Result<Seq<char>, Seq<char>> {
    match r {
        Ok(s) => Ok(s@),
        Err(m) => Err(m@),
    }
}

/// The SMT-LIB name of a binary operator, if it has one.
fn SmtOp(op: &String) -> (r: Option<&'static str>)
    ensures
        match r {
            Some(s) => smt_op(op@) == Some(s@),
            None => smt_op(op@) is None,
        },
{
    if op_is(op, "+") {
        Some("+")
    } else if op_is(op, "-") {
        Some("-")
    } else if op_is(op, "*") {
        Some("*")
    } else if op_is(op, "/") {
        Some("/")
    } else if op_is(op, "==") {
        Some("=")
    } else if op_is(op, "!=") {
        Some("distinct")
    } else if op_is(op, "<") {
        Some("<")
    } else if op_is(op, ">") {
        Some(">")
    } else if op_is(op, "<=") {
        Some("<=")
    } else if op_is(op, ">=") {
        Some(">=")
    } else if op_is(op, "&&") {
        Some("and")
    } else if op_is(op, "||") {
        Some("or")
    } else {
        None
    }
}

impl ElaborationContext {
    /// Turn an expression into a prefix SMT-LIB string.
    #[verifier::loop_isolation(false)]
    pub fn TranslateToSmt(&mut self, expr: &Expression) -> (r: Result<String, String>)
        ensures
            *final(self) == *old(self),
            text_result(r) == smt_text(expr@),
        decreases expr,
    {
        match expr {
            Expression::LiteralInt(val) => Ok(i64_text(*val)),
            Expression::LiteralBool(b) => Ok(String::from_str(if *b { "true" } else { "false" })),
            Expression::Variable(name) => Ok(name.clone()),
            Expression::BinaryOp { Op, Lhs, Rhs } => {
                let l = self.TranslateToSmt(Lhs)?;
                let r = self.TranslateToSmt(Rhs)?;
                match SmtOp(Op) {
                    Some(o) => {
                        let a = wrap("(", String::from_str(o), " ");
                        let b = wrap(a.as_str(), l, " ");
                        Ok(wrap(b.as_str(), r, ")"))
                    },
                    None => Err(prefixed("Unsupported SMT operator: ", Op.clone())),
                }
            },
            Expression::UnaryOp { Op, Target } => {
                if op_is(Op, "!") {
                    let t = self.TranslateToSmt(Target)?;
                    Ok(wrap("(not ", t, ")"))
                } else {
                    Ok(expr_debug(expr))
                }
            },
            Expression::FunctionCall { Name, Args } => {
                let ghost av = expr@->FunctionCall_Args;
                let mut joined = String::new();
                let mut i: usize = 0;
                while i < Args.len()
                    invariant
                        i <= Args@.len(),
                        av.len() == Args@.len(),
                        forall|j: int| 0 <= j < Args@.len() ==> av[j] == (#[trigger] Args@[j])@,
                        smt_args(av, i as nat) == Ok::<Seq<char>, Seq<char>>(joined@),
                        *self == *old(self),
                    decreases Args@.len() - i,
                {
                    proof {
                        broadcast use vstd::std_specs::vec::axiom_vec_index_decreases;
                        assert(decreases_to!(*Args => Args@[i as int]));
                        assert(decreases_to!(*expr => *Args));
                    }
                    let t = match self.TranslateToSmt(&Args[i]) {
                        Ok(t) => t,
                        Err(m) => {
                            proof { lemma_smt_args_err(av, (i + 1) as nat, av.len()); }
                            return Err(m);
                        },
                    };
                    if i == 0 {
                        joined = t;
                    } else {
                        joined = wrap(joined.as_str(), String::from_str(" "), t.as_str());
                    }
                    i = i + 1;
                }
                let a = wrap("(", Name.clone(), " ");
                Ok(wrap(a.as_str(), joined, ")"))
            },
            _ => Ok(expr_debug(expr)),
        }
    }
}

/// What an SMT-LIB comparison means on two integers, by the SMT-LIB core
/// and integer theories: `=`, `distinct`, `<`, `<=`, `>`, `>=`.
pub open spec fn smtlib_compare(name: Seq<char>, a: int, b: int) -> Option<bool> {
    if name == "="@ {
        Some(a == b)
    } else if name == "distinct"@ {
        Some(a != b)
    } else if name == "<"@ {
        Some(a < b)
    } else if name == "<="@ {
        Some(a <= b)
    } else if name == ">"@ {
        Some(a > b)
    } else if name == ">="@ {
        Some(a >= b)
    } else {
        None
    }
}

/// What an SMT-LIB arithmetic name means on two integers: `+`, `-`, `*`.
pub open spec fn smtlib_arith(name: Seq<char>, a: int, b: int) -> Option<int> {
    if name == "+"@ {
        Some(a + b)
    } else if name == "-"@ {
        Some(a - b)
    } else if name == "*"@ {
        Some(a * b)
    } else {
        None
    }
}

/// What an SMT-LIB boolean connective means: `and`, `or`.
pub open spec fn smtlib_logic(name: Seq<char>, p: bool, q: bool) -> Option<bool> {
    if name == "and"@ {
        Some(p && q)
    } else if name == "or"@ {
        Some(p || q)
    } else {
        None
    }
}

/// The letters of the operator names, which tell them apart.
proof fn lemma_operator_chars()
    ensures
        "+"@.len() == 1 && "+"@[0] == '+',
        "-"@.len() == 1 && "-"@[0] == '-',
        "*"@.len() == 1 && "*"@[0] == '*',
        "/"@.len() == 1 && "/"@[0] == '/',
        "=="@.len() == 2 && "=="@[0] == '=' && "=="@[1] == '=',
        "!="@.len() == 2 && "!="@[0] == '!' && "!="@[1] == '=',
        "<"@.len() == 1 && "<"@[0] == '<',
        ">"@.len() == 1 && ">"@[0] == '>',
        "<="@.len() == 2 && "<="@[0] == '<' && "<="@[1] == '=',
        ">="@.len() == 2 && ">="@[0] == '>' && ">="@[1] == '=',
        "&&"@.len() == 2 && "&&"@[0] == '&' && "&&"@[1] == '&',
        "||"@.len() == 2 && "||"@[0] == '|' && "||"@[1] == '|',
        "="@.len() == 1 && "="@[0] == '=',
        "distinct"@.len() == 8 && "distinct"@[0] == 'd' && "distinct"@[1] == 'i' && "distinct"@[2] == 's' && "distinct"@[3] == 't' && "distinct"@[4] == 'i' && "distinct"@[5] == 'n' && "distinct"@[6] == 'c' && "distinct"@[7] == 't',
        "and"@.len() == 3 && "and"@[0] == 'a' && "and"@[1] == 'n' && "and"@[2] == 'd',
        "or"@.len() == 2 && "or"@[0] == 'o' && "or"@[1] == 'r',
{
    reveal_strlit("+");
    reveal_strlit("-");
    reveal_strlit("*");
    reveal_strlit("/");
    reveal_strlit("==");
    reveal_strlit("!=");
    reveal_strlit("<");
    reveal_strlit(">");
    reveal_strlit("<=");
    reveal_strlit(">=");
    reveal_strlit("&&");
    reveal_strlit("||");
    reveal_strlit("=");
    reveal_strlit("distinct");
    reveal_strlit("and");
    reveal_strlit("or");
}

/// The SMT-LIB text of an operator means what the operator means: a
/// comparison translates to the SMT-LIB comparison that holds of two
/// integers exactly when the comparison's atom does (so `>=` is never
/// written as the strict `>`), `+`, `-` and `*` to the SMT-LIB operations
/// that add, subtract and multiply, and `&&`, `||` to conjunction and
/// disjunction.
pub proof fn lemma_smt_op_keeps_meaning(op: Seq<char>, a: i64, b: i64, p: bool, q: bool)
    ensures
        is_comparison(op) ==> smt_op(op) is Some && smtlib_compare(smt_op(op)->0, a as int, b as int) == eval_atom(
            compare_atom(op, SpecTerm::Const(a), SpecTerm::Const(b))->0,
            Map::empty(),
        ),
        op == "+"@ ==> smt_op(op) is Some && smtlib_arith(smt_op(op)->0, a as int, b as int) == Some(a + b),
        op == "-"@ ==> smt_op(op) is Some && smtlib_arith(smt_op(op)->0, a as int, b as int) == Some(a - b),
        op == "*"@ ==> smt_op(op) is Some && smtlib_arith(smt_op(op)->0, a as int, b as int) == Some(a * b),
        op == "&&"@ ==> smt_op(op) is Some && smtlib_logic(smt_op(op)->0, p, q) == Some(p && q),
        op == "||"@ ==> smt_op(op) is Some && smtlib_logic(smt_op(op)->0, p, q) == Some(p || q),
{
    lemma_operator_chars();
}

} // verus!
