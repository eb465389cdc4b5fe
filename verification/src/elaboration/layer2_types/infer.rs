//! Layer 2 (types) — expression type inference.
//!
//! Given an expression and an environment of names to types, compute the
//! expression's type, bottom-up: literals get their natural default width,
//! names are looked up, operators go through the operator table.

use vstd::prelude::*;
use crate::ast::{Expression, SpecExpression, SpecType, Type};
use crate::elaboration::layer2_types::check::{CheckBinaryOp, check_binary};
use crate::elaboration::layer2_types::errors::{SpecTypeError, TypeError, type_result};
use crate::elaboration::layer2_types::typed_ast::{EnvMaps, TypeEnv, env_lookup};
use crate::elaboration::layer4_smt::normalize::op_is;
use crate::render::{prefixed, type_debug, type_text, wrap};

verus! {

/// The error for a name without a type.
pub open spec fn no_type(name: Seq<char>) -> SpecTypeError {
    SpecTypeError::NotImplemented("no type for '"@ + name + "'"@)
}

/// The error for a call whose callee has no recorded return type.
pub open spec fn no_return_type(name: Seq<char>) -> SpecTypeError {
    SpecTypeError::NotImplemented("no return type for '"@ + name + "'"@)
}

/// The type of an expression in an environment.
///
/// Integer literals are `i32`, decimal ones `f64`, booleans `b1`, strings
/// `Named("String")`, type literals `Named("type")`; a variable has its
/// environment type; a binary operator goes through the operator table; a
/// dereference peels a pointer or reference, `!`, `-`, `~` keep the type; a
/// call checks its arguments and has the callee's recorded type; member and
/// index access, and the invalid expression, stay to be inferred. The first
/// error, reading left to right, is the result.
pub open spec fn infer(st: EnvMaps, e: SpecExpression) -> Result<SpecType, SpecTypeError>
    decreases e, 1int,
{
    match e {
        SpecExpression::LiteralInt(_) => Ok(SpecType::BitPrecise('i', 32)),
        SpecExpression::LiteralFloat(_) => Ok(SpecType::BitPrecise('f', 64)),
        SpecExpression::LiteralBool(_) => Ok(SpecType::BitPrecise('b', 1)),
        SpecExpression::LiteralString(_) => Ok(SpecType::Named("String"@)),
        SpecExpression::TypeLiteral { .. } => Ok(SpecType::Named("type"@)),
        SpecExpression::BitPreciseType { .. } => Ok(SpecType::Named("type"@)),
        SpecExpression::Variable(n) => match env_lookup(st, n) {
            Some(t) => Ok(t),
            None => Err(no_type(n)),
        },
        SpecExpression::BinaryOp { Op, Lhs, Rhs } => match infer(st, *Lhs) {
            Err(x) => Err(x),
            Ok(l) => match infer(st, *Rhs) {
                Err(x) => Err(x),
                Ok(r) => check_binary(Op, l, r),
            },
        },
        SpecExpression::UnaryOp { Op, Target } => match infer(st, *Target) {
            Err(x) => Err(x),
            Ok(t) => if Op == "*"@ {
                match t {
                    SpecType::Pointer(i) => Ok(*i),
                    SpecType::Reference(i) => Ok(*i),
                    _ => Err(SpecTypeError::NotImplemented("cannot dereference "@ + type_text(t))),
                }
            } else if Op == "!"@ || Op == "-"@ || Op == "~"@ {
                Ok(t)
            } else {
                Err(SpecTypeError::NotImplemented("unary "@ + Op))
            },
        },
        SpecExpression::FunctionCall { Name, Args } => match infer_args(st, Args, Args.len()) {
            Some(x) => Err(x),
            None => match env_lookup(st, Name) {
                Some(t) => Ok(t),
                None => Err(no_return_type(Name)),
            },
        },
        SpecExpression::MemberAccess { Target, .. } => match infer(st, *Target) {
            Err(x) => Err(x),
            Ok(_) => Ok(SpecType::Inferred),
        },
        SpecExpression::IndexAccess { Target, Index } => match infer(st, *Target) {
            Err(x) => Err(x),
            Ok(_) => match infer(st, *Index) {
                Err(x) => Err(x),
                Ok(_) => Ok(SpecType::Inferred),
            },
        },
        SpecExpression::Invalid => Ok(SpecType::Inferred),
    }
}

/// The first error among the first `n` arguments, if any.
pub open spec fn infer_args(st: EnvMaps, args: Seq<SpecExpression>, n: nat) -> Option<SpecTypeError>
    decreases args, n,
{
    if n == 0 || n > args.len() {
        None
    } else {
        match infer_args(st, args, (n - 1) as nat) {
            Some(x) => Some(x),
            None => match infer(st, args[n - 1]) {
                Err(x) => Some(x),
                Ok(_) => None,
            },
        }
    }
}

/// Once an argument fails, more arguments fail the same way.
proof fn lemma_infer_args_err(st: EnvMaps, args: Seq<SpecExpression>, i: nat, n: nat)
    requires
        1 <= i <= n <= args.len(),
        infer_args(st, args, i) is Some,
    ensures
        infer_args(st, args, n) == infer_args(st, args, i),
    decreases n - i,
{
    if n > i {
        lemma_infer_args_err(st, args, i, (n - 1) as nat);
    }
}

/// Infer the type of `expr` in the environment `env`.
#[verifier::loop_isolation(false)]
pub fn InferExpression(expr: &Expression, env: &TypeEnv) -> (r: Result<Type, TypeError>)
    ensures
        type_result(r) == infer(env@, expr@),
    decreases expr,
{
    match expr {
        Expression::LiteralInt(_) => Ok(Type::BitPrecise('i', 32)),
        Expression::LiteralFloat(_) => Ok(Type::BitPrecise('f', 64)),
        Expression::LiteralBool(_) => Ok(Type::BitPrecise('b', 1)),
        Expression::LiteralString(_) => Ok(Type::Named(String::from_str("String"))),
        Expression::TypeLiteral { .. } | Expression::BitPreciseType { .. } => Ok(
            Type::Named(String::from_str("type")),
        ),
        Expression::Variable(name) => match env.Lookup(name.as_str()) {
            Some(t) => Ok(t.clone()),
            None => Err(TypeError::NotImplemented(wrap("no type for '", name.clone(), "'"))),
        },
        Expression::BinaryOp { Op, Lhs, Rhs } => {
            let l = InferExpression(Lhs, env)?;
            let r = InferExpression(Rhs, env)?;
            CheckBinaryOp(Op.as_str(), &l, &r)
        },
        Expression::UnaryOp { Op, Target } => {
            let t = InferExpression(Target, env)?;
            if op_is(Op, "*") {
                match t {
                    Type::Pointer(inner) => Ok(*inner),
                    Type::Reference(inner) => Ok(*inner),
                    other => Err(TypeError::NotImplemented(prefixed("cannot dereference ", type_debug(&other)))),
                }
            } else if op_is(Op, "!") || op_is(Op, "-") || op_is(Op, "~") {
                Ok(t)
            } else {
                Err(TypeError::NotImplemented(prefixed("unary ", Op.clone())))
            }
        },
        Expression::FunctionCall { Name, Args } => {
            let ghost av = expr@->FunctionCall_Args;
            let mut i: usize = 0;
            while i < Args.len()
                invariant
                    i <= Args@.len(),
                    av.len() == Args@.len(),
                    forall|j: int| 0 <= j < Args@.len() ==> av[j] == (#[trigger] Args@[j])@,
                    infer_args(env@, av, i as nat) is None,
                decreases Args@.len() - i,
            {
                proof {
                    broadcast use vstd::std_specs::vec::axiom_vec_index_decreases;
                    assert(decreases_to!(*Args => Args@[i as int]));
                    assert(decreases_to!(*expr => *Args));
                }
                match InferExpression(&Args[i], env) {
                    Ok(_) => {},
                    Err(e) => {
                        proof { lemma_infer_args_err(env@, av, (i + 1) as nat, av.len()); }
                        return Err(e);
                    },
                }
                i = i + 1;
            }
            match env.Lookup(Name.as_str()) {
                Some(t) => Ok(t.clone()),
                None => Err(TypeError::NotImplemented(wrap("no return type for '", Name.clone(), "'"))),
            }
        },
        Expression::MemberAccess { Target, .. } => {
            let _ = InferExpression(Target, env)?;
            Ok(Type::Inferred)
        },
        Expression::IndexAccess { Target, Index } => {
            let _ = InferExpression(Target, env)?;
            let _ = InferExpression(Index, env)?;
            Ok(Type::Inferred)
        },
        Expression::Invalid => Ok(Type::Inferred),
    }
}

} // verus!
