//! Layer 2 (types) — statement-level checks: operator applicability,
//! assignment compatibility, argument matching, return matching.

use vstd::prelude::*;
use crate::ast::{SourceLocation, SpecType, Type};
use crate::ast::source::builtin_location;
use crate::ast::ty::TypeEq;
use crate::elaboration::layer2_types::errors::{SpecTypeError, TypeError, type_result, unit_type_result};
use crate::elaboration::layer4_smt::normalize::op_is;
use crate::render::prefixed;

verus! {

/// The boolean type `b1`.
pub open spec fn bool_type() -> SpecType {
    SpecType::BitPrecise('b', 1)
}

/// The type is `b1`.
pub open spec fn is_bool(t: SpecType) -> bool {
    t == SpecType::BitPrecise('b', 1)
}

/// Two types of the same family: both bit-precise of the same kind, both
/// unit, or the same named type.
pub open spec fn same_family(a: SpecType, b: SpecType) -> bool {
    match (a, b) {
        (SpecType::BitPrecise(ka, _), SpecType::BitPrecise(kb, _)) => ka == kb,
        (SpecType::Unit, SpecType::Unit) => true,
        (SpecType::Named(x), SpecType::Named(y)) => x == y,
        _ => false,
    }
}

/// The two types are equal, or one of them is still to be inferred.
pub open spec fn types_match(a: SpecType, b: SpecType) -> bool {
    a == b || a is Inferred || b is Inferred
}

/// The wider of two bit-precise types of the same kind.
pub open spec fn widen(a: SpecType, b: SpecType) -> Option<SpecType> {
    match (a, b) {
        (SpecType::BitPrecise(ka, wa), SpecType::BitPrecise(kb, wb)) => if ka == kb {
            Some(SpecType::BitPrecise(ka, if wa >= wb { wa } else { wb }))
        } else {
            None
        },
        _ => None,
    }
}

pub open spec fn is_compare_op(op: Seq<char>) -> bool {
    op == "=="@ || op == "!="@ || op == "<"@ || op == ">"@ || op == "<="@ || op == ">="@
}

pub open spec fn is_logical_op(op: Seq<char>) -> bool {
    op == "&&"@ || op == "||"@
}

pub open spec fn is_arith_op(op: Seq<char>) -> bool {
    op == "+"@ || op == "-"@ || op == "*"@ || op == "/"@ || op == "%"@
}

pub open spec fn is_bitwise_op(op: Seq<char>) -> bool {
    op == "&"@ || op == "|"@ || op == "^"@ || op == "<<"@ || op == ">>"@
}

/// The result type of a binary operator on two operand types:
/// `&&`/`||` need two booleans and give a boolean; comparisons need one
/// family and give a boolean; arithmetic and bitwise operators give the
/// wider of two same-kind bit-precise types; any other operator is not
/// implemented.
pub open spec fn check_binary(op: Seq<char>, l: SpecType, r: SpecType) -> Result<SpecType, SpecTypeError> {
    let bad = SpecTypeError::BadOperator { Op: op, Lhs: l, Rhs: r, At: builtin_location() };
    if is_logical_op(op) {
        if !is_bool(l) || !is_bool(r) {
            Err(bad)
        } else {
            Ok(bool_type())
        }
    } else if is_compare_op(op) {
        if same_family(l, r) {
            Ok(bool_type())
        } else {
            Err(bad)
        }
    } else if is_arith_op(op) || is_bitwise_op(op) {
        match widen(l, r) {
            Some(t) => Ok(t),
            None => Err(bad),
        }
    } else {
        Err(SpecTypeError::NotImplemented("operator "@ + op))
    }
}

/// An assignment of a `value` to a `target`: fine when the types match or
/// the value widens into the target; otherwise a mismatch.
pub open spec fn check_assignment(target: SpecType, value: SpecType) -> Result<(), SpecTypeError> {
    if types_match(target, value) || widen(target, value) == Some(target) {
        Ok(())
    } else {
        Err(SpecTypeError::Mismatch { Expected: target, Found: value, At: builtin_location() })
    }
}

/// The first failing argument among the first `n`, if any.
pub open spec fn check_args(params: Seq<SpecType>, args: Seq<SpecType>, n: nat) -> Result<(), SpecTypeError>
    decreases n,
{
    if n == 0 {
        Ok(())
    } else {
        match check_args(params, args, (n - 1) as nat) {
            Err(e) => Err(e),
            Ok(()) => check_assignment(params[n - 1], args[n - 1]),
        }
    }
}

/// A call: as many arguments as parameters, each assignable to its
/// parameter.
pub open spec fn check_call(params: Seq<SpecType>, args: Seq<SpecType>) -> Result<(), SpecTypeError> {
    if params.len() != args.len() {
        Err(
            SpecTypeError::ArityMismatch {
                Name: "<call>"@,
                Expected: params.len() as usize,
                Found: args.len() as usize,
                At: builtin_location(),
            },
        )
    } else {
        check_args(params, args, params.len())
    }
}

/// The views of a list of types.
pub open spec fn types_view(s: Seq<Type>) -> Seq<SpecType> {
    Seq::new(s.len(), |i: int| s[i]@)
}

/// The type is `b1`.
fn IsBool(t: &Type) -> (b: bool)
    ensures
        b == is_bool(t@),
{
    match t {
        Type::BitPrecise(k, w) => *k == 'b' && *w == 1,
        _ => false,
    }
}

/// Both the same numeric family, both unit, or the same named type.
fn SameFamily(a: &Type, b: &Type) -> (r: bool)
    ensures
        r == same_family(a@, b@),
{
    match (a, b) {
        (Type::BitPrecise(ka, _), Type::BitPrecise(kb, _)) => *ka == *kb,
        (Type::Unit, Type::Unit) => true,
        (Type::Named(x), Type::Named(y)) => *x == *y,
        _ => false,
    }
}

/// Equal, or one of the two is still to be inferred.
fn TypesMatch(a: &Type, b: &Type) -> (r: bool)
    ensures
        r == types_match(a@, b@),
{
    TypeEq(a, b) || matches!(a, Type::Inferred) || matches!(b, Type::Inferred)
}

/// The widest of two numeric types of the same kind; `None` if they aren't
/// compatible.
fn WidenNumeric(a: &Type, b: &Type) -> (r: Option<Type>)
    ensures
        match r {
            Some(t) => widen(a@, b@) == Some(t@),
            None => widen(a@, b@) is None,
        },
{
    match (a, b) {
        (Type::BitPrecise(ka, wa), Type::BitPrecise(kb, wb)) => {
            if *ka == *kb {
                Some(Type::BitPrecise(*ka, if *wa >= *wb { *wa } else { *wb }))
            } else {
                None
            }
        },
        _ => None,
    }
}

/// The error for an operator that does not apply to its operands.
fn BadOperator(Op: &str, Lhs: &Type, Rhs: &Type) -> (e: TypeError)
    ensures
        e@ == (SpecTypeError::BadOperator { Op: Op@, Lhs: Lhs@, Rhs: Rhs@, At: builtin_location() }),
{
    TypeError::BadOperator { Op: Op.to_owned(), Lhs: Lhs.clone(), Rhs: Rhs.clone(), At: SourceLocation::Builtin() }
}

/// Check that `Op` is defined on `Lhs` and `Rhs`, and return the result
/// type.
pub fn CheckBinaryOp(Op: &str, Lhs: &Type, Rhs: &Type) -> (r: Result<Type, TypeError>)
    ensures
        type_result(r) == check_binary(Op@, Lhs@, Rhs@),
{
    let op = Op.to_owned();
    let is_compare = op_is(&op, "==") || op_is(&op, "!=") || op_is(&op, "<") || op_is(&op, ">") || op_is(&op, "<=")
        || op_is(&op, ">=");
    let is_logical = op_is(&op, "&&") || op_is(&op, "||");
    let is_arith = op_is(&op, "+") || op_is(&op, "-") || op_is(&op, "*") || op_is(&op, "/") || op_is(&op, "%");
    let is_bitwise = op_is(&op, "&") || op_is(&op, "|") || op_is(&op, "^") || op_is(&op, "<<") || op_is(&op, ">>");
    if is_logical {
        if !IsBool(Lhs) || !IsBool(Rhs) {
            return Err(BadOperator(Op, Lhs, Rhs));
        }
        return Ok(Type::BitPrecise('b', 1));
    }
    if is_compare {
        if SameFamily(Lhs, Rhs) {
            return Ok(Type::BitPrecise('b', 1));
        }
        return Err(BadOperator(Op, Lhs, Rhs));
    }
    if is_arith || is_bitwise {
        return match WidenNumeric(Lhs, Rhs) {
            Some(t) => Ok(t),
            None => Err(BadOperator(Op, Lhs, Rhs)),
        };
    }
    Err(TypeError::NotImplemented(prefixed("operator ", op)))
}

/// Assignment: the value's type must match the target's, or widen into it.
pub fn CheckAssignment(Target: &Type, Value: &Type) -> (r: Result<(), TypeError>)
    ensures
        unit_type_result(r) == check_assignment(Target@, Value@),
{
    let widens = match WidenNumeric(Target, Value) {
        Some(t) => TypeEq(&t, Target),
        None => false,
    };
    if TypesMatch(Target, Value) || widens {
        Ok(())
    } else {
        Err(TypeError::Mismatch { Expected: Target.clone(), Found: Value.clone(), At: SourceLocation::Builtin() })
    }
}

/// Function call: each argument's type must match its declared parameter
/// type.
pub fn CheckFunctionCall(Params: &[Type], Args: &[Type]) -> (r: Result<(), TypeError>)
    ensures
        unit_type_result(r) == check_call(types_view(Params@), types_view(Args@)),
{
    if Params.len() != Args.len() {
        return Err(
            TypeError::ArityMismatch {
                Name: String::from_str("<call>"),
                Expected: Params.len(),
                Found: Args.len(),
                At: SourceLocation::Builtin(),
            },
        );
    }
    let ghost pv = types_view(Params@);
    let ghost av = types_view(Args@);
    let mut i: usize = 0;
    while i < Params.len()
        invariant
            i <= Params@.len(),
            Params@.len() == Args@.len(),
            pv == types_view(Params@),
            av == types_view(Args@),
            check_args(pv, av, i as nat) == Ok::<(), SpecTypeError>(()),
        decreases Params@.len() - i,
    {
        match CheckAssignment(&Params[i], &Args[i]) {
            Ok(()) => {},
            Err(e) => {
                proof { lemma_check_args_err(pv, av, (i + 1) as nat, pv.len()); }
                return Err(e);
            },
        }
        i = i + 1;
    }
    Ok(())
}

/// Once an argument fails, the check of more arguments fails the same way.
proof fn lemma_check_args_err(params: Seq<SpecType>, args: Seq<SpecType>, i: nat, n: nat)
    requires
        i <= n,
        check_args(params, args, i) is Err,
    ensures
        check_args(params, args, n) == check_args(params, args, i),
    decreases n - i,
{
    if n > i {
        lemma_check_args_err(params, args, i, (n - 1) as nat);
    }
}

/// Return statement: the produced value's type must match the function's
/// declared return type.
pub fn CheckReturn(Declared: &Type, Actual: &Type) -> (r: Result<(), TypeError>)
    ensures
        unit_type_result(r) == check_assignment(Declared@, Actual@),
{
    CheckAssignment(Declared, Actual)
}

/// The letters of the operator names, which tell them apart.
proof fn lemma_type_operator_chars()
    ensures
        "=="@.len() == 2 && "=="@[0] == '=' && "=="@[1] == '=',
        "!="@.len() == 2 && "!="@[0] == '!' && "!="@[1] == '=',
        "<"@.len() == 1 && "<"@[0] == '<',
        ">"@.len() == 1 && ">"@[0] == '>',
        "<="@.len() == 2 && "<="@[0] == '<' && "<="@[1] == '=',
        ">="@.len() == 2 && ">="@[0] == '>' && ">="@[1] == '=',
        "&&"@.len() == 2 && "&&"@[0] == '&' && "&&"@[1] == '&',
        "||"@.len() == 2 && "||"@[0] == '|' && "||"@[1] == '|',
        "+"@.len() == 1 && "+"@[0] == '+',
        "-"@.len() == 1 && "-"@[0] == '-',
        "*"@.len() == 1 && "*"@[0] == '*',
        "/"@.len() == 1 && "/"@[0] == '/',
        "%"@.len() == 1 && "%"@[0] == '%',
        "&"@.len() == 1 && "&"@[0] == '&',
        "|"@.len() == 1 && "|"@[0] == '|',
        "^"@.len() == 1 && "^"@[0] == '^',
        "<<"@.len() == 2 && "<<"@[0] == '<' && "<<"@[1] == '<',
        ">>"@.len() == 2 && ">>"@[0] == '>' && ">>"@[1] == '>',
{
    reveal_strlit("==");
    reveal_strlit("!=");
    reveal_strlit("<");
    reveal_strlit(">");
    reveal_strlit("<=");
    reveal_strlit(">=");
    reveal_strlit("&&");
    reveal_strlit("||");
    reveal_strlit("+");
    reveal_strlit("-");
    reveal_strlit("*");
    reveal_strlit("/");
    reveal_strlit("%");
    reveal_strlit("&");
    reveal_strlit("|");
    reveal_strlit("^");
    reveal_strlit("<<");
    reveal_strlit(">>");
}

/// Every comparison, `!=` included, on two operands of one family (two
/// bit-precise types of the same kind, two units, or the same named type)
/// has type `b1`; on operands of different families it is refused as a bad
/// operator.
pub proof fn lemma_comparisons_are_boolean(op: Seq<char>, l: SpecType, r: SpecType)
    requires
        op == "=="@ || op == "!="@ || op == "<"@ || op == ">"@ || op == "<="@ || op == ">="@,
    ensures
        ({
            let family = match (l, r) {
                (SpecType::BitPrecise(kl, _), SpecType::BitPrecise(kr, _)) => kl == kr,
                (SpecType::Unit, SpecType::Unit) => true,
                (SpecType::Named(x), SpecType::Named(y)) => x == y,
                _ => false,
            };
            &&& family ==> check_binary(op, l, r) == Ok::<SpecType, SpecTypeError>(SpecType::BitPrecise('b', 1))
            &&& !family ==> check_binary(op, l, r) is Err && check_binary(op, l, r)->Err_0 is BadOperator
        }),
{
    lemma_type_operator_chars();
}

/// `&&` and `||` take two `b1` operands and give `b1`; anything else is
/// refused as a bad operator.
pub proof fn lemma_logic_is_boolean(op: Seq<char>, l: SpecType, r: SpecType)
    requires
        op == "&&"@ || op == "||"@,
    ensures
        (l == SpecType::BitPrecise('b', 1) && r == SpecType::BitPrecise('b', 1)) ==> check_binary(op, l, r)
            == Ok::<SpecType, SpecTypeError>(SpecType::BitPrecise('b', 1)),
        !(l == SpecType::BitPrecise('b', 1) && r == SpecType::BitPrecise('b', 1)) ==> check_binary(op, l, r) is Err
            && check_binary(op, l, r)->Err_0 is BadOperator,
{
    lemma_type_operator_chars();
}

/// Arithmetic and bitwise operators on two bit-precise types of one kind
/// give that kind at the larger width; on anything else they are refused
/// as bad operators.
pub proof fn lemma_arithmetic_widens(op: Seq<char>, l: SpecType, r: SpecType)
    requires
        op == "+"@ || op == "-"@ || op == "*"@ || op == "/"@ || op == "%"@ || op == "&"@ || op == "|"@ || op == "^"@
            || op == "<<"@ || op == ">>"@,
    ensures
        match (l, r) {
            (SpecType::BitPrecise(kl, wl), SpecType::BitPrecise(kr, wr)) => if kl == kr {
                check_binary(op, l, r) == Ok::<SpecType, SpecTypeError>(
                    SpecType::BitPrecise(kl, if wl >= wr { wl } else { wr }),
                )
            } else {
                check_binary(op, l, r) is Err && check_binary(op, l, r)->Err_0 is BadOperator
            },
            _ => check_binary(op, l, r) is Err && check_binary(op, l, r)->Err_0 is BadOperator,
        },
{
    lemma_type_operator_chars();
}

} // verus!
