//! The textual forms that diagnostics show of tokens, types and
//! expressions: each variant by name, its fields in order, text quoted and
//! escaped as Rust's `Debug` does for strings and characters.

use vstd::prelude::*;
use crate::ast::{Expression, SpecExpression, SpecType, Type};
use crate::lexer::{Token, TokenKind};
use crate::text::{i64_text, int_text, nat_text, u32_text, usize_text};

verus! {

/// `Debug` text of a string: quoted, with escapes.
pub uninterp spec fn str_debug_text(s: Seq<char>) -> Seq<char>;

/// `Debug` text of a character: single-quoted, with escapes.
pub uninterp spec fn char_debug_text(c: char) -> Seq<char>;

/// `<str as Debug>::fmt`, through `format!("{:?}")`.
#[verifier::external_body]
pub(crate) fn str_debug(s: &str) -> (r: String)
    ensures
        r@ == str_debug_text(s@),
{
    format!("{:?}", s)
}

/// `<char as Debug>::fmt`, through `format!("{:?}")`.
#[verifier::external_body]
pub(crate) fn char_debug(c: char) -> (r: String)
    ensures
        r@ == char_debug_text(c),
{
    format!("{:?}", c)
}

pub open spec fn bool_text(b: bool) -> Seq<char> {
    if b { "true"@ } else { "false"@ }
}

fn bool_string(b: bool) -> (r: String)
    ensures
        r@ == bool_text(b),
{
    if b { String::from_str("true") } else { String::from_str("false") }
}

/// Text of a token kind.
pub open spec fn kind_text(k: TokenKind) -> Seq<char> {
    match k {
        TokenKind::Function => "Function"@,
        TokenKind::Let(b) => "Let("@ + bool_text(b) + ")"@,
        TokenKind::Mut => "Mut"@,
        TokenKind::Return => "Return"@,
        TokenKind::Struct => "Struct"@,
        TokenKind::Enum => "Enum"@,
        TokenKind::Havoc => "Havoc"@,
        TokenKind::Interrupt => "Interrupt"@,
        TokenKind::Unreachable => "Unreachable"@,
        TokenKind::Panic => "Panic"@,
        TokenKind::Where => "Where"@,
        TokenKind::WhereOr => "WhereOr"@,
        TokenKind::As => "As"@,
        TokenKind::Match => "Match"@,
        TokenKind::If => "If"@,
        TokenKind::Else => "Else"@,
        TokenKind::While => "While"@,
        TokenKind::For => "For"@,
        TokenKind::Loop => "Loop"@,
        TokenKind::Goto => "Goto"@,
        TokenKind::True => "True"@,
        TokenKind::False => "False"@,
        TokenKind::Ident(s) => "Ident("@ + str_debug_text(s@) + ")"@,
        TokenKind::IntLiteral(n) => "IntLiteral("@ + int_text(n as int) + ")"@,
        TokenKind::FloatLiteral(s) => "FloatLiteral("@ + s@ + ")"@,
        TokenKind::StringLiteral(s) => "StringLiteral("@ + str_debug_text(s@) + ")"@,
        TokenKind::BitPreciseType { Kind, Bits } => "BitPreciseType { Kind: "@ + char_debug_text(Kind)
            + ", Bits: "@ + nat_text(Bits as nat) + " }"@,
        TokenKind::Plus => "Plus"@,
        TokenKind::Minus => "Minus"@,
        TokenKind::Star => "Star"@,
        TokenKind::Slash => "Slash"@,
        TokenKind::Percent => "Percent"@,
        TokenKind::Equal => "Equal"@,
        TokenKind::EqualEqual => "EqualEqual"@,
        TokenKind::NotEqual => "NotEqual"@,
        TokenKind::Not => "Not"@,
        TokenKind::Arrow => "Arrow"@,
        TokenKind::TypeSet => "TypeSet"@,
        TokenKind::Less => "Less"@,
        TokenKind::Greater => "Greater"@,
        TokenKind::LessEqual => "LessEqual"@,
        TokenKind::GreaterEqual => "GreaterEqual"@,
        TokenKind::And => "And"@,
        TokenKind::Or => "Or"@,
        TokenKind::OpenParen => "OpenParen"@,
        TokenKind::CloseParen => "CloseParen"@,
        TokenKind::OpenBrace => "OpenBrace"@,
        TokenKind::CloseBrace => "CloseBrace"@,
        TokenKind::OpenBracket => "OpenBracket"@,
        TokenKind::CloseBracket => "CloseBracket"@,
        TokenKind::Colon => "Colon"@,
        TokenKind::Semicolon => "Semicolon"@,
        TokenKind::Comma => "Comma"@,
        TokenKind::Dot => "Dot"@,
        TokenKind::End => "End"@,
        TokenKind::Invalid => "Invalid"@,
    }
}

pub(crate) fn wrap(head: &str, inner: String, tail: &str) -> (r: String)
    ensures
        r@ == head@ + inner@ + tail@,
{
    let mut out = String::from_str(head);
    out.append(inner.as_str());
    out.append(tail);
    out
}

/// `head` followed by `inner`.
pub(crate) fn prefixed(head: &str, inner: String) -> (r: String)
    ensures
        r@ == head@ + inner@,
{
    let mut out = String::from_str(head);
    out.append(inner.as_str());
    out
}

/// Renders a token kind.
pub fn kind_debug(k: &TokenKind) -> (r: String)
    ensures
        r@ == kind_text(*k),
{
    match k {
        TokenKind::Function => String::from_str("Function"),
        TokenKind::Let(b) => wrap("Let(", bool_string(*b), ")"),
        TokenKind::Mut => String::from_str("Mut"),
        TokenKind::Return => String::from_str("Return"),
        TokenKind::Struct => String::from_str("Struct"),
        TokenKind::Enum => String::from_str("Enum"),
        TokenKind::Havoc => String::from_str("Havoc"),
        TokenKind::Interrupt => String::from_str("Interrupt"),
        TokenKind::Unreachable => String::from_str("Unreachable"),
        TokenKind::Panic => String::from_str("Panic"),
        TokenKind::Where => String::from_str("Where"),
        TokenKind::WhereOr => String::from_str("WhereOr"),
        TokenKind::As => String::from_str("As"),
        TokenKind::Match => String::from_str("Match"),
        TokenKind::If => String::from_str("If"),
        TokenKind::Else => String::from_str("Else"),
        TokenKind::While => String::from_str("While"),
        TokenKind::For => String::from_str("For"),
        TokenKind::Loop => String::from_str("Loop"),
        TokenKind::Goto => String::from_str("Goto"),
        TokenKind::True => String::from_str("True"),
        TokenKind::False => String::from_str("False"),
        TokenKind::Ident(s) => wrap("Ident(", str_debug(s.as_str()), ")"),
        TokenKind::IntLiteral(n) => wrap("IntLiteral(", i64_text(*n), ")"),
        TokenKind::FloatLiteral(s) => wrap("FloatLiteral(", s.clone(), ")"),
        TokenKind::StringLiteral(s) => wrap("StringLiteral(", str_debug(s.as_str()), ")"),
        TokenKind::BitPreciseType { Kind, Bits } => {
            let a = wrap("BitPreciseType { Kind: ", char_debug(*Kind), ", Bits: ");
            wrap(a.as_str(), u32_text(*Bits), " }")
        },
        TokenKind::Plus => String::from_str("Plus"),
        TokenKind::Minus => String::from_str("Minus"),
        TokenKind::Star => String::from_str("Star"),
        TokenKind::Slash => String::from_str("Slash"),
        TokenKind::Percent => String::from_str("Percent"),
        TokenKind::Equal => String::from_str("Equal"),
        TokenKind::EqualEqual => String::from_str("EqualEqual"),
        TokenKind::NotEqual => String::from_str("NotEqual"),
        TokenKind::Not => String::from_str("Not"),
        TokenKind::Arrow => String::from_str("Arrow"),
        TokenKind::TypeSet => String::from_str("TypeSet"),
        TokenKind::Less => String::from_str("Less"),
        TokenKind::Greater => String::from_str("Greater"),
        TokenKind::LessEqual => String::from_str("LessEqual"),
        TokenKind::GreaterEqual => String::from_str("GreaterEqual"),
        TokenKind::And => String::from_str("And"),
        TokenKind::Or => String::from_str("Or"),
        TokenKind::OpenParen => String::from_str("OpenParen"),
        TokenKind::CloseParen => String::from_str("CloseParen"),
        TokenKind::OpenBrace => String::from_str("OpenBrace"),
        TokenKind::CloseBrace => String::from_str("CloseBrace"),
        TokenKind::OpenBracket => String::from_str("OpenBracket"),
        TokenKind::CloseBracket => String::from_str("CloseBracket"),
        TokenKind::Colon => String::from_str("Colon"),
        TokenKind::Semicolon => String::from_str("Semicolon"),
        TokenKind::Comma => String::from_str("Comma"),
        TokenKind::Dot => String::from_str("Dot"),
        TokenKind::End => String::from_str("End"),
        TokenKind::Invalid => String::from_str("Invalid"),
    }
}

/// Text of an optional token: `Some(Token { Kind: .., Line: .., Column: .. })`
/// or `None`.
pub open spec fn opt_token_text(t: Option<Token>) -> Seq<char> {
    match t {
        Some(t) => "Some(Token { Kind: "@ + kind_text(t.Kind) + ", Line: "@ + nat_text(t.Line as nat)
            + ", Column: "@ + nat_text(t.Column as nat) + " })"@,
        None => "None"@,
    }
}

/// Renders an optional token.
pub fn opt_token_debug(t: Option<&Token>) -> (r: String)
    ensures
        r@ == opt_token_text(
            match t {
                Some(x) => Some(*x),
                None => None,
            },
        ),
{
    match t {
        Some(t) => {
            let a = wrap("Some(Token { Kind: ", kind_debug(&t.Kind), ", Line: ");
            let b = wrap(a.as_str(), usize_text(t.Line), ", Column: ");
            wrap(b.as_str(), usize_text(t.Column), " })")
        },
        None => String::from_str("None"),
    }
}

/// Text of an optional number: `Some(n)` or `None`.
pub open spec fn opt_usize_text(n: Option<usize>) -> Seq<char> {
    match n {
        Some(n) => "Some("@ + nat_text(n as nat) + ")"@,
        None => "None"@,
    }
}

pub fn opt_usize_debug(n: Option<usize>) -> (r: String)
    ensures
        r@ == opt_usize_text(n),
{
    match n {
        Some(n) => wrap("Some(", usize_text(n), ")"),
        None => String::from_str("None"),
    }
}


/// Text of an expression.
pub open spec fn expr_text(e: SpecExpression) -> Seq<char>
    decreases e, 1int,
{
    match e {
        SpecExpression::Variable(s) => "Variable("@ + str_debug_text(s) + ")"@,
        SpecExpression::LiteralInt(n) => "LiteralInt("@ + int_text(n as int) + ")"@,
        SpecExpression::LiteralFloat(s) => "LiteralFloat("@ + s + ")"@,
        SpecExpression::LiteralBool(b) => "LiteralBool("@ + bool_text(b) + ")"@,
        SpecExpression::LiteralString(s) => "LiteralString("@ + str_debug_text(s) + ")"@,
        SpecExpression::TypeLiteral { Kind, Bits } => "TypeLiteral { Kind: "@ + char_debug_text(Kind)
            + ", Bits: "@ + nat_text(Bits as nat) + " }"@,
        SpecExpression::BinaryOp { Op, Lhs, Rhs } => "BinaryOp { Op: "@ + str_debug_text(Op)
            + ", Lhs: "@ + expr_text(*Lhs) + ", Rhs: "@ + expr_text(*Rhs) + " }"@,
        SpecExpression::UnaryOp { Op, Target } => "UnaryOp { Op: "@ + str_debug_text(Op)
            + ", Target: "@ + expr_text(*Target) + " }"@,
        SpecExpression::FunctionCall { Name, Args } => "FunctionCall { Name: "@ + str_debug_text(Name)
            + ", Args: ["@ + args_text(Args, Args.len() as int) + "] }"@,
        SpecExpression::MemberAccess { Target, Member } => "MemberAccess { Target: "@ + expr_text(*Target)
            + ", Member: "@ + str_debug_text(Member) + " }"@,
        SpecExpression::BitPreciseType { Kind, Bits } => "BitPreciseType { Kind: "@ + char_debug_text(Kind)
            + ", Bits: "@ + nat_text(Bits as nat) + " }"@,
        SpecExpression::IndexAccess { Target, Index } => "IndexAccess { Target: "@ + expr_text(*Target)
            + ", Index: "@ + expr_text(*Index) + " }"@,
        SpecExpression::Invalid => "Invalid"@,
    }
}

/// The texts of the first `n` expressions, separated by `, `.
pub open spec fn args_text(args: Seq<SpecExpression>, n: int) -> Seq<char>
    decreases args, n,
{
    if n <= 0 || n > args.len() {
        Seq::empty()
    } else if n == 1 {
        expr_text(args[0])
    } else {
        args_text(args, n - 1) + ", "@ + expr_text(args[n - 1])
    }
}

/// Renders an expression.
#[verifier::loop_isolation(false)]
pub fn expr_debug(e: &Expression) -> (r: String)
    ensures
        r@ == expr_text(e@),
    decreases e,
{
    match e {
        Expression::Variable(s) => wrap("Variable(", str_debug(s.as_str()), ")"),
        Expression::LiteralInt(n) => wrap("LiteralInt(", i64_text(*n), ")"),
        Expression::LiteralFloat(s) => wrap("LiteralFloat(", s.clone(), ")"),
        Expression::LiteralBool(b) => wrap("LiteralBool(", bool_string(*b), ")"),
        Expression::LiteralString(s) => wrap("LiteralString(", str_debug(s.as_str()), ")"),
        Expression::TypeLiteral { Kind, Bits } => {
            let a = wrap("TypeLiteral { Kind: ", char_debug(*Kind), ", Bits: ");
            wrap(a.as_str(), u32_text(*Bits), " }")
        },
        Expression::BinaryOp { Op, Lhs, Rhs } => {
            let a = wrap("BinaryOp { Op: ", str_debug(Op.as_str()), ", Lhs: ");
            let b = wrap(a.as_str(), expr_debug(Lhs), ", Rhs: ");
            wrap(b.as_str(), expr_debug(Rhs), " }")
        },
        Expression::UnaryOp { Op, Target } => {
            let a = wrap("UnaryOp { Op: ", str_debug(Op.as_str()), ", Target: ");
            wrap(a.as_str(), expr_debug(Target), " }")
        },
        Expression::FunctionCall { Name, Args } => {
            let ghost args = e@->FunctionCall_Args;
            let mut joined = String::new();
            let mut i: usize = 0;
            while i < Args.len()
                invariant
                    i <= Args@.len(),
                    args.len() == Args@.len(),
                    forall|j: int| 0 <= j < Args@.len() ==> args[j] == #[trigger] Args@[j]@,
                    joined@ == args_text(args, i as int),
                decreases Args@.len() - i,
            {
                proof {
                    broadcast use vstd::std_specs::vec::axiom_vec_index_decreases;
                    assert(decreases_to!(*Args => Args@[i as int]));
                    assert(decreases_to!(*e => *Args));
                }
                let item = expr_debug(&Args[i]);
                if i > 0 {
                    joined.append(", ");
                }
                joined.append(item.as_str());
                proof {
                    if i == 0 {
                        assert(joined@ =~= args_text(args, 1));
                    } else {
                        assert(joined@ =~= args_text(args, i + 1));
                    }
                }
                i = i + 1;
            }
            let a = wrap("FunctionCall { Name: ", str_debug(Name.as_str()), ", Args: [");
            wrap(a.as_str(), joined, "] }")
        },
        Expression::MemberAccess { Target, Member } => {
            let a = wrap("MemberAccess { Target: ", expr_debug(Target), ", Member: ");
            wrap(a.as_str(), str_debug(Member.as_str()), " }")
        },
        Expression::BitPreciseType { Kind, Bits } => {
            let a = wrap("BitPreciseType { Kind: ", char_debug(*Kind), ", Bits: ");
            wrap(a.as_str(), u32_text(*Bits), " }")
        },
        Expression::IndexAccess { Target, Index } => {
            let a = wrap("IndexAccess { Target: ", expr_debug(Target), ", Index: ");
            wrap(a.as_str(), expr_debug(Index), " }")
        },
        Expression::Invalid => String::from_str("Invalid"),
    }
}

/// Text of a type.
pub open spec fn type_text(t: SpecType) -> Seq<char>
    decreases t,
{
    match t {
        SpecType::BitPrecise(k, b) => "BitPrecise("@ + char_debug_text(k) + ", "@ + nat_text(b as nat) + ")"@,
        SpecType::Named(n) => "Named("@ + str_debug_text(n) + ")"@,
        SpecType::Pointer(i) => "Pointer("@ + type_text(*i) + ")"@,
        SpecType::Array(i, n) => "Array("@ + type_text(*i) + ", "@ + nat_text(n as nat) + ")"@,
        SpecType::Where(b, p, f) => "Where("@ + type_text(*b) + ", "@ + expr_text(p) + ", "@ + match f {
            Some(x) => "Some("@ + expr_text(x) + ")"@,
            None => "None"@,
        } + ")"@,
        SpecType::Unit => "Unit"@,
        SpecType::Inferred => "Inferred"@,
        SpecType::Reference(i) => "Reference("@ + type_text(*i) + ")"@,
        SpecType::Null => "Null"@,
    }
}

/// Renders a type.
pub fn type_debug(t: &Type) -> (r: String)
    ensures
        r@ == type_text(t@),
    decreases t,
{
    match t {
        Type::BitPrecise(k, b) => {
            let a = wrap("BitPrecise(", char_debug(*k), ", ");
            wrap(a.as_str(), u32_text(*b), ")")
        },
        Type::Named(n) => wrap("Named(", str_debug(n.as_str()), ")"),
        Type::Pointer(i) => wrap("Pointer(", type_debug(i), ")"),
        Type::Array(i, n) => {
            let a = wrap("Array(", type_debug(i), ", ");
            wrap(a.as_str(), usize_text(*n), ")")
        },
        Type::Where(b, p, f) => {
            let a = wrap("Where(", type_debug(b), ", ");
            let c = wrap(a.as_str(), expr_debug(p), ", ");
            let d = match f {
                Some(x) => wrap("Some(", expr_debug(x), ")"),
                None => String::from_str("None"),
            };
            wrap(c.as_str(), d, ")")
        },
        Type::Unit => String::from_str("Unit"),
        Type::Inferred => String::from_str("Inferred"),
        Type::Reference(i) => wrap("Reference(", type_debug(i), ")"),
        Type::Null => String::from_str("Null"),
    }
}

} // verus!
