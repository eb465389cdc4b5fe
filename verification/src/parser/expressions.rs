//! Expression parsing: precedence climbing, atoms, and postfix operators;
//! and the boolean evaluation of constant expressions.

use vstd::prelude::*;
use crate::ast::{Expression, SpecExpression, SpecVariable, variables_view};
use crate::ast::expr::exprs_view;
use crate::lexer::token::{Token, TokenKind, kind_same};
use crate::parser::{Parser, advanced, parser_wf, peek_kind};
use crate::render::{opt_token_debug, opt_token_text};

verus! {

broadcast use crate::parser::reading::lemma_advanced_trans;

/// A value of one of the kinds a constant can have.
#[derive(Debug, Clone, PartialEq)]
pub enum ActualValue {
    Bool(bool),
    Int(i64),
    /// A decimal number, as written.
    Float(String),
    /// Text.
    Text(String),
}

pub enum SpecActualValue {
    Bool(bool),
    Int(i64),
    Float(Seq<char>),
    Text(Seq<char>),
}

impl View for ActualValue {
    type V = SpecActualValue;

    open spec fn view(&self) -> SpecActualValue {
        match self {
            ActualValue::Bool(b) => SpecActualValue::Bool(*b),
            ActualValue::Int(n) => SpecActualValue::Int(*n),
            ActualValue::Float(s) => SpecActualValue::Float(s@),
            ActualValue::Text(s) => SpecActualValue::Text(s@),
        }
    }
}

pub open spec fn not_boolean_message() -> Seq<char> {
    "Cannot evaluate variable as boolean"@
}

/// The value bound to `name` among `vars`, or the sentinel
/// `Variable("Invalid")` when there is none.
pub open spec fn variable_value(vars: Map<Seq<char>, SpecVariable>, name: Seq<char>) -> SpecExpression {
    if vars.contains_key(name) {
        vars[name].Value
    } else {
        SpecExpression::Variable("Invalid"@)
    }
}

/// The value a literal stands for, or the "cannot evaluate" message.
pub open spec fn literal_value(e: SpecExpression) -> SpecActualValue {
    match e {
        SpecExpression::LiteralBool(b) => SpecActualValue::Bool(b),
        SpecExpression::LiteralInt(n) => SpecActualValue::Int(n),
        SpecExpression::LiteralFloat(s) => SpecActualValue::Float(s),
        SpecExpression::LiteralString(s) => SpecActualValue::Text(s),
        _ => SpecActualValue::Text(not_boolean_message()),
    }
}

/// What [`Parser::EvaluateActualType`] gives: a literal's value; for a
/// variable, the literal value it is bound to (unless the cursor is on an
/// `End` token).
pub open spec fn actual_value(vars: Map<Seq<char>, SpecVariable>, at_end: bool, v: SpecExpression) -> SpecActualValue {
    match v {
        SpecExpression::Variable(name) => if at_end {
            SpecActualValue::Text(not_boolean_message())
        } else {
            literal_value(variable_value(vars, name))
        },
        _ => literal_value(v),
    }
}

/// The integer an operand stands for: an integer literal, or a variable
/// whose bound literal is an integer.
pub open spec fn int_value(vars: Map<Seq<char>, SpecVariable>, at_end: bool, e: SpecExpression) -> Option<i64> {
    match e {
        SpecExpression::LiteralInt(n) => Some(n),
        SpecExpression::Variable(name) => match actual_value(vars, at_end, variable_value(vars, name)) {
            SpecActualValue::Int(n) => Some(n),
            _ => None,
        },
        _ => None,
    }
}

/// A comparison operator applied to two integers or two booleans
/// (`false < true`).
pub open spec fn compare_ints(op: Seq<char>, a: i64, b: i64) -> bool {
    if op == "=="@ { a == b }
    else if op == "!="@ { a != b }
    else if op == "<"@ { a < b }
    else if op == "<="@ { a <= b }
    else if op == ">"@ { a > b }
    else { a >= b }
}

pub open spec fn compare_bools(op: Seq<char>, a: bool, b: bool) -> bool {
    if op == "=="@ { a == b }
    else if op == "!="@ { a != b }
    else if op == "<"@ { !a && b }
    else if op == "<="@ { !a || b }
    else if op == ">"@ { a && !b }
    else { a || !b }
}

/// The boolean value of an expression: integers are true when non-zero,
/// variables through their bound literal; `&&` and `||` read their right
/// side only when the left does not decide; `==`, `!=`, `<`, `<=`, `>`, `>=`
/// compare two integer operands (literals, or variables bound to integer
/// literals) as integers, and otherwise the boolean values of both sides
/// (`false < true`), the left side's error first.
pub open spec fn eval_bool(vars: Map<Seq<char>, SpecVariable>, at_end: bool, e: SpecExpression) -> Result<bool, Seq<char>>
    decreases e,
{
    match e {
        SpecExpression::LiteralInt(n) => Ok(n != 0),
        SpecExpression::LiteralBool(b) => Ok(b),
        SpecExpression::LiteralString(_) => Err("Cannot evaluate string as boolean"@),
        SpecExpression::Variable(name) => match actual_value(vars, at_end, variable_value(vars, name)) {
            SpecActualValue::Bool(b) => Ok(b),
            _ => Err(not_boolean_message()),
        },
        SpecExpression::BinaryOp { Op, Lhs, Rhs } => {
            let l = eval_bool(vars, at_end, *Lhs);
            let r = eval_bool(vars, at_end, *Rhs);
            if Op == "&&"@ {
                match l {
                    Err(m) => Err(m),
                    Ok(false) => Ok(false),
                    Ok(true) => r,
                }
            } else if Op == "||"@ {
                match l {
                    Err(m) => Err(m),
                    Ok(true) => Ok(true),
                    Ok(false) => r,
                }
            } else if Op == "=="@ || Op == "!="@ || Op == "<"@ || Op == "<="@ || Op == ">"@ || Op == ">="@ {
                match (int_value(vars, at_end, *Lhs), int_value(vars, at_end, *Rhs)) {
                    (Some(a), Some(b)) => Ok(compare_ints(Op, a, b)),
                    _ => match (l, r) {
                        (Err(m), _) => Err(m),
                        (Ok(_), Err(m)) => Err(m),
                        (Ok(a), Ok(b)) => Ok(compare_bools(Op, a, b)),
                    },
                }
            } else {
                Err("Unknown binary operator"@)
            }
        },
        _ => Err("Cannot evaluate expression as boolean"@),
    }
}

/// The binding strength of an operator token (0 for tokens that are not
/// binary operators).
pub open spec fn precedence(k: TokenKind) -> u8 {
    match k {
        TokenKind::Or => 2,
        TokenKind::And => 3,
        TokenKind::Less | TokenKind::Greater | TokenKind::LessEqual | TokenKind::GreaterEqual => 4,
        TokenKind::Plus | TokenKind::Minus => 5,
        TokenKind::Star | TokenKind::Slash | TokenKind::Percent => 6,
        TokenKind::As => 7,
        _ => 0,
    }
}

/// The operator text a binary operator token stands for.
pub open spec fn op_text(k: TokenKind) -> Seq<char> {
    match k {
        TokenKind::Plus => "+"@,
        TokenKind::Minus => "-"@,
        TokenKind::Star => "*"@,
        TokenKind::Slash => "/"@,
        TokenKind::Percent => "%"@,
        TokenKind::Less => "<"@,
        TokenKind::Greater => ">"@,
        TokenKind::LessEqual => "<="@,
        TokenKind::GreaterEqual => ">="@,
        TokenKind::And => "&&"@,
        TokenKind::Or => "||"@,
        TokenKind::As => "as"@,
        _ => Seq::empty(),
    }
}

/// The dotted name a call target stands for: `a`, `a.b`, `a.b.c`, ...
pub open spec fn dotted_name(e: SpecExpression) -> Option<Seq<char>>
    decreases e,
{
    match e {
        SpecExpression::Variable(n) => Some(n),
        SpecExpression::MemberAccess { Target, Member } => match dotted_name(*Target) {
            Some(t) => Some(t + "."@ + Member),
            None => None,
        },
        _ => None,
    }
}

fn DottedName(e: &Expression) -> (r: Result<String, String>)
    ensures
        match dotted_name(e@) {
            Some(n) => r is Ok && r->Ok_0@ == n,
            None => r is Err && r->Err_0@ == "Invalid function target"@,
        },
    decreases e,
{
    match e {
        Expression::Variable(n) => Ok(n.clone()),
        Expression::MemberAccess { Target, Member } => {
            let mut t = DottedName(Target)?;
            t.append(".");
            t.append(Member.as_str());
            Ok(t)
        },
        _ => Err(String::from_str("Invalid function target")),
    }
}

/// The token at position `i`, if there is one.
pub open spec fn token_at_pos(ts: Seq<Token>, i: int) -> Option<Token> {
    if 0 <= i < ts.len() {
        Some(ts[i])
    } else {
        None
    }
}

/// The kind of the token at position `i` is `k`.
pub open spec fn kind_is(ts: Seq<Token>, i: int, k: TokenKind) -> bool {
    0 <= i < ts.len() && kind_same(ts[i].Kind, k)
}

/// Reading a token of kind `k` at `pos`: the position after it, or `msg`
/// followed by `. Found ` and what is there instead, with the cursor left
/// at `pos`.
pub open spec fn expect(ts: Seq<Token>, pos: int, k: TokenKind, msg: Seq<char>) -> Result<int, (Seq<char>, int)> {
    if kind_is(ts, pos, k) {
        Ok(pos + 1)
    } else {
        Err((msg + ". Found "@ + opt_token_text(token_at_pos(ts, pos)), pos))
    }
}

/// The error for a token that cannot start an expression.
pub open spec fn unexpected(ts: Seq<Token>, pos: int) -> Seq<char> {
    "Unexpected token in expression: "@ + opt_token_text(token_at_pos(ts, pos))
}

/// The result of reading from a position: what was read and the position
/// after it, or the error and the position where reading stopped.
pub type Read<T> = Result<(T, int), (Seq<char>, int)>;

/// Reading an atom at `pos`: a literal, a name, a bit-precise type (`i`
/// types read as their width), `*` and a primary, or a parenthesized
/// expression.
pub open spec fn read_atom(ts: Seq<Token>, pos: int) -> Read<SpecExpression>
    decreases ts.len() - pos, 0int,
{
    if pos < 0 || pos >= ts.len() {
        Err((unexpected(ts, pos), pos))
    } else {
        match ts[pos].Kind {
            TokenKind::IntLiteral(v) => Ok((SpecExpression::LiteralInt(v), pos + 1)),
            TokenKind::FloatLiteral(v) => Ok((SpecExpression::LiteralFloat(v@), pos + 1)),
            TokenKind::StringLiteral(v) => Ok((SpecExpression::LiteralString(v@), pos + 1)),
            TokenKind::Ident(v) => Ok((SpecExpression::Variable(v@), pos + 1)),
            TokenKind::BitPreciseType { Kind, Bits } => Ok(
                (
                    if Kind == 'i' {
                        SpecExpression::LiteralInt(Bits as i64)
                    } else {
                        SpecExpression::BitPreciseType { Kind, Bits }
                    },
                    pos + 1,
                ),
            ),
            TokenKind::Star => match read_primary(ts, pos + 1) {
                Err(m) => Err(m),
                Ok((t, p)) => Ok((SpecExpression::UnaryOp { Op: "*"@, Target: Box::new(t) }, p)),
            },
            TokenKind::OpenParen => match read_expr(ts, pos + 1) {
                Err(m) => Err(m),
                Ok((e, p)) => match expect(ts, p, TokenKind::CloseParen, "Expected ')'"@) {
                    Err(m) => Err(m),
                    Ok(p2) => Ok((e, p2)),
                },
            },
            _ => Err((unexpected(ts, pos), pos)),
        }
    }
}

/// Reading a primary at `pos`: an atom followed by any postfix operators.
pub open spec fn read_primary(ts: Seq<Token>, pos: int) -> Read<SpecExpression>
    decreases ts.len() - pos, 1int,
{
    match read_atom(ts, pos) {
        Err(m) => Err(m),
        Ok((e, p)) => if pos < p <= ts.len() {
            read_postfix(ts, e, p)
        } else {
            Ok((e, p))
        },
    }
}

/// The name a call's target gives the call: a name, or a dotted name.
pub open spec fn call_name(e: SpecExpression) -> Result<Seq<char>, Seq<char>> {
    match e {
        SpecExpression::Variable(n) => Ok(n),
        SpecExpression::MemberAccess { .. } => match dotted_name(e) {
            Some(n) => Ok(n),
            None => Err("Invalid function target"@),
        },
        _ => Err("Expected function name before '('"@),
    }
}

/// Reading the postfix operators after `e`, from `pos`: `.member`,
/// `(arguments)` and `[index]`, left to right.
pub open spec fn read_postfix(ts: Seq<Token>, e: SpecExpression, pos: int) -> Read<SpecExpression>
    decreases ts.len() - pos, 1int,
{
    if pos < 0 || pos >= ts.len() {
        Ok((e, pos))
    } else {
        match ts[pos].Kind {
            TokenKind::Dot => if pos + 1 < ts.len() && ts[pos + 1].Kind is Ident {
                read_postfix(
                    ts,
                    SpecExpression::MemberAccess { Target: Box::new(e), Member: ts[pos + 1].Kind->Ident_0@ },
                    pos + 2,
                )
            } else if pos + 1 >= ts.len() {
                Err(("Expected member name after '.'"@, pos + 1))
            } else {
                Err(("Expected member name after '.'"@, pos + 2))
            },
            TokenKind::OpenParen => match read_call_args(ts, pos + 1) {
                Err(m) => Err(m),
                Ok((args, p)) => match expect(ts, p, TokenKind::CloseParen, "Expected ')' after arguments"@) {
                    Err(m) => Err(m),
                    Ok(p2) => match call_name(e) {
                        Err(m) => Err((m, p2)),
                        Ok(n) => if pos < p2 <= ts.len() {
                            read_postfix(ts, SpecExpression::FunctionCall { Name: n, Args: args }, p2)
                        } else {
                            Ok((e, p2))
                        },
                    },
                },
            },
            TokenKind::OpenBracket => match read_expr(ts, pos + 1) {
                Err(m) => Err(m),
                Ok((i, p)) => match expect(ts, p, TokenKind::CloseBracket, "Expected ']' after index"@) {
                    Err(m) => Err(m),
                    Ok(p2) => if pos < p2 <= ts.len() {
                        read_postfix(ts, SpecExpression::IndexAccess { Target: Box::new(e), Index: Box::new(i) }, p2)
                    } else {
                        Ok((e, p2))
                    },
                },
            },
            _ => Ok((e, pos)),
        }
    }
}

/// Reading a call's arguments at `pos`: none when a `)` follows at once,
/// otherwise expressions separated by commas.
pub open spec fn read_call_args(ts: Seq<Token>, pos: int) -> Read<Seq<SpecExpression>>
    decreases ts.len() - pos, 5int,
{
    if kind_is(ts, pos, TokenKind::CloseParen) {
        Ok((Seq::empty(), pos))
    } else {
        read_args(ts, pos, Seq::empty())
    }
}

/// Reading arguments after those in `acc`, from `pos`.
pub open spec fn read_args(ts: Seq<Token>, pos: int, acc: Seq<SpecExpression>) -> Read<Seq<SpecExpression>>
    decreases ts.len() - pos, 4int,
{
    match read_expr(ts, pos) {
        Err(m) => Err(m),
        Ok((a, p)) => if kind_is(ts, p, TokenKind::Comma) && pos < p + 1 <= ts.len() {
            read_args(ts, p + 1, acc.push(a))
        } else {
            Ok((acc.push(a), p))
        },
    }
}

/// Reading a binary expression at `pos` whose operators bind more tightly
/// than `prec`.
pub open spec fn read_binary(ts: Seq<Token>, pos: int, prec: u8) -> Read<SpecExpression>
    decreases ts.len() - pos, 2int,
{
    match read_primary(ts, pos) {
        Err(m) => Err(m),
        Ok((e, p)) => if pos < p <= ts.len() {
            read_binary_rest(ts, e, p, prec)
        } else {
            Ok((e, p))
        },
    }
}

/// Reading the operators after the left side `e`, from `pos`: each one
/// binding more tightly than `prec` takes a right side read at its own
/// binding strength.
pub open spec fn read_binary_rest(ts: Seq<Token>, e: SpecExpression, pos: int, prec: u8) -> Read<SpecExpression>
    decreases ts.len() - pos, 2int,
{
    if pos < 0 || pos >= ts.len() || precedence(ts[pos].Kind) <= prec {
        Ok((e, pos))
    } else {
        let k = ts[pos].Kind;
        match read_binary(ts, pos + 1, precedence(k)) {
            Err(m) => Err(m),
            Ok((r, p)) => {
                let ne = SpecExpression::BinaryOp { Op: op_text(k), Lhs: Box::new(e), Rhs: Box::new(r) };
                if pos < p <= ts.len() {
                    read_binary_rest(ts, ne, p, prec)
                } else {
                    Ok((ne, p))
                }
            },
        }
    }
}

/// Reading an expression at `pos`.
pub closed spec fn read_expr(ts: Seq<Token>, pos: int) -> Read<SpecExpression>
    decreases ts.len() - pos, 3int,
{
    read_binary(ts, pos, 0)
}

/// The parser's result matches a reading: the expression or the error,
/// and the position the cursor is left at.
pub open spec fn matches_read(r: Result<Expression, String>, pos: int, rd: Read<SpecExpression>) -> bool {
    match rd {
        Ok((e, p)) => r is Ok && r->Ok_0@ == e && pos == p,
        Err((m, p)) => r is Err && r->Err_0@ == m && pos == p,
    }
}

/// A successful reading ends after its start, and a failed one stops at or
/// after it, within the tokens.
pub open spec fn moves_on<T>(rd: Read<T>, pos: int, len: int) -> bool {
    match rd {
        Ok((_, p)) => pos < p <= len,
        Err((_, p)) => pos <= p <= len,
    }
}

/// A reading ends, or stops, at or after its start, within the tokens.
pub open spec fn keeps_on<T>(rd: Read<T>, pos: int, len: int) -> bool {
    match rd {
        Ok((_, p)) => pos <= p <= len,
        Err((_, p)) => pos <= p <= len,
    }
}

proof fn lemma_atom_moves_on(ts: Seq<Token>, pos: int)
    requires
        0 <= pos <= ts.len(),
    ensures
        moves_on(read_atom(ts, pos), pos, ts.len() as int),
    decreases ts.len() - pos, 0int,
{
    if 0 <= pos < ts.len() {
        match ts[pos].Kind {
            TokenKind::Star => lemma_primary_moves_on(ts, pos + 1),
            TokenKind::OpenParen => lemma_expr_moves_on(ts, pos + 1),
            _ => {},
        }
    }
}

proof fn lemma_primary_moves_on(ts: Seq<Token>, pos: int)
    requires
        0 <= pos <= ts.len(),
    ensures
        moves_on(read_primary(ts, pos), pos, ts.len() as int),
    decreases ts.len() - pos, 1int,
{
    lemma_atom_moves_on(ts, pos);
    match read_atom(ts, pos) {
        Ok((e, p)) => {
            if pos < p <= ts.len() {
                lemma_postfix_keeps_on(ts, e, p);
            }
        },
        Err(_) => {},
    }
}

proof fn lemma_postfix_keeps_on(ts: Seq<Token>, e: SpecExpression, pos: int)
    requires
        0 <= pos <= ts.len(),
    ensures
        keeps_on(read_postfix(ts, e, pos), pos, ts.len() as int),
    decreases ts.len() - pos, 1int,
{
    if pos < ts.len() {
        match ts[pos].Kind {
            TokenKind::Dot => {
                if pos + 1 < ts.len() && ts[pos + 1].Kind is Ident {
                    lemma_postfix_keeps_on(
                        ts,
                        SpecExpression::MemberAccess { Target: Box::new(e), Member: ts[pos + 1].Kind->Ident_0@ },
                        pos + 2,
                    );
                }
            },
            TokenKind::OpenParen => {
                lemma_call_args_keep_on(ts, pos + 1);
                match read_call_args(ts, pos + 1) {
                    Ok((args, p)) => match expect(ts, p, TokenKind::CloseParen, "Expected ')' after arguments"@) {
                        Ok(p2) => match call_name(e) {
                            Ok(n) => if pos < p2 <= ts.len() {
                                lemma_postfix_keeps_on(ts, SpecExpression::FunctionCall { Name: n, Args: args }, p2);
                            },
                            Err(_) => {},
                        },
                        Err(_) => {},
                    },
                    Err(_) => {},
                }
            },
            TokenKind::OpenBracket => {
                lemma_expr_moves_on(ts, pos + 1);
                match read_expr(ts, pos + 1) {
                    Ok((i, p)) => match expect(ts, p, TokenKind::CloseBracket, "Expected ']' after index"@) {
                        Ok(p2) => if pos < p2 <= ts.len() {
                            lemma_postfix_keeps_on(
                                ts,
                                SpecExpression::IndexAccess { Target: Box::new(e), Index: Box::new(i) },
                                p2,
                            );
                        },
                        Err(_) => {},
                    },
                    Err(_) => {},
                }
            },
            _ => {},
        }
    }
}

proof fn lemma_call_args_keep_on(ts: Seq<Token>, pos: int)
    requires
        0 <= pos <= ts.len(),
    ensures
        keeps_on(read_call_args(ts, pos), pos, ts.len() as int),
    decreases ts.len() - pos, 5int,
{
    if !kind_is(ts, pos, TokenKind::CloseParen) {
        lemma_args_move_on(ts, pos, Seq::empty());
    }
}

proof fn lemma_args_move_on(ts: Seq<Token>, pos: int, acc: Seq<SpecExpression>)
    requires
        0 <= pos <= ts.len(),
    ensures
        moves_on(read_args(ts, pos, acc), pos, ts.len() as int),
    decreases ts.len() - pos, 4int,
{
    lemma_expr_moves_on(ts, pos);
    match read_expr(ts, pos) {
        Ok((a, p)) => {
            if kind_is(ts, p, TokenKind::Comma) && pos < p + 1 <= ts.len() {
                lemma_args_move_on(ts, p + 1, acc.push(a));
            }
        },
        Err(_) => {},
    }
}

proof fn lemma_binary_moves_on(ts: Seq<Token>, pos: int, prec: u8)
    requires
        0 <= pos <= ts.len(),
    ensures
        moves_on(read_binary(ts, pos, prec), pos, ts.len() as int),
    decreases ts.len() - pos, 2int,
{
    lemma_primary_moves_on(ts, pos);
    match read_primary(ts, pos) {
        Ok((e, p)) => {
            if pos < p <= ts.len() {
                lemma_binary_rest_keeps_on(ts, e, p, prec);
            }
        },
        Err(_) => {},
    }
}

proof fn lemma_binary_rest_keeps_on(ts: Seq<Token>, e: SpecExpression, pos: int, prec: u8)
    requires
        0 <= pos <= ts.len(),
    ensures
        keeps_on(read_binary_rest(ts, e, pos, prec), pos, ts.len() as int),
    decreases ts.len() - pos, 2int,
{
    if !(pos >= ts.len() || precedence(ts[pos].Kind) <= prec) {
        let k = ts[pos].Kind;
        lemma_binary_moves_on(ts, pos + 1, precedence(k));
        match read_binary(ts, pos + 1, precedence(k)) {
            Ok((r, p)) => {
                let ne = SpecExpression::BinaryOp { Op: op_text(k), Lhs: Box::new(e), Rhs: Box::new(r) };
                if pos < p <= ts.len() {
                    lemma_binary_rest_keeps_on(ts, ne, p, prec);
                }
            },
            Err(_) => {},
        }
    }
}

/// A successful reading of an expression ends after its start, within the
/// tokens.
pub proof fn lemma_expr_moves_on(ts: Seq<Token>, pos: int)
    requires
        0 <= pos <= ts.len(),
    ensures
        moves_on(read_expr(ts, pos), pos, ts.len() as int),
    decreases ts.len() - pos, 3int,
{
    lemma_binary_moves_on(ts, pos, 0);
}

impl Parser {
    /// The vars of the current layer.
    pub open spec fn vars(&self) -> Map<Seq<char>, SpecVariable> {
        variables_view(self.CurrentLayer.VariableStorage.Variables@)
    }

    /// True when the cursor is on an `End` token.
    pub open spec fn at_end_token(&self) -> bool {
        peek_kind(*self) == Some(TokenKind::End)
    }

    /// The value of a literal, or of the literal a variable is bound to.
    pub fn EvaluateActualType(&mut self, val: Expression) -> (r: ActualValue)
        ensures
            *final(self) == *old(self),
            r@ == actual_value(old(self).vars(), old(self).at_end_token(), val@),
    {
        match val {
            Expression::Variable(Name) => {
                let at_end = match self.Peek() {
                    Some(t) => t.Kind.Same(&TokenKind::End),
                    None => false,
                };
                if at_end {
                    return ActualValue::Text(String::from_str("Cannot evaluate variable as boolean"));
                }
                let Expr = self.GetVariable(Name.as_str());
                LiteralValue(&Expr)
            },
            other => LiteralValue(&other),
        }
    }

    /// Evaluates an expression as a boolean.
    /// Returns Ok(true) or Ok(false) if the expression can be evaluated as a boolean.
    /// Returns Err if the expression cannot be evaluated as a boolean.
    pub fn EvaluateExpression(&mut self, expr: &Expression) -> (r: Result<bool, String>)
        ensures
            *final(self) == *old(self),
            match eval_bool(old(self).vars(), old(self).at_end_token(), expr@) {
                Ok(b) => r == Ok::<bool, String>(b),
                Err(m) => r is Err && r->Err_0@ == m,
            },
        decreases expr,
    {
        match expr {
            Expression::LiteralInt(n) => Ok(*n != 0),
            Expression::LiteralBool(b) => Ok(*b),
            Expression::LiteralString(_) => Err(String::from_str("Cannot evaluate string as boolean")),
            Expression::Variable(name) => {
                let Var = self.GetVariable(name.as_str());
                let EvalResult = self.EvaluateActualType(Var);
                match EvalResult {
                    ActualValue::Bool(b) => Ok(b),
                    _ => Err(String::from_str("Cannot evaluate variable as boolean")),
                }
            },
            Expression::BinaryOp { Op, Lhs, Rhs } => {
                let l = self.EvaluateExpression(Lhs);
                let r = self.EvaluateExpression(Rhs);
                let op = Op.clone();
                if op == String::from_str("&&") {
                    Ok(l? && r?)
                } else if op == String::from_str("||") {
                    Ok(l? || r?)
                } else if op == String::from_str("==") || op == String::from_str("!=") || op == String::from_str("<")
                    || op == String::from_str("<=") || op == String::from_str(">") || op == String::from_str(">=") {
                    let li = self.IntValue(Lhs);
                    let ri = self.IntValue(Rhs);
                    if let (Some(a), Some(b)) = (li, ri) {
                        return Ok(
                            if op == String::from_str("==") {
                                a == b
                            } else if op == String::from_str("!=") {
                                a != b
                            } else if op == String::from_str("<") {
                                a < b
                            } else if op == String::from_str("<=") {
                                a <= b
                            } else if op == String::from_str(">") {
                                a > b
                            } else {
                                a >= b
                            },
                        );
                    }
                    let a = l?;
                    let b = r?;
                    Ok(
                        if op == String::from_str("==") {
                            a == b
                        } else if op == String::from_str("!=") {
                            a != b
                        } else if op == String::from_str("<") {
                            !a && b
                        } else if op == String::from_str("<=") {
                            !a || b
                        } else if op == String::from_str(">") {
                            a && !b
                        } else {
                            a || !b
                        },
                    )
                } else {
                    Err(String::from_str("Unknown binary operator"))
                }
            },
            _ => Err(String::from_str("Cannot evaluate expression as boolean")),
        }
    }

    /// The integer an operand stands for, if it is an integer literal or a
    /// variable bound to one.
    fn IntValue(&mut self, e: &Expression) -> (r: Option<i64>)
        ensures
            *final(self) == *old(self),
            r == int_value(old(self).vars(), old(self).at_end_token(), e@),
    {
        match e {
            Expression::LiteralInt(n) => Some(*n),
            Expression::Variable(name) => {
                let v = self.GetVariable(name.as_str());
                match self.EvaluateActualType(v) {
                    ActualValue::Int(n) => Some(n),
                    _ => None,
                }
            },
            _ => None,
        }
    }

    /// Get variable of name n from current Context
    pub fn GetVariable(&self, Name: &str) -> (r: Expression)
        ensures
            r@ == variable_value(self.vars(), Name@),
    {
        match self.CurrentLayer.VariableStorage.Variables.Get(Name) {
            Some(v) => v.Value.clone(),
            None => Expression::Variable(String::from_str("Invalid")),
        }
    }

    /// Entry point for expressions.
    pub fn ParseExpression(&mut self) -> (r: Result<Expression, String>)
        requires
            parser_wf(*old(self)),
        ensures
            parser_wf(*final(self)),
            advanced(*old(self), *final(self)),
            final(self).CurrentLayer == old(self).CurrentLayer,
            final(self).NextLayerId == old(self).NextLayerId,
            r is Ok ==> final(self).Position > old(self).Position,
            r is Ok ==> match peek_kind(*final(self)) {
                Some(k) => precedence(k) == 0,
                None => true,
            },
            matches_read(r, final(self).Position as int, read_expr(old(self).Tokens@, old(self).Position as int)),
        decreases old(self).Tokens@.len() - old(self).Position, 3int,
    {
        self.ParseBinary(0)
    }

    /// Handles operator precedence for math and logic (precedence climbing):
    /// operators binding more tightly than `Precedence` are read, each with
    /// its right side read at its own precedence.
    pub fn ParseBinary(&mut self, Precedence: u8) -> (r: Result<Expression, String>)
        requires
            parser_wf(*old(self)),
        ensures
            parser_wf(*final(self)),
            advanced(*old(self), *final(self)),
            final(self).CurrentLayer == old(self).CurrentLayer,
            final(self).NextLayerId == old(self).NextLayerId,
            r is Ok ==> final(self).Position > old(self).Position,
            r is Ok ==> match peek_kind(*final(self)) {
                Some(k) => precedence(k) <= Precedence,
                None => true,
            },
            matches_read(
                r,
                final(self).Position as int,
                read_binary(old(self).Tokens@, old(self).Position as int, Precedence),
            ),
        decreases old(self).Tokens@.len() - old(self).Position, 2int,
    {
        let mut Expr = self.ParsePrimary()?;
        loop
            invariant
                parser_wf(*self),
                advanced(*old(self), *self),
                self.CurrentLayer == old(self).CurrentLayer,
                self.NextLayerId == old(self).NextLayerId,
                self.Position > old(self).Position,
                read_binary(old(self).Tokens@, old(self).Position as int, Precedence) == read_binary_rest(
                    self.Tokens@,
                    Expr@,
                    self.Position as int,
                    Precedence,
                ),
            ensures
                match peek_kind(*self) {
                    Some(k) => precedence(k) <= Precedence,
                    None => true,
                },
            decreases self.Tokens@.len() - self.Position,
        {
            if self.Position >= self.Tokens.len() {
                break;
            }
            let next_prec = self.TokenPrecedence(&self.Tokens[self.Position].Kind);
            if next_prec <= Precedence {
                break;
            }
            let op_tok = self.Advance().unwrap().Kind.clone();
            let Rhs = self.ParseBinary(next_prec)?;
            Expr = Expression::BinaryOp { Op: OpString(&op_tok), Lhs: Box::new(Expr), Rhs: Box::new(Rhs) };
        }
        Ok(Expr)
    }

    /// The order-of-operations table.
    pub fn TokenPrecedence(&self, Tok: &TokenKind) -> (p: u8)
        ensures
            p == precedence(*Tok),
    {
        match Tok {
            TokenKind::Or => 2,
            TokenKind::And => 3,
            TokenKind::Less | TokenKind::Greater | TokenKind::LessEqual | TokenKind::GreaterEqual => 4,
            TokenKind::Plus | TokenKind::Minus => 5,
            TokenKind::Star | TokenKind::Slash | TokenKind::Percent => 6,
            TokenKind::As => 7,
            _ => 0,
        }
    }

    /// Parses atoms like numbers, strings, and idents.
    pub fn ParseAtom(&mut self) -> (r: Result<Expression, String>)
        requires
            parser_wf(*old(self)),
        ensures
            parser_wf(*final(self)),
            advanced(*old(self), *final(self)),
            final(self).CurrentLayer == old(self).CurrentLayer,
            final(self).NextLayerId == old(self).NextLayerId,
            r is Ok ==> final(self).Position > old(self).Position,
            match peek_kind(*old(self)) {
                Some(TokenKind::IntLiteral(v)) => r is Ok && r->Ok_0@ == SpecExpression::LiteralInt(v)
                    && final(self).Position == old(self).Position + 1,
                Some(TokenKind::FloatLiteral(v)) => r is Ok && r->Ok_0@ == SpecExpression::LiteralFloat(v@)
                    && final(self).Position == old(self).Position + 1,
                Some(TokenKind::StringLiteral(v)) => r is Ok && r->Ok_0@ == SpecExpression::LiteralString(v@)
                    && final(self).Position == old(self).Position + 1,
                Some(TokenKind::Ident(v)) => r is Ok && r->Ok_0@ == SpecExpression::Variable(v@)
                    && final(self).Position == old(self).Position + 1,
                Some(TokenKind::BitPreciseType { Kind, Bits }) => r is Ok && r->Ok_0@ == (if Kind == 'i' {
                    SpecExpression::LiteralInt(Bits as i64)
                } else {
                    SpecExpression::BitPreciseType { Kind, Bits }
                }) && final(self).Position == old(self).Position + 1,
                Some(TokenKind::Star) => r is Ok ==> (r->Ok_0@ matches SpecExpression::UnaryOp { Op, .. } && Op == "*"@),
                Some(TokenKind::OpenParen) => r is Ok ==> kind_same(
                    final(self).Tokens@[final(self).Position - 1].Kind,
                    TokenKind::CloseParen,
                ),
                _ => r is Err && *final(self) == *old(self) && r->Err_0@ == "Unexpected token in expression: "@
                    + opt_token_text(
                    if old(self).Position < old(self).Tokens@.len() {
                        Some(old(self).Tokens@[old(self).Position as int])
                    } else {
                        None
                    },
                ),
            },
            matches_read(r, final(self).Position as int, read_atom(old(self).Tokens@, old(self).Position as int)),
        decreases old(self).Tokens@.len() - old(self).Position, 0int,
    {
        if self.Position >= self.Tokens.len() {
            let mut m = String::from_str("Unexpected token in expression: ");
            m.append(opt_token_debug(self.Peek()).as_str());
            return Err(m);
        }
        let Tok = self.Tokens[self.Position].clone();
        match Tok.Kind {
            TokenKind::IntLiteral(val) => {
                self.Advance();
                Ok(Expression::LiteralInt(val))
            },
            TokenKind::FloatLiteral(val) => {
                self.Advance();
                Ok(Expression::LiteralFloat(val))
            },
            TokenKind::StringLiteral(val) => {
                self.Advance();
                Ok(Expression::LiteralString(val))
            },
            TokenKind::Ident(name) => {
                self.Advance();
                Ok(Expression::Variable(name))
            },
            TokenKind::BitPreciseType { Kind, Bits } => {
                self.Advance();
                if Kind == 'i' {
                    Ok(Expression::LiteralInt(Bits as i64))
                } else {
                    Ok(Expression::BitPreciseType { Kind, Bits })
                }
            },
            TokenKind::Star => {
                self.Advance();
                let Target = self.ParsePrimary()?;
                Ok(Expression::UnaryOp { Op: String::from_str("*"), Target: Box::new(Target) })
            },
            TokenKind::OpenParen => {
                self.Advance();
                let Expr = self.ParseExpression()?;
                self.Consume(TokenKind::CloseParen, "Expected ')'")?;
                Ok(Expr)
            },
            _ => {
                let mut m = String::from_str("Unexpected token in expression: ");
                m.append(opt_token_debug(self.Peek()).as_str());
                Err(m)
            },
        }
    }

    /// Parses primary expressions with postfix operators (`.`, `()`, `[]`).
    pub fn ParsePrimary(&mut self) -> (r: Result<Expression, String>)
        requires
            parser_wf(*old(self)),
        ensures
            parser_wf(*final(self)),
            advanced(*old(self), *final(self)),
            final(self).CurrentLayer == old(self).CurrentLayer,
            final(self).NextLayerId == old(self).NextLayerId,
            r is Ok ==> final(self).Position > old(self).Position,
            r is Ok ==> match peek_kind(*final(self)) {
                Some(k) => !(k is Dot) && !(k is OpenParen) && !(k is OpenBracket),
                None => true,
            },
            matches_read(r, final(self).Position as int, read_primary(old(self).Tokens@, old(self).Position as int)),
        decreases old(self).Tokens@.len() - old(self).Position, 1int,
    {
        let ghost ts = self.Tokens@;
        let mut Expr = self.ParseAtom()?;
        loop
            invariant
                parser_wf(*self),
                advanced(*old(self), *self),
                self.CurrentLayer == old(self).CurrentLayer,
                self.NextLayerId == old(self).NextLayerId,
                self.Position > old(self).Position,
                ts == self.Tokens@,
                read_primary(ts, old(self).Position as int) == read_postfix(ts, Expr@, self.Position as int),
            ensures
                match peek_kind(*self) {
                    Some(k) => !(k is Dot) && !(k is OpenParen) && !(k is OpenBracket),
                    None => true,
                },
                read_primary(ts, old(self).Position as int) == Ok::<(SpecExpression, int), (Seq<char>, int)>(
                    (Expr@, self.Position as int),
                ),
            decreases self.Tokens@.len() - self.Position,
        {
            if self.Position >= self.Tokens.len() {
                break;
            }
            let ghost p0 = self.Position as int;
            match &self.Tokens[self.Position].Kind {
                TokenKind::Dot => {
                    self.Advance();
                    if self.Position >= self.Tokens.len() {
                        return Err(String::from_str("Expected member name after '.'"));
                    }
                    let member = match &self.Tokens[self.Position].Kind {
                        TokenKind::Ident(m) => m.clone(),
                        _ => {
                            self.Advance();
                            return Err(String::from_str("Expected member name after '.'"));
                        },
                    };
                    self.Advance();
                    Expr = Expression::MemberAccess { Target: Box::new(Expr), Member: member };
                },
                TokenKind::OpenParen => {
                    let ghost before_args = self.Position;
                    self.Advance();
                    let mut Args: Vec<Expression> = Vec::new();
                    if !self.Check(TokenKind::CloseParen) {
                        assert(exprs_view(Args@) =~= Seq::<SpecExpression>::empty());
                        loop
                            invariant_except_break
                                read_call_args(ts, p0 + 1) == read_args(ts, self.Position as int, exprs_view(Args@)),
                            invariant
                                parser_wf(*self),
                                advanced(*old(self), *self),
                                self.CurrentLayer == old(self).CurrentLayer,
                                self.NextLayerId == old(self).NextLayerId,
                                self.Position > old(self).Position,
                                self.Position > before_args,
                                ts == self.Tokens@,
                                0 <= p0 < ts.len(),
                                ts[p0].Kind is OpenParen,
                                read_primary(ts, old(self).Position as int) == read_postfix(ts, Expr@, p0),
                            ensures
                                read_call_args(ts, p0 + 1) == Ok::<(Seq<SpecExpression>, int), (Seq<char>, int)>(
                                    (exprs_view(Args@), self.Position as int),
                                ),
                            decreases self.Tokens@.len() - self.Position,
                        {
                            let ghost at = self.Position as int;
                            let a = self.ParseExpression()?;
                            let ghost before = exprs_view(Args@);
                            let ghost av = a@;
                            Args.push(a);
                            assert(exprs_view(Args@) =~= before.push(av));
                            if !self.Match(TokenKind::Comma) {
                                break;
                            }
                        }
                    } else {
                        assert(exprs_view(Args@) =~= Seq::<SpecExpression>::empty());
                    }
                    self.Consume(TokenKind::CloseParen, "Expected ')' after arguments")?;
                    let Name = match Expr {
                        Expression::Variable(n) => n,
                        Expression::MemberAccess { Target, Member } => {
                            DottedName(&Expression::MemberAccess { Target, Member })?
                        },
                        _ => {
                            return Err(String::from_str("Expected function name before '('"));
                        },
                    };
                    let ghost args_v = exprs_view(Args@);
                    Expr = Expression::FunctionCall { Name, Args };
                    assert(Expr@->FunctionCall_Args =~= args_v);
                },
                TokenKind::OpenBracket => {
                    self.Advance();
                    let Index = self.ParseExpression()?;
                    self.Consume(TokenKind::CloseBracket, "Expected ']' after index")?;
                    Expr = Expression::IndexAccess { Target: Box::new(Expr), Index: Box::new(Index) };
                },
                _ => {
                    break;
                },
            }
        }
        Ok(Expr)
    }
}

/// The value of a literal expression, or the "cannot evaluate" message.
fn LiteralValue(e: &Expression) -> (r: ActualValue)
    ensures
        r@ == literal_value(e@),
{
    match e {
        Expression::LiteralBool(b) => ActualValue::Bool(*b),
        Expression::LiteralInt(n) => ActualValue::Int(*n),
        Expression::LiteralFloat(s) => ActualValue::Float(s.clone()),
        Expression::LiteralString(s) => ActualValue::Text(s.clone()),
        _ => ActualValue::Text(String::from_str("Cannot evaluate variable as boolean")),
    }
}

/// The operator text of a binary operator token.
fn OpString(k: &TokenKind) -> (s: String)
    ensures
        s@ == op_text(*k),
{
    match k {
        TokenKind::Plus => String::from_str("+"),
        TokenKind::Minus => String::from_str("-"),
        TokenKind::Star => String::from_str("*"),
        TokenKind::Slash => String::from_str("/"),
        TokenKind::Percent => String::from_str("%"),
        TokenKind::Less => String::from_str("<"),
        TokenKind::Greater => String::from_str(">"),
        TokenKind::LessEqual => String::from_str("<="),
        TokenKind::GreaterEqual => String::from_str(">="),
        TokenKind::And => String::from_str("&&"),
        TokenKind::Or => String::from_str("||"),
        TokenKind::As => String::from_str("as"),
        _ => String::new(),
    }
}

} // verus!
