//! Parsing of types and the shared "name + type" declaration form.

use vstd::prelude::*;
use crate::ast::{Expression, SpecExpression, SpecType, SpecVariable, Type};
use crate::lexer::token::{Token, TokenKind};
use crate::parser::{Parser, advanced, parser_wf};
use crate::parser::expressions::{Read, eval_bool, keeps_on, kind_is, lemma_expr_moves_on, moves_on, read_expr, token_at_pos};
use crate::render::{
    kind_debug, kind_text, opt_token_debug, opt_token_text, opt_usize_debug, opt_usize_text, type_debug, type_text,
};
use crate::text::{i64_text, int_text, nat_text, push_char, u32_text};

verus! {

broadcast use crate::parser::reading::lemma_advanced_trans;

/// The kind of the token at position `i`, if there is one.
pub open spec fn kind_at_pos(ts: Seq<Token>, i: int) -> Option<TokenKind> {
    if 0 <= i < ts.len() {
        Some(ts[i].Kind)
    } else {
        None
    }
}

/// "Expected type. Found <token>\nLine:<line>" for the token at `pos`.
pub open spec fn expected_type_message(ts: Seq<Token>, pos: int) -> Seq<char> {
    "Expected type. Found "@ + opt_token_text(token_at_pos(ts, pos)) + "\nLine:"@ + opt_usize_text(
        match token_at_pos(ts, pos) {
            Some(t) => Some(t.Line),
            None => None,
        },
    )
}

/// Reading an optional `where` refinement after the type `base`, from `p`:
/// the constraint is an expression (`Invalid` when it does not parse) and
/// the type is refused when the constraint is plainly false.
pub open spec fn read_where(
    ts: Seq<Token>,
    vars: Map<Seq<char>, SpecVariable>,
    base: SpecType,
    p: int,
) -> Read<SpecType> {
    if kind_is(ts, p, TokenKind::Where) {
        let (c, q) = match read_expr(ts, p + 1) {
            Ok((e, q)) => (e, q),
            Err((_, q)) => (SpecExpression::Invalid, q),
        };
        if eval_bool(vars, kind_at_pos(ts, q) == Some(TokenKind::End), c) == Ok::<bool, Seq<char>>(false) {
            Err(("Unsatisfiable 'where' constraint"@, q))
        } else {
            Ok((SpecType::Where(Box::new(base), c, None), q))
        }
    } else {
        Ok((base, p))
    }
}

/// Reading a type at `pos`: `*T`, `&T`, `-> T`, a bit-precise type, a name
/// (with a `*` after it for a pointer), each with an optional `where`
/// refinement; or `= T Self T`, which stands for its last type.
#[verifier::opaque]
pub open spec fn read_type(ts: Seq<Token>, vars: Map<Seq<char>, SpecVariable>, pos: int) -> Read<SpecType>
    decreases ts.len() - pos,
{
    if pos < 0 || pos >= ts.len() {
        Err((expected_type_message(ts, pos), pos))
    } else {
        match ts[pos].Kind {
            TokenKind::Star => match read_type(ts, vars, pos + 1) {
                Err(e) => Err(e),
                Ok((t, p)) => read_where(ts, vars, SpecType::Pointer(Box::new(t)), p),
            },
            TokenKind::BitPreciseType { Kind, Bits } => read_where(ts, vars, SpecType::BitPrecise(Kind, Bits), pos + 1),
            TokenKind::Ident(n) => if kind_is(ts, pos + 1, TokenKind::Star) {
                read_where(ts, vars, SpecType::Pointer(Box::new(SpecType::Named(n@))), pos + 2)
            } else {
                read_where(ts, vars, SpecType::Named(n@), pos + 1)
            },
            TokenKind::Equal => match read_type(ts, vars, pos + 1) {
                Err(e) => Err(e),
                Ok((_, p)) => if 0 <= p < ts.len() && ts[p].Kind is Ident && pos < p {
                    match read_type(ts, vars, p) {
                        Err(e) => Err(e),
                        Ok((_, p2)) => if pos < p2 <= ts.len() {
                            read_type(ts, vars, p2)
                        } else {
                            Err(("Expected type after '='"@, p2))
                        },
                    }
                } else {
                    Err(("Expected type after '='"@, p))
                },
            },
            TokenKind::And => match read_type(ts, vars, pos + 1) {
                Err(e) => Err(e),
                Ok((t, p)) => read_where(ts, vars, SpecType::Reference(Box::new(t)), p),
            },
            TokenKind::Arrow => match read_type(ts, vars, pos + 1) {
                Err(e) => Err(e),
                Ok((t, p)) => read_where(ts, vars, t, p),
            },
            _ => Err((expected_type_message(ts, pos), pos)),
        }
    }
}

/// The parser's result matches a reading of a type.
pub open spec fn matches_type_read(r: Result<Type, String>, pos: int, rd: Read<SpecType>) -> bool {
    match rd {
        Ok((t, p)) => r is Ok && r->Ok_0@ == t && pos == p,
        Err((m, p)) => r is Err && r->Err_0@ == m && pos == p,
    }
}

/// The text a declaration takes for its name when the token before the
/// type stood in for it: an identifier, a literal's text, a bit-precise
/// type (`u8`), any other token's kind, or `EOF`.
pub open spec fn before_name_text(t: Option<Token>) -> Seq<char> {
    match t {
        Some(t) => match t.Kind {
            TokenKind::Ident(n) => n@,
            TokenKind::IntLiteral(n) => int_text(n as int),
            TokenKind::FloatLiteral(n) => n@,
            TokenKind::StringLiteral(n) => n@,
            TokenKind::BitPreciseType { Kind, Bits } => seq![Kind] + nat_text(Bits as nat),
            other => kind_text(other),
        },
        None => "EOF"@,
    }
}

/// Reading an optional refinement after the declaration of `name` with type
/// `t`, from `p`: `where` or `: where`, then the constraint expression.
pub open spec fn read_refinement(ts: Seq<Token>, name: Seq<char>, t: SpecType, p: int) -> Read<(Seq<char>, SpecType)> {
    let start = if kind_is(ts, p, TokenKind::Where) {
        Some(p + 1)
    } else if kind_is(ts, p, TokenKind::Colon) && kind_is(ts, p + 1, TokenKind::Where) {
        Some(p + 2)
    } else {
        None
    };
    match start {
        None => Ok(((name, t), p)),
        Some(s) => match read_expr(ts, s) {
            Err(e) => Err(e),
            Ok((c, q)) => Ok(((name, SpecType::Where(Box::new(t), c, None)), q)),
        },
    }
}

/// Reading a declaration at `pos`: for variables, a bare name before `=`,
/// `;` or `{` (its type inferred); `name: type`; or `type name`, where a
/// literal or bit-precise type in the type's place also names it. Each form
/// but the first may carry a refinement.
#[verifier::opaque]
pub open spec fn read_name_and_type(
    ts: Seq<Token>,
    vars: Map<Seq<char>, SpecVariable>,
    pos: int,
    is_variable: bool,
) -> Read<(Seq<char>, SpecType)> {
    if is_variable && 0 <= pos < ts.len() && ts[pos].Kind is Ident && (kind_is(ts, pos + 1, TokenKind::Equal)
        || kind_is(ts, pos + 1, TokenKind::Semicolon) || kind_is(ts, pos + 1, TokenKind::OpenBrace)) {
        Ok(((ts[pos].Kind->Ident_0@, SpecType::Inferred), pos + 1))
    } else if 0 <= pos < ts.len() && ts[pos].Kind is Ident && kind_is(ts, pos + 1, TokenKind::Colon) && !kind_is(
        ts,
        pos + 2,
        TokenKind::Where,
    ) {
        match read_type(ts, vars, pos + 2) {
            Err(e) => Err(e),
            Ok((t, p)) => read_refinement(ts, ts[pos].Kind->Ident_0@, t, p),
        }
    } else {
        read_type_then_name(ts, vars, pos)
    }
}

/// Reading `type name` at `pos`, with an optional refinement; a literal or
/// bit-precise type after the type names the declaration by the text of the
/// token at `pos`.
#[verifier::opaque]
pub open spec fn read_type_then_name(ts: Seq<Token>, vars: Map<Seq<char>, SpecVariable>, pos: int) -> Read<(Seq<char>, SpecType)> {
    match read_type(ts, vars, pos) {
        Err(e) => Err(e),
        Ok((t, p)) => {
            let q = if p < ts.len() { p + 1 } else { p };
            match ts[q - 1].Kind {
                TokenKind::Ident(n) => read_refinement(ts, n@, t, q),
                TokenKind::IntLiteral(_) | TokenKind::FloatLiteral(_) | TokenKind::StringLiteral(_)
                | TokenKind::BitPreciseType { .. } => read_refinement(ts, before_name_text(token_at_pos(ts, pos)), t, q),
                _ => Err(("Expected "@ + type_text(t) + " name after type. Found "@ + opt_token_text(token_at_pos(ts, q)), q)),
            }
        },
    }
}

/// The parser's result matches a reading of a declaration.
pub open spec fn matches_decl_read(r: Result<(String, Type), String>, pos: int, rd: Read<(Seq<char>, SpecType)>) -> bool {
    match rd {
        Ok(((n, t), p)) => r is Ok && r->Ok_0.0@ == n && r->Ok_0.1@ == t && pos == p,
        Err((m, p)) => r is Err && r->Err_0@ == m && pos == p,
    }
}

proof fn lemma_where_keeps_on(ts: Seq<Token>, vars: Map<Seq<char>, SpecVariable>, base: SpecType, p: int)
    requires
        0 <= p <= ts.len(),
    ensures
        keeps_on(read_where(ts, vars, base, p), p, ts.len() as int),
{
    if kind_is(ts, p, TokenKind::Where) {
        lemma_expr_moves_on(ts, p + 1);
    }
}

/// A successful reading of a type ends after its start, and a failed one
/// stops at or after it, within the tokens.
pub proof fn lemma_type_moves_on(ts: Seq<Token>, vars: Map<Seq<char>, SpecVariable>, pos: int)
    requires
        0 <= pos <= ts.len(),
    ensures
        moves_on(read_type(ts, vars, pos), pos, ts.len() as int),
    decreases ts.len() - pos,
{
    reveal(read_type);
    if pos < ts.len() {
        match ts[pos].Kind {
            TokenKind::Star | TokenKind::And | TokenKind::Arrow => {
                lemma_type_moves_on(ts, vars, pos + 1);
                match read_type(ts, vars, pos + 1) {
                    Ok((t, p)) => {
                        lemma_where_keeps_on(ts, vars, SpecType::Pointer(Box::new(t)), p);
                        lemma_where_keeps_on(ts, vars, SpecType::Reference(Box::new(t)), p);
                        lemma_where_keeps_on(ts, vars, t, p);
                    },
                    Err(_) => {},
                }
            },
            TokenKind::BitPreciseType { Kind, Bits } => {
                lemma_where_keeps_on(ts, vars, SpecType::BitPrecise(Kind, Bits), pos + 1);
            },
            TokenKind::Ident(n) => {
                lemma_where_keeps_on(ts, vars, SpecType::Named(n@), pos + 1);
                if kind_is(ts, pos + 1, TokenKind::Star) {
                    lemma_where_keeps_on(ts, vars, SpecType::Pointer(Box::new(SpecType::Named(n@))), pos + 2);
                }
            },
            TokenKind::Equal => {
                lemma_type_moves_on(ts, vars, pos + 1);
                match read_type(ts, vars, pos + 1) {
                    Ok((_, p)) => {
                        if 0 <= p < ts.len() && ts[p].Kind is Ident && pos < p {
                            lemma_type_moves_on(ts, vars, p);
                            match read_type(ts, vars, p) {
                                Ok((_, p2)) => {
                                    if pos < p2 <= ts.len() {
                                        lemma_type_moves_on(ts, vars, p2);
                                    }
                                },
                                Err(_) => {},
                            }
                        }
                    },
                    Err(_) => {},
                }
            },
            _ => {},
        }
    }
}

proof fn lemma_refinement_keeps_on(ts: Seq<Token>, name: Seq<char>, t: SpecType, p: int)
    requires
        0 <= p <= ts.len(),
    ensures
        keeps_on(read_refinement(ts, name, t, p), p, ts.len() as int),
{
    if kind_is(ts, p, TokenKind::Where) {
        lemma_expr_moves_on(ts, p + 1);
    } else if kind_is(ts, p, TokenKind::Colon) && kind_is(ts, p + 1, TokenKind::Where) {
        lemma_expr_moves_on(ts, p + 2);
    }
}

/// A successful reading of a declaration ends after its start, and a failed
/// one stops at or after it, within the tokens.
pub proof fn lemma_decl_moves_on(ts: Seq<Token>, vars: Map<Seq<char>, SpecVariable>, pos: int, is_variable: bool)
    requires
        0 <= pos <= ts.len(),
    ensures
        moves_on(read_name_and_type(ts, vars, pos, is_variable), pos, ts.len() as int),
{
    reveal(read_name_and_type);
    reveal(read_type_then_name);
    if 0 <= pos < ts.len() && ts[pos].Kind is Ident && kind_is(ts, pos + 1, TokenKind::Colon) {
        lemma_type_moves_on(ts, vars, pos + 2);
        match read_type(ts, vars, pos + 2) {
            Ok((t, p)) => lemma_refinement_keeps_on(ts, ts[pos].Kind->Ident_0@, t, p),
            Err(_) => {},
        }
    }
    lemma_type_moves_on(ts, vars, pos);
    match read_type(ts, vars, pos) {
        Ok((t, p)) => {
            let q = if p < ts.len() { p + 1 } else { p };
            match ts[q - 1].Kind {
                TokenKind::Ident(n) => lemma_refinement_keeps_on(ts, n@, t, q),
                _ => lemma_refinement_keeps_on(ts, before_name_text(token_at_pos(ts, pos)), t, q),
            }
        },
        Err(_) => {},
    }
}

impl Parser {
    /// Handles both "name: type" and "type name", plus inferred "name = ..."
    /// (variables only), each optionally followed by a `where` refinement.
    pub fn ParseNameAndType(&mut self, context: &str) -> (r: Result<(String, Type), String>)
        requires
            parser_wf(*old(self)),
        ensures
            parser_wf(*final(self)),
            advanced(*old(self), *final(self)),
            final(self).CurrentLayer == old(self).CurrentLayer,
            final(self).NextLayerId == old(self).NextLayerId,
            r is Ok ==> final(self).Position > old(self).Position,
            matches_decl_read(
                r,
                final(self).Position as int,
                read_name_and_type(old(self).Tokens@, old(self).vars(), old(self).Position as int, context@ == "variable"@),
            ),
    {
        proof {
            reveal(read_name_and_type);
        }
        let is_variable = context.to_owned() == String::from_str("variable");
        if is_variable && self.Position < self.Tokens.len() {
            if let TokenKind::Ident(_) = &self.Tokens[self.Position].Kind {
                let next_ends_decl = match self.PeekAt(1) {
                    Some(t) => t.Kind.Same(&TokenKind::Equal) || t.Kind.Same(&TokenKind::Semicolon)
                        || t.Kind.Same(&TokenKind::OpenBrace),
                    None => false,
                };
                if next_ends_decl {
                    let name = match &self.Advance().unwrap().Kind {
                        TokenKind::Ident(n) => n.clone(),
                        _ => String::new(),
                    };
                    return Ok((name, Type::Inferred));
                }
            }
        }
        let mut found_type_colon = false;
        if self.Position < self.Tokens.len() {
            if let TokenKind::Ident(_) = &self.Tokens[self.Position].Kind {
                if let Some(t1) = self.PeekAt(1) {
                    if t1.Kind.Same(&TokenKind::Colon) {
                        let third_is_where = match self.PeekAt(2) {
                            Some(t2) => t2.Kind.Same(&TokenKind::Where),
                            None => false,
                        };
                        if !third_is_where {
                            found_type_colon = true;
                        }
                    }
                }
            }
        }
        if found_type_colon {
            let n = match &self.Advance().unwrap().Kind {
                TokenKind::Ident(name) => name.clone(),
                _ => String::new(),
            };
            self.Advance();
            let t = self.ParseType()?;
            self.ParseRefinement(n, t)
        } else {
            self.ParseTypeThenName()
        }
    }

    /// Reads `type name`, with an optional refinement.
    fn ParseTypeThenName(&mut self) -> (r: Result<(String, Type), String>)
        requires
            parser_wf(*old(self)),
        ensures
            parser_wf(*final(self)),
            advanced(*old(self), *final(self)),
            final(self).CurrentLayer == old(self).CurrentLayer,
            final(self).NextLayerId == old(self).NextLayerId,
            r is Ok ==> final(self).Position > old(self).Position,
            matches_decl_read(
                r,
                final(self).Position as int,
                read_type_then_name(old(self).Tokens@, old(self).vars(), old(self).Position as int),
            ),
    {
        proof {
            reveal(read_type_then_name);
        }
        let BeforeName = match self.Peek() {
            Some(t) => match &t.Kind {
                TokenKind::Ident(n) => n.clone(),
                TokenKind::IntLiteral(n) => i64_text(*n),
                TokenKind::FloatLiteral(n) => n.clone(),
                TokenKind::StringLiteral(n) => n.clone(),
                TokenKind::BitPreciseType { Kind, Bits } => {
                    let mut s = String::new();
                    push_char(&mut s, *Kind);
                    s.append(u32_text(*Bits).as_str());
                    s
                },
                other => kind_debug(other),
            },
            None => String::from_str("EOF"),
        };
        let t = self.ParseType()?;
        let n = match &self.Advance().unwrap().Kind {
            TokenKind::Ident(name) => name.clone(),
            TokenKind::IntLiteral(_) => BeforeName,
            TokenKind::FloatLiteral(_) => BeforeName,
            TokenKind::StringLiteral(_) => BeforeName,
            TokenKind::BitPreciseType { .. } => BeforeName,
            _ => {
                let mut m = String::from_str("Expected ");
                m.append(type_debug(&t).as_str());
                m.append(" name after type. Found ");
                m.append(opt_token_debug(self.Peek()).as_str());
                return Err(m);
            },
        };
        self.ParseRefinement(n, t)
    }

    /// Reads an optional refinement (`where` or `: where`, then the
    /// constraint) after the declaration of `name` with type `ty`.
    fn ParseRefinement(&mut self, name: String, ty: Type) -> (r: Result<(String, Type), String>)
        requires
            parser_wf(*old(self)),
        ensures
            parser_wf(*final(self)),
            advanced(*old(self), *final(self)),
            final(self).CurrentLayer == old(self).CurrentLayer,
            final(self).NextLayerId == old(self).NextLayerId,
            r is Ok ==> final(self).Position >= old(self).Position,
            matches_decl_read(
                r,
                final(self).Position as int,
                read_refinement(old(self).Tokens@, name@, ty@, old(self).Position as int),
            ),
    {
        let has_refinement = if self.Match(TokenKind::Where) {
            true
        } else if self.Position < self.Tokens.len() && self.Position + 1 < self.Tokens.len()
            && self.Tokens[self.Position].Kind.Same(&TokenKind::Colon)
            && self.Tokens[self.Position + 1].Kind.Same(&TokenKind::Where) {
            self.Advance();
            self.Advance();
            true
        } else {
            false
        };
        if has_refinement {
            let ConstraintExpr = self.ParseExpression()?;
            Ok((name, Type::Where(Box::new(ty), Box::new(ConstraintExpr), None)))
        } else {
            Ok((name, ty))
        }
    }

    /// Parses type names, pointer levels and references, with an optional
    /// `where` refinement that must not be plainly false.
    pub fn ParseType(&mut self) -> (r: Result<Type, String>)
        requires
            parser_wf(*old(self)),
        ensures
            parser_wf(*final(self)),
            advanced(*old(self), *final(self)),
            final(self).CurrentLayer == old(self).CurrentLayer,
            final(self).NextLayerId == old(self).NextLayerId,
            r is Ok ==> final(self).Position > old(self).Position,
            matches_type_read(r, final(self).Position as int, read_type(old(self).Tokens@, old(self).vars(), old(self).Position as int)),
        decreases old(self).Tokens@.len() - old(self).Position,
    {
        proof {
            reveal(read_type);
        }
        if self.Position >= self.Tokens.len() {
            return Err(ExpectedTypeMessage(self));
        }
        let first = self.Tokens[self.Position].Kind.clone();
        match first {
            TokenKind::Star => {
                self.Advance();
                let Inner = self.ParseType()?;
                self.ParseWhereSuffix(Type::Pointer(Box::new(Inner)))
            },
            TokenKind::BitPreciseType { Kind, Bits } => {
                self.Advance();
                self.ParseWhereSuffix(Type::BitPrecise(Kind, Bits))
            },
            TokenKind::Ident(name) => {
                self.Advance();
                let star = self.Match(TokenKind::Star);
                let ghost n = name@;
                let t = if star {
                    Type::Pointer(Box::new(Type::Named(name)))
                } else {
                    Type::Named(name)
                };
                assert(t@ == if star { SpecType::Pointer(Box::new(SpecType::Named(n))) } else { SpecType::Named(n) }) by {
                    reveal_with_fuel(crate::ast::ty::type_view, 2);
                }
                self.ParseWhereSuffix(t)
            },
            TokenKind::Equal => {
                self.Advance();
                let _Left = self.ParseType()?;
                let right_is_ident = match self.Peek() {
                    Some(t) => matches!(t.Kind, TokenKind::Ident(_)),
                    None => false,
                };
                if right_is_ident {
                    let _SelfType = self.ParseType()?;
                    self.ParseType()
                } else {
                    Err(String::from_str("Expected type after '='"))
                }
            },
            TokenKind::And => {
                self.Advance();
                let Inner = self.ParseType()?;
                self.ParseWhereSuffix(Type::Reference(Box::new(Inner)))
            },
            TokenKind::Arrow => {
                self.Advance();
                let ReturnType = self.ParseType()?;
                self.ParseWhereSuffix(ReturnType)
            },
            _ => Err(ExpectedTypeMessage(self)),
        }
    }

    /// Reads an optional `where` refinement after `BaseType`; the refined
    /// type is refused when its constraint is plainly false.
    fn ParseWhereSuffix(&mut self, BaseType: Type) -> (r: Result<Type, String>)
        requires
            parser_wf(*old(self)),
        ensures
            parser_wf(*final(self)),
            advanced(*old(self), *final(self)),
            final(self).CurrentLayer == old(self).CurrentLayer,
            final(self).NextLayerId == old(self).NextLayerId,
            r is Ok ==> final(self).Position >= old(self).Position,
            matches_type_read(
                r,
                final(self).Position as int,
                read_where(old(self).Tokens@, old(self).vars(), BaseType@, old(self).Position as int),
            ),
    {
        let next_is_where = match self.Peek() {
            Some(t) => t.Kind.Same(&TokenKind::Where),
            None => false,
        };
        if next_is_where {
            self.Advance();
            let ConstraintExpr = match self.ParseExpression() {
                Ok(e) => e,
                Err(_) => Expression::Invalid,
            };
            let refined = Type::Where(Box::new(BaseType), Box::new(ConstraintExpr.clone()), None);
            let verdict = self.EvaluateExpression(&ConstraintExpr);
            if let Ok(false) = verdict {
                return Err(String::from_str("Unsatisfiable 'where' constraint"));
            }
            Ok(refined)
        } else {
            Ok(BaseType)
        }
    }
}

/// "Expected type. Found <token>\nLine:<line>" for the token under the cursor.
fn ExpectedTypeMessage(p: &Parser) -> (m: String)
    ensures
        m@ == expected_type_message(p.Tokens@, p.Position as int),
{
    let mut m = String::from_str("Expected type. Found ");
    m.append(opt_token_debug(p.Peek()).as_str());
    m.append("\nLine:");
    let line = match p.Peek() {
        Some(t) => Some(t.Line),
        None => None,
    };
    m.append(opt_usize_debug(line).as_str());
    m
}

} // verus!
