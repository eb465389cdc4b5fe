//! Top-level item parsing: functions and structs.

use vstd::prelude::*;
use crate::ast::{Layer, LayerKind, Param, StructField, Type};
use crate::ast::ty::opt_type_view;
use crate::lexer::token::TokenKind;
use crate::parser::{Parser, advanced, parser_wf};
use crate::parser::grammar::{
    ParsedKind, fields_of, matches_fields_read, matches_layer_read, matches_params_read,
    params_of, prefixed, read_block, read_fields, read_function, read_params, read_signature, read_struct, same_scope,
    state_of,
};

verus! {

broadcast use crate::parser::reading::lemma_advanced_trans;

impl Parser {
    /// Parses a struct definition: `struct Name { field: type, ... }`.
    pub fn ParseStruct(&mut self) -> (r: Result<Layer, String>)
        requires
            parser_wf(*old(self)),
            old(self).Tokens@.len() > 0,
        ensures
            parser_wf(*final(self)),
            advanced(*old(self), *final(self)),
            same_scope(*old(self), *final(self)),
            r is Ok ==> final(self).Position > old(self).Position,
            matches_layer_read(r, *final(self), read_struct(old(self).Tokens@, state_of(*old(self)), old(self).Position as int)),
    {
        let ghost ts = self.Tokens@;
        self.Advance();
        let Name = match &self.Advance().unwrap().Kind {
            TokenKind::Ident(n) => n.clone(),
            _ => {
                return Err(String::from_str("Expected struct name"));
            },
        };
        self.Consume(TokenKind::OpenBrace, "Expected '{' before struct fields")?;
        let ghost p = self.Position as int;
        let Fields = self.ParseFields();
        let ghost fs = match read_fields(ts, self.vars(), p) {
            Ok((x, _)) => x,
            Err(_) => Seq::empty(),
        };
        let Fields = Fields?;
        let c = self.Consume(TokenKind::CloseBrace, "Expected '}' after struct fields");
        c?;
        let ghost pk = ParsedKind::Struct { Name: Name@, Fields: fs };
        Ok(self.Emit(LayerKind::Struct { Name, Fields, IsPacked: false }, Vec::new(), Ghost(pk), Ghost(Seq::empty())))
    }

    /// Reads struct fields until a `}` or the end of the tokens.
    fn ParseFields(&mut self) -> (r: Result<Vec<StructField>, String>)
        requires
            parser_wf(*old(self)),
        ensures
            parser_wf(*final(self)),
            advanced(*old(self), *final(self)),
            final(self).CurrentLayer == old(self).CurrentLayer,
            matches_fields_read(r, *old(self), *final(self), read_fields(old(self).Tokens@, old(self).vars(), old(self).Position as int)),
    {
        let ghost ts = self.Tokens@;
        let ghost vars = self.vars();
        let ghost pos0 = self.Position as int;
        proof {
            reveal_strlit("field");
            reveal_strlit("variable");
        }
        assert("field"@[0] != "variable"@[0]);
        assert(("field"@ == "variable"@) == false);
        let ghost mut acc: Seq<(Seq<char>, crate::ast::SpecType)> = Seq::empty();
        let mut Fields: Vec<StructField> = Vec::new();
        while !self.Check(TokenKind::CloseBrace) && !self.IsAtEnd()
            invariant
                parser_wf(*self),
                advanced(*old(self), *self),
                self.CurrentLayer == old(self).CurrentLayer,
                self.NextLayerId == old(self).NextLayerId,
                ts == self.Tokens@,
                vars == self.vars(),
                vars == old(self).vars(),
                pos0 == old(self).Position,
                ("field"@ == "variable"@) == false,
                fields_of(Fields@, acc),
                read_fields(ts, vars, pos0) == prefixed(acc, read_fields(ts, vars, self.Position as int)),
            decreases self.Tokens@.len() - self.Position,
        {
            let (FieldName, FieldType) = self.ParseNameAndType("field")?;
            let ghost x = (FieldName@, FieldType@);
            let f = StructField { Name: FieldName, Type_: FieldType };
            self.Match(TokenKind::Comma);
            self.Match(TokenKind::Semicolon);
            proof {
                assert(Fields@.push(f)[Fields@.len() as int] == f);
                assert forall|i: int| 0 <= i < Fields@.push(f).len() implies (#[trigger] Fields@.push(f)[i]).Name@
                    == acc.push(x)[i].0 && Fields@.push(f)[i].Type_@ == acc.push(x)[i].1 by {
                    if i < acc.len() {
                        assert(Fields@.push(f)[i] == Fields@[i]);
                    }
                }
                match read_fields(ts, vars, self.Position as int) {
                    Ok((xs, _)) => {
                        assert(acc.push(x) + xs =~= acc + (seq![x] + xs));
                    },
                    Err(_) => {},
                }
                acc = acc.push(x);
            }
            Fields.push(f);
        }
        proof {
            assert(acc + Seq::<(Seq<char>, crate::ast::SpecType)>::empty() =~= acc);
        }
        Ok(Fields)
    }

    /// Parses a function or procedure: keyword, optional name, parameters,
    /// optional `-> type`, and a body whose statements become the children.
    pub fn ParseFunction(&mut self) -> (r: Result<Layer, String>)
        requires
            parser_wf(*old(self)),
            old(self).Tokens@.len() > 0,
        ensures
            parser_wf(*final(self)),
            advanced(*old(self), *final(self)),
            same_scope(*old(self), *final(self)),
            r is Ok ==> final(self).Position > old(self).Position,
            matches_layer_read(r, *final(self), read_function(old(self).Tokens@, state_of(*old(self)), old(self).Position as int)),
        decreases old(self).Tokens@.len() - old(self).Position, 2int,
    {
        let ghost ts = self.Tokens@;
        let ghost vars = self.vars();
        let ghost pos = self.Position as int;
        let sig = self.ParseSignature();
        let ghost (name, ps, ret) = match read_signature(ts, vars, pos) {
            Ok((x, _)) => x,
            Err(_) => arbitrary(),
        };
        let (Name, Params, ReturnType) = sig?;
        self.Consume(TokenKind::OpenBrace, "Expected '{' before function body")?;
        let ghost st6 = state_of(*self);
        let ghost p6 = self.Position as int;
        let Body = self.ParseStatementsUntilCloseBrace();
        let ghost pcs = match read_block(ts, st6, p6) {
            Ok((cs, _, _)) => cs,
            Err(_) => Seq::empty(),
        };
        let Body = Body?;
        self.Consume(TokenKind::CloseBrace, "Expected '}' after function body")?;
        let ghost pk = ParsedKind::Function { Name: name, Params: ps, ReturnType: ret };
        Ok(self.Emit(
            LayerKind::Function { Name, Params, ReturnType, IsUnsafe: false, IsExtern: false },
            Body,
            Ghost(pk),
            Ghost(pcs),
        ))
    }

    /// Reads a function's signature: keyword, optional name, parameters
    /// and optional `-> type`.
    fn ParseSignature(&mut self) -> (r: Result<(String, Vec<Param>, Option<Type>), String>)
        requires
            parser_wf(*old(self)),
            old(self).Tokens@.len() > 0,
        ensures
            parser_wf(*final(self)),
            advanced(*old(self), *final(self)),
            final(self).CurrentLayer == old(self).CurrentLayer,
            final(self).NextLayerId == old(self).NextLayerId,
            r is Ok ==> final(self).Position > old(self).Position,
            match read_signature(old(self).Tokens@, old(self).vars(), old(self).Position as int) {
                Ok(((n, ps, ret), q)) => r is Ok && r->Ok_0.0@ == n && params_of(r->Ok_0.1@, ps)
                    && opt_type_view(r->Ok_0.2) == ret && final(self).Position == q,
                Err((m, q)) => r is Err && r->Err_0@ == m && final(self).Position == q,
            },
    {
        proof {
            reveal(read_signature);
        }
        let ghost ts = self.Tokens@;
        self.Advance();
        let mut Name = String::new();
        if self.Position < self.Tokens.len() {
            if let TokenKind::Ident(name) = &self.Tokens[self.Position].Kind {
                Name = name.clone();
                self.Advance();
            }
        }
        self.Consume(TokenKind::OpenParen, "Expected '(' after function name")?;
        let mut Params: Vec<Param> = Vec::new();
        if !self.Check(TokenKind::CloseParen) {
            Params = self.ParseParams()?;
        } else {
            self.Consume(TokenKind::CloseParen, "Expected ')' after parameters")?;
        }
        let mut ReturnType: Option<Type> = None;
        let arrow = match self.Peek() {
            Some(t) => t.Kind.Same(&TokenKind::Arrow),
            None => false,
        };
        if arrow {
            self.Advance();
            let t = self.ParseType()?;
            ReturnType = Some(t);
        }
        Ok((Name, Params, ReturnType))
    }

    /// Reads parameters up to and including the closing `)`.
    fn ParseParams(&mut self) -> (r: Result<Vec<Param>, String>)
        requires
            parser_wf(*old(self)),
        ensures
            parser_wf(*final(self)),
            advanced(*old(self), *final(self)),
            final(self).CurrentLayer == old(self).CurrentLayer,
            r is Ok ==> final(self).Position > old(self).Position,
            matches_params_read(r, *old(self), *final(self), read_params(old(self).Tokens@, old(self).vars(), old(self).Position as int)),
    {
        let ghost ts = self.Tokens@;
        let ghost vars = self.vars();
        let ghost pos0 = self.Position as int;
        proof {
            reveal_strlit("parameter");
            reveal_strlit("variable");
        }
        assert("parameter"@[0] != "variable"@[0]);
        assert(("parameter"@ == "variable"@) == false);
        let ghost mut acc: Seq<(Seq<char>, crate::ast::SpecType)> = Seq::empty();
        let mut Params: Vec<Param> = Vec::new();
        loop
            invariant_except_break
                read_params(ts, vars, pos0) == prefixed(acc, read_params(ts, vars, self.Position as int)),
            invariant
                parser_wf(*self),
                advanced(*old(self), *self),
                self.CurrentLayer == old(self).CurrentLayer,
                self.NextLayerId == old(self).NextLayerId,
                ts == self.Tokens@,
                vars == self.vars(),
                vars == old(self).vars(),
                pos0 == old(self).Position,
                ("parameter"@ == "variable"@) == false,
                params_of(Params@, acc),
            ensures
                read_params(ts, vars, pos0) == Ok::<(Seq<(Seq<char>, crate::ast::SpecType)>, int), (Seq<char>, int)>(
                    (acc, self.Position as int),
                ),
                self.Position > pos0,
            decreases self.Tokens@.len() - self.Position,
        {
            let ghost cur = self.Position as int;
            if self.Match(TokenKind::Comma) {
                continue;
            }
            let (ParamName, ParamType) = self.ParseNameAndType("parameter")?;
            if matches!(ParamType, Type::Null) {
                continue;
            }
            let ghost x = (ParamName@, ParamType@);
            let Val = ParamType.clone();
            let prm = Param { Name: ParamName, Type_: ParamType, Value: Val };
            proof {
                assert(Params@.push(prm)[Params@.len() as int] == prm);
                assert forall|i: int| 0 <= i < Params@.push(prm).len() implies (#[trigger] Params@.push(prm)[i]).Name@
                    == acc.push(x)[i].0 && Params@.push(prm)[i].Type_@ == acc.push(x)[i].1
                    && Params@.push(prm)[i].Value@ == acc.push(x)[i].1 by {
                    if i < acc.len() {
                        assert(Params@.push(prm)[i] == Params@[i]);
                    }
                }
            }
            Params.push(prm);
            let ghost acc0 = acc;
            proof {
                acc = acc.push(x);
            }
            let ghost p = self.Position as int;
            if self.Match(TokenKind::Invalid) {
                self.Advance();
                proof {
                    match read_params(ts, vars, self.Position as int) {
                        Ok((xs, _)) => {
                            assert(acc + xs =~= acc0 + (seq![x] + xs));
                        },
                        Err(_) => {},
                    }
                }
                continue;
            }
            if self.Match(TokenKind::And) {
                proof {
                    match read_params(ts, vars, self.Position as int) {
                        Ok((xs, _)) => {
                            assert(acc + xs =~= acc0 + (seq![x] + xs));
                        },
                        Err(_) => {},
                    }
                }
                continue;
            }
            if self.Match(TokenKind::CloseParen) {
                assert(acc0 + seq![x] =~= acc);
                break;
            }
            proof {
                match read_params(ts, vars, self.Position as int) {
                    Ok((xs, _)) => {
                        assert(acc + xs =~= acc0 + (seq![x] + xs));
                    },
                    Err(_) => {},
                }
            }
        }
        Ok(Params)
    }
}

} // verus!
