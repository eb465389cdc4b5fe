//! Statement parsing: control flow, bindings, returns, and interrupts.

use vstd::prelude::*;
use crate::ast::{
    Expression, HookKind, Layer, LayerBuilder, LayerKind, LoopKind, SourceLocation, Type,
    VariableDefinition, VariableHook, variables_view,
};
use crate::lexer::token::TokenKind;
use crate::parser::{Parser, advanced, parser_wf};
use crate::parser::grammar::{
    ParsedKind, ParsedLayer, hook_kind, hooks_of, kind_of, layer_of, layers_of, matches_hooks_read,
    matches_layer_read, matches_layers_read, next_state, read_binding, read_binding_hooks, read_binding_value,
    read_block, read_expr_stmt, read_hook, read_hooks, read_if, read_interrupt, read_return, read_stmt,
    read_while, same_scope, state_of,
};
use crate::ast::copy::opt_expr_view;

verus! {

broadcast use crate::parser::reading::lemma_advanced_trans;

/// Appending a layer to layers that match, as its description is appended.
proof fn lemma_layers_push(ls: Seq<Layer>, pls: Seq<ParsedLayer>, l: Layer, pl: ParsedLayer)
    requires
        layers_of(ls, pls),
        layer_of(l, pl),
    ensures
        layers_of(ls.push(l), pls.push(pl)),
{
    assert forall|i: int| 0 <= i < ls.push(l).len() implies layer_of(#[trigger] ls.push(l)[i], pls.push(pl)[i]) by {
        if i < ls.len() {
            assert(ls.push(l)[i] == ls[i]);
        }
    }
}

/// Appending a hook to hooks that match, as its description is appended.
proof fn lemma_hooks_push(hs: Seq<VariableHook>, phs: Seq<(HookKind, ParsedKind)>, h: VariableHook, x: (HookKind, ParsedKind))
    requires
        hooks_of(hs, phs),
        h.Kind == x.0,
        h.Body@.len() == 1,
        kind_of(h.Body@[0], x.1),
    ensures
        hooks_of(hs.push(h), phs.push(x)),
{
    assert forall|i: int| 0 <= i < phs.push(x).len() implies (#[trigger] hs.push(h)[i]).Kind == phs.push(x)[i].0
        && hs.push(h)[i].Body@.len() == 1 && kind_of(hs.push(h)[i].Body@[0], phs.push(x)[i].1) by {
        if i < phs.len() {
            assert(hs.push(h)[i] == hs[i]);
        }
    }
}

impl Parser {
    /// Builds a layer of `kind` with `children`, the next id, and the
    /// built-in source location.
    pub(crate) fn Emit(
        &mut self,
        kind: LayerKind,
        children: Vec<Layer>,
        Ghost(pk): Ghost<ParsedKind>,
        Ghost(pcs): Ghost<Seq<ParsedLayer>>,
    ) -> (l: Layer)
        requires
            kind_of(kind, pk),
            layers_of(children@, pcs),
        ensures
            layer_of(l, ParsedLayer { Id: old(self).NextLayerId, Kind: pk, Children: pcs }),
            *final(self) == (Parser { NextLayerId: next_state(state_of(*old(self))).NextId, ..*old(self) }),
    {
        let ghost cv = children@;
        let mut ids = self.Ids();
        let l = LayerBuilder::New(kind, SourceLocation::Builtin(), &mut ids).WithChildren(children).Build();
        self.NextLayerId = ids.Next;
        assert(l.Children@ =~= cv);
        proof {
            reveal_with_fuel(layer_of, 2);
        }
        assert(layer_of(l, ParsedLayer { Id: old(self).NextLayerId, Kind: pk, Children: pcs }));
        l
    }

    /// Identifies what kind of logic statement we have and reads it.
    pub fn ParseStatement(&mut self) -> (r: Result<Layer, String>)
        requires
            parser_wf(*old(self)),
        ensures
            parser_wf(*final(self)),
            advanced(*old(self), *final(self)),
            same_scope(*old(self), *final(self)),
            r is Ok ==> final(self).Position > old(self).Position,
            matches_layer_read(r, *final(self), read_stmt(old(self).Tokens@, state_of(*old(self)), old(self).Position as int)),
        decreases old(self).Tokens@.len() - old(self).Position, 3int,
    {
        if self.Position >= self.Tokens.len() {
            return self.ParseExpressionStatement();
        }
        let first = self.Tokens[self.Position].Kind.clone();
        match first {
            TokenKind::Panic => {
                self.Advance();
                self.Match(TokenKind::Semicolon);
                Ok(self.Emit(LayerKind::Panic, Vec::new(), Ghost(ParsedKind::Panic), Ghost(Seq::empty())))
            },
            TokenKind::Unreachable => {
                self.Advance();
                self.Match(TokenKind::Semicolon);
                Ok(self.Emit(LayerKind::Unreachable, Vec::new(), Ghost(ParsedKind::Unreachable), Ghost(Seq::empty())))
            },
            TokenKind::Let(_) => self.ParseVariableBinding(),
            TokenKind::Return => self.ParseReturn(),
            TokenKind::Havoc => {
                self.Advance();
                let Expr = self.ParseExpression()?;
                self.Match(TokenKind::Semicolon);
                let ghost pk = ParsedKind::Havoc(Expr@);
                Ok(self.Emit(LayerKind::Havoc { Target: Expr }, Vec::new(), Ghost(pk), Ghost(Seq::empty())))
            },
            TokenKind::Interrupt => self.ParseInterrupt(),
            TokenKind::If => self.ParseIf(),
            TokenKind::While => self.ParseWhile(),
            TokenKind::OpenBrace => {
                self.Advance();
                let Children = self.ParseStatementsUntilCloseBrace();
                let ghost pcs = match read_block(self.Tokens@, state_of(*old(self)), old(self).Position + 1) {
                    Ok((cs, _, _)) => cs,
                    Err(_) => Seq::empty(),
                };
                let Children = Children?;
                self.Consume(TokenKind::CloseBrace, "Expected '}' after block")?;
                Ok(self.Emit(LayerKind::Block, Children, Ghost(ParsedKind::Block), Ghost(pcs)))
            },
            _ => self.ParseExpressionStatement(),
        }
    }

    /// Reads statements until a `}` or the end of the tokens.
    pub(crate) fn ParseStatementsUntilCloseBrace(&mut self) -> (r: Result<Vec<Layer>, String>)
        requires
            parser_wf(*old(self)),
        ensures
            parser_wf(*final(self)),
            advanced(*old(self), *final(self)),
            same_scope(*old(self), *final(self)),
            matches_layers_read(r, *final(self), read_block(old(self).Tokens@, state_of(*old(self)), old(self).Position as int)),
        decreases old(self).Tokens@.len() - old(self).Position, 4int,
    {
        let ghost ts = self.Tokens@;
        let ghost st0 = state_of(*self);
        let ghost pos0 = self.Position as int;
        let ghost mut acc: Seq<ParsedLayer> = Seq::empty();
        let mut Children: Vec<Layer> = Vec::new();
        while !self.Check(TokenKind::CloseBrace) && !self.IsAtEnd()
            invariant
                parser_wf(*self),
                advanced(*old(self), *self),
                same_scope(*old(self), *self),
                ts == self.Tokens@,
                st0 == state_of(*old(self)),
                pos0 == old(self).Position,
                layers_of(Children@, acc),
                read_block(ts, st0, pos0) == match read_block(ts, state_of(*self), self.Position as int) {
                    Ok((ls, p, s)) => Ok((acc + ls, p, s)),
                    Err(e) => Err(e),
                },
            decreases self.Tokens@.len() - self.Position,
        {
            let ghost st = state_of(*self);
            let ghost pos = self.Position as int;
            let c = self.ParseStatement()?;
            let ghost pl = match read_stmt(ts, st, pos) {
                Ok((l, _, _)) => l,
                Err(_) => arbitrary(),
            };
            proof {
                lemma_layers_push(Children@, acc, c, pl);
                let rest = read_block(ts, state_of(*self), self.Position as int);
                match rest {
                    Ok((ls, p, s)) => {
                        assert(acc.push(pl) + ls =~= acc + (seq![pl] + ls));
                    },
                    Err(_) => {},
                }
            }
            Children.push(c);
            proof {
                acc = acc.push(pl);
            }
        }
        proof {
            assert(acc + Seq::<ParsedLayer>::empty() =~= acc);
        }
        Ok(Children)
    }

    /// An expression statement, or an assignment `target = value`.
    fn ParseExpressionStatement(&mut self) -> (r: Result<Layer, String>)
        requires
            parser_wf(*old(self)),
        ensures
            parser_wf(*final(self)),
            advanced(*old(self), *final(self)),
            same_scope(*old(self), *final(self)),
            r is Ok ==> final(self).Position > old(self).Position,
            matches_layer_read(
                r,
                *final(self),
                read_expr_stmt(old(self).Tokens@, state_of(*old(self)), old(self).Position as int),
            ),
    {
        let Expr = self.ParseExpression()?;
        if self.Match(TokenKind::Equal) {
            let Value = self.ParseExpression()?;
            self.Match(TokenKind::Semicolon);
            let ghost pk = ParsedKind::Assignment { Target: Expr@, Value: Value@ };
            Ok(self.Emit(LayerKind::Assignment { Target: Expr, Value }, Vec::new(), Ghost(pk), Ghost(Seq::empty())))
        } else {
            self.Match(TokenKind::Semicolon);
            let ghost pk = ParsedKind::Expression(Expr@);
            Ok(self.Emit(LayerKind::Expression(Expr), Vec::new(), Ghost(pk), Ghost(Seq::empty())))
        }
    }

    /// Parses return statements: `return;` or `return value;`.
    pub fn ParseReturn(&mut self) -> (r: Result<Layer, String>)
        requires
            parser_wf(*old(self)),
            old(self).Tokens@.len() > 0,
        ensures
            parser_wf(*final(self)),
            advanced(*old(self), *final(self)),
            same_scope(*old(self), *final(self)),
            r is Ok ==> final(self).Position > old(self).Position,
            matches_layer_read(r, *final(self), read_return(old(self).Tokens@, state_of(*old(self)), old(self).Position as int)),
    {
        self.Advance();
        let Value = if self.Check(TokenKind::Semicolon) {
            None
        } else {
            Some(self.ParseExpression()?)
        };
        self.Match(TokenKind::Semicolon);
        let ghost pk = ParsedKind::Return(opt_expr_view(Value));
        Ok(self.Emit(LayerKind::Return { Value }, Vec::new(), Ghost(pk), Ghost(Seq::empty())))
    }

    /// Parses branching logic: `if (cond) stmt [else stmt]`. The layer's
    /// children are the then-arm and, when there is one, the else-arm.
    pub fn ParseIf(&mut self) -> (r: Result<Layer, String>)
        requires
            parser_wf(*old(self)),
            old(self).Tokens@.len() > 0,
        ensures
            parser_wf(*final(self)),
            advanced(*old(self), *final(self)),
            same_scope(*old(self), *final(self)),
            r is Ok ==> final(self).Position > old(self).Position,
            matches_layer_read(r, *final(self), read_if(old(self).Tokens@, state_of(*old(self)), old(self).Position as int)),
        decreases old(self).Tokens@.len() - old(self).Position, 2int,
    {
        let ghost ts = self.Tokens@;
        self.Advance();
        self.Consume(TokenKind::OpenParen, "Expected '('")?;
        let Condition = self.ParseExpression()?;
        self.Consume(TokenKind::CloseParen, "Expected ')'")?;
        let ghost st1 = state_of(*self);
        let ghost p3 = self.Position as int;
        let first_arm = self.ParseStatement()?;
        let ghost a = match read_stmt(ts, st1, p3) {
            Ok((l, _, _)) => l,
            Err(_) => arbitrary(),
        };
        let mut Children: Vec<Layer> = Vec::new();
        Children.push(first_arm);
        let mut HasElse = false;
        let ghost mut pcs: Seq<ParsedLayer> = seq![a];
        proof {
            reveal_with_fuel(layer_of, 1);
            assert(layers_of(Children@, pcs));
        }
        if self.Match(TokenKind::Else) {
            HasElse = true;
            let ghost st2 = state_of(*self);
            let ghost p5 = self.Position as int;
            let second = self.ParseStatement()?;
            let ghost b = match read_stmt(ts, st2, p5) {
                Ok((l, _, _)) => l,
                Err(_) => arbitrary(),
            };
            proof {
                lemma_layers_push(Children@, pcs, second, b);
                pcs = pcs.push(b);
                assert(pcs =~= seq![a, b]);
            }
            Children.push(second);
        }
        let ghost pk = ParsedKind::Conditional { Condition: Condition@, HasElse };
        Ok(self.Emit(LayerKind::Conditional { Condition, HasElse }, Children, Ghost(pk), Ghost(pcs)))
    }

    /// Parses loop logic: `while (cond) stmt`, with the body as the only child.
    pub fn ParseWhile(&mut self) -> (r: Result<Layer, String>)
        requires
            parser_wf(*old(self)),
            old(self).Tokens@.len() > 0,
        ensures
            parser_wf(*final(self)),
            advanced(*old(self), *final(self)),
            same_scope(*old(self), *final(self)),
            r is Ok ==> final(self).Position > old(self).Position,
            matches_layer_read(r, *final(self), read_while(old(self).Tokens@, state_of(*old(self)), old(self).Position as int)),
        decreases old(self).Tokens@.len() - old(self).Position, 2int,
    {
        let ghost ts = self.Tokens@;
        self.Advance();
        self.Consume(TokenKind::OpenParen, "Expected '('")?;
        let Condition = self.ParseExpression()?;
        self.Consume(TokenKind::CloseParen, "Expected ')'")?;
        let ghost st1 = state_of(*self);
        let ghost p3 = self.Position as int;
        let Body = self.ParseStatement()?;
        let ghost b = match read_stmt(ts, st1, p3) {
            Ok((l, _, _)) => l,
            Err(_) => arbitrary(),
        };
        let mut Children: Vec<Layer> = Vec::new();
        Children.push(Body);
        let ghost pk = ParsedKind::While(Condition@);
        let ghost pcs = seq![b];
        proof {
            assert(layers_of(Children@, pcs));
        }
        Ok(self.Emit(
            LayerKind::Loop { Label: None, Kind: LoopKind::While(Condition) },
            Children,
            Ghost(pk),
            Ghost(pcs),
        ))
    }

    /// Parses `interrupt 'syscall' { ... }` blocks.
    pub fn ParseInterrupt(&mut self) -> (r: Result<Layer, String>)
        requires
            parser_wf(*old(self)),
            old(self).Tokens@.len() > 0,
        ensures
            parser_wf(*final(self)),
            advanced(*old(self), *final(self)),
            same_scope(*old(self), *final(self)),
            r is Ok ==> final(self).Position > old(self).Position,
            matches_layer_read(r, *final(self), read_interrupt(old(self).Tokens@, state_of(*old(self)), old(self).Position as int)),
        decreases old(self).Tokens@.len() - old(self).Position, 2int,
    {
        let ghost ts = self.Tokens@;
        self.Advance();
        let Syscall = match &self.Advance().unwrap().Kind {
            TokenKind::StringLiteral(s) => s.clone(),
            TokenKind::Ident(s) => s.clone(),
            _ => {
                return Err(String::from_str("Expected syscall name in interrupt"));
            },
        };
        self.Match(TokenKind::Comma);
        if !self.Check(TokenKind::OpenBrace) {
            let _ = self.ParseExpression();
        }
        self.Consume(TokenKind::OpenBrace, "Expected '{' for interrupt body")?;
        let ghost st1 = state_of(*self);
        let ghost p3 = self.Position as int;
        let Body = self.ParseStatementsUntilCloseBrace();
        let ghost pcs = match read_block(ts, st1, p3) {
            Ok((cs, _, _)) => cs,
            Err(_) => Seq::empty(),
        };
        let Body = Body?;
        self.Consume(TokenKind::CloseBrace, "Expected '}' after interrupt body")?;
        let ghost pk = ParsedKind::Interrupt(Syscall@);
        Ok(self.Emit(LayerKind::Interrupt { Syscall }, Body, Ghost(pk), Ghost(pcs)))
    }

    /// Parses variable bindings with optional hooks, and records the
    /// variable with its initial value in the current layer.
    pub fn ParseVariableBinding(&mut self) -> (r: Result<Layer, String>)
        requires
            parser_wf(*old(self)),
            old(self).Tokens@.len() > 0,
        ensures
            parser_wf(*final(self)),
            advanced(*old(self), *final(self)),
            same_scope(*old(self), *final(self)),
            r is Ok ==> final(self).Position > old(self).Position,
            matches_layer_read(r, *final(self), read_binding(old(self).Tokens@, state_of(*old(self)), old(self).Position as int)),
        decreases old(self).Tokens@.len() - old(self).Position, 2int,
    {
        let is_mutable = match &self.Advance().unwrap().Kind {
            TokenKind::Let(true) => true,
            _ => false,
        };
        let (Name, TypeAnnotation) = self.ParseNameAndType("variable")?;
        self.ParseBindingValue(Name, TypeAnnotation, is_mutable)
    }

    /// The rest of a binding after its declaration: an optional `= value`,
    /// then the hooks.
    fn ParseBindingValue(&mut self, Name: String, TypeAnnotation: Type, is_mutable: bool) -> (r: Result<Layer, String>)
        requires
            parser_wf(*old(self)),
        ensures
            parser_wf(*final(self)),
            advanced(*old(self), *final(self)),
            same_scope(*old(self), *final(self)),
            r is Ok ==> final(self).Position >= old(self).Position,
            matches_layer_read(
                r,
                *final(self),
                read_binding_value(
                    old(self).Tokens@,
                    state_of(*old(self)),
                    Name@,
                    TypeAnnotation@,
                    is_mutable,
                    old(self).Position as int,
                ),
            ),
        decreases old(self).Tokens@.len() - old(self).Position, 1int,
    {
        let mut InitialValue: Option<Expression> = None;
        if self.Match(TokenKind::Equal) {
            let v = self.ParseExpression()?;
            InitialValue = Some(v);
        }
        self.ParseBindingHooks(Name, TypeAnnotation, is_mutable, InitialValue)
    }

    /// The hooks of a binding, in braces, then the binding itself; the
    /// variable is recorded in the current layer.
    fn ParseBindingHooks(
        &mut self,
        Name: String,
        TypeAnnotation: Type,
        is_mutable: bool,
        InitialValue: Option<Expression>,
    ) -> (r: Result<Layer, String>)
        requires
            parser_wf(*old(self)),
        ensures
            parser_wf(*final(self)),
            advanced(*old(self), *final(self)),
            same_scope(*old(self), *final(self)),
            r is Ok ==> final(self).Position >= old(self).Position,
            matches_layer_read(
                r,
                *final(self),
                read_binding_hooks(
                    old(self).Tokens@,
                    state_of(*old(self)),
                    Name@,
                    TypeAnnotation@,
                    is_mutable,
                    opt_expr_view(InitialValue),
                    old(self).Position as int,
                ),
            ),
        decreases old(self).Tokens@.len() - old(self).Position, 0int,
    {
        let ghost ts = self.Tokens@;
        let mut Hooks: Vec<VariableHook> = Vec::new();
        let ghost mut phs: Seq<(HookKind, ParsedKind)> = Seq::empty();
        if self.Check(TokenKind::OpenBrace) {
            self.Advance();
            let ghost st1 = state_of(*self);
            let ghost p1 = self.Position as int;
            let hs = self.ParseHooks();
            proof {
                phs = match read_hooks(ts, st1, p1) {
                    Ok((x, _, _)) => x,
                    Err(_) => Seq::empty(),
                };
            }
            Hooks = hs?;
            self.Consume(TokenKind::CloseBrace, "Expected '}' after hooks")?;
        }
        self.Match(TokenKind::Semicolon);
        let value = match &InitialValue {
            Some(v) => v.clone(),
            None => Expression::Variable(String::from_str("Invalid")),
        };
        let var_def = VariableDefinition {
            Name: Name.clone(),
            TypeAnnotation: Some(TypeAnnotation.clone()),
            IsMutable: is_mutable,
            Value: value,
        };
        let ghost vd = var_def;
        let ghost before = self.CurrentLayer.VariableStorage.Variables@;
        self.CurrentLayer.AddVariable(var_def);
        proof {
            assert(variables_view(before.insert(Name@, vd)) =~= variables_view(before).insert(Name@, vd@));
        }
        let ghost pk = ParsedKind::VariableBinding {
            Name: Name@,
            TypeAnnotation: TypeAnnotation@,
            IsMutable: is_mutable,
            Hooks: phs,
            InitialValue: opt_expr_view(InitialValue),
        };
        Ok(self.Emit(
            LayerKind::VariableBinding {
                Name,
                TypeAnnotation: Some(TypeAnnotation),
                IsMutable: is_mutable,
                Hooks,
                InitialValue,
            },
            Vec::new(),
            Ghost(pk),
            Ghost(Seq::empty()),
        ))
    }

    /// Reads hooks `kind: function [,]` until a `}` or the end of the
    /// tokens; each hook keeps the kind of its function's layer.
    fn ParseHooks(&mut self) -> (r: Result<Vec<VariableHook>, String>)
        requires
            parser_wf(*old(self)),
        ensures
            parser_wf(*final(self)),
            advanced(*old(self), *final(self)),
            same_scope(*old(self), *final(self)),
            matches_hooks_read(r, *final(self), read_hooks(old(self).Tokens@, state_of(*old(self)), old(self).Position as int)),
        decreases old(self).Tokens@.len() - old(self).Position, 2int,
    {
        let ghost ts = self.Tokens@;
        let ghost st0 = state_of(*self);
        let ghost pos0 = self.Position as int;
        let ghost mut acc: Seq<(HookKind, ParsedKind)> = Seq::empty();
        let mut Hooks: Vec<VariableHook> = Vec::new();
        while !self.Check(TokenKind::CloseBrace) && !self.IsAtEnd()
            invariant
                parser_wf(*self),
                advanced(*old(self), *self),
                same_scope(*old(self), *self),
                ts == self.Tokens@,
                st0 == state_of(*old(self)),
                pos0 == old(self).Position,
                hooks_of(Hooks@, acc),
                read_hooks(ts, st0, pos0) == match read_hooks(ts, state_of(*self), self.Position as int) {
                    Ok((hs, p, s)) => Ok((acc + hs, p, s)),
                    Err(e) => Err(e),
                },
            decreases self.Tokens@.len() - self.Position,
        {
            let ghost st = state_of(*self);
            let ghost pos = self.Position as int;
            let hook = self.ParseHook()?;
            let ghost x = match read_hook(ts, st, pos) {
                Ok((x, _, _)) => x,
                Err(_) => arbitrary(),
            };
            proof {
                lemma_hooks_push(Hooks@, acc, hook, x);
                match read_hooks(ts, state_of(*self), self.Position as int) {
                    Ok((hs, p, s)) => {
                        assert(acc.push(x) + hs =~= acc + (seq![x] + hs));
                    },
                    Err(_) => {},
                }
                acc = acc.push(x);
            }
            Hooks.push(hook);
        }
        proof {
            assert(acc + Seq::<(HookKind, ParsedKind)>::empty() =~= acc);
        }
        Ok(Hooks)
    }

    /// Reads one hook `kind: function [,]`.
    #[verifier::rlimit(30)]
    fn ParseHook(&mut self) -> (r: Result<VariableHook, String>)
        requires
            parser_wf(*old(self)),
            old(self).Position < old(self).Tokens@.len(),
        ensures
            parser_wf(*final(self)),
            advanced(*old(self), *final(self)),
            same_scope(*old(self), *final(self)),
            r is Ok ==> final(self).Position > old(self).Position,
            match read_hook(old(self).Tokens@, state_of(*old(self)), old(self).Position as int) {
                Ok((x, p, st)) => r is Ok && r->Ok_0.Kind == x.0 && r->Ok_0.Body@.len() == 1 && kind_of(
                    r->Ok_0.Body@[0],
                    x.1,
                ) && final(self).Position == p && state_of(*final(self)) == st,
                Err((m, p, st)) => r is Err && r->Err_0@ == m && final(self).Position == p && state_of(*final(self)) == st,
            },
        decreases old(self).Tokens@.len() - old(self).Position, 1int,
    {
        let ghost ts = self.Tokens@;
        let ghost pos = self.Position as int;
        let hook_type = match &self.Advance().unwrap().Kind {
            TokenKind::Ident(n) => {
                if *n == String::from_str("on_change") {
                    HookKind::OnChange
                } else if *n == String::from_str("on_read") {
                    HookKind::OnRead
                } else {
                    return Err(String::from_str("Expected hook type"));
                }
            },
            _ => {
                return Err(String::from_str("Expected hook type"));
            },
        };
        assert(hook_kind(ts[pos].Kind) == Some(hook_type));
        self.Consume(TokenKind::Colon, "Expected ':' after hook type")?;
        let hook_layer = self.ParseFunction()?;
        let mut body: Vec<LayerKind> = Vec::new();
        body.push(hook_layer.Kind);
        self.Match(TokenKind::Comma);
        Ok(VariableHook { Kind: hook_type, Body: body })
    }
}

} // verus!
