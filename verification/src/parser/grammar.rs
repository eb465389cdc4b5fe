//! The statement and item grammar, as readings from a position: what a
//! parse builds, where it leaves the cursor, and how it changes the
//! parser's variables and layer numbering.
//!
//! A reading that goes on from where another one ended does so only when
//! that position lies past its own start; successful readings always move
//! on (each parsing method states it of its own result), so the other
//! branch of such a test is never taken.

use vstd::prelude::*;
use crate::ast::{
    HookKind, Layer, LayerId, LayerKind, LoopKind, Param, SpecExpression, SpecType, SpecVariable, StructField,
    VariableHook,
};
use crate::ast::copy::opt_expr_view;
use crate::ast::metadata::{ObservabilityMode, OptimizationHints, RegisterPressureMode};
use crate::ast::source::builtin_location;
use crate::ast::trace::TraceContext;
use crate::ast::ty::opt_type_view;
use crate::lexer::token::{Token, TokenKind};
use crate::parser::Parser;
use crate::parser::expressions::{Read, expect, kind_is, read_expr};
use crate::parser::types::{read_name_and_type, read_type};

verus! {

/// The kind of a layer that parsing builds, by value.
pub enum ParsedKind {
    Program,
    Function { Name: Seq<char>, Params: Seq<(Seq<char>, SpecType)>, ReturnType: Option<SpecType> },
    VariableBinding {
        Name: Seq<char>,
        TypeAnnotation: SpecType,
        IsMutable: bool,
        Hooks: Seq<(HookKind, ParsedKind)>,
        InitialValue: Option<SpecExpression>,
    },
    Assignment { Target: SpecExpression, Value: SpecExpression },
    Expression(SpecExpression),
    Block,
    While(SpecExpression),
    Conditional { Condition: SpecExpression, HasElse: bool },
    Return(Option<SpecExpression>),
    Panic,
    Unreachable,
    Havoc(SpecExpression),
    Interrupt(Seq<char>),
    Struct { Name: Seq<char>, Fields: Seq<(Seq<char>, SpecType)> },
}

/// A layer that parsing builds, by value: its id, kind and children.
pub struct ParsedLayer {
    pub Id: usize,
    pub Kind: ParsedKind,
    pub Children: Seq<ParsedLayer>,
}

/// What parsing reads and changes besides the cursor: the variables of the
/// current layer and the id the next layer gets.
pub struct ReadState {
    pub Vars: Map<Seq<char>, SpecVariable>,
    pub NextId: usize,
}

/// The parser's variables and next layer id.
pub open spec fn state_of(p: Parser) -> ReadState {
    ReadState { Vars: p.vars(), NextId: p.NextLayerId }
}

/// The state after a layer took the next id (ids wrap around).
pub open spec fn next_state(st: ReadState) -> ReadState {
    ReadState { NextId: if st.NextId == usize::MAX { 0 } else { (st.NextId + 1) as usize }, ..st }
}

/// A childless layer of kind `k` with the next id.
pub open spec fn leaf(st: ReadState, k: ParsedKind) -> ParsedLayer {
    ParsedLayer { Id: st.NextId, Kind: k, Children: Seq::empty() }
}

/// Parameters (or fields) as written: names and types, a parameter's value
/// being its type.
pub open spec fn params_of(ps: Seq<Param>, xs: Seq<(Seq<char>, SpecType)>) -> bool {
    &&& ps.len() == xs.len()
    &&& forall|i: int|
        0 <= i < ps.len() ==> (#[trigger] ps[i]).Name@ == xs[i].0 && ps[i].Type_@ == xs[i].1 && ps[i].Value@
            == xs[i].1
}

pub open spec fn fields_of(fs: Seq<StructField>, xs: Seq<(Seq<char>, SpecType)>) -> bool {
    &&& fs.len() == xs.len()
    &&& forall|i: int| 0 <= i < fs.len() ==> (#[trigger] fs[i]).Name@ == xs[i].0 && fs[i].Type_@ == xs[i].1
}

/// `k` is the layer kind `pk` describes.
pub open spec fn kind_of(k: LayerKind, pk: ParsedKind) -> bool
    decreases pk,
{
    match pk {
        ParsedKind::Program => k is Program,
        ParsedKind::Function { Name, Params, ReturnType } => k matches LayerKind::Function {
            Name: n,
            Params: ps,
            ReturnType: rt,
            IsUnsafe,
            IsExtern,
        } && n@ == Name && params_of(ps@, Params) && opt_type_view(rt) == ReturnType && !IsUnsafe && !IsExtern,
        ParsedKind::VariableBinding { Name, TypeAnnotation, IsMutable, Hooks, InitialValue } => k matches LayerKind::VariableBinding {
            Name: n,
            TypeAnnotation: ta,
            IsMutable: m,
            Hooks: hs,
            InitialValue: iv,
        } && n@ == Name && opt_type_view(ta) == Some(TypeAnnotation) && m == IsMutable && hooks_of(hs@, Hooks)
            && opt_expr_view(iv) == InitialValue,
        ParsedKind::Assignment { Target, Value } => k matches LayerKind::Assignment { Target: t, Value: v }
            && t@ == Target && v@ == Value,
        ParsedKind::Expression(e) => k matches LayerKind::Expression(x) && x@ == e,
        ParsedKind::Block => k is Block,
        ParsedKind::While(c) => k matches LayerKind::Loop { Label, Kind } && Label is None && (Kind matches LoopKind::While(
            x,
        ) && x@ == c),
        ParsedKind::Conditional { Condition, HasElse } => k matches LayerKind::Conditional { Condition: c, HasElse: h }
            && c@ == Condition && h == HasElse,
        ParsedKind::Return(v) => k matches LayerKind::Return { Value } && opt_expr_view(Value) == v,
        ParsedKind::Panic => k is Panic,
        ParsedKind::Unreachable => k is Unreachable,
        ParsedKind::Havoc(e) => k matches LayerKind::Havoc { Target } && Target@ == e,
        ParsedKind::Interrupt(s) => k matches LayerKind::Interrupt { Syscall } && Syscall@ == s,
        ParsedKind::Struct { Name, Fields } => k matches LayerKind::Struct { Name: n, Fields: fs, IsPacked }
            && n@ == Name && fields_of(fs@, Fields) && !IsPacked,
    }
}

/// Hooks as read: each of its kind, its body the one function kind read.
pub open spec fn hooks_of(hs: Seq<VariableHook>, phs: Seq<(HookKind, ParsedKind)>) -> bool
    decreases phs,
{
    &&& hs.len() == phs.len()
    &&& forall|i: int|
        0 <= i < phs.len() ==> (#[trigger] hs[i]).Kind == phs[i].0 && hs[i].Body@.len() == 1 && kind_of(
            hs[i].Body@[0],
            phs[i].1,
        )
}

/// The fields every layer the parser builds starts with, at a built-in
/// source location.
pub open spec fn built_layer(l: Layer) -> bool {
    &&& l.Metadata.SourceLocation@ == builtin_location()
    &&& l.Metadata.Docs.is_none()
    &&& l.Metadata.Directives@.len() == 0
    &&& l.Metadata.Optimization == OptimizationHints {
        AggressiveLoopFolding: false,
        TraceObservability: ObservabilityMode::Strict,
        RegisterPressure: RegisterPressureMode::Auto,
        InlineThreshold: None,
    }
    &&& l.Metadata.Custom@.is_empty()
    &&& l.Constraints@.len() == 0
    &&& l.Observability.ObservableValues@.len() == 0
    &&& !l.Observability.AffectsOutput
    &&& !l.Observability.AffectsHardware
    &&& l.Observability.ObservableToTrace
    &&& l.TypeStorage.DefinedTypes@.is_empty()
    &&& l.TypeStorage.TypeAliases@.is_empty()
    &&& l.VariableStorage.Variables@.is_empty()
    &&& l.TraceInfo.TraceId@ == "unknown"@
    &&& l.TraceInfo.Depth == 0
    &&& l.TraceInfo.Context == TraceContext::Root
    &&& l.TraceInfo.TypeEnv.DefinedTypes@.is_empty()
    &&& l.TraceInfo.TypeEnv.TypeAliases@.is_empty()
}

/// `l` is the layer `pl` describes, children included.
pub open spec fn layer_of(l: Layer, pl: ParsedLayer) -> bool
    decreases pl,
{
    &&& built_layer(l)
    &&& l.Id == LayerId(pl.Id)
    &&& kind_of(l.Kind, pl.Kind)
    &&& l.Children@.len() == pl.Children.len()
    &&& forall|i: int| 0 <= i < pl.Children.len() ==> layer_of(#[trigger] l.Children@[i], pl.Children[i])
}

/// Each of `ls` is the layer described at the same place in `pls`.
pub open spec fn layers_of(ls: Seq<Layer>, pls: Seq<ParsedLayer>) -> bool {
    &&& ls.len() == pls.len()
    &&& forall|i: int| 0 <= i < ls.len() ==> layer_of(#[trigger] ls[i], pls[i])
}

/// The result of reading statements from a position: what was read, the
/// position after it and the state then; or the error, the position where
/// reading stopped and the state at that point.
pub type Reading<T> = Result<(T, int, ReadState), (Seq<char>, int, ReadState)>;

/// A reading that failed where an expression, type or token reading failed,
/// with the state `st` reached before it.
pub open spec fn stopped<T>(e: (Seq<char>, int), st: ReadState) -> Reading<T> {
    Err((e.0, e.1, st))
}

/// The position after an optional token of kind `k` at `p`.
pub open spec fn skip(ts: Seq<Token>, p: int, k: TokenKind) -> int {
    if kind_is(ts, p, k) {
        p + 1
    } else {
        p
    }
}

/// The position after taking one token at `p`; at the end it stays.
pub open spec fn step(ts: Seq<Token>, p: int) -> int {
    if p < ts.len() {
        p + 1
    } else {
        p
    }
}

/// `x` in front of what a reading gives.
pub open spec fn prepend<T>(x: T, rd: Read<Seq<T>>) -> Read<Seq<T>> {
    match rd {
        Err(e) => Err(e),
        Ok((xs, p)) => Ok((seq![x] + xs, p)),
    }
}

/// Reading an expression statement at `pos`: an expression, or an
/// assignment `target = value`, with an optional `;`.
pub open spec fn read_expr_stmt(ts: Seq<Token>, st: ReadState, pos: int) -> Reading<ParsedLayer> {
    match read_expr(ts, pos) {
        Err(e) => stopped(e, st),
        Ok((t, p)) => if kind_is(ts, p, TokenKind::Equal) {
            match read_expr(ts, p + 1) {
                Err(e) => stopped(e, st),
                Ok((v, q)) => Ok(
                    (
                        leaf(st, ParsedKind::Assignment { Target: t, Value: v }),
                        skip(ts, q, TokenKind::Semicolon),
                        next_state(st),
                    ),
                ),
            }
        } else {
            Ok((leaf(st, ParsedKind::Expression(t)), skip(ts, p, TokenKind::Semicolon), next_state(st)))
        },
    }
}

/// Reading `return;` or `return value;` at `pos`.
pub open spec fn read_return(ts: Seq<Token>, st: ReadState, pos: int) -> Reading<ParsedLayer> {
    let p = step(ts, pos);
    if kind_is(ts, p, TokenKind::Semicolon) {
        Ok((leaf(st, ParsedKind::Return(None)), p + 1, next_state(st)))
    } else {
        match read_expr(ts, p) {
            Err(e) => stopped(e, st),
            Ok((v, q)) => Ok((leaf(st, ParsedKind::Return(Some(v))), skip(ts, q, TokenKind::Semicolon), next_state(st))),
        }
    }
}

/// Reading a statement at `pos`.
pub open spec fn read_stmt(ts: Seq<Token>, st: ReadState, pos: int) -> Reading<ParsedLayer>
    decreases ts.len() - pos, 3int,
{
    if pos < 0 || pos >= ts.len() {
        read_expr_stmt(ts, st, pos)
    } else {
        match ts[pos].Kind {
            TokenKind::Panic => Ok(
                (leaf(st, ParsedKind::Panic), skip(ts, pos + 1, TokenKind::Semicolon), next_state(st)),
            ),
            TokenKind::Unreachable => Ok(
                (leaf(st, ParsedKind::Unreachable), skip(ts, pos + 1, TokenKind::Semicolon), next_state(st)),
            ),
            TokenKind::Let(_) => read_binding(ts, st, pos),
            TokenKind::Return => read_return(ts, st, pos),
            TokenKind::Havoc => match read_expr(ts, pos + 1) {
                Err(e) => stopped(e, st),
                Ok((e, p)) => Ok((leaf(st, ParsedKind::Havoc(e)), skip(ts, p, TokenKind::Semicolon), next_state(st))),
            },
            TokenKind::Interrupt => read_interrupt(ts, st, pos),
            TokenKind::If => read_if(ts, st, pos),
            TokenKind::While => read_while(ts, st, pos),
            TokenKind::OpenBrace => match read_block(ts, st, pos + 1) {
                Err(e) => Err(e),
                Ok((cs, p, st2)) => match expect(ts, p, TokenKind::CloseBrace, "Expected '}' after block"@) {
                    Err(e) => stopped(e, st2),
                    Ok(p2) => Ok(
                        (ParsedLayer { Id: st2.NextId, Kind: ParsedKind::Block, Children: cs }, p2, next_state(st2)),
                    ),
                },
            },
            _ => read_expr_stmt(ts, st, pos),
        }
    }
}

/// Reading statements at `pos` until a `}` or the end of the tokens.
pub open spec fn read_block(ts: Seq<Token>, st: ReadState, pos: int) -> Reading<Seq<ParsedLayer>>
    decreases ts.len() - pos, 4int,
{
    if pos < 0 || pos >= ts.len() || kind_is(ts, pos, TokenKind::CloseBrace) {
        Ok((Seq::empty(), pos, st))
    } else {
        match read_stmt(ts, st, pos) {
            Err(e) => Err(e),
            Ok((l, p, st2)) => if pos < p <= ts.len() {
                match read_block(ts, st2, p) {
                    Err(e) => Err(e),
                    Ok((ls, p2, st3)) => Ok((seq![l] + ls, p2, st3)),
                }
            } else {
                Ok((seq![l], p, st2))
            },
        }
    }
}

/// Reading `if (cond) stmt [else stmt]` at `pos`.
pub open spec fn read_if(ts: Seq<Token>, st: ReadState, pos: int) -> Reading<ParsedLayer>
    decreases ts.len() - pos, 2int,
{
    match expect(ts, step(ts, pos), TokenKind::OpenParen, "Expected '('"@) {
        Err(e) => stopped(e, st),
        Ok(p1) => match read_expr(ts, p1) {
            Err(e) => stopped(e, st),
            Ok((c, p2)) => match expect(ts, p2, TokenKind::CloseParen, "Expected ')'"@) {
                Err(e) => stopped(e, st),
                Ok(p3) => if pos < p3 <= ts.len() {
                    match read_stmt(ts, st, p3) {
                        Err(e) => Err(e),
                        Ok((a, p4, st2)) => if kind_is(ts, p4, TokenKind::Else) && pos < p4 {
                            match read_stmt(ts, st2, p4 + 1) {
                                Err(e) => Err(e),
                                Ok((b, p5, st3)) => Ok(
                                    (
                                        ParsedLayer {
                                            Id: st3.NextId,
                                            Kind: ParsedKind::Conditional { Condition: c, HasElse: true },
                                            Children: seq![a, b],
                                        },
                                        p5,
                                        next_state(st3),
                                    ),
                                ),
                            }
                        } else {
                            Ok(
                                (
                                    ParsedLayer {
                                        Id: st2.NextId,
                                        Kind: ParsedKind::Conditional { Condition: c, HasElse: false },
                                        Children: seq![a],
                                    },
                                    p4,
                                    next_state(st2),
                                ),
                            )
                        },
                    }
                } else {
                    Err(("Expected ')'"@, p3, st))
                },
            },
        },
    }
}

/// Reading `while (cond) stmt` at `pos`.
pub open spec fn read_while(ts: Seq<Token>, st: ReadState, pos: int) -> Reading<ParsedLayer>
    decreases ts.len() - pos, 2int,
{
    match expect(ts, step(ts, pos), TokenKind::OpenParen, "Expected '('"@) {
        Err(e) => stopped(e, st),
        Ok(p1) => match read_expr(ts, p1) {
            Err(e) => stopped(e, st),
            Ok((c, p2)) => match expect(ts, p2, TokenKind::CloseParen, "Expected ')'"@) {
                Err(e) => stopped(e, st),
                Ok(p3) => if pos < p3 <= ts.len() {
                    match read_stmt(ts, st, p3) {
                        Err(e) => Err(e),
                        Ok((b, p4, st2)) => Ok(
                            (
                                ParsedLayer { Id: st2.NextId, Kind: ParsedKind::While(c), Children: seq![b] },
                                p4,
                                next_state(st2),
                            ),
                        ),
                    }
                } else {
                    Err(("Expected ')'"@, p3, st))
                },
            },
        },
    }
}

/// Reading `interrupt name [,] [expr] { ... }` at `pos`; the name is a
/// string or an identifier, and the expression before the body is read and
/// set aside, whether or not it parses.
pub open spec fn read_interrupt(ts: Seq<Token>, st: ReadState, pos: int) -> Reading<ParsedLayer>
    decreases ts.len() - pos, 2int,
{
    let q = step(ts, step(ts, pos));
    let name = match ts[q - 1].Kind {
        TokenKind::StringLiteral(s) => Some(s@),
        TokenKind::Ident(s) => Some(s@),
        _ => None,
    };
    match name {
        None => Err(("Expected syscall name in interrupt"@, q, st)),
        Some(sys) => {
            let r = skip(ts, q, TokenKind::Comma);
            let r2 = if kind_is(ts, r, TokenKind::OpenBrace) {
                r
            } else {
                match read_expr(ts, r) {
                    Ok((_, x)) => x,
                    Err((_, x)) => x,
                }
            };
            match expect(ts, r2, TokenKind::OpenBrace, "Expected '{' for interrupt body"@) {
                Err(e) => stopped(e, st),
                Ok(p3) => if pos < p3 <= ts.len() {
                    match read_block(ts, st, p3) {
                        Err(e) => Err(e),
                        Ok((cs, p4, st2)) => match expect(
                            ts,
                            p4,
                            TokenKind::CloseBrace,
                            "Expected '}' after interrupt body"@,
                        ) {
                            Err(e) => stopped(e, st2),
                            Ok(p5) => Ok(
                                (
                                    ParsedLayer { Id: st2.NextId, Kind: ParsedKind::Interrupt(sys), Children: cs },
                                    p5,
                                    next_state(st2),
                                ),
                            ),
                        },
                    }
                } else {
                    Err(("Expected '{' for interrupt body"@, p3, st))
                },
            }
        },
    }
}

/// The binding layer and the state after it: the variable is recorded with
/// its type and initial value (`Invalid` when there is none).
pub open spec fn finish_binding(
    st: ReadState,
    name: Seq<char>,
    ty: SpecType,
    mutable: bool,
    init: Option<SpecExpression>,
    hooks: Seq<(HookKind, ParsedKind)>,
    p: int,
) -> (ParsedLayer, int, ReadState) {
    (
        leaf(
            st,
            ParsedKind::VariableBinding {
                Name: name,
                TypeAnnotation: ty,
                IsMutable: mutable,
                Hooks: hooks,
                InitialValue: init,
            },
        ),
        p,
        ReadState {
            Vars: st.Vars.insert(
                name,
                SpecVariable {
                    Name: name,
                    TypeAnnotation: Some(ty),
                    IsMutable: mutable,
                    Value: match init {
                        Some(v) => v,
                        None => SpecExpression::Variable("Invalid"@),
                    },
                },
            ),
            NextId: next_state(st).NextId,
        },
    )
}

/// Reading a variable binding at `pos`: `let`/`var`, a declaration, an
/// optional `= value`, optional hooks in braces and an optional `;`.
pub open spec fn read_binding(ts: Seq<Token>, st: ReadState, pos: int) -> Reading<ParsedLayer>
    decreases ts.len() - pos, 2int,
{
    let p0 = step(ts, pos);
    let mutable = ts[p0 - 1].Kind == TokenKind::Let(true);
    match read_name_and_type(ts, st.Vars, p0, true) {
        Err(e) => stopped(e, st),
        Ok(((n, t), p)) => if pos < p <= ts.len() {
            read_binding_value(ts, st, n, t, mutable, p)
        } else {
            Err(("Expected hook type"@, p, st))
        },
    }
}

/// The rest of a binding after its declaration, from `p`.
pub open spec fn read_binding_value(
    ts: Seq<Token>,
    st: ReadState,
    name: Seq<char>,
    ty: SpecType,
    mutable: bool,
    p: int,
) -> Reading<ParsedLayer>
    decreases ts.len() - p, 1int,
{
    if kind_is(ts, p, TokenKind::Equal) {
        match read_expr(ts, p + 1) {
            Err(e) => stopped(e, st),
            Ok((v, q)) => if p <= q <= ts.len() {
                read_binding_hooks(ts, st, name, ty, mutable, Some(v), q)
            } else {
                Err(("Expected hook type"@, q, st))
            },
        }
    } else {
        read_binding_hooks(ts, st, name, ty, mutable, None, p)
    }
}

/// The hooks of a binding, from `p`, and the binding itself.
pub open spec fn read_binding_hooks(
    ts: Seq<Token>,
    st: ReadState,
    name: Seq<char>,
    ty: SpecType,
    mutable: bool,
    init: Option<SpecExpression>,
    p: int,
) -> Reading<ParsedLayer>
    decreases ts.len() - p, 0int,
{
    if kind_is(ts, p, TokenKind::OpenBrace) {
        match read_hooks(ts, st, p + 1) {
            Err(e) => Err(e),
            Ok((hs, q, st2)) => match expect(ts, q, TokenKind::CloseBrace, "Expected '}' after hooks"@) {
                Err(e) => stopped(e, st2),
                Ok(q2) => Ok(finish_binding(st2, name, ty, mutable, init, hs, skip(ts, q2, TokenKind::Semicolon))),
            },
        }
    } else {
        Ok(finish_binding(st, name, ty, mutable, init, Seq::empty(), skip(ts, p, TokenKind::Semicolon)))
    }
}

/// The kind of hook a name stands for.
pub open spec fn hook_kind(k: TokenKind) -> Option<HookKind> {
    match k {
        TokenKind::Ident(n) => if n@ == "on_change"@ {
            Some(HookKind::OnChange)
        } else if n@ == "on_read"@ {
            Some(HookKind::OnRead)
        } else {
            None
        },
        _ => None,
    }
}

/// Reading one hook `kind: function [,]` at `pos`; the hook keeps the kind
/// of its function's layer.
pub open spec fn read_hook(ts: Seq<Token>, st: ReadState, pos: int) -> Reading<(HookKind, ParsedKind)>
    decreases ts.len() - pos, 1int,
{
    if pos < 0 || pos >= ts.len() {
        Err(("Expected hook type"@, pos, st))
    } else {
        match hook_kind(ts[pos].Kind) {
            None => Err(("Expected hook type"@, pos + 1, st)),
            Some(k) => match expect(ts, pos + 1, TokenKind::Colon, "Expected ':' after hook type"@) {
                Err(e) => stopped(e, st),
                Ok(p2) => match read_function(ts, st, p2) {
                    Err(e) => Err(e),
                    Ok((f, p3, st2)) => Ok(((k, f.Kind), skip(ts, p3, TokenKind::Comma), st2)),
                },
            },
        }
    }
}

/// Reading hooks at `pos` until a `}` or the end of the tokens.
pub open spec fn read_hooks(ts: Seq<Token>, st: ReadState, pos: int) -> Reading<Seq<(HookKind, ParsedKind)>>
    decreases ts.len() - pos, 2int,
{
    if pos < 0 || pos >= ts.len() || kind_is(ts, pos, TokenKind::CloseBrace) {
        Ok((Seq::empty(), pos, st))
    } else {
        match read_hook(ts, st, pos) {
            Err(e) => Err(e),
            Ok((x, p, st2)) => if pos < p <= ts.len() {
                match read_hooks(ts, st2, p) {
                    Err(e) => Err(e),
                    Ok((hs, p2, st3)) => Ok((seq![x] + hs, p2, st3)),
                }
            } else {
                Err(("Expected hook type"@, p, st2))
            },
        }
    }
}

/// Reading parameters at `pos`, up to and including the closing `)`:
/// declarations separated by `,`, `&` or an invalid token (which takes the
/// token after it along).
pub open spec fn read_params(
    ts: Seq<Token>,
    vars: Map<Seq<char>, SpecVariable>,
    pos: int,
) -> Read<Seq<(Seq<char>, SpecType)>>
    decreases ts.len() - pos,
{
    if kind_is(ts, pos, TokenKind::Comma) {
        read_params(ts, vars, pos + 1)
    } else {
        match read_name_and_type(ts, vars, pos, false) {
            Err(e) => Err(e),
            Ok(((n, t), p)) => if !(pos < p <= ts.len()) {
                Err(("Expected ')' after parameters"@, p))
            } else if t == SpecType::Null {
                read_params(ts, vars, p)
            } else if kind_is(ts, p, TokenKind::Invalid) {
                prepend((n, t), read_params(ts, vars, step(ts, p + 1)))
            } else if kind_is(ts, p, TokenKind::And) {
                prepend((n, t), read_params(ts, vars, p + 1))
            } else if kind_is(ts, p, TokenKind::CloseParen) {
                Ok((seq![(n, t)], p + 1))
            } else {
                prepend((n, t), read_params(ts, vars, p))
            },
        }
    }
}

/// Reading a function's signature at `pos`: a keyword, an optional name,
/// parameters in parentheses and an optional `-> type`.
#[verifier::opaque]
pub open spec fn read_signature(
    ts: Seq<Token>,
    vars: Map<Seq<char>, SpecVariable>,
    pos: int,
) -> Read<(Seq<char>, Seq<(Seq<char>, SpecType)>, Option<SpecType>)> {
    let p1 = step(ts, pos);
    let (name, p2) = if 0 <= p1 < ts.len() && ts[p1].Kind is Ident {
        (ts[p1].Kind->Ident_0@, p1 + 1)
    } else {
        (Seq::<char>::empty(), p1)
    };
    match expect(ts, p2, TokenKind::OpenParen, "Expected '(' after function name"@) {
        Err(e) => Err(e),
        Ok(p3) => {
            let ps = if kind_is(ts, p3, TokenKind::CloseParen) {
                Ok((Seq::empty(), p3 + 1))
            } else {
                read_params(ts, vars, p3)
            };
            match ps {
                Err(e) => Err(e),
                Ok((params, p4)) => if kind_is(ts, p4, TokenKind::Arrow) {
                    match read_type(ts, vars, p4 + 1) {
                        Err(e) => Err(e),
                        Ok((t, q)) => Ok(((name, params, Some(t)), q)),
                    }
                } else {
                    Ok(((name, params, None), p4))
                },
            }
        },
    }
}

/// Reading a function at `pos`: its signature, then a body in braces.
pub open spec fn read_function(ts: Seq<Token>, st: ReadState, pos: int) -> Reading<ParsedLayer>
    decreases ts.len() - pos, 2int,
{
    match read_signature(ts, st.Vars, pos) {
        Err(e) => stopped(e, st),
        Ok(((name, params, ret), p5)) => match expect(ts, p5, TokenKind::OpenBrace, "Expected '{' before function body"@) {
            Err(e) => stopped(e, st),
            Ok(p6) => if pos < p6 <= ts.len() {
                match read_block(ts, st, p6) {
                    Err(e) => Err(e),
                    Ok((cs, p7, st2)) => match expect(ts, p7, TokenKind::CloseBrace, "Expected '}' after function body"@) {
                        Err(e) => stopped(e, st2),
                        Ok(p8) => Ok(
                            (
                                ParsedLayer {
                                    Id: st2.NextId,
                                    Kind: ParsedKind::Function { Name: name, Params: params, ReturnType: ret },
                                    Children: cs,
                                },
                                p8,
                                next_state(st2),
                            ),
                        ),
                    },
                }
            } else {
                Err(("Expected '{' before function body"@, p6, st))
            },
        },
    }
}

/// Reading struct fields at `pos` until a `}` or the end of the tokens, each
/// a declaration with an optional `,` and an optional `;` after it.
pub open spec fn read_fields(
    ts: Seq<Token>,
    vars: Map<Seq<char>, SpecVariable>,
    pos: int,
) -> Read<Seq<(Seq<char>, SpecType)>>
    decreases ts.len() - pos,
{
    if pos < 0 || pos >= ts.len() || kind_is(ts, pos, TokenKind::CloseBrace) {
        Ok((Seq::empty(), pos))
    } else {
        match read_name_and_type(ts, vars, pos, false) {
            Err(e) => Err(e),
            Ok(((n, t), p)) => {
                let p2 = skip(ts, skip(ts, p, TokenKind::Comma), TokenKind::Semicolon);
                if pos < p2 <= ts.len() {
                    prepend((n, t), read_fields(ts, vars, p2))
                } else {
                    Err(("Expected '}' after struct fields"@, p2))
                }
            },
        }
    }
}

/// Reading `struct Name { fields }` at `pos`.
pub open spec fn read_struct(ts: Seq<Token>, st: ReadState, pos: int) -> Reading<ParsedLayer> {
    let q = step(ts, step(ts, pos));
    match ts[q - 1].Kind {
        TokenKind::Ident(n) => match expect(ts, q, TokenKind::OpenBrace, "Expected '{' before struct fields"@) {
            Err(e) => stopped(e, st),
            Ok(p) => match read_fields(ts, st.Vars, p) {
                Err(e) => stopped(e, st),
                Ok((fs, p2)) => match expect(ts, p2, TokenKind::CloseBrace, "Expected '}' after struct fields"@) {
                    Err(e) => stopped(e, st),
                    Ok(p3) => Ok((leaf(st, ParsedKind::Struct { Name: n@, Fields: fs }), p3, next_state(st))),
                },
            },
        },
        _ => Err(("Expected struct name"@, q, st)),
    }
}

/// Reading a top-level item at `pos`: a function, a struct or a statement.
pub open spec fn read_item(ts: Seq<Token>, st: ReadState, pos: int) -> Reading<ParsedLayer> {
    if 0 <= pos < ts.len() && ts[pos].Kind is Function {
        read_function(ts, st, pos)
    } else if 0 <= pos < ts.len() && ts[pos].Kind is Struct {
        read_struct(ts, st, pos)
    } else {
        read_stmt(ts, st, pos)
    }
}

/// Reading items at `pos` until the tokens run out.
pub open spec fn read_items(ts: Seq<Token>, st: ReadState, pos: int) -> Reading<Seq<ParsedLayer>>
    decreases ts.len() - pos,
{
    if pos < 0 || pos >= ts.len() {
        Ok((Seq::empty(), pos, st))
    } else {
        match read_item(ts, st, pos) {
            Err(e) => Err(e),
            Ok((l, p, st2)) => if pos < p <= ts.len() {
                match read_items(ts, st2, p) {
                    Err(e) => Err(e),
                    Ok((ls, p2, st3)) => Ok((seq![l] + ls, p2, st3)),
                }
            } else {
                Ok((seq![l], p, st2))
            },
        }
    }
}

/// Reading a whole program at `pos`: the program layer takes the next id,
/// and its children are the items read after.
pub open spec fn read_program(ts: Seq<Token>, st: ReadState, pos: int) -> Reading<ParsedLayer> {
    match read_items(ts, next_state(st), pos) {
        Err(e) => Err(e),
        Ok((ls, p, st2)) => Ok((ParsedLayer { Id: st.NextId, Kind: ParsedKind::Program, Children: ls }, p, st2)),
    }
}

/// The parser's result matches a reading of one layer: the layer, the
/// cursor and the state; or the error and the cursor.
pub open spec fn matches_layer_read(r: Result<Layer, String>, p: Parser, rd: Reading<ParsedLayer>) -> bool {
    match rd {
        Ok((pl, q, st)) => r is Ok && layer_of(r->Ok_0, pl) && p.Position == q && state_of(p) == st,
        Err((m, q, st)) => r is Err && r->Err_0@ == m && p.Position == q && state_of(p) == st,
    }
}

/// The parser's result matches a reading of several layers.
pub open spec fn matches_layers_read(r: Result<Vec<Layer>, String>, p: Parser, rd: Reading<Seq<ParsedLayer>>) -> bool {
    match rd {
        Ok((pls, q, st)) => r is Ok && layers_of(r->Ok_0@, pls) && p.Position == q && state_of(p) == st,
        Err((m, q, st)) => r is Err && r->Err_0@ == m && p.Position == q && state_of(p) == st,
    }
}

/// `acc` in front of what a reading gives.
pub open spec fn prefixed<T>(acc: Seq<T>, rd: Read<Seq<T>>) -> Read<Seq<T>> {
    match rd {
        Err(e) => Err(e),
        Ok((xs, p)) => Ok((acc + xs, p)),
    }
}

/// `acc` in front of the layers a reading gives.
pub open spec fn layers_prefixed(acc: Seq<ParsedLayer>, rd: Reading<Seq<ParsedLayer>>) -> Reading<Seq<ParsedLayer>> {
    match rd {
        Err(e) => Err(e),
        Ok((xs, p, st)) => Ok((acc + xs, p, st)),
    }
}

/// The parser's result matches a reading of parameters; the state stays.
pub open spec fn matches_params_read(
    r: Result<Vec<Param>, String>,
    a: Parser,
    b: Parser,
    rd: Read<Seq<(Seq<char>, SpecType)>>,
) -> bool {
    &&& state_of(b) == state_of(a)
    &&& match rd {
        Ok((xs, q)) => r is Ok && params_of(r->Ok_0@, xs) && b.Position == q,
        Err((m, q)) => r is Err && r->Err_0@ == m && b.Position == q,
    }
}

/// The parser's result matches a reading of struct fields; the state stays.
pub open spec fn matches_fields_read(
    r: Result<Vec<StructField>, String>,
    a: Parser,
    b: Parser,
    rd: Read<Seq<(Seq<char>, SpecType)>>,
) -> bool {
    &&& state_of(b) == state_of(a)
    &&& match rd {
        Ok((xs, q)) => r is Ok && fields_of(r->Ok_0@, xs) && b.Position == q,
        Err((m, q)) => r is Err && r->Err_0@ == m && b.Position == q,
    }
}

/// The parser's result matches a reading of hooks.
pub open spec fn matches_hooks_read(
    r: Result<Vec<VariableHook>, String>,
    p: Parser,
    rd: Reading<Seq<(HookKind, ParsedKind)>>,
) -> bool {
    match rd {
        Ok((phs, q, st)) => r is Ok && hooks_of(r->Ok_0@, phs) && p.Position == q && state_of(p) == st,
        Err((m, q, st)) => r is Err && r->Err_0@ == m && p.Position == q && state_of(p) == st,
    }
}

/// `b` is `a` but for the variables of the current layer and the next id.
pub open spec fn same_scope(a: Parser, b: Parser) -> bool {
    b.CurrentLayer == (Layer { VariableStorage: b.CurrentLayer.VariableStorage, ..a.CurrentLayer })
}

} // verus!
