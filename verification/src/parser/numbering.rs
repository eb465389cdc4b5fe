//! Layer ids: parsing gives every layer of a program its own id.

use vstd::prelude::*;
use crate::ast::{SpecExpression, SpecType};
use crate::lexer::token::{Token, TokenKind};
use crate::parser::expressions::{expect, kind_is, lemma_expr_moves_on, read_expr};
use crate::parser::grammar::{
    ParsedKind, ParsedLayer, ReadState, Reading, hook_kind, leaf, next_state, read_binding,
    read_binding_hooks, read_binding_value, read_block, read_expr_stmt, read_fields, read_function, read_hook,
    read_hooks, read_if, read_interrupt, read_item, read_items, read_params, read_program, read_return,
    read_signature, read_stmt, read_struct, read_while, skip, step,
};
use crate::parser::types::{lemma_decl_moves_on, lemma_type_moves_on, read_name_and_type};

verus! {

/// The ids of a layer tree, children first, in order.
pub open spec fn tree_ids(pl: ParsedLayer) -> Seq<usize>
    decreases pl, 1int,
{
    forest_ids(pl.Children).push(pl.Id)
}

/// The ids of layer trees, one tree after another.
pub open spec fn forest_ids(pls: Seq<ParsedLayer>) -> Seq<usize>
    decreases pls, 0int,
{
    if pls.len() == 0 {
        Seq::empty()
    } else {
        tree_ids(pls[0]) + forest_ids(pls.subrange(1, pls.len() as int))
    }
}

/// The ids are distinct, each at least `lo` and below `hi`.
pub open spec fn numbered(ids: Seq<usize>, lo: int, hi: int) -> bool {
    &&& forall|i: int| 0 <= i < ids.len() ==> lo <= #[trigger] ids[i] < hi
    &&& forall|i: int, j: int| 0 <= i < j < ids.len() ==> ids[i] != ids[j]
}

proof fn lemma_numbered_concat(a: Seq<usize>, b: Seq<usize>, lo: int, mid: int, hi: int)
    requires
        numbered(a, lo, mid),
        numbered(b, mid, hi),
        lo <= mid <= hi,
    ensures
        numbered(a + b, lo, hi),
{
    let c = a + b;
    assert forall|i: int| 0 <= i < c.len() implies lo <= #[trigger] c[i] < hi by {
        if i < a.len() {
            assert(c[i] == a[i]);
        } else {
            assert(c[i] == b[i - a.len()]);
        }
    }
    assert forall|i: int, j: int| 0 <= i < j < c.len() implies c[i] != c[j] by {
        if j < a.len() {
            assert(c[i] == a[i] && c[j] == a[j]);
        } else if i >= a.len() {
            assert(c[i] == b[i - a.len()] && c[j] == b[j - a.len()]);
        } else {
            assert(c[i] == a[i] && c[j] == b[j - a.len()]);
        }
    }
}

proof fn lemma_numbered_push(a: Seq<usize>, lo: int, mid: usize)
    requires
        numbered(a, lo, mid as int),
        lo <= mid,
    ensures
        numbered(a.push(mid), lo, mid + 1),
{
    let c = a.push(mid);
    assert forall|i: int| 0 <= i < c.len() implies lo <= #[trigger] c[i] < mid + 1 by {
        if i < a.len() {
            assert(c[i] == a[i]);
        }
    }
    assert forall|i: int, j: int| 0 <= i < j < c.len() implies c[i] != c[j] by {
        assert(c[i] == a[i]);
        if j < a.len() {
            assert(c[j] == a[j]);
        }
    }
}

/// The ids of one tree followed by more trees.
proof fn lemma_forest_front(l: ParsedLayer, ls: Seq<ParsedLayer>)
    ensures
        forest_ids(seq![l] + ls) == tree_ids(l) + forest_ids(ls),
{
    let s = seq![l] + ls;
    assert(s[0] == l);
    assert(s.subrange(1, s.len() as int) =~= ls);
}

/// A layer with children read from `lo` to `mid` and the id `mid`.
proof fn lemma_tree_numbered(id: usize, k: ParsedKind, cs: Seq<ParsedLayer>, lo: int)
    requires
        numbered(forest_ids(cs), lo, id as int),
        lo <= id,
    ensures
        numbered(tree_ids(ParsedLayer { Id: id, Kind: k, Children: cs }), lo, id + 1),
{
    lemma_numbered_push(forest_ids(cs), lo, id);
}

/// A childless layer.
proof fn lemma_leaf_numbered(st: ReadState, k: ParsedKind)
    ensures
        numbered(tree_ids(leaf(st, k)), st.NextId as int, st.NextId + 1),
{
    assert(forest_ids(Seq::<ParsedLayer>::empty()) =~= Seq::<usize>::empty());
    lemma_tree_numbered(st.NextId, k, Seq::empty(), st.NextId as int);
}

/// What every successful statement reading gives: it moves on, numbers its
/// layers apart from `st`'s next id on, and takes at most one id per token.
pub open spec fn numbers_apart(rd: Reading<ParsedLayer>, st: ReadState, pos: int, len: int) -> bool {
    match rd {
        Ok((pl, p, st2)) => pos < p <= len && st.NextId < st2.NextId <= st.NextId + (p - pos) && numbered(
            tree_ids(pl),
            st.NextId as int,
            st2.NextId as int,
        ),
        Err(_) => true,
    }
}

/// What every successful reading of several statements gives.
pub open spec fn all_numbered_apart(
    rd: Reading<Seq<ParsedLayer>>,
    st: ReadState,
    pos: int,
    len: int,
) -> bool {
    match rd {
        Ok((pls, p, st2)) => pos <= p <= len && st.NextId <= st2.NextId <= st.NextId + (p - pos) && numbered(
            forest_ids(pls),
            st.NextId as int,
            st2.NextId as int,
        ),
        Err(_) => true,
    }
}

/// Room for one id per token from `pos` on, and `extra` more.
pub open spec fn room(st: ReadState, pos: int, len: int, extra: int) -> bool {
    0 <= pos <= len && st.NextId + (len - pos) + extra <= usize::MAX
}

proof fn lemma_expr_stmt_numbered(ts: Seq<Token>, st: ReadState, pos: int)
    requires
        room(st, pos, ts.len() as int, 0),
    ensures
        numbers_apart(read_expr_stmt(ts, st, pos), st, pos, ts.len() as int),
{
    lemma_expr_moves_on(ts, pos);
    match read_expr(ts, pos) {
        Ok((t, p)) => {
            lemma_leaf_numbered(st, ParsedKind::Expression(t));
            if kind_is(ts, p, TokenKind::Equal) {
                lemma_expr_moves_on(ts, p + 1);
                match read_expr(ts, p + 1) {
                    Ok((v, q)) => lemma_leaf_numbered(st, ParsedKind::Assignment { Target: t, Value: v }),
                    Err(_) => {},
                }
            }
        },
        Err(_) => {},
    }
}

proof fn lemma_return_numbered(ts: Seq<Token>, st: ReadState, pos: int)
    requires
        room(st, pos, ts.len() as int, 0),
        pos < ts.len(),
    ensures
        numbers_apart(read_return(ts, st, pos), st, pos, ts.len() as int),
{
    lemma_leaf_numbered(st, ParsedKind::Return(None));
    lemma_expr_moves_on(ts, pos + 1);
    match read_expr(ts, pos + 1) {
        Ok((v, q)) => lemma_leaf_numbered(st, ParsedKind::Return(Some(v))),
        Err(_) => {},
    }
}

proof fn lemma_stmt_numbered(ts: Seq<Token>, st: ReadState, pos: int)
    requires
        room(st, pos, ts.len() as int, 0),
    ensures
        numbers_apart(read_stmt(ts, st, pos), st, pos, ts.len() as int),
    decreases ts.len() - pos, 3int,
{
    if pos >= ts.len() {
        lemma_expr_stmt_numbered(ts, st, pos);
    } else {
        match ts[pos].Kind {
            TokenKind::Panic => lemma_leaf_numbered(st, ParsedKind::Panic),
            TokenKind::Unreachable => lemma_leaf_numbered(st, ParsedKind::Unreachable),
            TokenKind::Let(_) => lemma_binding_numbered(ts, st, pos),
            TokenKind::Return => lemma_return_numbered(ts, st, pos),
            TokenKind::Havoc => {
                lemma_expr_moves_on(ts, pos + 1);
                match read_expr(ts, pos + 1) {
                    Ok((e, p)) => lemma_leaf_numbered(st, ParsedKind::Havoc(e)),
                    Err(_) => {},
                }
            },
            TokenKind::Interrupt => lemma_interrupt_numbered(ts, st, pos),
            TokenKind::If => lemma_if_numbered(ts, st, pos),
            TokenKind::While => lemma_while_numbered(ts, st, pos),
            TokenKind::OpenBrace => {
                lemma_block_numbered(ts, st, pos + 1);
                match read_block(ts, st, pos + 1) {
                    Ok((cs, p, st2)) => {
                        if kind_is(ts, p, TokenKind::CloseBrace) {
                            lemma_tree_numbered(st2.NextId, ParsedKind::Block, cs, st.NextId as int);
                        }
                    },
                    Err(_) => {},
                }
            },
            _ => lemma_expr_stmt_numbered(ts, st, pos),
        }
    }
}

proof fn lemma_block_numbered(ts: Seq<Token>, st: ReadState, pos: int)
    requires
        room(st, pos, ts.len() as int, 0),
    ensures
        all_numbered_apart(read_block(ts, st, pos), st, pos, ts.len() as int),
    decreases ts.len() - pos, 4int,
{
    if pos >= ts.len() || kind_is(ts, pos, TokenKind::CloseBrace) {
        assert(forest_ids(Seq::<ParsedLayer>::empty()) =~= Seq::<usize>::empty());
    } else {
        lemma_stmt_numbered(ts, st, pos);
        match read_stmt(ts, st, pos) {
            Ok((l, p, st2)) => {
                lemma_block_numbered(ts, st2, p);
                match read_block(ts, st2, p) {
                    Ok((ls, p2, st3)) => {
                        lemma_forest_front(l, ls);
                        lemma_numbered_concat(tree_ids(l), forest_ids(ls), st.NextId as int, st2.NextId as int, st3.NextId as int);
                    },
                    Err(_) => {},
                }
            },
            Err(_) => {},
        }
    }
}

proof fn lemma_if_numbered(ts: Seq<Token>, st: ReadState, pos: int)
    requires
        room(st, pos, ts.len() as int, 0),
        pos < ts.len(),
    ensures
        numbers_apart(read_if(ts, st, pos), st, pos, ts.len() as int),
    decreases ts.len() - pos, 2int,
{
    match expect(ts, step(ts, pos), TokenKind::OpenParen, "Expected '('"@) {
        Ok(p1) => {
            lemma_expr_moves_on(ts, p1);
            match read_expr(ts, p1) {
                Ok((c, p2)) => match expect(ts, p2, TokenKind::CloseParen, "Expected ')'"@) {
                    Ok(p3) => {
                        lemma_stmt_numbered(ts, st, p3);
                        match read_stmt(ts, st, p3) {
                            Ok((a, p4, st2)) => {
                                lemma_forest_front(a, Seq::empty());
                                assert(seq![a] + Seq::<ParsedLayer>::empty() =~= seq![a]);
                                assert(forest_ids(Seq::<ParsedLayer>::empty()) =~= Seq::<usize>::empty());
                                assert(tree_ids(a) + Seq::<usize>::empty() =~= tree_ids(a));
                                lemma_tree_numbered(
                                    st2.NextId,
                                    ParsedKind::Conditional { Condition: c, HasElse: false },
                                    seq![a],
                                    st.NextId as int,
                                );
                                if kind_is(ts, p4, TokenKind::Else) && pos < p4 {
                                    lemma_stmt_numbered(ts, st2, p4 + 1);
                                    match read_stmt(ts, st2, p4 + 1) {
                                        Ok((b, p5, st3)) => {
                                            lemma_forest_front(b, Seq::empty());
                                            assert(seq![b] + Seq::<ParsedLayer>::empty() =~= seq![b]);
                                            assert(tree_ids(b) + Seq::<usize>::empty() =~= tree_ids(b));
                                            lemma_forest_front(a, seq![b]);
                                            assert(seq![a] + seq![b] =~= seq![a, b]);
                                            lemma_numbered_concat(
                                                tree_ids(a),
                                                tree_ids(b),
                                                st.NextId as int,
                                                st2.NextId as int,
                                                st3.NextId as int,
                                            );
                                            lemma_tree_numbered(
                                                st3.NextId,
                                                ParsedKind::Conditional { Condition: c, HasElse: true },
                                                seq![a, b],
                                                st.NextId as int,
                                            );
                                        },
                                        Err(_) => {},
                                    }
                                }
                            },
                            Err(_) => {},
                        }
                    },
                    Err(_) => {},
                },
                Err(_) => {},
            }
        },
        Err(_) => {},
    }
}

proof fn lemma_while_numbered(ts: Seq<Token>, st: ReadState, pos: int)
    requires
        room(st, pos, ts.len() as int, 0),
        pos < ts.len(),
    ensures
        numbers_apart(read_while(ts, st, pos), st, pos, ts.len() as int),
    decreases ts.len() - pos, 2int,
{
    match expect(ts, step(ts, pos), TokenKind::OpenParen, "Expected '('"@) {
        Ok(p1) => {
            lemma_expr_moves_on(ts, p1);
            match read_expr(ts, p1) {
                Ok((c, p2)) => match expect(ts, p2, TokenKind::CloseParen, "Expected ')'"@) {
                    Ok(p3) => {
                        lemma_stmt_numbered(ts, st, p3);
                        match read_stmt(ts, st, p3) {
                            Ok((b, p4, st2)) => {
                                lemma_forest_front(b, Seq::empty());
                                assert(seq![b] + Seq::<ParsedLayer>::empty() =~= seq![b]);
                                assert(forest_ids(Seq::<ParsedLayer>::empty()) =~= Seq::<usize>::empty());
                                assert(tree_ids(b) + Seq::<usize>::empty() =~= tree_ids(b));
                                lemma_tree_numbered(st2.NextId, ParsedKind::While(c), seq![b], st.NextId as int);
                            },
                            Err(_) => {},
                        }
                    },
                    Err(_) => {},
                },
                Err(_) => {},
            }
        },
        Err(_) => {},
    }
}

proof fn lemma_interrupt_numbered(ts: Seq<Token>, st: ReadState, pos: int)
    requires
        room(st, pos, ts.len() as int, 0),
        pos < ts.len(),
    ensures
        numbers_apart(read_interrupt(ts, st, pos), st, pos, ts.len() as int),
    decreases ts.len() - pos, 2int,
{
    let q = step(ts, step(ts, pos));
    let r = skip(ts, q, TokenKind::Comma);
    lemma_expr_moves_on(ts, r);
    let r2 = if kind_is(ts, r, TokenKind::OpenBrace) {
        r
    } else {
        match read_expr(ts, r) {
            Ok((_, x)) => x,
            Err((_, x)) => x,
        }
    };
    match expect(ts, r2, TokenKind::OpenBrace, "Expected '{' for interrupt body"@) {
        Ok(p3) => {
            if pos < p3 <= ts.len() {
                lemma_block_numbered(ts, st, p3);
                match read_block(ts, st, p3) {
                    Ok((cs, p4, st2)) => {
                        match ts[q - 1].Kind {
                            TokenKind::StringLiteral(s) => lemma_tree_numbered(
                                st2.NextId,
                                ParsedKind::Interrupt(s@),
                                cs,
                                st.NextId as int,
                            ),
                            TokenKind::Ident(s) => lemma_tree_numbered(
                                st2.NextId,
                                ParsedKind::Interrupt(s@),
                                cs,
                                st.NextId as int,
                            ),
                            _ => {},
                        }
                    },
                    Err(_) => {},
                }
            }
        },
        Err(_) => {},
    }
}

proof fn lemma_binding_numbered(ts: Seq<Token>, st: ReadState, pos: int)
    requires
        room(st, pos, ts.len() as int, 0),
        pos < ts.len(),
    ensures
        numbers_apart(read_binding(ts, st, pos), st, pos, ts.len() as int),
    decreases ts.len() - pos, 2int,
{
    let p0 = step(ts, pos);
    let mutable = ts[p0 - 1].Kind == TokenKind::Let(true);
    lemma_decl_moves_on(ts, st.Vars, p0, true);
    match read_name_and_type(ts, st.Vars, p0, true) {
        Ok(((n, t), p)) => {
            if pos < p <= ts.len() {
                lemma_binding_value_numbered(ts, st, n, t, mutable, p);
            }
        },
        Err(_) => {},
    }
}

/// What the rest of a binding gives, read from `p`: one more id than
/// tokens, for the binding's keyword read before `p`.
pub open spec fn binding_rest_numbered(rd: Reading<ParsedLayer>, st: ReadState, p: int, len: int) -> bool {
    match rd {
        Ok((pl, q, st2)) => p <= q <= len && st.NextId < st2.NextId <= st.NextId + (q - p) + 1 && numbered(
            tree_ids(pl),
            st.NextId as int,
            st2.NextId as int,
        ),
        Err(_) => true,
    }
}

proof fn lemma_binding_value_numbered(
    ts: Seq<Token>,
    st: ReadState,
    name: Seq<char>,
    ty: SpecType,
    mutable: bool,
    p: int,
)
    requires
        room(st, p, ts.len() as int, 1),
    ensures
        binding_rest_numbered(read_binding_value(ts, st, name, ty, mutable, p), st, p, ts.len() as int),
    decreases ts.len() - p, 1int,
{
    if kind_is(ts, p, TokenKind::Equal) {
        lemma_expr_moves_on(ts, p + 1);
        match read_expr(ts, p + 1) {
            Ok((v, q)) => {
                if p <= q <= ts.len() {
                    lemma_binding_hooks_numbered(ts, st, name, ty, mutable, Some(v), q);
                }
            },
            Err(_) => {},
        }
    } else {
        lemma_binding_hooks_numbered(ts, st, name, ty, mutable, None, p);
    }
}

proof fn lemma_binding_hooks_numbered(
    ts: Seq<Token>,
    st: ReadState,
    name: Seq<char>,
    ty: SpecType,
    mutable: bool,
    init: Option<SpecExpression>,
    p: int,
)
    requires
        room(st, p, ts.len() as int, 1),
    ensures
        binding_rest_numbered(read_binding_hooks(ts, st, name, ty, mutable, init, p), st, p, ts.len() as int),
    decreases ts.len() - p, 0int,
{
    if kind_is(ts, p, TokenKind::OpenBrace) {
        lemma_hooks_numbered(ts, st, p + 1);
        match read_hooks(ts, st, p + 1) {
            Ok((hs, q, st2)) => {
                let k = ParsedKind::VariableBinding {
                    Name: name,
                    TypeAnnotation: ty,
                    IsMutable: mutable,
                    Hooks: hs,
                    InitialValue: init,
                };
                lemma_leaf_numbered(st2, k);
            },
            Err(_) => {},
        }
    } else {
        let k = ParsedKind::VariableBinding {
            Name: name,
            TypeAnnotation: ty,
            IsMutable: mutable,
            Hooks: Seq::empty(),
            InitialValue: init,
        };
        lemma_leaf_numbered(st, k);
    }
}

/// What a successful reading of hooks gives: ids are taken, one per token
/// at most, and none is kept.
pub open spec fn hooks_take_ids<T>(rd: Reading<T>, st: ReadState, pos: int, len: int, strict: bool) -> bool {
    match rd {
        Ok((_, p, st2)) => pos <= p <= len && (strict ==> pos < p) && st.NextId <= st2.NextId <= st.NextId + (p - pos),
        Err(_) => true,
    }
}

proof fn lemma_hooks_numbered(ts: Seq<Token>, st: ReadState, pos: int)
    requires
        room(st, pos, ts.len() as int, 0),
    ensures
        hooks_take_ids(read_hooks(ts, st, pos), st, pos, ts.len() as int, false),
    decreases ts.len() - pos, 2int,
{
    if !(pos >= ts.len() || kind_is(ts, pos, TokenKind::CloseBrace)) {
        lemma_hook_numbered(ts, st, pos);
        match read_hook(ts, st, pos) {
            Ok((x, p, st2)) => {
                if pos < p <= ts.len() {
                    lemma_hooks_numbered(ts, st2, p);
                }
            },
            Err(_) => {},
        }
    }
}

proof fn lemma_hook_numbered(ts: Seq<Token>, st: ReadState, pos: int)
    requires
        room(st, pos, ts.len() as int, 0),
    ensures
        hooks_take_ids(read_hook(ts, st, pos), st, pos, ts.len() as int, true),
    decreases ts.len() - pos, 1int,
{
    if 0 <= pos < ts.len() {
        match hook_kind(ts[pos].Kind) {
            Some(k) => match expect(ts, pos + 1, TokenKind::Colon, "Expected ':' after hook type"@) {
                Ok(p2) => lemma_function_numbered(ts, st, p2),
                Err(_) => {},
            },
            None => {},
        }
    }
}

proof fn lemma_params_move_on(ts: Seq<Token>, vars: Map<Seq<char>, crate::ast::SpecVariable>, pos: int)
    requires
        0 <= pos <= ts.len(),
    ensures
        match read_params(ts, vars, pos) {
            Ok((_, p)) => pos < p <= ts.len(),
            Err(_) => true,
        },
    decreases ts.len() - pos,
{
    if kind_is(ts, pos, TokenKind::Comma) {
        lemma_params_move_on(ts, vars, pos + 1);
    } else {
        lemma_decl_moves_on(ts, vars, pos, false);
        match read_name_and_type(ts, vars, pos, false) {
            Ok(((n, t), p)) => {
                if pos < p <= ts.len() {
                    if t == SpecType::Null {
                        lemma_params_move_on(ts, vars, p);
                    } else if kind_is(ts, p, TokenKind::Invalid) {
                        lemma_params_move_on(ts, vars, step(ts, p + 1));
                    } else if kind_is(ts, p, TokenKind::And) {
                        lemma_params_move_on(ts, vars, p + 1);
                    } else if !kind_is(ts, p, TokenKind::CloseParen) {
                        lemma_params_move_on(ts, vars, p);
                    }
                }
            },
            Err(_) => {},
        }
    }
}

proof fn lemma_signature_moves_on(ts: Seq<Token>, vars: Map<Seq<char>, crate::ast::SpecVariable>, pos: int)
    requires
        0 <= pos <= ts.len(),
    ensures
        match read_signature(ts, vars, pos) {
            Ok((_, p)) => pos < p <= ts.len(),
            Err(_) => true,
        },
{
    reveal(read_signature);
    let p1 = step(ts, pos);
    let p2 = if 0 <= p1 < ts.len() && ts[p1].Kind is Ident {
        p1 + 1
    } else {
        p1
    };
    match expect(ts, p2, TokenKind::OpenParen, "Expected '(' after function name"@) {
        Ok(p3) => {
            lemma_params_move_on(ts, vars, p3);
            let ps = if kind_is(ts, p3, TokenKind::CloseParen) {
                Ok((Seq::<(Seq<char>, SpecType)>::empty(), p3 + 1))
            } else {
                read_params(ts, vars, p3)
            };
            match ps {
                Ok((params, p4)) => {
                    if kind_is(ts, p4, TokenKind::Arrow) {
                        lemma_type_moves_on(ts, vars, p4 + 1);
                    }
                },
                Err(_) => {},
            }
        },
        Err(_) => {},
    }
}

proof fn lemma_function_numbered(ts: Seq<Token>, st: ReadState, pos: int)
    requires
        room(st, pos, ts.len() as int, 0),
    ensures
        numbers_apart(read_function(ts, st, pos), st, pos, ts.len() as int),
    decreases ts.len() - pos, 2int,
{
    lemma_signature_moves_on(ts, st.Vars, pos);
    match read_signature(ts, st.Vars, pos) {
        Ok(((name, params, ret), p5)) => match expect(ts, p5, TokenKind::OpenBrace, "Expected '{' before function body"@) {
            Ok(p6) => {
                if pos < p6 <= ts.len() {
                    lemma_block_numbered(ts, st, p6);
                    match read_block(ts, st, p6) {
                        Ok((cs, p7, st2)) => {
                            lemma_tree_numbered(
                                st2.NextId,
                                ParsedKind::Function { Name: name, Params: params, ReturnType: ret },
                                cs,
                                st.NextId as int,
                            );
                        },
                        Err(_) => {},
                    }
                }
            },
            Err(_) => {},
        },
        Err(_) => {},
    }
}

proof fn lemma_fields_move_on(ts: Seq<Token>, vars: Map<Seq<char>, crate::ast::SpecVariable>, pos: int)
    requires
        0 <= pos <= ts.len(),
    ensures
        match read_fields(ts, vars, pos) {
            Ok((_, p)) => pos <= p <= ts.len(),
            Err(_) => true,
        },
    decreases ts.len() - pos,
{
    if !(pos >= ts.len() || kind_is(ts, pos, TokenKind::CloseBrace)) {
        lemma_decl_moves_on(ts, vars, pos, false);
        match read_name_and_type(ts, vars, pos, false) {
            Ok(((n, t), p)) => {
                let p2 = skip(ts, skip(ts, p, TokenKind::Comma), TokenKind::Semicolon);
                if pos < p2 <= ts.len() {
                    lemma_fields_move_on(ts, vars, p2);
                }
            },
            Err(_) => {},
        }
    }
}

proof fn lemma_struct_numbered(ts: Seq<Token>, st: ReadState, pos: int)
    requires
        room(st, pos, ts.len() as int, 0),
        pos < ts.len(),
    ensures
        numbers_apart(read_struct(ts, st, pos), st, pos, ts.len() as int),
{
    let q = step(ts, step(ts, pos));
    match ts[q - 1].Kind {
        TokenKind::Ident(n) => match expect(ts, q, TokenKind::OpenBrace, "Expected '{' before struct fields"@) {
            Ok(p) => {
                lemma_fields_move_on(ts, st.Vars, p);
                match read_fields(ts, st.Vars, p) {
                    Ok((fs, p2)) => lemma_leaf_numbered(st, ParsedKind::Struct { Name: n@, Fields: fs }),
                    Err(_) => {},
                }
            },
            Err(_) => {},
        },
        _ => {},
    }
}

proof fn lemma_items_numbered(ts: Seq<Token>, st: ReadState, pos: int)
    requires
        room(st, pos, ts.len() as int, 0),
    ensures
        all_numbered_apart(read_items(ts, st, pos), st, pos, ts.len() as int),
    decreases ts.len() - pos,
{
    if pos >= ts.len() {
        assert(forest_ids(Seq::<ParsedLayer>::empty()) =~= Seq::<usize>::empty());
    } else {
        match ts[pos].Kind {
            TokenKind::Function => lemma_function_numbered(ts, st, pos),
            TokenKind::Struct => lemma_struct_numbered(ts, st, pos),
            _ => lemma_stmt_numbered(ts, st, pos),
        }
        match read_item(ts, st, pos) {
            Ok((l, p, st2)) => {
                lemma_items_numbered(ts, st2, p);
                match read_items(ts, st2, p) {
                    Ok((ls, p2, st3)) => {
                        lemma_forest_front(l, ls);
                        lemma_numbered_concat(tree_ids(l), forest_ids(ls), st.NextId as int, st2.NextId as int, st3.NextId as int);
                    },
                    Err(_) => {},
                }
            },
            Err(_) => {},
        }
    }
}

/// Parsing gives every layer of a program its own id: the ids of the
/// program's layer tree are distinct, each at least the parser's next id
/// before the parse and below its next id after, as long as there is room
/// below `usize::MAX` for one id per token and one for the program.
pub proof fn lemma_parse_numbers_layers_apart(ts: Seq<Token>, st: ReadState, pos: int)
    requires
        0 <= pos <= ts.len(),
        st.NextId + (ts.len() - pos) + 1 <= usize::MAX,
    ensures
        match read_program(ts, st, pos) {
            Ok((pl, _, st2)) => numbered(tree_ids(pl), st.NextId as int, st2.NextId as int),
            Err(_) => true,
        },
{
    let st1 = next_state(st);
    lemma_items_numbered(ts, st1, pos);
    match read_items(ts, st1, pos) {
        Ok((ls, p, st2)) => {
            let pl = ParsedLayer { Id: st.NextId, Kind: ParsedKind::Program, Children: ls };
            assert(tree_ids(pl) == forest_ids(ls).push(st.NextId));
            let a = forest_ids(ls);
            let c = a.push(st.NextId);
            assert forall|i: int| 0 <= i < c.len() implies st.NextId <= #[trigger] c[i] < st2.NextId by {
                if i < a.len() {
                    assert(c[i] == a[i]);
                }
            }
            assert forall|i: int, j: int| 0 <= i < j < c.len() implies c[i] != c[j] by {
                assert(c[i] == a[i]);
                if j < a.len() {
                    assert(c[j] == a[j]);
                }
            }
        },
        Err(_) => {},
    }
}

} // verus!
