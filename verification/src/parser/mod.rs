//! The parser: turns a token stream into a layer tree.

use vstd::prelude::*;
use crate::ast::{Layer, LayerIds, LayerKind, same_but_children};
use crate::parser::grammar::{
    ParsedKind, ParsedLayer, ReadState, layer_of, layers_prefixed, matches_layer_read, next_state, read_item,
    read_items, read_program, same_scope, state_of,
};
use crate::lexer::{Token, TokenKind};
pub use crate::parser::reading::{parser_wf, advanced, peek_kind, lemma_advanced_trans, lemma_history_is_consumed_prefix};

pub mod cursor;
pub mod reading;
pub mod error;
pub mod expressions;
pub mod grammar;
pub mod numbering;
pub mod items;
pub mod statements;
pub mod types;

verus! {

broadcast use crate::parser::reading::lemma_advanced_trans;

/// The thing that builds our layer tree.
#[derive(Debug, PartialEq)]
pub struct Parser {
    /// The list of tokens from the lexer.
    pub Tokens: Vec<Token>,
    /// Where we are in the list.
    pub Position: usize,
    /// Every token consumed by Advance, in the order it happened.
    pub History: Vec<Token>,
    /// The current layer being built.
    pub CurrentLayer: Layer,
    /// The id the next layer built by this parser gets.
    pub NextLayerId: usize,
}

impl Parser {
    /// Starts a new parser; the layers it builds take their ids from `Ids`
    /// on.
    pub fn New(Tokens: Vec<Token>, CurrentLayer: Layer, Ids: LayerIds) -> (p: Self)
        ensures
            parser_wf(p),
            p.Tokens == Tokens,
            p.Position == 0,
            p.History@.len() == 0,
            p.CurrentLayer == CurrentLayer,
            p.NextLayerId == Ids.Next,
    {
        Self { Tokens, Position: 0, History: Vec::new(), CurrentLayer, NextLayerId: Ids.Next }
    }

    /// The counter the parser's next layer takes its id from.
    pub fn Ids(&self) -> (c: LayerIds)
        ensures
            c.Next == self.NextLayerId,
    {
        LayerIds { Next: self.NextLayerId }
    }

    /// Main entry point: produces the root `Program` layer, whose children
    /// are the items read, in order, until the tokens run out.
    pub fn Parse(&mut self) -> (r: Result<Layer, String>)
        requires
            parser_wf(*old(self)),
        ensures
            parser_wf(*final(self)),
            advanced(*old(self), *final(self)),
            same_scope(*old(self), *final(self)),
            r is Ok ==> final(self).Position == final(self).Tokens@.len(),
            matches_layer_read(r, *final(self), read_program(old(self).Tokens@, state_of(*old(self)), old(self).Position as int)),
    {
        let ghost ts = self.Tokens@;
        let ghost st0 = state_of(*self);
        let ghost pos0 = self.Position as int;
        let ghost id0 = self.NextLayerId;
        let mut Program = self.Emit(LayerKind::Program, Vec::new(), Ghost(ParsedKind::Program), Ghost(Seq::empty()));
        let ghost st1 = state_of(*self);
        let ghost mut acc: Seq<ParsedLayer> = Seq::empty();
        proof {
            assert(acc + Seq::<ParsedLayer>::empty() =~= acc);
            match read_items(ts, st1, pos0) {
                Ok((ls, p, s)) => {
                    assert(acc + ls =~= ls);
                },
                Err(_) => {},
            }
        }
        while !self.IsAtEnd()
            invariant
                parser_wf(*self),
                advanced(*old(self), *self),
                same_scope(*old(self), *self),
                ts == self.Tokens@,
                st0 == state_of(*old(self)),
                pos0 == old(self).Position,
                id0 == old(self).NextLayerId,
                st1 == next_state(st0),
                layer_of(Program, ParsedLayer { Id: id0, Kind: ParsedKind::Program, Children: acc }),
                read_items(ts, st1, pos0) == layers_prefixed(acc, read_items(ts, state_of(*self), self.Position as int)),
            decreases self.Tokens@.len() - self.Position,
        {
            let ghost st = state_of(*self);
            let ghost pos = self.Position as int;
            let item = match self.ParseItem() {
                Ok(item) => item,
                Err(e) => {
                    assert(read_items(ts, st, pos) == Err::<(Seq<ParsedLayer>, int, ReadState), (Seq<char>, int, ReadState)>(
                        (e@, self.Position as int, state_of(*self)),
                    ));
                    return Err(e);
                },
            };
            let ghost pl = match read_item(ts, st, pos) {
                Ok((l, _, _)) => l,
                Err(_) => arbitrary(),
            };
            let ghost before = Program;
            Program.Children.push(item);
            proof {
                lemma_layer_push_child(before, Program, ParsedLayer { Id: id0, Kind: ParsedKind::Program, Children: acc }, item, pl);
                match read_items(ts, state_of(*self), self.Position as int) {
                    Ok((ls, p, s)) => {
                        assert(acc.push(pl) + ls =~= acc + (seq![pl] + ls));
                    },
                    Err(_) => {},
                }
                acc = acc.push(pl);
            }
        }
        proof {
            assert(acc + Seq::<ParsedLayer>::empty() =~= acc);
        }
        Ok(Program)
    }

    /// Identifies what kind of top-level thing we have: a function, a
    /// struct, or a statement.
    pub fn ParseItem(&mut self) -> (r: Result<Layer, String>)
        requires
            parser_wf(*old(self)),
        ensures
            parser_wf(*final(self)),
            advanced(*old(self), *final(self)),
            same_scope(*old(self), *final(self)),
            r is Ok ==> final(self).Position > old(self).Position,
            matches_layer_read(r, *final(self), read_item(old(self).Tokens@, state_of(*old(self)), old(self).Position as int)),
    {
        if self.Position >= self.Tokens.len() {
            return self.ParseStatement();
        }
        match &self.Tokens[self.Position].Kind {
            TokenKind::Function => self.ParseFunction(),
            TokenKind::Struct => self.ParseStruct(),
            _ => self.ParseStatement(),
        }
    }
}

/// Adding a child to a layer that matches its description, as the child's
/// description is added.
proof fn lemma_layer_push_child(a: Layer, b: Layer, pl: ParsedLayer, c: Layer, pc: ParsedLayer)
    requires
        layer_of(a, pl),
        layer_of(c, pc),
        same_but_children(a, b),
        b.Children@ == a.Children@.push(c),
    ensures
        layer_of(b, ParsedLayer { Children: pl.Children.push(pc), ..pl }),
{
    let pl2 = ParsedLayer { Children: pl.Children.push(pc), ..pl };
    assert forall|i: int| 0 <= i < pl2.Children.len() implies layer_of(#[trigger] b.Children@[i], pl2.Children[i]) by {
        if i < pl.Children.len() {
            assert(b.Children@[i] == a.Children@[i]);
        }
    }
}

} // verus!
