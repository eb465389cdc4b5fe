//! Low-level token cursor: peeking, advancing, and matching.

use vstd::prelude::*;
use crate::lexer::token::{Token, TokenKind, kind_same};
use crate::parser::{Parser, advanced, parser_wf};
use crate::render::{opt_token_debug, opt_token_text};

verus! {

broadcast use crate::parser::reading::lemma_advanced_trans;

/// The token `offset` places from the cursor: ahead for positive offsets,
/// the current one for 0, and for negative offsets the tokens already read
/// (-1 is the most recent).
pub open spec fn peek_at_spec(p: Parser, offset: int) -> Option<Token> {
    if offset >= 0 {
        if p.Position + offset < p.Tokens@.len() {
            Some(p.Tokens@[p.Position + offset])
        } else {
            None
        }
    } else {
        if -offset > p.History@.len() {
            None
        } else {
            Some(p.History@[p.History@.len() + offset])
        }
    }
}

impl Parser {
    /// Look at the current token.
    pub fn Peek(&self) -> (r: Option<&Token>)
        ensures
            r == if self.Position < self.Tokens@.len() {
                Some(&self.Tokens@[self.Position as int])
            } else {
                None::<&Token>
            },
    {
        if self.Position < self.Tokens.len() {
            Some(&self.Tokens[self.Position])
        } else {
            None
        }
    }

    /// Look ahead or behind by a specific amount. Positive = ahead, 0 = current,
    /// negative = into History (-1 = most recently consumed).
    pub fn PeekAt(&self, Offset: isize) -> (r: Option<&Token>)
        requires
            Offset > isize::MIN,
            Offset >= 0 ==> self.Position + Offset <= usize::MAX,
        ensures
            r == match peek_at_spec(*self, Offset as int) {
                Some(t) => Some(&t),
                None => None::<&Token>,
            },
    {
        if Offset >= 0 {
            let off = Offset as usize;
            let at = self.Position + off;
            if at < self.Tokens.len() {
                Some(&self.Tokens[at])
            } else {
                None
            }
        } else {
            let back = (-Offset) as usize;
            if back > self.History.len() {
                return None;
            }
            Some(&self.History[self.History.len() - back])
        }
    }

    /// Pull the next token from the list, recording it in History.
    pub fn Advance(&mut self) -> (r: Option<&Token>)
        requires
            parser_wf(*old(self)),
            old(self).Tokens@.len() > 0,
        ensures
            parser_wf(*final(self)),
            advanced(*old(self), *final(self)),
            final(self).CurrentLayer == old(self).CurrentLayer,
            final(self).NextLayerId == old(self).NextLayerId,
            old(self).Position < old(self).Tokens@.len() ==> final(self).Position == old(self).Position + 1,
            old(self).Position >= old(self).Tokens@.len() ==> final(self).Position == old(self).Position,
            r == Some(&final(self).Tokens@[final(self).Position - 1]),
    {
        let pos = self.Position;
        if pos < self.Tokens.len() {
            let tok = self.Tokens[pos].clone();
            self.History.push(tok);
            self.Position = pos + 1;
            assert(old(self).Tokens@.subrange(old(self).Position as int, self.Position as int) =~= seq![tok]);
            assert(self.History@ =~= old(self).History@ + old(self).Tokens@.subrange(old(self).Position as int, self.Position as int));
        } else {
            assert(old(self).Tokens@.subrange(old(self).Position as int, self.Position as int) =~= Seq::<Token>::empty());
            assert(self.History@ =~= old(self).History@ + old(self).Tokens@.subrange(old(self).Position as int, self.Position as int));
        }
        Some(&self.Tokens[self.Position - 1])
    }

    /// Check the current token's kind without consuming.
    pub fn Check(&self, Target: TokenKind) -> (b: bool)
        ensures
            b == (self.Position < self.Tokens@.len() && kind_same(self.Tokens@[self.Position as int].Kind, Target)),
    {
        match self.Peek() {
            Some(t) => t.Kind.Same(&Target),
            None => false,
        }
    }

    /// Consume the current token if it matches `Target`.
    pub fn Match(&mut self, Target: TokenKind) -> (b: bool)
        requires
            parser_wf(*old(self)),
        ensures
            parser_wf(*final(self)),
            advanced(*old(self), *final(self)),
            final(self).CurrentLayer == old(self).CurrentLayer,
            final(self).NextLayerId == old(self).NextLayerId,
            b == (old(self).Position < old(self).Tokens@.len() && kind_same(
                old(self).Tokens@[old(self).Position as int].Kind,
                Target,
            )),
            b ==> final(self).Position == old(self).Position + 1,
            !b ==> *final(self) == *old(self),
    {
        if self.Check(Target) {
            self.Advance();
            true
        } else {
            false
        }
    }

    /// True once the cursor has run past the last token.
    pub fn IsAtEnd(&self) -> (b: bool)
        ensures
            b == (self.Position >= self.Tokens@.len()),
    {
        self.Position >= self.Tokens.len()
    }

    /// Enforce a specific token or error out with `Message`, followed by
    /// ". Found " and the token that was there instead.
    pub fn Consume(&mut self, Target: TokenKind, Message: &str) -> (r: Result<(), String>)
        requires
            parser_wf(*old(self)),
        ensures
            parser_wf(*final(self)),
            advanced(*old(self), *final(self)),
            final(self).CurrentLayer == old(self).CurrentLayer,
            final(self).NextLayerId == old(self).NextLayerId,
            r is Ok == (old(self).Position < old(self).Tokens@.len() && kind_same(
                old(self).Tokens@[old(self).Position as int].Kind,
                Target,
            )),
            r is Ok ==> final(self).Position == old(self).Position + 1,
            r is Err ==> *final(self) == *old(self) && r->Err_0@ == Message@ + ". Found "@
                + opt_token_text(
                if old(self).Position < old(self).Tokens@.len() {
                    Some(old(self).Tokens@[old(self).Position as int])
                } else {
                    None
                },
            ),
    {
        if self.Check(Target) {
            self.Advance();
            Ok(())
        } else {
            let mut m = String::from_str(Message);
            m.append(". Found ");
            let found = opt_token_debug(self.Peek());
            m.append(found.as_str());
            Err(m)
        }
    }
}

} // verus!
