//! What it means for the parser to read on: the cursor only moves forward
//! and every token passed over is recorded.

use vstd::prelude::*;
use crate::lexer::TokenKind;
use crate::parser::Parser;

verus! {

/// The cursor is within the tokens.
pub open spec fn parser_wf(p: Parser) -> bool {
    p.Position <= p.Tokens@.len()
}

/// `b` is `a` after reading on: the tokens are unchanged, the cursor only
/// moved forward, and every token passed over was recorded, in order, in the
/// history.
pub open spec fn advanced(a: Parser, b: Parser) -> bool {
    &&& b.Tokens == a.Tokens
    &&& a.Position <= b.Position <= b.Tokens@.len()
    &&& b.History@ == a.History@ + a.Tokens@.subrange(a.Position as int, b.Position as int)
}

/// The kind of the token under the cursor.
pub open spec fn peek_kind(p: Parser) -> Option<TokenKind> {
    if p.Position < p.Tokens@.len() {
        Some(p.Tokens@[p.Position as int].Kind)
    } else {
        None
    }
}

/// Reading on twice is reading on.
pub broadcast proof fn lemma_advanced_trans(a: Parser, b: Parser, c: Parser)
    requires
        #[trigger] advanced(a, b),
        #[trigger] advanced(b, c),
    ensures
        advanced(a, c),
{
    assert(a.Tokens@.subrange(a.Position as int, b.Position as int) + a.Tokens@.subrange(
        b.Position as int,
        c.Position as int,
    ) =~= a.Tokens@.subrange(a.Position as int, c.Position as int));
    assert(c.History@ =~= a.History@ + a.Tokens@.subrange(a.Position as int, c.Position as int));
}

/// Reading on keeps the history equal to the tokens read so far, when it
/// was so at the start: what `New` sets up, every parse step keeps.
pub proof fn lemma_history_is_consumed_prefix(a: Parser, b: Parser)
    requires
        a.History@ == a.Tokens@.subrange(0, a.Position as int),
        advanced(a, b),
    ensures
        b.History@ == b.Tokens@.subrange(0, b.Position as int),
{
    assert(a.Tokens@.subrange(0, a.Position as int) + a.Tokens@.subrange(
        a.Position as int,
        b.Position as int,
    ) =~= a.Tokens@.subrange(0, b.Position as int));
}


} // verus!
