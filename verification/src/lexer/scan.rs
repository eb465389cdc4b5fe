//! The per-character scanner behind `NextToken`, and the lexical grammar it
//! follows.

use vstd::prelude::*;
use crate::lexer::keywords::{LookupKeyword, lookup_keyword};
use crate::lexer::lexer::{Lexer, col_at, line_at, lemma_scan_while, lemma_scan_step, lemma_scan_stop, scan_while, white_space_pred};
use crate::lexer::token::{Token, TokenKind, kind_same};
use crate::text::{
    is_alphabetic, is_alphanumeric, is_numeric, parse_digits, parse_digits_or_zero,
    push_char, alphabetic, numeric,
};

verus! {

/// Skips white space, then any `//` comment up to and including its line
/// feed, repeatedly: the position where the next token starts.
pub open spec fn token_start(c: Seq<char>, i: int) -> int
    decreases c.len() - i, 1int,
{
    let j = scan_while(c, i, white_space_pred());
    if 0 <= i <= c.len() && j + 1 < c.len() && c[j] == '/' && c[j + 1] == '/' {
        proof {
            lemma_scan_while(c, i, white_space_pred());
            lemma_scan_while(c, j + 1, other_than('\n'));
        }
        token_start(c, comment_end(c, j + 1))
    } else {
        j
    }
}

/// The position just after the line feed that ends a comment whose text
/// starts at `i` (or the end of the text).
pub open spec fn comment_end(c: Seq<char>, i: int) -> int {
    let k = scan_while(c, i, other_than('\n'));
    if k < c.len() { k + 1 } else { c.len() as int }
}

/// Every character but `q`.
pub open spec fn other_than(q: char) -> spec_fn(char) -> bool {
    |x: char| x != q
}

pub open spec fn ident_pred() -> spec_fn(char) -> bool {
    |x: char| ident_char(x)
}

pub open spec fn number_pred() -> spec_fn(char) -> bool {
    |x: char| number_char(x)
}

pub open spec fn ident_char(ch: char) -> bool {
    alphabetic(ch) || numeric(ch) || ch == '_'
}

pub open spec fn number_char(ch: char) -> bool {
    numeric(ch) || ch == '.'
}

/// The token kind an identifier-like word gives: a keyword, a bit-precise
/// type, or an identifier holding the word.
pub open spec fn word_kind(k: TokenKind, w: Seq<char>) -> bool {
    match lookup_keyword(w) {
        Some(kk) => k == kk,
        None => k is Ident && k->Ident_0@ == w,
    }
}

/// The token kind a number's text gives: a decimal literal keeping its text
/// when a `.` follows its first character, otherwise the integer the digits make (0 when they
/// do not make an `i64`).
pub open spec fn number_kind(k: TokenKind, t: Seq<char>) -> bool {
    if t.drop_first().contains('.') {
        k is FloatLiteral && k->FloatLiteral_0@ == t
    } else {
        k == TokenKind::IntLiteral(
            match parse_digits(t) {
                Some(v) => v,
                None => 0i64,
            },
        )
    }
}

/// A one- or two-character operator starting at `s`: its kind and end.
pub open spec fn operator_at(c: Seq<char>, s: int) -> Option<(TokenKind, int)> {
    let ch = c[s];
    let next_is = |x: char| s + 1 < c.len() && c[s + 1] == x;
    if ch == '+' { Some((TokenKind::Plus, s + 1)) }
    else if ch == '-' { if next_is('>') { Some((TokenKind::Arrow, s + 2)) } else { Some((TokenKind::Minus, s + 1)) } }
    else if ch == '*' { Some((TokenKind::Star, s + 1)) }
    else if ch == '/' { Some((TokenKind::Slash, s + 1)) }
    else if ch == '%' { Some((TokenKind::Percent, s + 1)) }
    else if ch == '=' { if next_is('=') { Some((TokenKind::EqualEqual, s + 2)) } else { Some((TokenKind::Equal, s + 1)) } }
    else if ch == '!' { if next_is('=') { Some((TokenKind::NotEqual, s + 2)) } else { Some((TokenKind::Not, s + 1)) } }
    else if ch == '(' { Some((TokenKind::OpenParen, s + 1)) }
    else if ch == ')' { Some((TokenKind::CloseParen, s + 1)) }
    else if ch == '{' { Some((TokenKind::OpenBrace, s + 1)) }
    else if ch == '}' { Some((TokenKind::CloseBrace, s + 1)) }
    else if ch == '[' { Some((TokenKind::OpenBracket, s + 1)) }
    else if ch == ']' { Some((TokenKind::CloseBracket, s + 1)) }
    else if ch == '<' { if next_is('=') { Some((TokenKind::LessEqual, s + 2)) } else { Some((TokenKind::Less, s + 1)) } }
    else if ch == '>' { if next_is('=') { Some((TokenKind::GreaterEqual, s + 2)) } else { Some((TokenKind::Greater, s + 1)) } }
    else if ch == ':' { if next_is('=') { Some((TokenKind::TypeSet, s + 2)) } else { Some((TokenKind::Colon, s + 1)) } }
    else if ch == ';' { Some((TokenKind::Semicolon, s + 1)) }
    else if ch == ',' { Some((TokenKind::Comma, s + 1)) }
    else if ch == '.' { Some((TokenKind::Dot, s + 1)) }
    else if ch == '&' { if next_is('&') { Some((TokenKind::And, s + 2)) } else { Some((TokenKind::And, s + 1)) } }
    else if ch == '|' { if next_is('|') { Some((TokenKind::Or, s + 2)) } else { Some((TokenKind::Or, s + 1)) } }
    else { None }
}

/// The token of kind `k` that starts at `s` ends at `e` (`s` is not at the
/// end and not white space or a comment).
pub open spec fn token_at(c: Seq<char>, s: int, k: TokenKind, e: int) -> bool {
    let ch = c[s];
    match operator_at(c, s) {
        Some((kk, ee)) => k == kk && e == ee,
        None => if ch == '\'' || ch == '"' {
            let q = scan_while(c, s + 1, other_than(ch));
            q < c.len() && e == q + 1 && k is StringLiteral && k->StringLiteral_0@ == c.subrange(s + 1, q)
        } else if alphabetic(ch) || ch == '_' {
            e == scan_while(c, s + 1, ident_pred()) && word_kind(k, c.subrange(s, e))
        } else if numeric(ch) {
            e == scan_while(c, s + 1, number_pred()) && number_kind(k, c.subrange(s, e))
        } else {
            false
        },
    }
}

/// What `NextToken` gives when nothing was peeked, reading from position
/// `off`: the token starting at [`token_start`] with its line and column,
/// and the position after it; or no token, with the cursor at the end of
/// the text (nothing left, or a string that is never closed) or just after
/// a character that starts no token.
pub open spec fn next_token_spec(c: Seq<char>, off: int, r: Option<Token>, new_off: int) -> bool {
    let s = token_start(c, off);
    if s >= c.len() {
        r.is_none() && new_off == c.len()
    } else {
        match r {
            Some(t) => token_at(c, s, t.Kind, new_off) && t.Line == line_at(c, s) && t.Column == col_at(c, s)
                && s < new_off <= c.len(),
            None => {
                let ch = c[s];
                if ch == '\'' || ch == '"' {
                    scan_while(c, s + 1, other_than(ch)) >= c.len() && new_off == c.len()
                } else {
                    operator_at(c, s).is_none() && !(alphabetic(ch) || ch == '_')
                        && !numeric(ch) && new_off == s + 1
                }
            },
        }
    }
}

/// Two optional tokens read the same: both absent, or of the same kind
/// (text compared by value) at the same line and column.
pub open spec fn same_token(a: Option<Token>, b: Option<Token>) -> bool {
    match (a, b) {
        (None, None) => true,
        (Some(x), Some(y)) => kind_same(x.Kind, y.Kind) && x.Line == y.Line && x.Column == y.Column,
        _ => false,
    }
}

/// One read: from lexer `a` to lexer `b`, handing out `r`. A peeked token
/// is handed out without moving; otherwise the next token is scanned.
pub open spec fn read_step<'a>(a: Lexer<'a>, b: Lexer<'a>, r: Option<Token>) -> bool {
    &&& b.wf()
    &&& b.Source == a.Source
    &&& b.Chars == a.Chars
    &&& b.PeekedToken.is_none()
    &&& a.PeekedToken.is_some() ==> r == a.PeekedToken && b.Offset == a.Offset
    &&& a.PeekedToken.is_none() ==> next_token_spec(a.Chars@, a.Offset as int, r, b.Offset as int)
}

/// One peek: from lexer `a` to lexer `b`, looking at `r`, which `b` keeps
/// for the next read.
pub open spec fn peek_step<'a>(a: Lexer<'a>, b: Lexer<'a>, r: Option<Token>) -> bool {
    &&& b.wf()
    &&& b.Source == a.Source
    &&& b.Chars == a.Chars
    &&& b.PeekedToken == r
    &&& a.PeekedToken.is_some() ==> r == a.PeekedToken && b.Offset == a.Offset
    &&& a.PeekedToken.is_none() ==> next_token_spec(a.Chars@, a.Offset as int, r, b.Offset as int)
}

/// The next token is determined by the text and the position: two scans
/// from one position read the same token and stop at the same place.
pub proof fn lemma_next_token_determined(c: Seq<char>, off: int, r1: Option<Token>, e1: int, r2: Option<Token>, e2: int)
    requires
        next_token_spec(c, off, r1, e1),
        next_token_spec(c, off, r2, e2),
    ensures
        same_token(r1, r2),
        e1 == e2,
{
}

/// Peeking consumes nothing: a peek that finds a token, from a lexer with
/// nothing peeked, followed by a read, hands out the peeked token and
/// leaves the very lexer that one read straight away would, with a token
/// read the same; every later read therefore goes on alike.
pub proof fn lemma_peek_consumes_nothing<'a>(
    a: Lexer<'a>,
    p: Lexer<'a>,
    r: Option<Token>,
    b1: Lexer<'a>,
    r1: Option<Token>,
    b2: Lexer<'a>,
    r2: Option<Token>,
)
    requires
        a.wf(),
        a.PeekedToken.is_none(),
        r is Some,
        peek_step(a, p, r),
        read_step(p, b1, r1),
        read_step(a, b2, r2),
    ensures
        r1 == r,
        same_token(r1, r2),
        b1 == b2,
{
    lemma_next_token_determined(a.Chars@, a.Offset as int, r, p.Offset as int, r2, b2.Offset as int);
}

pub proof fn lemma_token_start(c: Seq<char>, i: int)
    requires
        0 <= i <= c.len(),
    ensures
        i <= token_start(c, i) <= c.len(),
    decreases c.len() - i, 0int,
{
    let j = scan_while(c, i, white_space_pred());
    lemma_scan_while(c, i, white_space_pred());
    if j + 1 < c.len() && c[j] == '/' && c[j + 1] == '/' {
        lemma_scan_while(c, j + 1, other_than('\n'));
        lemma_token_start(c, comment_end(c, j + 1));
    }
}

impl<'a> Lexer<'a> {
    /// Identifies the next token in the stream.
    pub fn NextToken(&mut self) -> (r: Option<Token>)
        requires
            old(self).wf(),
        ensures
            read_step(*old(self), *final(self), r),
        decreases old(self).Chars@.len() - old(self).Offset,
    {
        if self.PeekedToken.is_some() {
            let t = self.PeekedToken.take();
            return t;
        }
        let ghost c = self.Chars@;
        let ghost off0 = self.Offset as int;
        self.SkipWhitespace();
        proof {
            lemma_scan_while(c, off0, white_space_pred());
            lemma_token_start(c, off0);
        }
        let line = self.CurrentLine;
        let col = self.CurrentColumn;
        let ghost s = self.Offset as int;
        let ch = match self.AdvanceChar() {
            Some(ch) => ch,
            None => {
                return None;
            },
        };
        let next = self.PeekChar();
        let kind = if ch == '+' {
            TokenKind::Plus
        } else if ch == '-' {
            if next == Some('>') {
                self.AdvanceChar();
                TokenKind::Arrow
            } else {
                TokenKind::Minus
            }
        } else if ch == '*' {
            TokenKind::Star
        } else if ch == '/' {
            if next == Some('/') {
                proof { lemma_scan_while(c, s + 1, other_than('\n')); }
                let ghost target = scan_while(c, s + 1, other_than('\n'));
                loop
                    invariant_except_break
                        s + 1 <= self.Offset <= target,
                    invariant
                        self.wf(),
                        self.Chars@ == c,
                        self.Chars == old(self).Chars,
                        self.Source == old(self).Source,
                        self.PeekedToken.is_none(),
                        target == scan_while(c, s + 1, other_than('\n')),
                        s + 1 <= target <= c.len(),
                        forall|j: int| s + 1 <= j < target ==> c[j] != '\n',
                        target < c.len() ==> c[target] == '\n',
                    ensures
                        self.Offset == comment_end(c, s + 1),
                    decreases c.len() - self.Offset,
                {
                    match self.AdvanceChar() {
                        Some(x) => {
                            if x == '\n' {
                                break;
                            }
                        },
                        None => {
                            break;
                        },
                    }
                }
                assert(self.Offset == comment_end(c, s + 1));
                return self.NextToken();
            } else {
                TokenKind::Slash
            }
        } else if ch == '%' {
            TokenKind::Percent
        } else if ch == '=' {
            if next == Some('=') {
                self.AdvanceChar();
                TokenKind::EqualEqual
            } else {
                TokenKind::Equal
            }
        } else if ch == '!' {
            if next == Some('=') {
                self.AdvanceChar();
                TokenKind::NotEqual
            } else {
                TokenKind::Not
            }
        } else if ch == '(' {
            TokenKind::OpenParen
        } else if ch == ')' {
            TokenKind::CloseParen
        } else if ch == '{' {
            TokenKind::OpenBrace
        } else if ch == '}' {
            TokenKind::CloseBrace
        } else if ch == '[' {
            TokenKind::OpenBracket
        } else if ch == ']' {
            TokenKind::CloseBracket
        } else if ch == '<' {
            if next == Some('=') {
                self.AdvanceChar();
                TokenKind::LessEqual
            } else {
                TokenKind::Less
            }
        } else if ch == '>' {
            if next == Some('=') {
                self.AdvanceChar();
                TokenKind::GreaterEqual
            } else {
                TokenKind::Greater
            }
        } else if ch == ':' {
            if next == Some('=') {
                self.AdvanceChar();
                TokenKind::TypeSet
            } else {
                TokenKind::Colon
            }
        } else if ch == ';' {
            TokenKind::Semicolon
        } else if ch == ',' {
            TokenKind::Comma
        } else if ch == '.' {
            TokenKind::Dot
        } else if ch == '&' {
            if next == Some('&') {
                self.AdvanceChar();
            }
            TokenKind::And
        } else if ch == '|' {
            if next == Some('|') {
                self.AdvanceChar();
            }
            TokenKind::Or
        } else if ch == '\'' || ch == '"' {
            proof { lemma_scan_while(c, s + 1, other_than(ch)); }
            return ScanString(self, ch, line, col);
        } else if is_alphabetic(ch) || ch == '_' {
            proof { lemma_scan_while(c, s + 1, ident_pred()); }
            return Some(ScanIdent(self, ch, line, col));
        } else if is_numeric(ch) {
            proof { lemma_scan_while(c, s + 1, number_pred()); }
            ScanNumber(self, ch)
        } else {
            return None;
        };
        Some(Token::New(kind, line, col))
    }
}

/// Scans a quoted string until the matching closing quote.
fn ScanString<'a>(lex: &mut Lexer<'a>, quote: char, line: usize, col: usize) -> (r: Option<Token>)
    requires
        old(lex).wf(),
        old(lex).Offset >= 1,
        old(lex).Chars@[old(lex).Offset - 1] == quote,
    ensures
        final(lex).wf(),
        final(lex).Source == old(lex).Source,
        final(lex).Chars == old(lex).Chars,
        final(lex).PeekedToken == old(lex).PeekedToken,
        ({
            let c = old(lex).Chars@;
            let s = old(lex).Offset as int - 1;
            let q = scan_while(c, s + 1, other_than(quote));
            if q < c.len() {
                &&& final(lex).Offset == q + 1
                &&& r matches Some(t) && t.Line == line && t.Column == col
                    && t.Kind is StringLiteral && t.Kind->StringLiteral_0@ == c.subrange(s + 1, q)
            } else {
                r.is_none() && final(lex).Offset == c.len()
            }
        }),
{
    let ghost c = lex.Chars@;
    let ghost s = lex.Offset as int - 1;
    proof { lemma_scan_while(c, s + 1, other_than(quote)); }
    let ghost q = scan_while(c, s + 1, other_than(quote));
    let mut text = String::new();
    while lex.Offset < lex.Chars.len()
        invariant
            lex.wf(),
            lex.Chars@ == c,
            lex.Chars == old(lex).Chars,
            lex.Source == old(lex).Source,
            lex.PeekedToken == old(lex).PeekedToken,
            s + 1 <= lex.Offset <= q,
            q == scan_while(c, s + 1, other_than(quote)),
            forall|j: int| s + 1 <= j < q ==> c[j] != quote,
            q < c.len() ==> c[q] == quote,
            text@ == c.subrange(s + 1, lex.Offset as int),
            scan_while(c, lex.Offset as int, other_than(quote)) == q,
            0 <= s,
            s == old(lex).Offset - 1,
        decreases c.len() - lex.Offset,
    {
        let x = lex.Chars[lex.Offset];
        if x == quote {
            proof { lemma_scan_stop(c, lex.Offset as int, other_than(quote)); }
            assert(lex.Offset == q);
            lex.AdvanceChar();
            assert(lex.Offset == q + 1);

            return Some(Token::New(TokenKind::StringLiteral(text), line, col));
        }
        proof { lemma_scan_step(c, lex.Offset as int, other_than(quote)); lemma_scan_while(c, lex.Offset + 1, other_than(quote)); }
        lex.AdvanceChar();
        push_char(&mut text, x);
        assert(text@ =~= c.subrange(s + 1, lex.Offset as int));
    }
    None
}

/// Scans an identifier / keyword / bit-precise type starting from `first`.
fn ScanIdent<'a>(lex: &mut Lexer<'a>, first: char, line: usize, col: usize) -> (t: Token)
    requires
        old(lex).wf(),
        old(lex).Offset >= 1,
        old(lex).Chars@[old(lex).Offset - 1] == first,
    ensures
        final(lex).wf(),
        final(lex).Source == old(lex).Source,
        final(lex).Chars == old(lex).Chars,
        final(lex).PeekedToken == old(lex).PeekedToken,
        final(lex).Offset == scan_while(old(lex).Chars@, old(lex).Offset as int, ident_pred()),
        word_kind(t.Kind, old(lex).Chars@.subrange(old(lex).Offset - 1, final(lex).Offset as int)),
        t.Line == line,
        t.Column == col,
{
    let ghost c = lex.Chars@;
    let ghost s = lex.Offset as int - 1;
    proof { lemma_scan_while(c, s + 1, ident_pred()); }
    let ghost e = scan_while(c, s + 1, ident_pred());
    let mut identifier = String::new();
    push_char(&mut identifier, first);
    assert(identifier@ =~= c.subrange(s, s + 1));
    while lex.Offset < lex.Chars.len()
        invariant
            lex.wf(),
            lex.Chars@ == c,
            lex.Chars == old(lex).Chars,
            lex.Source == old(lex).Source,
            lex.PeekedToken == old(lex).PeekedToken,
            s + 1 <= lex.Offset <= e,
            e == scan_while(c, s + 1, ident_pred()),
            forall|j: int| s + 1 <= j < e ==> ident_char(#[trigger] c[j]),
            e < c.len() ==> !ident_char(c[e]),
            identifier@ == c.subrange(s, lex.Offset as int),
            scan_while(c, lex.Offset as int, ident_pred()) == e,
            0 <= s,
            s == old(lex).Offset - 1,
        ensures
            lex.wf(),
            lex.Chars@ == c,
            lex.Chars == old(lex).Chars,
            lex.Source == old(lex).Source,
            lex.PeekedToken == old(lex).PeekedToken,
            lex.Offset == e,
            identifier@ == c.subrange(s, lex.Offset as int),
        decreases c.len() - lex.Offset,
    {
        let next_char = lex.Chars[lex.Offset];
        if is_alphanumeric(next_char) || next_char == '_' {
            proof { lemma_scan_step(c, lex.Offset as int, ident_pred()); lemma_scan_while(c, lex.Offset + 1, ident_pred()); }
            let ghost off = lex.Offset as int;
            assert(c.subrange(s, off + 1) =~= c.subrange(s, off).push(c[off]));
            lex.AdvanceChar();
            push_char(&mut identifier, next_char);
            assert(identifier@ =~= c.subrange(s, lex.Offset as int));
        } else {
            proof { lemma_scan_stop(c, lex.Offset as int, ident_pred()); }
            break;
        }
    }
    let kind = match LookupKeyword(identifier.as_str()) {
        Some(k) => k,
        None => TokenKind::Ident(identifier),
    };
    Token::New(kind, line, col)
}

/// Scans an integer or decimal literal.
fn ScanNumber<'a>(lex: &mut Lexer<'a>, first: char) -> (k: TokenKind)
    requires
        old(lex).wf(),
        old(lex).Offset >= 1,
        old(lex).Chars@[old(lex).Offset - 1] == first,
    ensures
        final(lex).wf(),
        final(lex).Source == old(lex).Source,
        final(lex).Chars == old(lex).Chars,
        final(lex).PeekedToken == old(lex).PeekedToken,
        final(lex).Offset == scan_while(old(lex).Chars@, old(lex).Offset as int, number_pred()),
        number_kind(k, old(lex).Chars@.subrange(old(lex).Offset - 1, final(lex).Offset as int)),
{
    let ghost c = lex.Chars@;
    let ghost s = lex.Offset as int - 1;
    proof { lemma_scan_while(c, s + 1, number_pred()); }
    let ghost e = scan_while(c, s + 1, number_pred());
    let mut num = String::new();
    let mut digits: Vec<char> = Vec::new();
    push_char(&mut num, first);
    digits.push(first);
    let mut is_float = false;
    assert(num@ =~= c.subrange(s, s + 1));
    assert(num@.drop_first() =~= Seq::<char>::empty());
    while lex.Offset < lex.Chars.len()
        invariant
            lex.wf(),
            lex.Chars@ == c,
            lex.Chars == old(lex).Chars,
            lex.Source == old(lex).Source,
            lex.PeekedToken == old(lex).PeekedToken,
            s + 1 <= lex.Offset <= e,
            e == scan_while(c, s + 1, number_pred()),
            forall|j: int| s + 1 <= j < e ==> number_char(#[trigger] c[j]),
            e < c.len() ==> !number_char(c[e]),
            num@ == c.subrange(s, lex.Offset as int),
            digits@ == num@,
            is_float == num@.drop_first().contains('.'),
            scan_while(c, lex.Offset as int, number_pred()) == e,
            0 <= s,
            s == old(lex).Offset - 1,
        ensures
            lex.wf(),
            lex.Chars@ == c,
            lex.Chars == old(lex).Chars,
            lex.Source == old(lex).Source,
            lex.PeekedToken == old(lex).PeekedToken,
            lex.Offset == e,
            num@ == c.subrange(s, lex.Offset as int),
            digits@ == num@,
            is_float == num@.drop_first().contains('.'),
        decreases c.len() - lex.Offset,
    {
        let next_char = lex.Chars[lex.Offset];
        if is_numeric(next_char) || next_char == '.' {
            let ghost before = num@;
            proof { lemma_scan_step(c, lex.Offset as int, number_pred()); lemma_scan_while(c, lex.Offset + 1, number_pred()); }
            let ghost off = lex.Offset as int;
            assert(c.subrange(s, off + 1) =~= c.subrange(s, off).push(c[off]));
            lex.AdvanceChar();
            push_char(&mut num, next_char);
            digits.push(next_char);
            if next_char == '.' {
                is_float = true;
            }
            assert(num@ =~= c.subrange(s, lex.Offset as int));
            assert(num@ == before.push(next_char));
            assert(num@.drop_first() =~= before.drop_first().push(next_char));
            let ghost nd = num@.drop_first();
            let ghost bd = before.drop_first();
            assert(nd.contains('.') == (bd.contains('.') || next_char == '.')) by {
                if nd.contains('.') {
                    let i = choose|i: int| 0 <= i < nd.len() && nd[i] == '.';
                    if i < bd.len() {
                        assert(bd[i] == '.');
                    }
                }
                if bd.contains('.') {
                    let i = choose|i: int| 0 <= i < bd.len() && bd[i] == '.';
                    assert(nd[i] == '.');
                }
                if next_char == '.' {
                    assert(nd[nd.len() - 1] == '.');
                }
            }
        } else {
            proof { lemma_scan_stop(c, lex.Offset as int, number_pred()); }
            break;
        }
    }
    if is_float {
        TokenKind::FloatLiteral(num)
    } else {
        TokenKind::IntLiteral(parse_digits_or_zero(&digits))
    }
}

} // verus!
