//! The `Lexer` struct and its character cursor.

use vstd::prelude::*;
use crate::lexer::token::Token;
use crate::text::{chars_of, is_white_space, unicode_white_space};

verus! {

/// Line number (from 1) of position `n` in `s`: one more than the number of
/// line feeds before it.
pub open spec fn line_at(s: Seq<char>, n: int) -> int
    decreases n,
{
    if n <= 0 {
        1
    } else {
        line_at(s, n - 1) + if s[n - 1] == '\n' { 1int } else { 0int }
    }
}

/// Column number (from 1) of position `n` in `s`: one more than the number
/// of characters since the last line feed before it.
pub open spec fn col_at(s: Seq<char>, n: int) -> int
    decreases n,
{
    if n <= 0 {
        1
    } else if s[n - 1] == '\n' {
        1
    } else {
        col_at(s, n - 1) + 1
    }
}

pub proof fn lemma_line_col_bounds(s: Seq<char>, n: int)
    requires
        0 <= n,
    ensures
        1 <= line_at(s, n) <= n + 1,
        1 <= col_at(s, n) <= n + 1,
    decreases n,
{
    if n > 0 {
        lemma_line_col_bounds(s, n - 1);
    }
}

/// The first position at or after `i` whose character fails `p` (or the end).
pub open spec fn scan_while(c: Seq<char>, i: int, p: spec_fn(char) -> bool) -> int
    decreases c.len() - i,
{
    if i < 0 || i >= c.len() || !p(c[i]) {
        if i < 0 { 0 } else if i > c.len() { c.len() as int } else { i }
    } else {
        scan_while(c, i + 1, p)
    }
}

pub proof fn lemma_scan_while(c: Seq<char>, i: int, p: spec_fn(char) -> bool)
    requires
        0 <= i <= c.len(),
    ensures
        i <= scan_while(c, i, p) <= c.len(),
        forall|j: int| i <= j < scan_while(c, i, p) ==> p(#[trigger] c[j]),
        scan_while(c, i, p) < c.len() ==> !p(c[scan_while(c, i, p)]),
    decreases c.len() - i,
{
    if i < c.len() && p(c[i]) {
        lemma_scan_while(c, i + 1, p);
    }
}

/// Characters with the Unicode `White_Space` property.
pub open spec fn white_space_pred() -> spec_fn(char) -> bool {
    |ch: char| unicode_white_space(ch)
}

pub proof fn lemma_scan_step(c: Seq<char>, i: int, p: spec_fn(char) -> bool)
    requires
        0 <= i < c.len(),
        p(c[i]),
    ensures
        scan_while(c, i, p) == scan_while(c, i + 1, p),
{
}

pub proof fn lemma_scan_stop(c: Seq<char>, i: int, p: spec_fn(char) -> bool)
    requires
        0 <= i <= c.len(),
        i == c.len() || !p(c[i]),
    ensures
        scan_while(c, i, p) == i,
{
}

/// The thing that turns text into a stream of tokens.
pub struct Lexer<'a> {
    /// The actual text we are reading.
    pub Source: &'a str,
    /// The characters of the text.
    pub Chars: Vec<char>,
    /// How many characters have been read.
    pub Offset: usize,
    /// Token we saved for later.
    pub PeekedToken: Option<Token>,
    /// Line count for error messages.
    pub CurrentLine: usize,
    /// Column count for error messages.
    pub CurrentColumn: usize,
}

impl<'a> Lexer<'a> {
    /// The cursor is inside the text and the line and column are those of
    /// the cursor.
    pub open spec fn wf(&self) -> bool {
        &&& self.Chars@ == self.Source@
        &&& self.Chars@.len() < usize::MAX
        &&& self.Offset <= self.Chars@.len()
        &&& self.CurrentLine == line_at(self.Chars@, self.Offset as int)
        &&& self.CurrentColumn == col_at(self.Chars@, self.Offset as int)
    }

    /// Starts a new lexer at line 1 column 1.
    pub fn New(Source: &'a str) -> (l: Self)
        requires
            Source@.len() < usize::MAX,
        ensures
            l.wf(),
            l.Source == Source,
            l.Offset == 0,
            l.PeekedToken.is_none(),
            l.CurrentLine == 1,
            l.CurrentColumn == 1,
    {
        Self {
            Source,
            Chars: chars_of(Source),
            Offset: 0,
            PeekedToken: None,
            CurrentLine: 1,
            CurrentColumn: 1,
        }
    }

    /// Pulls a char and keeps the line and column in step.
    pub fn AdvanceChar(&mut self) -> (r: Option<char>)
        requires
            old(self).wf(),
        ensures
            final(self).wf(),
            final(self).Source == old(self).Source,
            final(self).Chars == old(self).Chars,
            final(self).PeekedToken == old(self).PeekedToken,
            old(self).Offset < old(self).Chars@.len() ==> r == Some(old(self).Chars@[old(self).Offset as int])
                && final(self).Offset == old(self).Offset + 1,
            old(self).Offset >= old(self).Chars@.len() ==> r.is_none() && final(self).Offset == old(self).Offset,
    {
        if self.Offset >= self.Chars.len() {
            return None;
        }
        let ch = self.Chars[self.Offset];
        proof { lemma_line_col_bounds(self.Chars@, self.Offset as int); }
        self.Offset = self.Offset + 1;
        if ch == '\n' {
            self.CurrentLine = self.CurrentLine + 1;
            self.CurrentColumn = 1;
        } else {
            self.CurrentColumn = self.CurrentColumn + 1;
        }
        Some(ch)
    }

    /// Looks at the next char without pulling it.
    pub fn PeekChar(&self) -> (r: Option<char>)
        requires
            self.wf(),
        ensures
            self.Offset < self.Chars@.len() ==> r == Some(self.Chars@[self.Offset as int]),
            self.Offset >= self.Chars@.len() ==> r.is_none(),
    {
        if self.Offset < self.Chars.len() {
            Some(self.Chars[self.Offset])
        } else {
            None
        }
    }

    /// Checks the next token without pulling it from the stream: the token
    /// is kept and handed out by the next call of `NextToken`.
    pub fn PeekToken(&mut self) -> (r: Option<Token>)
        requires
            old(self).wf(),
        ensures
            crate::lexer::scan::peek_step(*old(self), *final(self), r),
    {
        if self.PeekedToken.is_none() {
            let t = self.NextToken();
            self.PeekedToken = t;
        }
        match &self.PeekedToken {
            Some(t) => Some(t.clone()),
            None => None,
        }
    }

    /// Clears out the spaces and newlines.
    pub fn SkipWhitespace(&mut self)
        requires
            old(self).wf(),
        ensures
            final(self).wf(),
            final(self).Source == old(self).Source,
            final(self).Chars == old(self).Chars,
            final(self).PeekedToken == old(self).PeekedToken,
            final(self).Offset == scan_while(
                old(self).Chars@,
                old(self).Offset as int,
                white_space_pred(),
            ),
    {
        proof {
            lemma_scan_while(self.Chars@, self.Offset as int, white_space_pred());
        }
        let ghost target = scan_while(self.Chars@, self.Offset as int, white_space_pred());
        let ghost start = self.Offset as int;
        while self.Offset < self.Chars.len()
            invariant
                self.wf(),
                self.Source == old(self).Source,
                self.Chars == old(self).Chars,
                self.PeekedToken == old(self).PeekedToken,
                start <= self.Offset <= target,
                target <= self.Chars@.len(),
                self.Offset == self.Chars@.len() ==> self.Offset == target,
                scan_while(self.Chars@, self.Offset as int, white_space_pred()) == target,
            ensures
                self.wf(),
                self.Source == old(self).Source,
                self.Chars == old(self).Chars,
                self.PeekedToken == old(self).PeekedToken,
                self.Offset == target,
            decreases self.Chars@.len() - self.Offset,
        {
            let ch = self.Chars[self.Offset];
            if is_white_space(ch) {
                proof {
                    lemma_scan_step(self.Chars@, self.Offset as int, white_space_pred());
                    lemma_scan_while(self.Chars@, self.Offset + 1, white_space_pred());
                }
                self.AdvanceChar();
            } else {
                proof { lemma_scan_stop(self.Chars@, self.Offset as int, white_space_pred()); }
                break;
            }
        }
    }

    /// Reads every remaining token, stopping at the first place where no
    /// token can be read.
    pub fn CollectTokens(&mut self) -> (v: Vec<Token>)
        requires
            old(self).wf(),
        ensures
            final(self).wf(),
            old(self).PeekedToken.is_none() ==> exists|ends: Seq<int>|
                #[trigger] lexed(old(self).Chars@, old(self).Offset as int, v@, ends)
                && exists|o: int| crate::lexer::scan::next_token_spec(
                    old(self).Chars@,
                    last_end(old(self).Offset as int, ends),
                    None,
                    o,
                ),
    {
        let mut out: Vec<Token> = Vec::new();
        let ghost c = self.Chars@;
        let ghost start = self.Offset as int;
        let ghost started_clean = self.PeekedToken.is_none();
        let ghost mut ends: Seq<int> = Seq::empty();
        loop
            invariant
                self.wf(),
                c == self.Chars@,
                started_clean == old(self).PeekedToken.is_none(),
                start == old(self).Offset as int,
                c == old(self).Chars@,
                started_clean ==> self.PeekedToken.is_none() && lexed(c, start, out@, ends) && last_end(start, ends)
                    == self.Offset as int,
            decreases self.Chars@.len() - self.Offset + if self.PeekedToken.is_some() { 1int } else { 0int },
        {
            let ghost before = self.Chars@.len() - self.Offset + if self.PeekedToken.is_some() { 1int } else { 0int };
            let ghost at = self.Offset as int;
            proof { crate::lexer::scan::lemma_token_start(self.Chars@, self.Offset as int); }
            match self.NextToken() {
                Some(t) => {
                    out.push(t);
                    proof {
                        ends = ends.push(self.Offset as int);
                    }
                    assert(self.Chars@.len() - self.Offset + (if self.PeekedToken.is_some() { 1int } else { 0int }) < before);
                }
                None => {
                    proof {
                        if started_clean {
                            assert(crate::lexer::scan::next_token_spec(c, at, None, self.Offset as int));
                        }
                    }
                    return out;
                }
            }
        }
    }
}

/// Where reading ended: the last token's end, or the start when none was
/// read.
pub open spec fn last_end(a: int, ends: Seq<int>) -> int {
    if ends.len() == 0 {
        a
    } else {
        ends.last()
    }
}

/// `toks` are the tokens read one after another from offset `a`, the i-th
/// ending at `ends[i]`.
pub open spec fn lexed(c: Seq<char>, a: int, toks: Seq<Token>, ends: Seq<int>) -> bool {
    &&& ends.len() == toks.len()
    &&& forall|i: int|
        0 <= i < toks.len() ==> crate::lexer::scan::next_token_spec(
            c,
            if i == 0 { a } else { ends[i - 1] },
            Some(#[trigger] toks[i]),
            ends[i],
        )
}

} // verus!
