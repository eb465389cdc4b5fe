//! The keyword table and the bit-precise type recognizer.

use vstd::prelude::*;
use crate::lexer::token::TokenKind;
use crate::text::{digits_value, is_ascii_digit, is_ascii_digit_spec, chars_of};

verus! {

/// The keyword a word names, if it is one.
pub open spec fn keyword_kind(w: Seq<char>) -> Option<TokenKind> {
    if w == "function"@ || w == "fn"@ { Some(TokenKind::Function) }
    else if w == "var"@ { Some(TokenKind::Let(true)) }
    else if w == "let"@ { Some(TokenKind::Let(false)) }
    else if w == "mut"@ { Some(TokenKind::Mut) }
    else if w == "where"@ { Some(TokenKind::Where) }
    else if w == "or"@ { Some(TokenKind::WhereOr) }
    else if w == "havoc"@ { Some(TokenKind::Havoc) }
    else if w == "interrupt"@ { Some(TokenKind::Interrupt) }
    else if w == "unreachable"@ { Some(TokenKind::Unreachable) }
    else if w == "panic"@ { Some(TokenKind::Panic) }
    else if w == "as"@ { Some(TokenKind::As) }
    else if w == "match"@ { Some(TokenKind::Match) }
    else if w == "struct"@ { Some(TokenKind::Struct) }
    else if w == "enum"@ { Some(TokenKind::Enum) }
    else if w == "if"@ { Some(TokenKind::If) }
    else if w == "else"@ { Some(TokenKind::Else) }
    else if w == "while"@ { Some(TokenKind::While) }
    else if w == "for"@ { Some(TokenKind::For) }
    else if w == "loop"@ { Some(TokenKind::Loop) }
    else if w == "return"@ { Some(TokenKind::Return) }
    else if w == "goto"@ { Some(TokenKind::Goto) }
    else if w == "true"@ { Some(TokenKind::True) }
    else if w == "false"@ { Some(TokenKind::False) }
    else { None }
}

/// A bit-precise type name: a family letter (`i`, `u`, `b`, `f`) followed by
/// one or more ASCII digits whose value fits in a `u32`.
pub open spec fn bit_precise_kind(w: Seq<char>) -> Option<TokenKind> {
    if w.len() >= 2 && (w[0] == 'i' || w[0] == 'u' || w[0] == 'b' || w[0] == 'f')
        && (forall|i: int| 1 <= i < w.len() ==> is_ascii_digit_spec(#[trigger] w[i]))
        && digits_value(w.subrange(1, w.len() as int)) <= u32::MAX {
        Some(TokenKind::BitPreciseType { Kind: w[0], Bits: digits_value(w.subrange(1, w.len() as int)) as u32 })
    } else {
        None
    }
}

/// What [`LookupKeyword`] gives for a word.
pub open spec fn lookup_keyword(w: Seq<char>) -> Option<TokenKind> {
    match keyword_kind(w) {
        Some(k) => Some(k),
        None => bit_precise_kind(w),
    }
}

fn is_word(word: &String, lit: &str) -> (b: bool)
    ensures
        b == (word@ == lit@),
{
    *word == String::from_str(lit)
}

/// Returns `Some(TokenKind)` if `word` is a keyword or a bit-precise type;
/// `None` if it should be lexed as an `Ident`.
pub fn LookupKeyword(word: &str) -> (r: Option<TokenKind>)
    ensures
        r == lookup_keyword(word@),
{
    let w = word.to_owned();
    if is_word(&w, "function") || is_word(&w, "fn") { Some(TokenKind::Function) }
    else if is_word(&w, "var") { Some(TokenKind::Let(true)) }
    else if is_word(&w, "let") { Some(TokenKind::Let(false)) }
    else if is_word(&w, "mut") { Some(TokenKind::Mut) }
    else if is_word(&w, "where") { Some(TokenKind::Where) }
    else if is_word(&w, "or") { Some(TokenKind::WhereOr) }
    else if is_word(&w, "havoc") { Some(TokenKind::Havoc) }
    else if is_word(&w, "interrupt") { Some(TokenKind::Interrupt) }
    else if is_word(&w, "unreachable") { Some(TokenKind::Unreachable) }
    else if is_word(&w, "panic") { Some(TokenKind::Panic) }
    else if is_word(&w, "as") { Some(TokenKind::As) }
    else if is_word(&w, "match") { Some(TokenKind::Match) }
    else if is_word(&w, "struct") { Some(TokenKind::Struct) }
    else if is_word(&w, "enum") { Some(TokenKind::Enum) }
    else if is_word(&w, "if") { Some(TokenKind::If) }
    else if is_word(&w, "else") { Some(TokenKind::Else) }
    else if is_word(&w, "while") { Some(TokenKind::While) }
    else if is_word(&w, "for") { Some(TokenKind::For) }
    else if is_word(&w, "loop") { Some(TokenKind::Loop) }
    else if is_word(&w, "return") { Some(TokenKind::Return) }
    else if is_word(&w, "goto") { Some(TokenKind::Goto) }
    else if is_word(&w, "true") { Some(TokenKind::True) }
    else if is_word(&w, "false") { Some(TokenKind::False) }
    else { AsBitPreciseType(word) }
}

/// Recognises `i32`, `u8`, `b16`, `f64`, etc.: a family letter followed by digits.
fn AsBitPreciseType(word: &str) -> (r: Option<TokenKind>)
    ensures
        r == bit_precise_kind(word@),
{
    let w = chars_of(word);
    if w.len() < 2 {
        return None;
    }
    let head = w[0];
    if !(head == 'i' || head == 'u' || head == 'b' || head == 'f') {
        return None;
    }
    let ghost rest = w@.subrange(1, w@.len() as int);
    let mut acc: u64 = 0;
    let mut i: usize = 1;
    while i < w.len()
        invariant
            1 <= i <= w@.len(),
            w@ == word@,
            rest == w@.subrange(1, w@.len() as int),
            forall|j: int| 1 <= j < i ==> is_ascii_digit_spec(#[trigger] w@[j]),
            acc as int == digits_value(w@.subrange(1, i as int)),
            acc <= u32::MAX,
        decreases w@.len() - i,
    {
        let c = w[i];
        if !is_ascii_digit(c) {
            return None;
        }
        let d: u64 = (c as u32 - 48) as u64;
        assert(w@.subrange(1, i + 1).drop_last() =~= w@.subrange(1, i as int));
        acc = acc * 10 + d;
        i = i + 1;
        if acc > 0xFFFF_FFFFu64 {
            proof { lemma_prefix_exceeds(w@, i as int); }
            return None;
        }
    }
    assert(w@.subrange(1, w@.len() as int) =~= rest);
    Some(TokenKind::BitPreciseType { Kind: head, Bits: acc as u32 })
}

proof fn lemma_prefix_exceeds(w: Seq<char>, i: int)
    requires
        1 <= i <= w.len(),
        digits_value(w.subrange(1, i)) > u32::MAX,
    ensures
        bit_precise_kind(w).is_none(),
    decreases w.len() - i,
{
    if i < w.len() && (forall|j: int| 1 <= j < w.len() ==> is_ascii_digit_spec(#[trigger] w[j])) {
        assert(w.subrange(1, i + 1).drop_last() =~= w.subrange(1, i));
        let d = w[i] as int - 48;
        assert(0 <= d <= 9);
        lemma_prefix_exceeds(w, i + 1);
    } else if i == w.len() {
        assert(w.subrange(1, w.len() as int) =~= w.subrange(1, i));
    }
}

/// The word `w` spells the keyword kind `k`: `function` or `fn`, `var`
/// (a mutable binding), `let` (an immutable one), and every other keyword
/// the lower-case spelling of its own name (`WhereOr` is `or`).
pub open spec fn spells(k: TokenKind, w: Seq<char>) -> bool {
    match k {
        TokenKind::Function => w == "function"@ || w == "fn"@,
        TokenKind::Let(m) => w == (if m { "var"@ } else { "let"@ }),
        TokenKind::Mut => w == "mut"@,
        TokenKind::Where => w == "where"@,
        TokenKind::WhereOr => w == "or"@,
        TokenKind::Havoc => w == "havoc"@,
        TokenKind::Interrupt => w == "interrupt"@,
        TokenKind::Unreachable => w == "unreachable"@,
        TokenKind::Panic => w == "panic"@,
        TokenKind::As => w == "as"@,
        TokenKind::Match => w == "match"@,
        TokenKind::Struct => w == "struct"@,
        TokenKind::Enum => w == "enum"@,
        TokenKind::If => w == "if"@,
        TokenKind::Else => w == "else"@,
        TokenKind::While => w == "while"@,
        TokenKind::For => w == "for"@,
        TokenKind::Loop => w == "loop"@,
        TokenKind::Return => w == "return"@,
        TokenKind::Goto => w == "goto"@,
        TokenKind::True => w == "true"@,
        TokenKind::False => w == "false"@,
        _ => false,
    }
}

/// The letters of each keyword's spelling, which tell the spellings apart.
proof fn lemma_keyword_chars()
    ensures
        "function"@.len() == 8 && "function"@[0] == 'f' && "function"@[1] == 'u' && "function"@[2] == 'n' && "function"@[3] == 'c' && "function"@[4] == 't' && "function"@[5] == 'i' && "function"@[6] == 'o' && "function"@[7] == 'n',
        "fn"@.len() == 2 && "fn"@[0] == 'f' && "fn"@[1] == 'n',
        "var"@.len() == 3 && "var"@[0] == 'v' && "var"@[1] == 'a' && "var"@[2] == 'r',
        "let"@.len() == 3 && "let"@[0] == 'l' && "let"@[1] == 'e' && "let"@[2] == 't',
        "mut"@.len() == 3 && "mut"@[0] == 'm' && "mut"@[1] == 'u' && "mut"@[2] == 't',
        "where"@.len() == 5 && "where"@[0] == 'w' && "where"@[1] == 'h' && "where"@[2] == 'e' && "where"@[3] == 'r' && "where"@[4] == 'e',
        "or"@.len() == 2 && "or"@[0] == 'o' && "or"@[1] == 'r',
        "havoc"@.len() == 5 && "havoc"@[0] == 'h' && "havoc"@[1] == 'a' && "havoc"@[2] == 'v' && "havoc"@[3] == 'o' && "havoc"@[4] == 'c',
        "interrupt"@.len() == 9 && "interrupt"@[0] == 'i' && "interrupt"@[1] == 'n' && "interrupt"@[2] == 't' && "interrupt"@[3] == 'e' && "interrupt"@[4] == 'r' && "interrupt"@[5] == 'r' && "interrupt"@[6] == 'u' && "interrupt"@[7] == 'p' && "interrupt"@[8] == 't',
        "unreachable"@.len() == 11 && "unreachable"@[0] == 'u' && "unreachable"@[1] == 'n' && "unreachable"@[2] == 'r' && "unreachable"@[3] == 'e' && "unreachable"@[4] == 'a' && "unreachable"@[5] == 'c' && "unreachable"@[6] == 'h' && "unreachable"@[7] == 'a' && "unreachable"@[8] == 'b' && "unreachable"@[9] == 'l' && "unreachable"@[10] == 'e',
        "panic"@.len() == 5 && "panic"@[0] == 'p' && "panic"@[1] == 'a' && "panic"@[2] == 'n' && "panic"@[3] == 'i' && "panic"@[4] == 'c',
        "as"@.len() == 2 && "as"@[0] == 'a' && "as"@[1] == 's',
        "match"@.len() == 5 && "match"@[0] == 'm' && "match"@[1] == 'a' && "match"@[2] == 't' && "match"@[3] == 'c' && "match"@[4] == 'h',
        "struct"@.len() == 6 && "struct"@[0] == 's' && "struct"@[1] == 't' && "struct"@[2] == 'r' && "struct"@[3] == 'u' && "struct"@[4] == 'c' && "struct"@[5] == 't',
        "enum"@.len() == 4 && "enum"@[0] == 'e' && "enum"@[1] == 'n' && "enum"@[2] == 'u' && "enum"@[3] == 'm',
        "if"@.len() == 2 && "if"@[0] == 'i' && "if"@[1] == 'f',
        "else"@.len() == 4 && "else"@[0] == 'e' && "else"@[1] == 'l' && "else"@[2] == 's' && "else"@[3] == 'e',
        "while"@.len() == 5 && "while"@[0] == 'w' && "while"@[1] == 'h' && "while"@[2] == 'i' && "while"@[3] == 'l' && "while"@[4] == 'e',
        "for"@.len() == 3 && "for"@[0] == 'f' && "for"@[1] == 'o' && "for"@[2] == 'r',
        "loop"@.len() == 4 && "loop"@[0] == 'l' && "loop"@[1] == 'o' && "loop"@[2] == 'o' && "loop"@[3] == 'p',
        "return"@.len() == 6 && "return"@[0] == 'r' && "return"@[1] == 'e' && "return"@[2] == 't' && "return"@[3] == 'u' && "return"@[4] == 'r' && "return"@[5] == 'n',
        "goto"@.len() == 4 && "goto"@[0] == 'g' && "goto"@[1] == 'o' && "goto"@[2] == 't' && "goto"@[3] == 'o',
        "true"@.len() == 4 && "true"@[0] == 't' && "true"@[1] == 'r' && "true"@[2] == 'u' && "true"@[3] == 'e',
        "false"@.len() == 5 && "false"@[0] == 'f' && "false"@[1] == 'a' && "false"@[2] == 'l' && "false"@[3] == 's' && "false"@[4] == 'e',
{
    reveal_strlit("function");
    reveal_strlit("fn");
    reveal_strlit("var");
    reveal_strlit("let");
    reveal_strlit("mut");
    reveal_strlit("where");
    reveal_strlit("or");
    reveal_strlit("havoc");
    reveal_strlit("interrupt");
    reveal_strlit("unreachable");
    reveal_strlit("panic");
    reveal_strlit("as");
    reveal_strlit("match");
    reveal_strlit("struct");
    reveal_strlit("enum");
    reveal_strlit("if");
    reveal_strlit("else");
    reveal_strlit("while");
    reveal_strlit("for");
    reveal_strlit("loop");
    reveal_strlit("return");
    reveal_strlit("goto");
    reveal_strlit("true");
    reveal_strlit("false");
}

/// Each keyword lexes to the kind it spells: a word that the table maps to
/// a keyword kind spells that kind (so `false` is never `True`), and a word
/// that spells a keyword kind is looked up as that kind.
pub proof fn lemma_keywords_spell_their_kinds(w: Seq<char>, k: TokenKind)
    ensures
        keyword_kind(w) == Some(k) ==> spells(k, w),
        spells(k, w) ==> lookup_keyword(w) == Some(k),
{
    lemma_keyword_chars();
}

} // verus!
