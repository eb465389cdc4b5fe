//! Token definitions.

use vstd::prelude::*;

verus! {

/// Every single token the lexer can find.
#[derive(Debug, PartialEq)]
pub struct Token {
    /// What the token actually is (var, ident, ...).
    pub Kind: TokenKind,
    /// What line it started on.
    pub Line: usize,
    /// What column it started on.
    pub Column: usize,
}

impl Token {
    /// A token of `Kind` starting at `Line` and `Column`.
    pub fn New(Kind: TokenKind, Line: usize, Column: usize) -> (t: Token)
        ensures
            t.Kind == Kind,
            t.Line == Line,
            t.Column == Column,
    {
        Token { Kind, Line, Column }
    }
}

/// A named value at a memory address.
#[derive(Debug, Clone, PartialEq)]
pub struct Variable<Type> {
    pub MemoryAddress: usize,
    Value: Type,
    Name: String,
}

/// The different kinds of words and symbols. A decimal literal keeps the
/// text it was written with.
#[derive(Debug, PartialEq)]
pub enum TokenKind {
    // ===== Keywords =====
    Function,
    /// `var` (mutable, `true`) or `let` (immutable, `false`).
    Let(bool),
    Mut,
    Return,
    Struct,
    Enum,
    Havoc,
    Interrupt,
    Unreachable,
    Panic,
    Where,
    /// The `or` keyword.
    WhereOr,
    As,
    Match,
    If,
    Else,
    While,
    For,
    Loop,
    Goto,
    True,
    False,
    // ===== Identifiers & Literals =====
    Ident(String),
    IntLiteral(i64),
    FloatLiteral(String),
    StringLiteral(String),
    BitPreciseType { Kind: char, Bits: u32 },
    // ===== Operators & Symbols =====
    Plus,
    Minus,
    Star,
    Slash,
    Percent,
    Equal,
    EqualEqual,
    NotEqual,
    Not,
    Arrow,
    TypeSet,
    Less,
    Greater,
    LessEqual,
    GreaterEqual,
    And,
    Or,
    // ===== Delimiters =====
    OpenParen,
    CloseParen,
    OpenBrace,
    CloseBrace,
    OpenBracket,
    CloseBracket,
    Colon,
    Semicolon,
    Comma,
    Dot,
    /// End of file token.
    End,
    /// Invalid.
    Invalid,
}

/// Two token kinds are the same kind with the same text and values.
pub open spec fn kind_same(a: TokenKind, b: TokenKind) -> bool {
    match (a, b) {
        (TokenKind::Ident(x), TokenKind::Ident(y)) => x@ == y@,
        (TokenKind::FloatLiteral(x), TokenKind::FloatLiteral(y)) => x@ == y@,
        (TokenKind::StringLiteral(x), TokenKind::StringLiteral(y)) => x@ == y@,
        (TokenKind::Ident(_), _) | (TokenKind::FloatLiteral(_), _) | (TokenKind::StringLiteral(_), _) => false,
        (_, TokenKind::Ident(_)) | (_, TokenKind::FloatLiteral(_)) | (_, TokenKind::StringLiteral(_)) => false,
        _ => a == b,
    }
}

impl TokenKind {
    /// Compares two token kinds.
    pub fn Same(&self, other: &TokenKind) -> (b: bool)
        ensures
            b == kind_same(*self, *other),
    {
        match (self, other) {
            (TokenKind::Ident(x), TokenKind::Ident(y)) => *x == *y,
            (TokenKind::FloatLiteral(x), TokenKind::FloatLiteral(y)) => *x == *y,
            (TokenKind::StringLiteral(x), TokenKind::StringLiteral(y)) => *x == *y,
            (TokenKind::Let(x), TokenKind::Let(y)) => *x == *y,
            (TokenKind::IntLiteral(x), TokenKind::IntLiteral(y)) => *x == *y,
            (
                TokenKind::BitPreciseType { Kind: k1, Bits: b1 },
                TokenKind::BitPreciseType { Kind: k2, Bits: b2 },
            ) => *k1 == *k2 && *b1 == *b2,
            (TokenKind::Function, TokenKind::Function) => true,
            (TokenKind::Mut, TokenKind::Mut) => true,
            (TokenKind::Return, TokenKind::Return) => true,
            (TokenKind::Struct, TokenKind::Struct) => true,
            (TokenKind::Enum, TokenKind::Enum) => true,
            (TokenKind::Havoc, TokenKind::Havoc) => true,
            (TokenKind::Interrupt, TokenKind::Interrupt) => true,
            (TokenKind::Unreachable, TokenKind::Unreachable) => true,
            (TokenKind::Panic, TokenKind::Panic) => true,
            (TokenKind::Where, TokenKind::Where) => true,
            (TokenKind::WhereOr, TokenKind::WhereOr) => true,
            (TokenKind::As, TokenKind::As) => true,
            (TokenKind::Match, TokenKind::Match) => true,
            (TokenKind::If, TokenKind::If) => true,
            (TokenKind::Else, TokenKind::Else) => true,
            (TokenKind::While, TokenKind::While) => true,
            (TokenKind::For, TokenKind::For) => true,
            (TokenKind::Loop, TokenKind::Loop) => true,
            (TokenKind::Goto, TokenKind::Goto) => true,
            (TokenKind::True, TokenKind::True) => true,
            (TokenKind::False, TokenKind::False) => true,
            (TokenKind::Plus, TokenKind::Plus) => true,
            (TokenKind::Minus, TokenKind::Minus) => true,
            (TokenKind::Star, TokenKind::Star) => true,
            (TokenKind::Slash, TokenKind::Slash) => true,
            (TokenKind::Percent, TokenKind::Percent) => true,
            (TokenKind::Equal, TokenKind::Equal) => true,
            (TokenKind::EqualEqual, TokenKind::EqualEqual) => true,
            (TokenKind::NotEqual, TokenKind::NotEqual) => true,
            (TokenKind::Not, TokenKind::Not) => true,
            (TokenKind::Arrow, TokenKind::Arrow) => true,
            (TokenKind::TypeSet, TokenKind::TypeSet) => true,
            (TokenKind::Less, TokenKind::Less) => true,
            (TokenKind::Greater, TokenKind::Greater) => true,
            (TokenKind::LessEqual, TokenKind::LessEqual) => true,
            (TokenKind::GreaterEqual, TokenKind::GreaterEqual) => true,
            (TokenKind::And, TokenKind::And) => true,
            (TokenKind::Or, TokenKind::Or) => true,
            (TokenKind::OpenParen, TokenKind::OpenParen) => true,
            (TokenKind::CloseParen, TokenKind::CloseParen) => true,
            (TokenKind::OpenBrace, TokenKind::OpenBrace) => true,
            (TokenKind::CloseBrace, TokenKind::CloseBrace) => true,
            (TokenKind::OpenBracket, TokenKind::OpenBracket) => true,
            (TokenKind::CloseBracket, TokenKind::CloseBracket) => true,
            (TokenKind::Colon, TokenKind::Colon) => true,
            (TokenKind::Semicolon, TokenKind::Semicolon) => true,
            (TokenKind::Comma, TokenKind::Comma) => true,
            (TokenKind::Dot, TokenKind::Dot) => true,
            (TokenKind::End, TokenKind::End) => true,
            (TokenKind::Invalid, TokenKind::Invalid) => true,
            _ => false,
        }
    }
}

impl Clone for TokenKind {
    fn clone(&self) -> (r: Self)
        ensures
            r == *self,
    {
        match self {
            TokenKind::Ident(s) => TokenKind::Ident(s.clone()),
            TokenKind::FloatLiteral(s) => TokenKind::FloatLiteral(s.clone()),
            TokenKind::StringLiteral(s) => TokenKind::StringLiteral(s.clone()),
            TokenKind::Let(b) => TokenKind::Let(*b),
            TokenKind::IntLiteral(n) => TokenKind::IntLiteral(*n),
            TokenKind::BitPreciseType { Kind, Bits } => TokenKind::BitPreciseType { Kind: *Kind, Bits: *Bits },
            TokenKind::Function => TokenKind::Function,
            TokenKind::Mut => TokenKind::Mut,
            TokenKind::Return => TokenKind::Return,
            TokenKind::Struct => TokenKind::Struct,
            TokenKind::Enum => TokenKind::Enum,
            TokenKind::Havoc => TokenKind::Havoc,
            TokenKind::Interrupt => TokenKind::Interrupt,
            TokenKind::Unreachable => TokenKind::Unreachable,
            TokenKind::Panic => TokenKind::Panic,
            TokenKind::Where => TokenKind::Where,
            TokenKind::WhereOr => TokenKind::WhereOr,
            TokenKind::As => TokenKind::As,
            TokenKind::Match => TokenKind::Match,
            TokenKind::If => TokenKind::If,
            TokenKind::Else => TokenKind::Else,
            TokenKind::While => TokenKind::While,
            TokenKind::For => TokenKind::For,
            TokenKind::Loop => TokenKind::Loop,
            TokenKind::Goto => TokenKind::Goto,
            TokenKind::True => TokenKind::True,
            TokenKind::False => TokenKind::False,
            TokenKind::Plus => TokenKind::Plus,
            TokenKind::Minus => TokenKind::Minus,
            TokenKind::Star => TokenKind::Star,
            TokenKind::Slash => TokenKind::Slash,
            TokenKind::Percent => TokenKind::Percent,
            TokenKind::Equal => TokenKind::Equal,
            TokenKind::EqualEqual => TokenKind::EqualEqual,
            TokenKind::NotEqual => TokenKind::NotEqual,
            TokenKind::Not => TokenKind::Not,
            TokenKind::Arrow => TokenKind::Arrow,
            TokenKind::TypeSet => TokenKind::TypeSet,
            TokenKind::Less => TokenKind::Less,
            TokenKind::Greater => TokenKind::Greater,
            TokenKind::LessEqual => TokenKind::LessEqual,
            TokenKind::GreaterEqual => TokenKind::GreaterEqual,
            TokenKind::And => TokenKind::And,
            TokenKind::Or => TokenKind::Or,
            TokenKind::OpenParen => TokenKind::OpenParen,
            TokenKind::CloseParen => TokenKind::CloseParen,
            TokenKind::OpenBrace => TokenKind::OpenBrace,
            TokenKind::CloseBrace => TokenKind::CloseBrace,
            TokenKind::OpenBracket => TokenKind::OpenBracket,
            TokenKind::CloseBracket => TokenKind::CloseBracket,
            TokenKind::Colon => TokenKind::Colon,
            TokenKind::Semicolon => TokenKind::Semicolon,
            TokenKind::Comma => TokenKind::Comma,
            TokenKind::Dot => TokenKind::Dot,
            TokenKind::End => TokenKind::End,
            TokenKind::Invalid => TokenKind::Invalid,
        }
    }
}

impl Clone for Token {
    fn clone(&self) -> (r: Self)
        ensures
            r == *self,
    {
        Token { Kind: self.Kind.clone(), Line: self.Line, Column: self.Column }
    }
}

} // verus!
