//! The lexer: turns source text into tokens.

pub mod keywords;
pub mod lexer;
pub mod scan;
pub mod token;

pub use lexer::Lexer;
pub use token::{Token, TokenKind};
