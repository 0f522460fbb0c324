//! The parser: from source text to programs.

pub mod grammar;
pub mod laws;
pub mod lexer;
pub mod parser;

pub use lexer::{Lexer, Token, TokenKind};
pub use parser::{ParseError, Parser};
