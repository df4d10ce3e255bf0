//! A front end for a Go-like language: a byte-level scanner, automatic
//! semicolon insertion, and a recursive-descent parser that builds a located
//! syntax tree.

pub mod ast;
pub mod lex;
pub mod loc;
pub mod parse;

pub use lex::lex;
pub use lex::scan::scan;
pub use lex::token::{LexError, Lexeme, Token, TokenInfo};
pub use loc::Loc;
pub use parse::{parse, parse_statement, ParseError, Parser};
