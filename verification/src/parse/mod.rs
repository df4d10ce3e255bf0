//! The parser: from the token stream to the syntax tree.
//!
//! The parser reads the token stream from left to right, looks no further
//! ahead than it must to tell the alternatives of the grammar apart, and
//! stops at the first token that does not fit.

pub mod cursor;
pub mod decl;
pub mod expr;
pub mod file;
pub mod grammar;
pub mod laws;
pub mod stmt;

use crate::ast::{SourceFile, Statement};
use crate::lex::token::{Token, TokenInfo, TokenView};
use crate::loc::Loc;
use crate::parse::cursor::Failure;
use crate::parse::file::{parse_lone_statement, parse_source_file};
use crate::parse::grammar::{lone_statement, source_file, token_at, FailureView};
use vstd::prelude::*;

verus! {

/// Why parsing failed: the token that did not fit, and a short description
/// of what was expected in its place.
#[derive(Debug, Clone, PartialEq, Eq)]
pub enum ParseError {
    UnexpectedToken(Token, &'static str),
}

/// Whether `error` reports the failure `failure` in `tokens`.
pub open spec fn reports(error: ParseError, tokens: Seq<TokenView>, failure: FailureView) -> bool {
    error matches ParseError::UnexpectedToken(token, expected) && token.deep_view() == token_at(
        tokens,
        failure.at,
    ) && expected@ == failure.expected
}

/// Whether parsing `tokens` came out as `want` says: a node with the same
/// view, or an error that reports the same failure.
pub open spec fn outcome<T: DeepView>(
    r: Result<T, ParseError>,
    tokens: Seq<TokenView>,
    want: Result<T::V, FailureView>,
) -> bool {
    match want {
        Ok(node) => r matches Ok(x) && x.deep_view() == node,
        Err(failure) => r matches Err(error) && reports(error, tokens, failure),
    }
}

/// Fails with the token at which parsing stopped. Behind the last token
/// that is an end-of-input token at the end of the stream.
fn unexpected<T>(tokens: Vec<Token>, failure: Failure) -> (r: Result<T, ParseError>)
    ensures
        r matches Err(error) && reports(error, tokens.deep_view(), failure.deep_view()),
{
    let mut tokens = tokens;
    let len = tokens.len();
    let token = if failure.at < len {
        tokens.swap_remove(failure.at)
    } else {
        let end = if len == 0 {
            0
        } else {
            tokens[len - 1].loc.end
        };
        Token { loc: Loc { start: end, end }, kind: TokenInfo::Eof }
    };
    Err(ParseError::UnexpectedToken(token, failure.expected))
}

/// Parses the token stream of a source file.
pub fn parse(tokens: Vec<Token>) -> (r: Result<SourceFile, ParseError>)
    ensures
        outcome(r, tokens.deep_view(), source_file(tokens.deep_view())),
{
    match parse_source_file(&tokens) {
        Ok(file) => Ok(file),
        Err(failure) => unexpected(tokens, failure),
    }
}

/// Parses a token stream that holds one statement.
pub fn parse_statement(tokens: Vec<Token>) -> (r: Result<Statement, ParseError>)
    ensures
        outcome(r, tokens.deep_view(), lone_statement(tokens.deep_view())),
{
    match parse_lone_statement(&tokens) {
        Ok(stmt) => Ok(stmt),
        Err(failure) => unexpected(tokens, failure),
    }
}

/// A parser for one token stream.
pub struct Parser {
    pub tokens: Vec<Token>,
}

impl Parser {
    /// A parser that will read `tokens`.
    pub fn new(tokens: Vec<Token>) -> (parser: Parser)
        ensures
            parser.tokens == tokens,
    {
        Parser { tokens }
    }

    /// Parses the token stream as a source file.
    pub fn parse(self) -> (r: Result<SourceFile, ParseError>)
        ensures
            outcome(r, self.tokens.deep_view(), source_file(self.tokens.deep_view())),
    {
        parse(self.tokens)
    }
}

} // verus!
