//! Lexical analysis: scanning source text into lexemes and turning the
//! lexemes into the token stream that the parser reads.

pub mod chars;
pub mod laws;
pub mod number;
pub mod punct;
pub mod quoted;
pub mod scan;
pub mod semicolons;
pub mod token;
pub mod words;

use crate::lex::scan::{scan, spec_scan};
use crate::lex::semicolons::{closed, insert_semicolons, with_semicolons};
use crate::lex::token::{LexError, Token, TokenView};
use vstd::prelude::*;
use vstd::string::*;

verus! {

/// The token stream of a text: the tokens of its lexemes with the
/// semicolons that line breaks stand for, closed by the end-of-input token;
/// or the first error in the text.
pub open spec fn spec_lex(src: Seq<u8>) -> Result<Seq<TokenView>, LexError> {
    match spec_scan(src) {
        Ok(lexemes) => Ok(closed(with_semicolons(lexemes), src.len() as usize)),
        Err(e) => Err(e),
    }
}

/// Whether lexing came out as `want` says.
pub open spec fn tokens_read(
    r: Result<Vec<Token>, LexError>,
    want: Result<Seq<TokenView>, LexError>,
) -> bool {
    match want {
        Ok(tokens) => r matches Ok(v) && v.deep_view() == tokens,
        Err(err) => r matches Err(e) && e == err,
    }
}

/// Turns a source text into the token stream that the parser reads.
pub fn lex(source: &str) -> (r: Result<Vec<Token>, LexError>)
    ensures
        tokens_read(r, spec_lex(source.spec_bytes())),
{
    match scan(source) {
        Ok(lexemes) => Ok(insert_semicolons(lexemes, source.as_bytes().len())),
        Err(e) => Err(e),
    }
}

} // verus!
