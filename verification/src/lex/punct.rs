//! Punctuation and operators: the fixed symbols of one, two and three bytes,
//! of which the scanner takes the longest that fits.

use crate::lex::token::TokenInfo;
use vstd::prelude::*;

verus! {

/// The symbol that the one byte spells, if there is one.
pub open spec fn punct1(b0: u8) -> Option<TokenInfo> {
    match b0 as char {
        '+' => Some(TokenInfo::Plus),
        '&' => Some(TokenInfo::Amp),
        '(' => Some(TokenInfo::LParen),
        ')' => Some(TokenInfo::RParen),
        '-' => Some(TokenInfo::Minus),
        '|' => Some(TokenInfo::Pipe),
        '<' => Some(TokenInfo::Lt),
        '[' => Some(TokenInfo::LBracket),
        ']' => Some(TokenInfo::RBracket),
        '*' => Some(TokenInfo::Star),
        '^' => Some(TokenInfo::Caret),
        '>' => Some(TokenInfo::Gt),
        '{' => Some(TokenInfo::LBrace),
        '}' => Some(TokenInfo::RBrace),
        '/' => Some(TokenInfo::Slash),
        '=' => Some(TokenInfo::Eq),
        ',' => Some(TokenInfo::Comma),
        ';' => Some(TokenInfo::Semicolon),
        '%' => Some(TokenInfo::Percent),
        '!' => Some(TokenInfo::Not),
        '.' => Some(TokenInfo::Dot),
        ':' => Some(TokenInfo::Colon),
        _ => None,
    }
}

pub(crate) fn symbol1(b0: u8) -> (r: Option<TokenInfo>)
    ensures
        r == punct1(b0),
{
    match b0 as char {
        '+' => Some(TokenInfo::Plus),
        '&' => Some(TokenInfo::Amp),
        '(' => Some(TokenInfo::LParen),
        ')' => Some(TokenInfo::RParen),
        '-' => Some(TokenInfo::Minus),
        '|' => Some(TokenInfo::Pipe),
        '<' => Some(TokenInfo::Lt),
        '[' => Some(TokenInfo::LBracket),
        ']' => Some(TokenInfo::RBracket),
        '*' => Some(TokenInfo::Star),
        '^' => Some(TokenInfo::Caret),
        '>' => Some(TokenInfo::Gt),
        '{' => Some(TokenInfo::LBrace),
        '}' => Some(TokenInfo::RBrace),
        '/' => Some(TokenInfo::Slash),
        '=' => Some(TokenInfo::Eq),
        ',' => Some(TokenInfo::Comma),
        ';' => Some(TokenInfo::Semicolon),
        '%' => Some(TokenInfo::Percent),
        '!' => Some(TokenInfo::Not),
        '.' => Some(TokenInfo::Dot),
        ':' => Some(TokenInfo::Colon),
        _ => None,
    }
}

/// The symbol that the two bytes spell, if there is one.
pub open spec fn punct2(b0: u8, b1: u8) -> Option<TokenInfo> {
    match (b0 as char, b1 as char) {
        ('+', '=') => Some(TokenInfo::PlusEq),
        ('&', '=') => Some(TokenInfo::AmpEq),
        ('&', '&') => Some(TokenInfo::AmpAmp),
        ('=', '=') => Some(TokenInfo::EqEq),
        ('!', '=') => Some(TokenInfo::NotEq),
        ('-', '=') => Some(TokenInfo::MinusEq),
        ('|', '=') => Some(TokenInfo::PipeEq),
        ('|', '|') => Some(TokenInfo::PipePipe),
        ('<', '=') => Some(TokenInfo::LtEq),
        ('*', '=') => Some(TokenInfo::StarEq),
        ('^', '=') => Some(TokenInfo::CaretEq),
        ('<', '-') => Some(TokenInfo::LtMinus),
        ('>', '=') => Some(TokenInfo::GtEq),
        ('<', '<') => Some(TokenInfo::LtLt),
        ('/', '=') => Some(TokenInfo::SlashEq),
        ('+', '+') => Some(TokenInfo::PlusPlus),
        (':', '=') => Some(TokenInfo::ColonEq),
        ('>', '>') => Some(TokenInfo::GtGt),
        ('%', '=') => Some(TokenInfo::PercentEq),
        ('-', '-') => Some(TokenInfo::MinusMinus),
        ('&', '^') => Some(TokenInfo::AmpCaret),
        _ => None,
    }
}

pub(crate) fn symbol2(b0: u8, b1: u8) -> (r: Option<TokenInfo>)
    ensures
        r == punct2(b0, b1),
{
    match (b0 as char, b1 as char) {
        ('+', '=') => Some(TokenInfo::PlusEq),
        ('&', '=') => Some(TokenInfo::AmpEq),
        ('&', '&') => Some(TokenInfo::AmpAmp),
        ('=', '=') => Some(TokenInfo::EqEq),
        ('!', '=') => Some(TokenInfo::NotEq),
        ('-', '=') => Some(TokenInfo::MinusEq),
        ('|', '=') => Some(TokenInfo::PipeEq),
        ('|', '|') => Some(TokenInfo::PipePipe),
        ('<', '=') => Some(TokenInfo::LtEq),
        ('*', '=') => Some(TokenInfo::StarEq),
        ('^', '=') => Some(TokenInfo::CaretEq),
        ('<', '-') => Some(TokenInfo::LtMinus),
        ('>', '=') => Some(TokenInfo::GtEq),
        ('<', '<') => Some(TokenInfo::LtLt),
        ('/', '=') => Some(TokenInfo::SlashEq),
        ('+', '+') => Some(TokenInfo::PlusPlus),
        (':', '=') => Some(TokenInfo::ColonEq),
        ('>', '>') => Some(TokenInfo::GtGt),
        ('%', '=') => Some(TokenInfo::PercentEq),
        ('-', '-') => Some(TokenInfo::MinusMinus),
        ('&', '^') => Some(TokenInfo::AmpCaret),
        _ => None,
    }
}

/// The symbol that the three bytes spell, if there is one.
pub open spec fn punct3(b0: u8, b1: u8, b2: u8) -> Option<TokenInfo> {
    match (b0 as char, b1 as char, b2 as char) {
        ('<', '<', '=') => Some(TokenInfo::LtLtEq),
        ('>', '>', '=') => Some(TokenInfo::GtGtEq),
        ('&', '^', '=') => Some(TokenInfo::AmpCaretEq),
        ('.', '.', '.') => Some(TokenInfo::Ellipsis),
        _ => None,
    }
}

pub(crate) fn symbol3(b0: u8, b1: u8, b2: u8) -> (r: Option<TokenInfo>)
    ensures
        r == punct3(b0, b1, b2),
{
    match (b0 as char, b1 as char, b2 as char) {
        ('<', '<', '=') => Some(TokenInfo::LtLtEq),
        ('>', '>', '=') => Some(TokenInfo::GtGtEq),
        ('&', '^', '=') => Some(TokenInfo::AmpCaretEq),
        ('.', '.', '.') => Some(TokenInfo::Ellipsis),
        _ => None,
    }
}

/// The longest symbol that starts at `pos`, with its length in bytes.
pub open spec fn punct_at(src: Seq<u8>, pos: int) -> Option<(TokenInfo, int)> {
    if pos + 3 <= src.len() && punct3(src[pos], src[pos + 1], src[pos + 2]) is Some {
        Some((punct3(src[pos], src[pos + 1], src[pos + 2])->0, 3))
    } else if pos + 2 <= src.len() && punct2(src[pos], src[pos + 1]) is Some {
        Some((punct2(src[pos], src[pos + 1])->0, 2))
    } else if pos + 1 <= src.len() && punct1(src[pos]) is Some {
        Some((punct1(src[pos])->0, 1))
    } else {
        None
    }
}

pub(crate) fn scan_punct(bytes: &[u8], pos: usize) -> (r: Option<(TokenInfo, usize)>)
    requires
        pos < bytes.len(),
    ensures
        match r {
            Some((kind, end)) => punct_at(bytes@, pos as int) == Some((kind, end - pos)) && pos
                < end <= bytes.len() && end <= pos + 3,
            None => punct_at(bytes@, pos as int) is None,
        },
{
    let len = bytes.len();
    if len - pos >= 3 {
        if let Some(kind) = symbol3(bytes[pos], bytes[pos + 1], bytes[pos + 2]) {
            return Some((kind, pos + 3));
        }
    }
    if len - pos >= 2 {
        if let Some(kind) = symbol2(bytes[pos], bytes[pos + 1]) {
            return Some((kind, pos + 2));
        }
    }
    match symbol1(bytes[pos]) {
        Some(kind) => Some((kind, pos + 1)),
        None => None,
    }
}

} // verus!
