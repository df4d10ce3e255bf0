//! Tokens, lexemes and lexical errors, with their mathematical views.

use crate::loc::Loc;
use vstd::prelude::*;

verus! {

/// The ways in which scanning fails. Where a variant carries two offsets,
/// they are the start and the end of the offending bytes.
#[derive(Debug, Clone, Copy, PartialEq, Eq, Structural)]
pub enum LexError {
    UnexpectedChar(usize, usize),
    UnterminatedComment,
    UnterminatedString,
    UnterminatedRune,
    BadEscape(usize, usize),
    IllegalNewline(usize, usize),
    IllegalHexDigit(usize, usize),
    IllegalOctalValue(usize, usize),
    IllegalUnicodeValue(usize, usize),
}

/// The kind of a token, with the text of those kinds that carry one.
#[derive(Debug, Clone, PartialEq, Eq)]
pub enum TokenInfo {
    Eof,
    // non-keyword barewords:
    Identifier(String),
    // keywords:
    Break,
    Default,
    Func,
    Interface,
    Select,
    Case,
    Defer,
    Go,
    MapKw,
    Struct,
    Chan,
    Else,
    Goto,
    Package,
    Switch,
    Const,
    Fallthrough,
    If,
    Range,
    Type,
    Continue,
    For,
    Import,
    Return,
    Var,
    // punctuation:
    Plus,
    Amp,
    PlusEq,
    AmpEq,
    AmpAmp,
    EqEq,
    NotEq,
    LParen,
    RParen,
    Minus,
    Pipe,
    MinusEq,
    PipeEq,
    PipePipe,
    Lt,
    LtEq,
    LBracket,
    RBracket,
    Star,
    Caret,
    StarEq,
    CaretEq,
    LtMinus,
    Gt,
    GtEq,
    LBrace,
    RBrace,
    Slash,
    LtLt,
    SlashEq,
    LtLtEq,
    PlusPlus,
    Eq,
    ColonEq,
    Comma,
    Semicolon,
    Percent,
    GtGt,
    PercentEq,
    GtGtEq,
    MinusMinus,
    Not,
    Ellipsis,
    Dot,
    Colon,
    AmpCaret,
    AmpCaretEq,
    // integer literals:
    DecInt(String),
    OctInt(String),
    HexInt(String),
    // float literals:
    Float(String),
    // imaginary literals:
    Imaginary(String),
    // rune literals:
    RuneBeg,
    RuneContents(char),
    RuneEnd,
    // string literals:
    StringBeg,
    StringContents(Vec<u8>),
    StringEnd,
}

/// What a token kind denotes. A kind that carries text denotes that text as
/// a sequence; every other kind denotes itself.
pub enum KindView {
    Plain(TokenInfo),
    Identifier(Seq<char>),
    DecInt(Seq<char>),
    OctInt(Seq<char>),
    HexInt(Seq<char>),
    Float(Seq<char>),
    Imaginary(Seq<char>),
    StringContents(Seq<u8>),
}

impl DeepView for TokenInfo {
    type V = KindView;

    open spec fn deep_view(&self) -> KindView {
        match *self {
            TokenInfo::Identifier(text) => KindView::Identifier(text@),
            TokenInfo::DecInt(text) => KindView::DecInt(text@),
            TokenInfo::OctInt(text) => KindView::OctInt(text@),
            TokenInfo::HexInt(text) => KindView::HexInt(text@),
            TokenInfo::Float(text) => KindView::Float(text@),
            TokenInfo::Imaginary(text) => KindView::Imaginary(text@),
            TokenInfo::StringContents(bytes) => KindView::StringContents(bytes@),
            plain => KindView::Plain(plain),
        }
    }
}

/// A token: a kind and the place in the source where it stands.
#[derive(Debug, Clone, PartialEq, Eq)]
pub struct Token {
    pub loc: Loc,
    pub kind: TokenInfo,
}

pub struct TokenView {
    pub loc: Loc,
    pub kind: KindView,
}

impl DeepView for Token {
    type V = TokenView;

    open spec fn deep_view(&self) -> TokenView {
        TokenView { loc: self.loc, kind: self.kind.deep_view() }
    }
}

/// What the scanner produces before semicolons are inserted: a token, a run
/// of blanks or a comment within one line, or a newline marker with the
/// offsets at which it starts and ends.
#[derive(Debug, Clone, PartialEq, Eq)]
pub enum Lexeme {
    Token(Token),
    Whitespace,
    Newline(usize, usize),
}

pub enum LexemeView {
    Token(TokenView),
    Whitespace,
    Newline(usize, usize),
}

impl DeepView for Lexeme {
    type V = LexemeView;

    open spec fn deep_view(&self) -> LexemeView {
        match *self {
            Lexeme::Token(token) => LexemeView::Token(token.deep_view()),
            Lexeme::Whitespace => LexemeView::Whitespace,
            Lexeme::Newline(start, end) => LexemeView::Newline(start, end),
        }
    }
}

/// The location from `start` to `end`.
pub open spec fn span(start: int, end: int) -> Loc {
    Loc { start: start as usize, end: end as usize }
}

/// A token of a kind that carries no text.
pub open spec fn plain_token(start: int, end: int, kind: TokenInfo) -> TokenView {
    TokenView { loc: span(start, end), kind: KindView::Plain(kind) }
}

/// Whether reading one token came out as `want` says: the same error, or a
/// token that denotes the same and the same offset behind it.
pub open spec fn token_read(
    r: Result<(Token, usize), LexError>,
    want: Result<(TokenView, int), LexError>,
) -> bool {
    match want {
        Ok((token, end)) => r matches Ok((t, e)) && t.deep_view() == token && e == end,
        Err(err) => r matches Err(e) && e == err,
    }
}

} // verus!
