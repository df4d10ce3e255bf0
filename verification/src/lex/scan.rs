//! The scanner: from source text to lexemes.
//!
//! At each offset the scanner reads one of: a run of blanks, a line feed, a
//! comment, a word, a numeric literal, a rune or string literal, or the
//! longest symbol that fits. A rune or string literal yields three tokens,
//! for its opening quote, its contents and its closing quote. The first
//! malformed input ends the scan with an error.
//!
//! A comment counts as white space. A block comment that holds a line feed
//! counts as a newline that stands where the comment starts, so that it
//! ends a statement as a line break would.

use crate::lex::chars::{
    char_end, dec_digit, lemma_ascii_boundary, lemma_ascii_stretch, lemma_run_end,
    lemma_scalar_step, run_end, scalar_end, scan_run, ByteClass,
};
use crate::lex::number::{byte_is, lemma_number_ascii, number, number_starts, scan_number};
use crate::lex::punct::{punct_at, scan_punct};
use crate::lex::quoted::{
    lemma_escape_advances, lemma_string_body_close, raw_string_literal, rune_literal,
    scan_raw_string, scan_rune, scan_string, string_literal,
};
use crate::lex::token::{
    plain_token, span, KindView, LexError, Lexeme, LexemeView, Token, TokenInfo, TokenView,
};
use crate::lex::words::{
    lemma_word_end, scan_word, word_char_end, word_char_len, word_end, word_token,
};
use crate::loc::Loc;
use vstd::prelude::*;
use vstd::string::*;
use vstd::utf8::*;

verus! {

/// What the scanner reads at one offset: the lexemes, and where it goes on.
pub struct Step {
    pub lexemes: Seq<LexemeView>,
    pub next: int,
}

/// The offset of the first `*/` from `pos` on, if there is one.
pub open spec fn comment_close(src: Seq<u8>, pos: int) -> Option<int>
    decreases src.len() - pos,
{
    if pos < 0 || pos + 2 > src.len() {
        None
    } else if src[pos] == '*' as u8 && src[pos + 1] == '/' as u8 {
        Some(pos)
    } else {
        comment_close(src, pos + 1)
    }
}

pub proof fn lemma_comment_close(src: Seq<u8>, pos: int)
    requires
        0 <= pos,
    ensures
        comment_close(src, pos) matches Some(close) ==> pos <= close && close + 2 <= src.len()
            && src[close] == '*' as u8 && src[close + 1] == '/' as u8,
    decreases src.len() - pos,
{
    if pos + 2 <= src.len() && !(src[pos] == '*' as u8 && src[pos + 1] == '/' as u8) {
        lemma_comment_close(src, pos + 1);
    }
}

/// The three tokens of a rune or string literal whose opening quote stands
/// at `pos` and whose closing quote stands at `close`.
pub open spec fn literal(
    open: TokenInfo,
    contents: KindView,
    closing: TokenInfo,
    pos: int,
    close: int,
) -> Step {
    Step {
        lexemes: seq![
            LexemeView::Token(plain_token(pos, pos + 1, open)),
            LexemeView::Token(TokenView { loc: span(pos + 1, close), kind: contents }),
            LexemeView::Token(plain_token(close, close + 1, closing)),
        ],
        next: close + 1,
    }
}

/// A step that yields one lexeme.
pub open spec fn single(lexeme: LexemeView, next: int) -> Step {
    Step { lexemes: seq![lexeme], next }
}

/// Whether white space starts at `pos`: a blank, a line feed or a comment.
pub open spec fn space_starts(src: Seq<u8>, pos: int) -> bool {
    ByteClass::Blank.holds(src[pos]) || byte_is(src, pos, '\n') || (byte_is(src, pos, '/') && (
    byte_is(src, pos + 1, '/') || byte_is(src, pos + 1, '*')))
}

/// The white space at `pos`: a run of blanks, one line feed, a comment up
/// to the end of its line, or a block comment. A block comment with a line
/// feed in it is a newline; one that is not closed is an error.
pub open spec fn space_step(src: Seq<u8>, pos: int) -> Result<Step, LexError> {
    if ByteClass::Blank.holds(src[pos]) {
        Ok(single(LexemeView::Whitespace, run_end(src, pos, ByteClass::Blank)))
    } else if byte_is(src, pos, '\n') {
        Ok(single(LexemeView::Newline(pos as usize, (pos + 1) as usize), pos + 1))
    } else if byte_is(src, pos + 1, '/') {
        Ok(single(LexemeView::Whitespace, run_end(src, pos + 2, ByteClass::WithinLine)))
    } else {
        match comment_close(src, pos + 2) {
            Some(close) => Ok(
                single(
                    if run_end(src, pos, ByteClass::WithinLine) < close {
                        LexemeView::Newline(pos as usize, (close + 2) as usize)
                    } else {
                        LexemeView::Whitespace
                    },
                    close + 2,
                ),
            ),
            None => Err(LexError::UnterminatedComment),
        }
    }
}

/// Whether a rune or string literal starts at `pos`.
pub open spec fn quoted_starts(src: Seq<u8>, pos: int) -> bool {
    byte_is(src, pos, '\'') || byte_is(src, pos, '"') || byte_is(src, pos, '`')
}

/// The rune or string literal at `pos`.
pub open spec fn quoted_step(src: Seq<u8>, pos: int) -> Result<Step, LexError> {
    if byte_is(src, pos, '\'') {
        match rune_literal(src, pos) {
            Ok((c, close)) => Ok(
                literal(
                    TokenInfo::RuneBeg,
                    KindView::Plain(TokenInfo::RuneContents(c)),
                    TokenInfo::RuneEnd,
                    pos,
                    close,
                ),
            ),
            Err(e) => Err(e),
        }
    } else {
        let read = if byte_is(src, pos, '"') {
            string_literal(src, pos)
        } else {
            raw_string_literal(src, pos)
        };
        match read {
            Ok((bytes, close)) => Ok(
                literal(
                    TokenInfo::StringBeg,
                    KindView::StringContents(bytes),
                    TokenInfo::StringEnd,
                    pos,
                    close,
                ),
            ),
            Err(e) => Err(e),
        }
    }
}

/// The word, the numeric literal or the symbol at `pos`; where none of them
/// starts there, the character at `pos` is unexpected.
pub open spec fn plain_step(src: Seq<u8>, pos: int) -> Result<Step, LexError> {
    if word_char_len(src, pos, false) > 0 {
        Ok(single(LexemeView::Token(word_token(src, pos)), word_end(src, pos)))
    } else if number_starts(src, pos) {
        match number(src, pos) {
            Ok((token, end)) => Ok(single(LexemeView::Token(token), end)),
            Err(e) => Err(e),
        }
    } else {
        match punct_at(src, pos) {
            Some((kind, n)) => Ok(
                single(LexemeView::Token(plain_token(pos, pos + n, kind)), pos + n),
            ),
            None => Err(LexError::UnexpectedChar(pos as usize, char_end(src, pos) as usize)),
        }
    }
}

/// What the scanner reads at `pos`, an offset before the end of the text.
pub open spec fn step(src: Seq<u8>, pos: int) -> Result<Step, LexError> {
    if space_starts(src, pos) {
        space_step(src, pos)
    } else if quoted_starts(src, pos) {
        quoted_step(src, pos)
    } else {
        plain_step(src, pos)
    }
}

/// Whether a step came out as `want` says: the same error, or the same
/// offset to go on from, with the lexemes of the step behind those that
/// were there before.
pub open spec fn step_taken(
    r: Result<usize, LexError>,
    before: Seq<LexemeView>,
    after: Seq<LexemeView>,
    want: Result<Step, LexError>,
) -> bool {
    match want {
        Ok(s) => r matches Ok(next) && next == s.next && after == before + s.lexemes,
        Err(err) => r matches Err(e) && e == err,
    }
}

/// Every step that succeeds moves on, and stays inside the text.
pub proof fn lemma_step_advances(src: Seq<u8>, pos: int)
    requires
        0 <= pos < src.len(),
    ensures
        step(src, pos) matches Ok(s) ==> pos < s.next <= src.len(),
{
    lemma_run_end(src, pos, ByteClass::Blank);
    lemma_run_end(src, pos + 1, ByteClass::WithinRawString);
    lemma_comment_close(src, pos + 2);
    lemma_word_end(src, pos);
    lemma_string_body_close(src, pos + 1);
    if pos + 2 <= src.len() {
        lemma_run_end(src, pos + 2, ByteClass::WithinLine);
    }
    if number_starts(src, pos) {
        lemma_number_ascii(src, pos);
    }
    if pos + 1 < src.len() {
        lemma_escape_advances(src, pos + 1, '\'' as u8);
    }
}

/// `done` put in front of the lexemes that the rest of a scan yields.
pub open spec fn followed_by(
    done: Seq<LexemeView>,
    rest: Result<Seq<LexemeView>, LexError>,
) -> Result<Seq<LexemeView>, LexError> {
    match rest {
        Ok(more) => Ok(done + more),
        Err(e) => Err(e),
    }
}

/// The lexemes of the text from `pos` on, or the first error.
pub open spec fn scan_from(src: Seq<u8>, pos: int) -> Result<Seq<LexemeView>, LexError>
    decreases src.len() - pos,
{
    if !(0 <= pos < src.len()) {
        Ok(Seq::empty())
    } else {
        match step(src, pos) {
            Ok(s) => {
                proof {
                    lemma_step_advances(src, pos);
                }
                followed_by(s.lexemes, scan_from(src, s.next))
            },
            Err(e) => Err(e),
        }
    }
}

/// The lexemes of a text, or the first error in it.
pub open spec fn spec_scan(src: Seq<u8>) -> Result<Seq<LexemeView>, LexError> {
    scan_from(src, 0)
}

/// Whether a scan came out as `want` says.
pub open spec fn lexemes_read(
    r: Result<Vec<Lexeme>, LexError>,
    want: Result<Seq<LexemeView>, LexError>,
) -> bool {
    match want {
        Ok(lexemes) => r matches Ok(v) && v.deep_view() == lexemes,
        Err(err) => r matches Err(e) && e == err,
    }
}

fn push_lexeme(out: &mut Vec<Lexeme>, lexeme: Lexeme)
    ensures
        final(out).deep_view() == old(out).deep_view().push(lexeme.deep_view()),
{
    out.push(lexeme);
    assert(out.deep_view() =~= old(out).deep_view().push(lexeme.deep_view()));
}

fn push_token(out: &mut Vec<Lexeme>, start: usize, end: usize, kind: TokenInfo)
    ensures
        final(out).deep_view() == old(out).deep_view().push(
            LexemeView::Token(
                TokenView { loc: span(start as int, end as int), kind: kind.deep_view() },
            ),
        ),
{
    push_lexeme(out, Lexeme::Token(Token { loc: Loc { start, end }, kind }));
}

fn find_comment_close(bytes: &[u8], pos: usize) -> (r: Option<usize>)
    requires
        pos <= bytes.len(),
    ensures
        match comment_close(bytes@, pos as int) {
            Some(close) => r == Some(close as usize) && pos <= close && close + 2 <= bytes.len(),
            None => r is None,
        },
{
    let len = bytes.len();
    let mut i = pos;
    while len - i >= 2
        invariant
            pos <= i <= len,
            len == bytes.len(),
            comment_close(bytes@, pos as int) == comment_close(bytes@, i as int),
        decreases len - i,
    {
        if bytes[i] == '*' as u8 && bytes[i + 1] == '/' as u8 {
            return Some(i);
        }
        i = i + 1;
    }
    None
}

/// Reads the white space at `pos`.
fn scan_space(bytes: &[u8], pos: usize, out: &mut Vec<Lexeme>) -> (r: Result<usize, LexError>)
    requires
        valid_utf8(bytes@),
        pos < bytes.len(),
        is_char_boundary(bytes@, pos as int),
        space_starts(bytes@, pos as int),
    ensures
        step_taken(r, old(out).deep_view(), final(out).deep_view(), space_step(bytes@, pos as int)),
        r matches Ok(next) ==> pos < next <= bytes.len() && is_char_boundary(bytes@, next as int),
{
    let len = bytes.len();
    let ghost src = bytes@;
    let ghost before = out.deep_view();
    proof {
        lemma_scalar_step(src, pos as int);
        is_char_boundary_start_end_of_seq(src);
    }
    let b = bytes[pos];
    if ByteClass::Blank.test(b) {
        let end = scan_run(bytes, pos, ByteClass::Blank);
        proof {
            lemma_run_end(src, pos as int, ByteClass::Blank);
            lemma_ascii_stretch(src, pos as int, end as int);
        }
        push_lexeme(out, Lexeme::Whitespace);
        assert(out.deep_view() =~= before + seq![LexemeView::Whitespace]);
        Ok(end)
    } else if b == '\n' as u8 {
        push_lexeme(out, Lexeme::Newline(pos, pos + 1));
        assert(out.deep_view() =~= before + seq![
            LexemeView::Newline(pos as usize, (pos + 1) as usize),
        ]);
        Ok(pos + 1)
    } else if bytes[pos + 1] == '/' as u8 {
        let end = scan_run(bytes, pos + 2, ByteClass::WithinLine);
        proof {
            lemma_run_end(src, pos + 2, ByteClass::WithinLine);
            if end < len {
                lemma_ascii_boundary(src, end as int);
            }
        }
        push_lexeme(out, Lexeme::Whitespace);
        assert(out.deep_view() =~= before + seq![LexemeView::Whitespace]);
        Ok(end)
    } else {
        match find_comment_close(bytes, pos + 2) {
            Some(close) => {
                proof {
                    lemma_comment_close(src, pos + 2);
                    lemma_ascii_boundary(src, close + 1);
                    lemma_scalar_step(src, close + 1);
                }
                let lexeme = if scan_run(bytes, pos, ByteClass::WithinLine) < close {
                    Lexeme::Newline(pos, close + 2)
                } else {
                    Lexeme::Whitespace
                };
                push_lexeme(out, lexeme);
                assert(out.deep_view() =~= before + seq![lexeme.deep_view()]);
                Ok(close + 2)
            },
            None => Err(LexError::UnterminatedComment),
        }
    }
}

/// Appends the three tokens of a literal whose quotes stand at `pos` and
/// at `close`.
fn push_literal(
    out: &mut Vec<Lexeme>,
    open: TokenInfo,
    contents: TokenInfo,
    closing: TokenInfo,
    pos: usize,
    close: usize,
)
    requires
        pos < close < usize::MAX,
        open.deep_view() == KindView::Plain(open),
        closing.deep_view() == KindView::Plain(closing),
    ensures
        final(out).deep_view() == old(out).deep_view() + literal(
            open,
            contents.deep_view(),
            closing,
            pos as int,
            close as int,
        ).lexemes,
{
    let ghost before = out.deep_view();
    let ghost kind = contents.deep_view();
    push_token(out, pos, pos + 1, open);
    push_token(out, pos + 1, close, contents);
    push_token(out, close, close + 1, closing);
    assert(out.deep_view() =~= before + literal(
        open,
        kind,
        closing,
        pos as int,
        close as int,
    ).lexemes);
}

/// Reads the rune or string literal at `pos`.
fn scan_quoted(bytes: &[u8], pos: usize, out: &mut Vec<Lexeme>) -> (r: Result<usize, LexError>)
    requires
        valid_utf8(bytes@),
        pos < bytes.len(),
        quoted_starts(bytes@, pos as int),
    ensures
        step_taken(
            r,
            old(out).deep_view(),
            final(out).deep_view(),
            quoted_step(bytes@, pos as int),
        ),
        r matches Ok(next) ==> pos < next <= bytes.len() && is_char_boundary(bytes@, next as int),
{
    let b = bytes[pos];
    let read = if b == '\'' as u8 {
        match scan_rune(bytes, pos) {
            Ok((c, close)) => Ok((TokenInfo::RuneContents(c), close)),
            Err(e) => Err(e),
        }
    } else {
        let read = if b == '"' as u8 {
            scan_string(bytes, pos)
        } else {
            scan_raw_string(bytes, pos)
        };
        match read {
            Ok((contents, close)) => Ok((TokenInfo::StringContents(contents), close)),
            Err(e) => Err(e),
        }
    };
    match read {
        Ok((contents, close)) => {
            proof {
                lemma_ascii_boundary(bytes@, close as int);
                lemma_scalar_step(bytes@, close as int);
            }
            if b == '\'' as u8 {
                push_literal(out, TokenInfo::RuneBeg, contents, TokenInfo::RuneEnd, pos, close);
            } else {
                push_literal(out, TokenInfo::StringBeg, contents, TokenInfo::StringEnd, pos, close);
            }
            Ok(close + 1)
        },
        Err(e) => Err(e),
    }
}

/// Reads the word, the numeric literal or the symbol at `pos`.
fn scan_plain(source: &str, pos: usize, out: &mut Vec<Lexeme>) -> (r: Result<usize, LexError>)
    requires
        pos < source.spec_bytes().len(),
        is_char_boundary(source.spec_bytes(), pos as int),
    ensures
        step_taken(
            r,
            old(out).deep_view(),
            final(out).deep_view(),
            plain_step(source.spec_bytes(), pos as int),
        ),
        r matches Ok(next) ==> pos < next <= source.spec_bytes().len() && is_char_boundary(
            source.spec_bytes(),
            next as int,
        ),
{
    let bytes = source.as_bytes();
    let len = bytes.len();
    let ghost src = bytes@;
    let ghost before = out.deep_view();
    proof {
        encode_utf8_valid_utf8(source@);
    }
    let b = bytes[pos];
    if word_char_end(bytes, pos, false) > pos {
        let (token, end) = scan_word(source, pos);
        push_lexeme(out, Lexeme::Token(token));
        assert(out.deep_view() =~= before + seq![LexemeView::Token(token.deep_view())]);
        Ok(end)
    } else if dec_digit(b) || (b == '.' as u8 && len - pos >= 2 && dec_digit(bytes[pos + 1])) {
        match scan_number(source, pos) {
            Ok((token, end)) => {
                push_lexeme(out, Lexeme::Token(token));
                assert(out.deep_view() =~= before + seq![LexemeView::Token(token.deep_view())]);
                Ok(end)
            },
            Err(e) => Err(e),
        }
    } else {
        match scan_punct(bytes, pos) {
            Some((kind, end)) => {
                proof {
                    lemma_ascii_stretch(src, pos as int, end as int);
                }
                push_token(out, pos, end, kind);
                assert(out.deep_view() =~= before + plain_step(src, pos as int)->Ok_0.lexemes);
                Ok(end)
            },
            None => Err(LexError::UnexpectedChar(pos, scalar_end(bytes, pos))),
        }
    }
}

/// Reads what stands at `pos` and appends its lexemes to `out`.
fn scan_step(source: &str, pos: usize, out: &mut Vec<Lexeme>) -> (r: Result<usize, LexError>)
    requires
        pos < source.spec_bytes().len(),
        is_char_boundary(source.spec_bytes(), pos as int),
    ensures
        step_taken(
            r,
            old(out).deep_view(),
            final(out).deep_view(),
            step(source.spec_bytes(), pos as int),
        ),
        r matches Ok(next) ==> pos < next <= source.spec_bytes().len() && is_char_boundary(
            source.spec_bytes(),
            next as int,
        ),
{
    let bytes = source.as_bytes();
    let len = bytes.len();
    proof {
        encode_utf8_valid_utf8(source@);
    }
    let b = bytes[pos];
    let comment = b == '/' as u8 && len - pos >= 2 && (bytes[pos + 1] == '/' as u8 || bytes[pos
        + 1] == '*' as u8);
    if ByteClass::Blank.test(b) || b == '\n' as u8 || comment {
        scan_space(bytes, pos, out)
    } else if b == '\'' as u8 || b == '"' as u8 || b == '`' as u8 {
        scan_quoted(bytes, pos, out)
    } else {
        scan_plain(source, pos, out)
    }
}

/// Scans a source text into its lexemes. Fails at the first malformed input.
pub fn scan(source: &str) -> (r: Result<Vec<Lexeme>, LexError>)
    ensures
        lexemes_read(r, spec_scan(source.spec_bytes())),
{
    let len = source.as_bytes().len();
    let ghost src = source.spec_bytes();
    let mut out: Vec<Lexeme> = Vec::new();
    let mut pos: usize = 0;
    proof {
        encode_utf8_valid_utf8(source@);
        is_char_boundary_start_end_of_seq(src);
        assert(out.deep_view() + Seq::<LexemeView>::empty() =~= out.deep_view());
        assert(out.deep_view() =~= Seq::<LexemeView>::empty());
        if let Ok(all) = scan_from(src, 0) {
            assert(Seq::<LexemeView>::empty() + all =~= all);
        }
    }
    while pos < len
        invariant
            src == source.spec_bytes(),
            len == src.len(),
            pos <= len,
            is_char_boundary(src, pos as int),
            spec_scan(src) == followed_by(out.deep_view(), scan_from(src, pos as int)),
        decreases len - pos,
    {
        let ghost before = out.deep_view();
        match scan_step(source, pos, &mut out) {
            Ok(next) => {
                proof {
                    let s = step(src, pos as int)->Ok_0;
                    let tail = scan_from(src, next as int);
                    if tail is Ok {
                        assert(before + (s.lexemes + tail->Ok_0) =~= out.deep_view() + tail->Ok_0);
                    }
                }
                pos = next;
            },
            Err(e) => {
                return Err(e);
            },
        }
    }
    assert(out.deep_view() + Seq::<LexemeView>::empty() =~= out.deep_view());
    Ok(out)
}

} // verus!
