//! Identifiers and keywords.

use crate::lex::chars::{
    dec_digit, is_dec_digit, is_letter_byte, letter_byte, lemma_scalar_step, next_scalar,
    scalar_at, scalar_len, unicode_digit, unicode_letter,
};
use crate::lex::token::{span, KindView, Token, TokenInfo, TokenView};
use crate::loc::Loc;
use vstd::prelude::*;
use vstd::string::*;
use vstd::utf8::*;

verus! {

/// The characters that the bytes from `start` to `end` encode.
pub open spec fn text_of(src: Seq<u8>, start: int, end: int) -> Seq<char> {
    decode_utf8(src.subrange(start, end))
}

/// Between two character boundaries of well-formed text lies well-formed
/// text, and the first of them is a boundary of the text before the second.
pub proof fn lemma_slice_boundaries(src: Seq<u8>, start: int, end: int)
    requires
        valid_utf8(src),
        0 <= start <= end <= src.len(),
        is_char_boundary(src, start),
        is_char_boundary(src, end),
    ensures
        valid_utf8(src.subrange(0, end)),
        is_char_boundary(src.subrange(0, end), start),
        valid_utf8(src.subrange(start, end)),
{
    valid_utf8_split(src, end);
    let head = src.subrange(0, end);
    if start < end {
        is_char_boundary_iff_not_is_continuation_byte(src, start);
        is_char_boundary_iff_not_is_continuation_byte(head, start);
    } else {
        is_char_boundary_start_end_of_seq(head);
    }
    valid_utf8_split(head, start);
    assert(head.subrange(start, end) =~= src.subrange(start, end));
}

/// Copies the text between two character boundaries.
pub(crate) fn slice_text(source: &str, start: usize, end: usize) -> (text: String)
    requires
        start <= end <= source.spec_bytes().len(),
        is_char_boundary(source.spec_bytes(), start as int),
        is_char_boundary(source.spec_bytes(), end as int),
    ensures
        text@ == text_of(source.spec_bytes(), start as int, end as int),
{
    let ghost src = source.spec_bytes();
    proof {
        encode_utf8_valid_utf8(source@);
        lemma_slice_boundaries(src, start as int, end as int);
    }
    let (head, _) = source.split_at(end);
    let (_, word) = head.split_at(start);
    proof {
        assert(word.spec_bytes() =~= src.subrange(start as int, end as int));
        encode_utf8_decode_utf8(word@);
    }
    word.to_owned()
}

/// Whether two texts hold the same characters.
pub(crate) fn same_text(a: &str, b: &str) -> (r: bool)
    ensures
        r == (a@ == b@),
{
    let x = a.as_bytes();
    let y = b.as_bytes();
    proof {
        encode_utf8_decode_utf8(a@);
        encode_utf8_decode_utf8(b@);
    }
    if x.len() != y.len() {
        return false;
    }
    let mut i: usize = 0;
    while i < x.len()
        invariant
            x@ == a.spec_bytes(),
            y@ == b.spec_bytes(),
            x.len() == y.len(),
            i <= x.len(),
            x@.subrange(0, i as int) == y@.subrange(0, i as int),
        decreases x.len() - i,
    {
        if x[i] != y[i] {
            assert(x@[i as int] != y@[i as int]);
            return false;
        }
        assert(x@.subrange(0, i + 1) =~= x@.subrange(0, i as int).push(x@[i as int]));
        assert(y@.subrange(0, i + 1) =~= y@.subrange(0, i as int).push(y@[i as int]));
        i = i + 1;
    }
    assert(x@ =~= x@.subrange(0, i as int));
    assert(y@ =~= y@.subrange(0, i as int));
    true
}

/// The keyword that `text` spells, if it spells one.
pub open spec fn keyword(text: Seq<char>) -> Option<TokenInfo> {
    if text == "break"@ {
        Some(TokenInfo::Break)
    } else if text == "default"@ {
        Some(TokenInfo::Default)
    } else if text == "func"@ {
        Some(TokenInfo::Func)
    } else if text == "interface"@ {
        Some(TokenInfo::Interface)
    } else if text == "select"@ {
        Some(TokenInfo::Select)
    } else if text == "case"@ {
        Some(TokenInfo::Case)
    } else if text == "defer"@ {
        Some(TokenInfo::Defer)
    } else if text == "go"@ {
        Some(TokenInfo::Go)
    } else if text == "map"@ {
        Some(TokenInfo::MapKw)
    } else if text == "struct"@ {
        Some(TokenInfo::Struct)
    } else if text == "chan"@ {
        Some(TokenInfo::Chan)
    } else if text == "else"@ {
        Some(TokenInfo::Else)
    } else if text == "goto"@ {
        Some(TokenInfo::Goto)
    } else if text == "package"@ {
        Some(TokenInfo::Package)
    } else if text == "switch"@ {
        Some(TokenInfo::Switch)
    } else if text == "const"@ {
        Some(TokenInfo::Const)
    } else if text == "fallthrough"@ {
        Some(TokenInfo::Fallthrough)
    } else if text == "if"@ {
        Some(TokenInfo::If)
    } else if text == "range"@ {
        Some(TokenInfo::Range)
    } else if text == "type"@ {
        Some(TokenInfo::Type)
    } else if text == "continue"@ {
        Some(TokenInfo::Continue)
    } else if text == "for"@ {
        Some(TokenInfo::For)
    } else if text == "import"@ {
        Some(TokenInfo::Import)
    } else if text == "return"@ {
        Some(TokenInfo::Return)
    } else if text == "var"@ {
        Some(TokenInfo::Var)
    } else {
        None
    }
}

pub(crate) fn keyword_of(word: &str) -> (r: Option<TokenInfo>)
    ensures
        r == keyword(word@),
{
    if same_text(word, "break") {
        Some(TokenInfo::Break)
    } else if same_text(word, "default") {
        Some(TokenInfo::Default)
    } else if same_text(word, "func") {
        Some(TokenInfo::Func)
    } else if same_text(word, "interface") {
        Some(TokenInfo::Interface)
    } else if same_text(word, "select") {
        Some(TokenInfo::Select)
    } else if same_text(word, "case") {
        Some(TokenInfo::Case)
    } else if same_text(word, "defer") {
        Some(TokenInfo::Defer)
    } else if same_text(word, "go") {
        Some(TokenInfo::Go)
    } else if same_text(word, "map") {
        Some(TokenInfo::MapKw)
    } else if same_text(word, "struct") {
        Some(TokenInfo::Struct)
    } else if same_text(word, "chan") {
        Some(TokenInfo::Chan)
    } else if same_text(word, "else") {
        Some(TokenInfo::Else)
    } else if same_text(word, "goto") {
        Some(TokenInfo::Goto)
    } else if same_text(word, "package") {
        Some(TokenInfo::Package)
    } else if same_text(word, "switch") {
        Some(TokenInfo::Switch)
    } else if same_text(word, "const") {
        Some(TokenInfo::Const)
    } else if same_text(word, "fallthrough") {
        Some(TokenInfo::Fallthrough)
    } else if same_text(word, "if") {
        Some(TokenInfo::If)
    } else if same_text(word, "range") {
        Some(TokenInfo::Range)
    } else if same_text(word, "type") {
        Some(TokenInfo::Type)
    } else if same_text(word, "continue") {
        Some(TokenInfo::Continue)
    } else if same_text(word, "for") {
        Some(TokenInfo::For)
    } else if same_text(word, "import") {
        Some(TokenInfo::Import)
    } else if same_text(word, "return") {
        Some(TokenInfo::Return)
    } else if same_text(word, "var") {
        Some(TokenInfo::Var)
    } else {
        None
    }
}

/// The number of bytes of the letter that starts at `pos`, or of the letter
/// or digit where `digits` is set; 0 where none starts there. A letter is an
/// ASCII letter, the underscore, or a scalar value beyond ASCII that counts
/// as a letter; a digit likewise.
pub open spec fn word_char_len(src: Seq<u8>, pos: int, digits: bool) -> int {
    if !(0 <= pos < src.len()) {
        0
    } else if src[pos] < 0x80 {
        if is_letter_byte(src[pos]) || (digits && is_dec_digit(src[pos])) {
            1
        } else {
            0
        }
    } else if pos + scalar_len(src, pos) <= src.len() && (unicode_letter(scalar_at(src, pos)) || (
    digits && unicode_digit(scalar_at(src, pos)))) {
        scalar_len(src, pos)
    } else {
        0
    }
}

/// Where the run of letters and digits that starts at `pos` ends.
pub open spec fn word_end(src: Seq<u8>, pos: int) -> int
    decreases src.len() - pos,
{
    let n = word_char_len(src, pos, true);
    if n > 0 {
        word_end(src, pos + n)
    } else {
        pos
    }
}

/// A word ends inside the text, and behind its start where a letter or a
/// digit stands there.
pub proof fn lemma_word_end(src: Seq<u8>, pos: int)
    requires
        0 <= pos <= src.len(),
    ensures
        pos + word_char_len(src, pos, true) <= word_end(src, pos) <= src.len(),
    decreases src.len() - pos,
{
    let n = word_char_len(src, pos, true);
    if n > 0 {
        lemma_word_end(src, pos + n);
    }
}

/// The kind of a word: the keyword that it spells, else an identifier.
pub open spec fn word_kind(text: Seq<char>) -> KindView {
    match keyword(text) {
        Some(kind) => KindView::Plain(kind),
        None => KindView::Identifier(text),
    }
}

/// The token of the word that starts at `pos`.
pub open spec fn word_token(src: Seq<u8>, pos: int) -> TokenView {
    TokenView {
        loc: span(pos, word_end(src, pos)),
        kind: word_kind(text_of(src, pos, word_end(src, pos))),
    }
}

/// Where the letter (or, with `digits`, the letter or digit) at `pos` ends;
/// `pos` itself where none starts there.
pub(crate) fn word_char_end(bytes: &[u8], pos: usize, digits: bool) -> (end: usize)
    requires
        valid_utf8(bytes@),
        is_char_boundary(bytes@, pos as int),
        pos <= bytes.len(),
    ensures
        end == pos + word_char_len(bytes@, pos as int, digits),
        pos <= end <= bytes.len(),
        is_char_boundary(bytes@, end as int),
{
    if pos >= bytes.len() {
        return pos;
    }
    proof {
        lemma_scalar_step(bytes@, pos as int);
    }
    let b = bytes[pos];
    if b < 0x80 {
        if letter_byte(b) || (digits && dec_digit(b)) {
            pos + 1
        } else {
            pos
        }
    } else {
        let (c, end) = next_scalar(bytes, pos);
        if c.is_alphabetic() || (digits && c.is_numeric()) {
            end
        } else {
            pos
        }
    }
}

/// Reads the identifier or keyword that starts at `pos`.
pub(crate) fn scan_word(source: &str, pos: usize) -> (r: (Token, usize))
    requires
        is_char_boundary(source.spec_bytes(), pos as int),
        word_char_len(source.spec_bytes(), pos as int, false) > 0,
    ensures
        r.0.deep_view() == word_token(source.spec_bytes(), pos as int),
        r.1 == word_end(source.spec_bytes(), pos as int),
        pos < r.1 <= source.spec_bytes().len(),
        is_char_boundary(source.spec_bytes(), r.1 as int),
{
    let bytes = source.as_bytes();
    proof {
        encode_utf8_valid_utf8(source@);
    }
    let mut end = word_char_end(bytes, pos, true);
    loop
        invariant
            bytes@ == source.spec_bytes(),
            valid_utf8(bytes@),
            pos < end <= bytes.len(),
            is_char_boundary(bytes@, end as int),
            word_end(bytes@, pos as int) == word_end(bytes@, end as int),
        ensures
            word_end(bytes@, pos as int) == end,
        decreases bytes.len() - end,
    {
        let next = word_char_end(bytes, end, true);
        if next == end {
            break;
        }
        end = next;
    }
    let text = slice_text(source, pos, end);
    let kind = match keyword_of(text.as_str()) {
        Some(kind) => kind,
        None => TokenInfo::Identifier(text),
    };
    (Token { loc: Loc { start: pos, end }, kind }, end)
}

} // verus!
