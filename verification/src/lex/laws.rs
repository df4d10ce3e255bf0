//! What holds of every token that the scanner yields.

use crate::lex::chars::{
    lemma_ascii_boundary, lemma_ascii_stretch, lemma_run_end, lemma_run_end_unique,
    lemma_scalar_step, rest, run_end, scalar_at, scalar_len, ByteClass,
};
use crate::lex::number::{
    byte_is, exponent_digits, float_end, has_exponent, has_fraction, hex_prefix,
    lemma_number_ascii, mantissa_end, number, number_starts,
};
use crate::lex::punct::punct_at;
use crate::lex::quoted::{
    lemma_escape_advances, lemma_string_body_close, raw_string_literal, rune_body, rune_literal,
    string_body, string_literal, without_cr,
};
use crate::lex::scan::{
    comment_close, lemma_comment_close, lemma_step_advances, literal, plain_step, quoted_starts,
    quoted_step, scan_from, single, space_starts, space_step, spec_scan, step, Step,
};
use crate::lex::semicolons::with_semicolons;
use crate::lex::spec_lex;
use crate::lex::token::{plain_token, span, KindView, LexError, LexemeView, TokenInfo, TokenView};
use crate::lex::words::{
    keyword, lemma_slice_boundaries, lemma_word_end, word_char_len, word_end, word_token,
};
use vstd::prelude::*;
use vstd::utf8::*;

verus! {

/// Whether the text at the location of `token` is what the token stands
/// for.
///
/// The text of an identifier or of a numeric literal is the text that the
/// token carries. The text of a keyword or a symbol spells it. The text of
/// the contents of a rune or string literal denotes what the token carries,
/// by the rules for escape sequences, and the tokens around it are the
/// quotes.
pub open spec fn surface_matches(src: Seq<u8>, token: TokenView) -> bool {
    let start = token.loc.start as int;
    let end = token.loc.end as int;
    let text = src.subrange(start, end);
    match token.kind {
        KindView::Identifier(s) => encode_utf8(s) == text && keyword(s) is None,
        KindView::DecInt(s) => encode_utf8(s) == text,
        KindView::OctInt(s) => encode_utf8(s) == text,
        KindView::HexInt(s) => encode_utf8(s) == text,
        KindView::Float(s) => encode_utf8(s) == text,
        KindView::Imaginary(s) => encode_utf8(s) == text,
        KindView::StringContents(bytes) => {
            ||| byte_is(src, start - 1, '"') && string_body(src, start) == Ok::<_, LexError>(
                (bytes, end),
            )
            ||| byte_is(src, start - 1, '`') && byte_is(src, end, '`') && bytes == without_cr(text)
        },
        KindView::Plain(TokenInfo::RuneContents(c)) => rune_body(src, start) == Ok::<_, LexError>(
            (c, end),
        ),
        KindView::Plain(TokenInfo::RuneBeg) => text == seq!['\'' as u8],
        KindView::Plain(TokenInfo::RuneEnd) => text == seq!['\'' as u8],
        KindView::Plain(TokenInfo::StringBeg) => text == seq!['"' as u8] || text == seq!['`' as u8],
        KindView::Plain(TokenInfo::StringEnd) => text == seq!['"' as u8] || text == seq!['`' as u8],
        KindView::Plain(kind) => {
            ||| keyword(decode_utf8(text)) == Some(kind)
            ||| punct_at(text, 0) == Some((kind, end - start))
        },
    }
}

/// Whether `token` lies inside the text, at character boundaries, and the
/// text at its location is what it stands for.
pub open spec fn token_in_place(src: Seq<u8>, token: TokenView) -> bool {
    &&& token.loc.within(src.len() as int)
    &&& is_char_boundary(src, token.loc.start as int)
    &&& is_char_boundary(src, token.loc.end as int)
    &&& surface_matches(src, token)
}

/// Whether a lexeme lies inside the text: a token stands in place, and a
/// newline starts and ends inside the text.
pub open spec fn lexeme_in_place(src: Seq<u8>, lexeme: LexemeView) -> bool {
    match lexeme {
        LexemeView::Token(token) => token_in_place(src, token),
        LexemeView::Whitespace => true,
        LexemeView::Newline(start, end) => start <= end <= src.len(),
    }
}

/// Whether a text is well formed and short enough for offsets to fit.
pub open spec fn is_source(src: Seq<u8>) -> bool {
    valid_utf8(src) && src.len() <= usize::MAX
}

/// A word that starts at a character boundary ends at one.
proof fn lemma_word_boundary(src: Seq<u8>, pos: int)
    requires
        valid_utf8(src),
        0 <= pos <= src.len(),
        is_char_boundary(src, pos),
    ensures
        is_char_boundary(src, word_end(src, pos)),
    decreases src.len() - pos,
{
    let n = word_char_len(src, pos, true);
    if n > 0 {
        lemma_scalar_step(src, pos);
        lemma_word_boundary(src, pos + n);
    }
}

proof fn lemma_space_step(src: Seq<u8>, pos: int)
    requires
        is_source(src),
        0 <= pos < src.len(),
        is_char_boundary(src, pos),
        space_starts(src, pos),
    ensures
        space_step(src, pos) matches Ok(s) ==> is_char_boundary(src, s.next) && s.lexemes.len()
            == 1 && !(s.lexemes[0] is Token) && lexeme_in_place(src, s.lexemes[0]),
{
    lemma_scalar_step(src, pos);
    is_char_boundary_start_end_of_seq(src);
    if ByteClass::Blank.holds(src[pos]) {
        lemma_run_end(src, pos, ByteClass::Blank);
        lemma_ascii_stretch(src, pos, run_end(src, pos, ByteClass::Blank));
    } else if byte_is(src, pos, '\n') {
    } else if byte_is(src, pos + 1, '/') {
        let end = run_end(src, pos + 2, ByteClass::WithinLine);
        lemma_run_end(src, pos + 2, ByteClass::WithinLine);
        if end < src.len() {
            lemma_ascii_boundary(src, end);
        }
    } else {
        lemma_comment_close(src, pos + 2);
        if let Some(close) = comment_close(src, pos + 2) {
            lemma_ascii_boundary(src, close + 1);
            lemma_scalar_step(src, close + 1);
        }
    }
}

/// The three tokens of a literal stand in place where its quotes and its
/// contents do.
proof fn lemma_literal_in_place(
    src: Seq<u8>,
    pos: int,
    close: int,
    open: TokenInfo,
    contents: KindView,
    closing: TokenInfo,
)
    requires
        is_source(src),
        0 <= pos < close < src.len(),
        src[pos] < 0x80,
        src[close] < 0x80,
        surface_matches(src, plain_token(pos, pos + 1, open)),
        surface_matches(src, TokenView { loc: span(pos + 1, close), kind: contents }),
        surface_matches(src, plain_token(close, close + 1, closing)),
    ensures
        is_char_boundary(src, close + 1),
        forall|j: int|
            0 <= j < 3 ==> (#[trigger] literal(open, contents, closing, pos, close).lexemes[j])
                is Token && token_in_place(
                src,
                literal(open, contents, closing, pos, close).lexemes[j]->Token_0,
            ),
{
    lemma_ascii_boundary(src, pos);
    lemma_scalar_step(src, pos);
    lemma_ascii_boundary(src, close);
    lemma_scalar_step(src, close);
}

proof fn lemma_rune_step(src: Seq<u8>, pos: int)
    requires
        is_source(src),
        0 <= pos < src.len(),
        byte_is(src, pos, '\''),
    ensures
        quoted_step(src, pos) matches Ok(s) ==> is_char_boundary(src, s.next) && (forall|j: int|
            0 <= j < s.lexemes.len() ==> (#[trigger] s.lexemes[j]) is Token && token_in_place(
                src,
                s.lexemes[j]->Token_0,
            )),
{
    if let Ok((c, close)) = rune_literal(src, pos) {
        lemma_escape_advances(src, pos + 1, '\'' as u8);
        assert(pos + 1 < close < src.len());
        assert(rune_body(src, pos + 1) == Ok::<_, LexError>((c, close)));
        assert(src.subrange(pos, pos + 1) =~= seq![src[pos]]);
        assert(src.subrange(close, close + 1) =~= seq![src[close]]);
        lemma_literal_in_place(
            src,
            pos,
            close,
            TokenInfo::RuneBeg,
            KindView::Plain(TokenInfo::RuneContents(c)),
            TokenInfo::RuneEnd,
        );
    }
}

proof fn lemma_string_step(src: Seq<u8>, pos: int)
    requires
        is_source(src),
        0 <= pos < src.len(),
        byte_is(src, pos, '"'),
    ensures
        quoted_step(src, pos) matches Ok(s) ==> is_char_boundary(src, s.next) && (forall|j: int|
            0 <= j < s.lexemes.len() ==> (#[trigger] s.lexemes[j]) is Token && token_in_place(
                src,
                s.lexemes[j]->Token_0,
            )),
{
    if let Ok((bytes, close)) = string_literal(src, pos) {
        lemma_string_body_close(src, pos + 1);
        assert(src.subrange(pos, pos + 1) =~= seq![src[pos]]);
        assert(src.subrange(close, close + 1) =~= seq![src[close]]);
        lemma_literal_in_place(
            src,
            pos,
            close,
            TokenInfo::StringBeg,
            KindView::StringContents(bytes),
            TokenInfo::StringEnd,
        );
    }
}

proof fn lemma_raw_string_step(src: Seq<u8>, pos: int)
    requires
        is_source(src),
        0 <= pos < src.len(),
        byte_is(src, pos, '`'),
    ensures
        quoted_step(src, pos) matches Ok(s) ==> is_char_boundary(src, s.next) && (forall|j: int|
            0 <= j < s.lexemes.len() ==> (#[trigger] s.lexemes[j]) is Token && token_in_place(
                src,
                s.lexemes[j]->Token_0,
            )),
{
    if let Ok((bytes, close)) = raw_string_literal(src, pos) {
        lemma_run_end(src, pos + 1, ByteClass::WithinRawString);
        assert(close == run_end(src, pos + 1, ByteClass::WithinRawString));
        assert(pos + 1 <= close < src.len());
        assert(byte_is(src, close, '`'));
        assert(src.subrange(pos, pos + 1) =~= seq![src[pos]]);
        assert(src.subrange(close, close + 1) =~= seq![src[close]]);
        let kind = KindView::StringContents(bytes);
        let contents = TokenView { loc: span(pos + 1, close), kind };
        assert(bytes == without_cr(src.subrange(pos + 1, close)));
        assert(surface_matches(src, contents));
        lemma_literal_in_place(
            src,
            pos,
            close,
            TokenInfo::StringBeg,
            KindView::StringContents(bytes),
            TokenInfo::StringEnd,
        );
    }
}

proof fn lemma_quoted_step(src: Seq<u8>, pos: int)
    requires
        is_source(src),
        0 <= pos < src.len(),
        quoted_starts(src, pos),
    ensures
        quoted_step(src, pos) matches Ok(s) ==> is_char_boundary(src, s.next) && (forall|j: int|
            0 <= j < s.lexemes.len() ==> (#[trigger] s.lexemes[j]) is Token && token_in_place(
                src,
                s.lexemes[j]->Token_0,
            )),
{
    if byte_is(src, pos, '\'') {
        lemma_rune_step(src, pos);
    } else if byte_is(src, pos, '"') {
        lemma_string_step(src, pos);
    } else {
        lemma_raw_string_step(src, pos);
    }
}

proof fn lemma_word_in_place(src: Seq<u8>, pos: int)
    requires
        is_source(src),
        0 <= pos < src.len(),
        is_char_boundary(src, pos),
        word_char_len(src, pos, false) > 0,
    ensures
        is_char_boundary(src, word_end(src, pos)),
        token_in_place(src, word_token(src, pos)),
{
    let end = word_end(src, pos);
    lemma_word_end(src, pos);
    lemma_word_boundary(src, pos);
    lemma_slice_boundaries(src, pos, end);
    decode_utf8_encode_utf8(src.subrange(pos, end));
}

proof fn lemma_number_in_place(src: Seq<u8>, pos: int)
    requires
        is_source(src),
        0 <= pos < src.len(),
        is_char_boundary(src, pos),
        number_starts(src, pos),
    ensures
        number(src, pos) matches Ok((token, end)) ==> is_char_boundary(src, end)
            && token_in_place(src, token),
{
    if let Ok((token, end)) = number(src, pos) {
        lemma_number_ascii(src, pos);
        assert(token.loc == span(pos, end));
        assert(forall|i: int| pos <= i < end ==> #[trigger] src[i] < 0x80);
        lemma_ascii_stretch(src, pos, end);
        lemma_slice_boundaries(src, pos, end);
        decode_utf8_encode_utf8(src.subrange(pos, end));
    }
}

proof fn lemma_symbol_in_place(src: Seq<u8>, pos: int)
    requires
        is_source(src),
        0 <= pos < src.len(),
        is_char_boundary(src, pos),
    ensures
        punct_at(src, pos) matches Some((kind, n)) ==> is_char_boundary(src, pos + n)
            && token_in_place(src, plain_token(pos, pos + n, kind)),
{
    if let Some((kind, n)) = punct_at(src, pos) {
        let text = src.subrange(pos, pos + n);
        assert(forall|i: int| pos <= i < pos + n ==> #[trigger] src[i] < 0x80);
        lemma_ascii_stretch(src, pos, pos + n);
        assert(text[0] == src[pos]);
        assert(n >= 2 ==> text[1] == src[pos + 1]);
        assert(n >= 3 ==> text[2] == src[pos + 2]);
        assert(punct_at(text, 0) == Some((kind, n)));
    }
}

proof fn lemma_plain_step(src: Seq<u8>, pos: int)
    requires
        is_source(src),
        0 <= pos < src.len(),
        is_char_boundary(src, pos),
    ensures
        plain_step(src, pos) matches Ok(s) ==> is_char_boundary(src, s.next) && s.lexemes.len()
            == 1 && s.lexemes[0] is Token && token_in_place(src, s.lexemes[0]->Token_0),
{
    if word_char_len(src, pos, false) > 0 {
        lemma_word_in_place(src, pos);
    } else if number_starts(src, pos) {
        lemma_number_in_place(src, pos);
    } else {
        lemma_symbol_in_place(src, pos);
    }
}

/// What a step yields stands in place, and the step ends at a character
/// boundary.
proof fn lemma_step_in_place(src: Seq<u8>, pos: int)
    requires
        is_source(src),
        0 <= pos < src.len(),
        is_char_boundary(src, pos),
    ensures
        step(src, pos) matches Ok(s) ==> pos < s.next <= src.len() && is_char_boundary(src, s.next)
            && (forall|j: int|
            0 <= j < s.lexemes.len() ==> lexeme_in_place(src, #[trigger] s.lexemes[j])),
{
    lemma_step_advances(src, pos);
    if space_starts(src, pos) {
        lemma_space_step(src, pos);
    } else if quoted_starts(src, pos) {
        lemma_quoted_step(src, pos);
    } else {
        lemma_plain_step(src, pos);
    }
}

proof fn lemma_scan_in_place(src: Seq<u8>, pos: int, i: int)
    requires
        is_source(src),
        0 <= pos <= src.len(),
        is_char_boundary(src, pos),
        scan_from(src, pos) matches Ok(lexemes) && 0 <= i < lexemes.len(),
    ensures
        lexeme_in_place(src, scan_from(src, pos)->Ok_0[i]),
    decreases src.len() - pos,
{
    lemma_step_in_place(src, pos);
    let s = step(src, pos)->Ok_0;
    if i >= s.lexemes.len() {
        lemma_scan_in_place(src, s.next, i - s.lexemes.len());
    }
}

/// Every token that the scanner yields lies inside the text, starts and
/// ends at a character boundary, and the text at its location is what the
/// token stands for.
pub proof fn lemma_locations_round_trip(src: Seq<u8>, i: int)
    requires
        is_source(src),
        spec_scan(src) matches Ok(lexemes) && 0 <= i < lexemes.len() && lexemes[i] is Token,
    ensures
        token_in_place(src, spec_scan(src)->Ok_0[i]->Token_0),
{
    is_char_boundary_start_end_of_seq(src);
    lemma_scan_in_place(src, 0, i);
}

/// Whether the text accounts for a token of the token stream: the token
/// stands in place, or it is a semicolon or the end of input that the text
/// does not spell, without width, inside the text.
pub open spec fn accounted_for(src: Seq<u8>, token: TokenView) -> bool {
    ||| token_in_place(src, token)
    ||| token.loc.start == token.loc.end <= src.len() && (token.kind == KindView::Plain(
        TokenInfo::Semicolon,
    ) || token.kind == KindView::Plain(TokenInfo::Eof))
}

proof fn lemma_semicolons_accounted_for(src: Seq<u8>, lexemes: Seq<LexemeView>, k: int)
    requires
        forall|i: int| 0 <= i < lexemes.len() ==> lexeme_in_place(src, #[trigger] lexemes[i]),
        0 <= k < with_semicolons(lexemes).len(),
    ensures
        accounted_for(src, with_semicolons(lexemes)[k]),
    decreases lexemes.len(),
{
    let before = lexemes.drop_last();
    let tokens = with_semicolons(before);
    assert(lexeme_in_place(src, lexemes[lexemes.len() - 1]));
    assert forall|i: int| 0 <= i < before.len() implies lexeme_in_place(
        src,
        #[trigger] before[i],
    ) by {
        assert(before[i] == lexemes[i]);
    }
    if k < tokens.len() {
        lemma_semicolons_accounted_for(src, before, k);
    }
}

/// The text accounts for every token of its token stream: each stands in
/// place, but for the semicolons that line breaks stand for and the end of
/// input, which have no width and lie inside the text.
pub proof fn lemma_stream_accounted_for(src: Seq<u8>, k: int)
    requires
        is_source(src),
        spec_lex(src) matches Ok(tokens) && 0 <= k < tokens.len(),
    ensures
        accounted_for(src, spec_lex(src)->Ok_0[k]),
{
    let lexemes = spec_scan(src)->Ok_0;
    let tokens = with_semicolons(lexemes);
    is_char_boundary_start_end_of_seq(src);
    assert forall|i: int| 0 <= i < lexemes.len() implies lexeme_in_place(
        src,
        #[trigger] lexemes[i],
    ) by {
        lemma_scan_in_place(src, 0, i);
    }
    if k < tokens.len() {
        lemma_semicolons_accounted_for(src, lexemes, k);
    }
}

/// The text at the location of a token, taken out of the text around it.
pub open spec fn text_alone(src: Seq<u8>, token: TokenView) -> Seq<u8> {
    src.subrange(token.loc.start as int, token.loc.end as int)
}

/// The token moved to the start of a text: the same kind, at a location
/// of the same length that starts at 0.
pub open spec fn moved_to_start(token: TokenView) -> TokenView {
    TokenView { loc: span(0, token.loc.end - token.loc.start), kind: token.kind }
}

/// Whether a token is one of the three tokens of a rune or string literal.
pub open spec fn is_literal_part(kind: KindView) -> bool {
    match kind {
        KindView::StringContents(_) => true,
        KindView::Plain(TokenInfo::RuneBeg) => true,
        KindView::Plain(TokenInfo::RuneContents(_)) => true,
        KindView::Plain(TokenInfo::RuneEnd) => true,
        KindView::Plain(TokenInfo::StringBeg) => true,
        KindView::Plain(TokenInfo::StringEnd) => true,
        _ => false,
    }
}

/// A run that ends inside a stretch of the text is the same run in the
/// stretch alone.
proof fn lemma_run_slice(src: Seq<u8>, start: int, end: int, pos: int, class: ByteClass)
    requires
        0 <= start <= pos <= end <= src.len(),
        run_end(src, pos, class) <= end,
    ensures
        run_end(src.subrange(start, end), pos - start, class) == run_end(src, pos, class) - start,
{
    lemma_run_end(src, pos, class);
    let stop = run_end(src, pos, class);
    let sub = src.subrange(start, end);
    assert forall|i: int| pos - start <= i < stop - start implies class.holds(
        #[trigger] sub[i],
    ) by {
        assert(sub[i] == src[i + start]);
    }
    lemma_run_end_unique(sub, pos - start, class, stop - start);
}

/// A letter or digit that ends inside a stretch of the text is the same in
/// the stretch alone.
proof fn lemma_word_char_slice(src: Seq<u8>, start: int, end: int, pos: int, digits: bool)
    requires
        0 <= start <= pos < end <= src.len(),
        pos + word_char_len(src, pos, digits) <= end,
    ensures
        word_char_len(src.subrange(start, end), pos - start, digits) == word_char_len(
            src,
            pos,
            digits,
        ),
{
    let sub = src.subrange(start, end);
    assert(sub[pos - start] == src[pos]);
    if src[pos] >= 0x80 {
        let a = rest(src, pos);
        let b = rest(sub, pos - start);
        assert(a[0] == b[0]);
        let n = scalar_len(src, pos);
        assert(scalar_len(sub, pos - start) == n);
        if pos + n <= end {
            assert(n >= 2 ==> a[1] == b[1]);
            assert(n >= 3 ==> a[2] == b[2]);
            assert(n >= 4 ==> a[3] == b[3]);
            assert(scalar_at(sub, pos - start) == scalar_at(src, pos));
        } else {
            assert(word_char_len(src, pos, digits) == 0);
        }
    }
}

/// A word that makes up a stretch of the text is the same word in the
/// stretch alone.
proof fn lemma_word_slice(src: Seq<u8>, start: int, end: int, pos: int)
    requires
        0 <= start <= pos <= end <= src.len(),
        word_end(src, pos) == end,
    ensures
        word_end(src.subrange(start, end), pos - start) == end - start,
    decreases end - pos,
{
    let n = word_char_len(src, pos, true);
    lemma_word_end(src, pos);
    if n > 0 {
        lemma_word_char_slice(src, start, end, pos, true);
        lemma_word_slice(src, start, end, pos + n);
    }
}

/// The step that reads `token` and nothing else from the start of a text
/// of `n` bytes.
pub open spec fn lone_step(token: TokenView, n: int) -> Result<Step, LexError> {
    Ok(single(LexemeView::Token(moved_to_start(token)), n))
}

proof fn lemma_rescan_word(src: Seq<u8>, pos: int)
    requires
        0 <= pos < src.len() <= usize::MAX,
        word_char_len(src, pos, false) > 0,
    ensures
        pos < word_end(src, pos) <= src.len(),
        plain_step(src.subrange(pos, word_end(src, pos)), 0) == lone_step(
            word_token(src, pos),
            word_end(src, pos) - pos,
        ),
{
    let end = word_end(src, pos);
    let sub = src.subrange(pos, end);
    lemma_word_end(src, pos);
    lemma_word_char_slice(src, pos, end, pos, false);
    lemma_word_slice(src, pos, end, pos);
    assert(sub.subrange(0, end - pos) =~= sub);
    assert(word_token(sub, 0) == moved_to_start(word_token(src, pos)));
}

/// The parts of a numeric literal that is no hexadecimal literal are the
/// same in the literal alone.
proof fn lemma_float_slice(src: Seq<u8>, pos: int, end: int)
    requires
        0 <= pos < src.len(),
        number_starts(src, pos),
        !hex_prefix(src, pos),
        float_end(src, pos) <= end <= src.len(),
        end == float_end(src, pos) || end == float_end(src, pos) + 1,
    ensures
        !hex_prefix(src.subrange(pos, end), 0),
        number_starts(src.subrange(pos, end), 0),
        has_fraction(src.subrange(pos, end), 0) == has_fraction(src, pos),
        has_exponent(src.subrange(pos, end), 0) == has_exponent(src, pos),
        float_end(src.subrange(pos, end), 0) == float_end(src, pos) - pos,
{
    let sub = src.subrange(pos, end);
    lemma_number_ascii(src, pos);
    let int_end = run_end(src, pos, ByteClass::Decimal);
    lemma_run_end(src, pos, ByteClass::Decimal);
    if has_fraction(src, pos) {
        lemma_run_end(src, int_end + 1, ByteClass::Decimal);
    }
    let m = mantissa_end(src, pos);
    if has_exponent(src, pos) {
        lemma_run_end(src, exponent_digits(src, m), ByteClass::Decimal);
    }
    assert(sub[0] == src[pos]);
    assert(end - pos >= 2 ==> sub[1] == src[pos + 1]);
    lemma_run_slice(src, pos, end, pos, ByteClass::Decimal);
    assert(has_fraction(sub, 0) == has_fraction(src, pos));
    if has_fraction(src, pos) {
        lemma_run_slice(src, pos, end, int_end + 1, ByteClass::Decimal);
    }
    assert(mantissa_end(sub, 0) == m - pos);
    assert(exponent_digits(sub, m - pos) == exponent_digits(src, m) - pos);
    if has_exponent(src, pos) {
        lemma_run_slice(src, pos, end, exponent_digits(src, m), ByteClass::Decimal);
    }
}

/// What scanning a numeric literal alone should give: the same token, at
/// the start of the text, and the end of the text.
pub open spec fn number_alone(src: Seq<u8>, pos: int) -> Result<(TokenView, int), LexError> {
    match number(src, pos) {
        Ok((token, end)) => Ok((moved_to_start(token), end - pos)),
        Err(e) => Err(e),
    }
}

proof fn lemma_rescan_hex(src: Seq<u8>, pos: int)
    requires
        0 <= pos < src.len() <= usize::MAX,
        hex_prefix(src, pos),
        number(src, pos) is Ok,
    ensures
        ({
            let end = run_end(src, pos + 2, ByteClass::Hex);
            &&& pos + 2 < end <= src.len()
            &&& number(src, pos)->Ok_0.1 == end
            &&& number_starts(src.subrange(pos, end), 0)
            &&& number(src.subrange(pos, end), 0) == number_alone(src, pos)
        }),
{
    let end = run_end(src, pos + 2, ByteClass::Hex);
    let sub = src.subrange(pos, end);
    lemma_run_end(src, pos + 2, ByteClass::Hex);
    lemma_run_slice(src, pos, end, pos + 2, ByteClass::Hex);
    assert(sub[0] == src[pos]);
    assert(sub[1] == src[pos + 1]);
    assert(hex_prefix(sub, 0));
    assert(sub.subrange(0, end - pos) =~= sub);
}

proof fn lemma_rescan_decimal(src: Seq<u8>, pos: int)
    requires
        0 <= pos < src.len() <= usize::MAX,
        number_starts(src, pos),
        !hex_prefix(src, pos),
        number(src, pos) is Ok,
    ensures
        ({
            let end = number(src, pos)->Ok_0.1;
            &&& pos < end <= src.len()
            &&& number_starts(src.subrange(pos, end), 0)
            &&& number(src.subrange(pos, end), 0) == number_alone(src, pos)
        }),
{
    let end = number(src, pos)->Ok_0.1;
    let sub = src.subrange(pos, end);
    let stop = float_end(src, pos);
    lemma_number_ascii(src, pos);
    lemma_float_slice(src, pos, end);
    assert(sub[0] == src[pos]);
    assert(byte_is(sub, 0, '0') == byte_is(src, pos, '0'));
    assert(byte_is(sub, stop - pos, 'i') == byte_is(src, stop, 'i'));
    if !byte_is(src, stop, 'i') && !has_fraction(src, pos) && !has_exponent(src, pos) && byte_is(
        src,
        pos,
        '0',
    ) {
        lemma_run_slice(src, pos, end, pos, ByteClass::Octal);
    }
    assert(sub.subrange(0, end - pos) =~= sub);
}

proof fn lemma_rescan_number(src: Seq<u8>, pos: int)
    requires
        0 <= pos < src.len() <= usize::MAX,
        number_starts(src, pos),
        number(src, pos) is Ok,
    ensures
        ({
            let (token, end) = number(src, pos)->Ok_0;
            &&& pos < end <= src.len()
            &&& plain_step(src.subrange(pos, end), 0) == lone_step(token, end - pos)
        }),
{
    let (token, end) = number(src, pos)->Ok_0;
    let sub = src.subrange(pos, end);
    if hex_prefix(src, pos) {
        lemma_rescan_hex(src, pos);
    } else {
        lemma_rescan_decimal(src, pos);
    }
    assert(sub[0] == src[pos]);
    assert(word_char_len(sub, 0, false) == 0);
}

proof fn lemma_rescan_symbol(src: Seq<u8>, pos: int)
    requires
        0 <= pos < src.len() <= usize::MAX,
        word_char_len(src, pos, false) == 0,
        !number_starts(src, pos),
        punct_at(src, pos) is Some,
    ensures
        ({
            let (kind, n) = punct_at(src, pos)->Some_0;
            &&& 1 <= n <= 3
            &&& pos + n <= src.len()
            &&& plain_step(src.subrange(pos, pos + n), 0) == lone_step(
                plain_token(pos, pos + n, kind),
                n,
            )
        }),
{
    let (kind, n) = punct_at(src, pos)->Some_0;
    let sub = src.subrange(pos, pos + n);
    assert(sub[0] == src[pos]);
    assert(n >= 2 ==> sub[1] == src[pos + 1]);
    assert(n >= 3 ==> sub[2] == src[pos + 2]);
    assert(punct_at(sub, 0) == Some((kind, n)));
    assert(src[pos] < 0x80);
    assert(word_char_len(sub, 0, false) == 0);
    assert(!number_starts(sub, 0));
}

/// A word, a numeric literal or a symbol that is scanned again alone
/// comes out as the same token.
proof fn lemma_rescan_plain(src: Seq<u8>, pos: int)
    requires
        0 <= pos < src.len() <= usize::MAX,
        !space_starts(src, pos),
        !quoted_starts(src, pos),
        plain_step(src, pos) is Ok,
    ensures
        ({
            let s = plain_step(src, pos)->Ok_0;
            let token = s.lexemes[0]->Token_0;
            &&& s.lexemes.len() == 1
            &&& s.lexemes[0] is Token
            &&& token.loc == span(pos, s.next)
            &&& pos < s.next <= src.len()
            &&& spec_scan(src.subrange(pos, s.next)) == Ok::<_, LexError>(
                seq![LexemeView::Token(moved_to_start(token))],
            )
        }),
{
    let s = plain_step(src, pos)->Ok_0;
    let end = s.next;
    let sub = src.subrange(pos, end);
    let token = s.lexemes[0]->Token_0;
    if word_char_len(src, pos, false) > 0 {
        lemma_rescan_word(src, pos);
    } else if number_starts(src, pos) {
        lemma_rescan_number(src, pos);
    } else {
        lemma_rescan_symbol(src, pos);
    }
    assert(plain_step(sub, 0) == lone_step(token, end - pos));
    lemma_lone_step(src, pos, end, token);
}

/// A text that starts as the token at `pos` does, and in which one plain
/// step reads that token and reaches the end, scans to that token alone.
proof fn lemma_lone_step(src: Seq<u8>, pos: int, end: int, token: TokenView)
    requires
        0 <= pos < end <= src.len(),
        !space_starts(src, pos),
        !quoted_starts(src, pos),
        plain_step(src.subrange(pos, end), 0) == lone_step(token, end - pos),
    ensures
        spec_scan(src.subrange(pos, end)) == Ok::<_, LexError>(
            seq![LexemeView::Token(moved_to_start(token))],
        ),
{
    let sub = src.subrange(pos, end);
    assert(sub[0] == src[pos]);
    assert(end - pos >= 2 ==> sub[1] == src[pos + 1]);
    assert(!space_starts(sub, 0));
    assert(!quoted_starts(sub, 0));
    assert(step(sub, 0) == lone_step(token, end - pos));
    assert(scan_from(sub, end - pos) == Ok::<_, LexError>(Seq::<LexemeView>::empty()));
    assert(seq![LexemeView::Token(moved_to_start(token))] + Seq::<LexemeView>::empty()
        =~= seq![LexemeView::Token(moved_to_start(token))]);
    lemma_step_advances(sub, 0);
}

/// White space yields no token, and a literal yields its three parts.
proof fn lemma_step_parts(src: Seq<u8>, pos: int)
    requires
        0 <= pos < src.len(),
        space_starts(src, pos) || quoted_starts(src, pos),
    ensures
        step(src, pos) matches Ok(s) ==> forall|j: int|
            0 <= j < s.lexemes.len() && (#[trigger] s.lexemes[j]) is Token ==> is_literal_part(
                s.lexemes[j]->Token_0.kind,
            ),
{
}

proof fn lemma_scan_rescan(src: Seq<u8>, pos: int, i: int)
    requires
        src.len() <= usize::MAX,
        0 <= pos <= src.len(),
        scan_from(src, pos) matches Ok(lexemes) && 0 <= i < lexemes.len() && lexemes[i] is Token
            && !is_literal_part(lexemes[i]->Token_0.kind),
    ensures
        ({
            let token = scan_from(src, pos)->Ok_0[i]->Token_0;
            spec_scan(text_alone(src, token)) == Ok::<_, LexError>(
                seq![LexemeView::Token(moved_to_start(token))],
            )
        }),
    decreases src.len() - pos,
{
    lemma_step_advances(src, pos);
    let lexemes = scan_from(src, pos)->Ok_0;
    let s = step(src, pos)->Ok_0;
    let tail = scan_from(src, s.next)->Ok_0;
    assert(lexemes == s.lexemes + tail);
    if i >= s.lexemes.len() {
        assert(lexemes[i] == tail[i - s.lexemes.len()]);
        lemma_scan_rescan(src, s.next, i - s.lexemes.len());
    } else {
        assert(lexemes[i] == s.lexemes[i]);
        if space_starts(src, pos) || quoted_starts(src, pos) {
            lemma_step_parts(src, pos);
        } else {
            assert(plain_step(src, pos) == Ok::<_, LexError>(s));
            lemma_rescan_plain(src, pos);
            let token = s.lexemes[0]->Token_0;
            assert(text_alone(src, token) == src.subrange(pos, s.next));
        }
    }
}

/// Scanning the text of a token alone yields that token again and nothing
/// else: the same kind with the same text, at the start of the text. This
/// holds of every token but the three that make up a rune or string
/// literal, whose texts are no literals by themselves.
pub proof fn lemma_rescan_gives_same_token(src: Seq<u8>, i: int)
    requires
        is_source(src),
        spec_scan(src) matches Ok(lexemes) && 0 <= i < lexemes.len() && lexemes[i] is Token
            && !is_literal_part(lexemes[i]->Token_0.kind),
    ensures
        ({
            let token = spec_scan(src)->Ok_0[i]->Token_0;
            spec_scan(text_alone(src, token)) == Ok::<_, LexError>(
                seq![LexemeView::Token(moved_to_start(token))],
            )
        }),
{
    lemma_scan_rescan(src, 0, i);
}

} // verus!
