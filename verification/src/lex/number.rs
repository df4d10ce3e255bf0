//! Numeric literals: decimal, octal and hexadecimal integers, floating-point
//! and imaginary literals. A token keeps the literal as it is written.

use crate::lex::chars::{
    char_end, dec_digit, is_dec_digit, lemma_ascii_stretch, lemma_run_end, run_end, scalar_end,
    scan_run, ByteClass,
};
use crate::lex::token::{span, token_read, KindView, LexError, Token, TokenInfo, TokenView};
use crate::lex::words::{slice_text, text_of};
use crate::loc::Loc;
use vstd::prelude::*;
use vstd::string::*;
use vstd::utf8::*;

verus! {

/// Whether the byte at `pos` is the ASCII character `c`.
pub open spec fn byte_is(src: Seq<u8>, pos: int, c: char) -> bool {
    0 <= pos < src.len() && src[pos] == c as u8
}

/// Whether a decimal digit stands at `pos`.
pub open spec fn digit_at(src: Seq<u8>, pos: int) -> bool {
    0 <= pos < src.len() && is_dec_digit(src[pos])
}

/// Whether a numeric literal starts at `pos`: with a digit, or with a point
/// that a digit follows.
pub open spec fn number_starts(src: Seq<u8>, pos: int) -> bool {
    digit_at(src, pos) || (byte_is(src, pos, '.') && digit_at(src, pos + 1))
}

/// Whether the literal at `pos` starts with `0x` or `0X`.
pub open spec fn hex_prefix(src: Seq<u8>, pos: int) -> bool {
    byte_is(src, pos, '0') && (byte_is(src, pos + 1, 'x') || byte_is(src, pos + 1, 'X'))
}

/// Whether a point follows the leading digits of the literal at `pos`.
pub open spec fn has_fraction(src: Seq<u8>, pos: int) -> bool {
    byte_is(src, run_end(src, pos, ByteClass::Decimal), '.')
}

/// Where the leading digits, and the point and digits behind them if there
/// are any, end.
pub open spec fn mantissa_end(src: Seq<u8>, pos: int) -> int {
    let int_end = run_end(src, pos, ByteClass::Decimal);
    if has_fraction(src, pos) {
        run_end(src, int_end + 1, ByteClass::Decimal)
    } else {
        int_end
    }
}

/// Where the digits of the exponent that starts at `pos` begin: behind `e`
/// or `E` and an optional sign. Where these are not followed by a digit, no
/// exponent starts at `pos`, and the result is `pos`.
pub open spec fn exponent_digits(src: Seq<u8>, pos: int) -> int {
    if byte_is(src, pos, 'e') || byte_is(src, pos, 'E') {
        if digit_at(src, pos + 1) {
            pos + 1
        } else if (byte_is(src, pos + 1, '+') || byte_is(src, pos + 1, '-')) && digit_at(
            src,
            pos + 2,
        ) {
            pos + 2
        } else {
            pos
        }
    } else {
        pos
    }
}

/// Whether the literal at `pos` has an exponent.
pub open spec fn has_exponent(src: Seq<u8>, pos: int) -> bool {
    exponent_digits(src, mantissa_end(src, pos)) > mantissa_end(src, pos)
}

/// Where the mantissa and the exponent of the literal at `pos` end.
pub open spec fn float_end(src: Seq<u8>, pos: int) -> int {
    if has_exponent(src, pos) {
        run_end(src, exponent_digits(src, mantissa_end(src, pos)), ByteClass::Decimal)
    } else {
        mantissa_end(src, pos)
    }
}

/// The token of a literal of the given kind that reaches from `pos` to
/// `end`, and `end`.
pub open spec fn spanning(pos: int, end: int, kind: KindView) -> Result<
    (TokenView, int),
    LexError,
> {
    Ok((TokenView { loc: span(pos, end), kind }, end))
}

/// The numeric literal that starts at `pos`, and where it ends.
///
/// `0x` or `0X` starts a hexadecimal literal, which needs a digit. Else a
/// trailing `i` makes the literal imaginary, a point or an exponent makes it
/// a float, a leading `0` makes it octal, and what is left is decimal. An
/// octal literal with a digit above 7 is an error.
pub open spec fn number(src: Seq<u8>, pos: int) -> Result<(TokenView, int), LexError> {
    if hex_prefix(src, pos) {
        let end = run_end(src, pos + 2, ByteClass::Hex);
        if end == pos + 2 {
            Err(LexError::IllegalHexDigit(end as usize, char_end(src, end) as usize))
        } else {
            spanning(pos, end, KindView::HexInt(text_of(src, pos, end)))
        }
    } else {
        let end = float_end(src, pos);
        if byte_is(src, end, 'i') {
            spanning(pos, end + 1, KindView::Imaginary(text_of(src, pos, end + 1)))
        } else if has_fraction(src, pos) || has_exponent(src, pos) {
            spanning(pos, end, KindView::Float(text_of(src, pos, end)))
        } else if byte_is(src, pos, '0') {
            if run_end(src, pos, ByteClass::Octal) == end {
                spanning(pos, end, KindView::OctInt(text_of(src, pos, end)))
            } else {
                Err(LexError::IllegalOctalValue(pos as usize, end as usize))
            }
        } else {
            spanning(pos, end, KindView::DecInt(text_of(src, pos, end)))
        }
    }
}

/// The bytes of a numeric literal are ASCII, and it ends inside the text.
pub proof fn lemma_number_ascii(src: Seq<u8>, pos: int)
    requires
        number_starts(src, pos),
    ensures
        pos < float_end(src, pos) <= src.len(),
        forall|i: int| pos <= i < float_end(src, pos) ==> #[trigger] src[i] < 0x80,
        pos + 2 <= run_end(src, pos + 2, ByteClass::Hex) <= src.len() || !hex_prefix(src, pos),
        forall|i: int|
            pos <= i < run_end(src, pos + 2, ByteClass::Hex) && hex_prefix(src, pos)
                ==> #[trigger] src[i] < 0x80,
{
    let int_end = run_end(src, pos, ByteClass::Decimal);
    lemma_run_end(src, pos, ByteClass::Decimal);
    if has_fraction(src, pos) {
        lemma_run_end(src, int_end + 1, ByteClass::Decimal);
    }
    let m = mantissa_end(src, pos);
    if has_exponent(src, pos) {
        lemma_run_end(src, exponent_digits(src, m), ByteClass::Decimal);
    }
    if hex_prefix(src, pos) {
        lemma_run_end(src, pos + 2, ByteClass::Hex);
    }
}

fn find_exponent_digits(bytes: &[u8], pos: usize) -> (digits: usize)
    requires
        pos <= bytes.len(),
    ensures
        digits == exponent_digits(bytes@, pos as int),
        pos <= digits <= bytes.len(),
{
    let len = bytes.len();
    if pos < len && (bytes[pos] == 'e' as u8 || bytes[pos] == 'E' as u8) {
        if len - pos >= 2 && dec_digit(bytes[pos + 1]) {
            pos + 1
        } else if len - pos >= 3 && (bytes[pos + 1] == '+' as u8 || bytes[pos + 1] == '-' as u8)
            && dec_digit(bytes[pos + 2]) {
            pos + 2
        } else {
            pos
        }
    } else {
        pos
    }
}

/// Reads the numeric literal that starts at `pos`.
pub(crate) fn scan_number(source: &str, pos: usize) -> (r: Result<(Token, usize), LexError>)
    requires
        is_char_boundary(source.spec_bytes(), pos as int),
        number_starts(source.spec_bytes(), pos as int),
    ensures
        token_read(r, number(source.spec_bytes(), pos as int)),
        r matches Ok((_, end)) ==> pos < end <= source.spec_bytes().len() && is_char_boundary(
            source.spec_bytes(),
            end as int,
        ),
{
    let bytes = source.as_bytes();
    let len = bytes.len();
    let ghost src = bytes@;
    proof {
        encode_utf8_valid_utf8(source@);
        lemma_number_ascii(src, pos as int);
    }
    if bytes[pos] == '0' as u8 && len - pos >= 2 && (bytes[pos + 1] == 'x' as u8 || bytes[pos + 1]
        == 'X' as u8) {
        let end = scan_run(bytes, pos + 2, ByteClass::Hex);
        proof {
            lemma_ascii_stretch(src, pos as int, pos + 2);
            lemma_ascii_stretch(src, pos as int, end as int);
        }
        if end == pos + 2 {
            return Err(LexError::IllegalHexDigit(end, scalar_end(bytes, end)));
        }
        let text = slice_text(source, pos, end);
        return Ok((Token { loc: Loc { start: pos, end }, kind: TokenInfo::HexInt(text) }, end));
    }
    let int_end = scan_run(bytes, pos, ByteClass::Decimal);
    let fraction = int_end < len && bytes[int_end] == '.' as u8;
    let mantissa_end = if fraction {
        scan_run(bytes, int_end + 1, ByteClass::Decimal)
    } else {
        int_end
    };
    let digits = find_exponent_digits(bytes, mantissa_end);
    let exponent = digits > mantissa_end;
    let end = if exponent {
        scan_run(bytes, digits, ByteClass::Decimal)
    } else {
        mantissa_end
    };
    proof {
        lemma_ascii_stretch(src, pos as int, end as int);
    }
    if end < len && bytes[end] == 'i' as u8 {
        proof {
            lemma_ascii_stretch(src, pos as int, end + 1);
        }
        let text = slice_text(source, pos, end + 1);
        let loc = Loc { start: pos, end: end + 1 };
        Ok((Token { loc, kind: TokenInfo::Imaginary(text) }, end + 1))
    } else if fraction || exponent {
        let text = slice_text(source, pos, end);
        Ok((Token { loc: Loc { start: pos, end }, kind: TokenInfo::Float(text) }, end))
    } else if bytes[pos] == '0' as u8 {
        if scan_run(bytes, pos, ByteClass::Octal) == end {
            let text = slice_text(source, pos, end);
            Ok((Token { loc: Loc { start: pos, end }, kind: TokenInfo::OctInt(text) }, end))
        } else {
            Err(LexError::IllegalOctalValue(pos, end))
        }
    } else {
        let text = slice_text(source, pos, end);
        Ok((Token { loc: Loc { start: pos, end }, kind: TokenInfo::DecInt(text) }, end))
    }
}

} // verus!
