//! Rune and string literals, and the escape sequences inside them.
//!
//! A rune literal holds one scalar value between single quotes. An
//! interpreted string holds bytes between double quotes; a raw string holds
//! them between back quotes, without escapes, and drops carriage returns.

use crate::lex::chars::{
    char_end, digit_value, hex_value, is_oct_digit, lemma_ascii_boundary, lemma_ascii_stretch,
    lemma_run_end, lemma_run_end_unique, lemma_scalar_step, next_scalar, oct_digit, run_end,
    scalar_at, scalar_end, scan_run, ByteClass,
};
use crate::lex::token::LexError;
use vstd::prelude::*;
use vstd::string::*;
use vstd::utf8::*;

verus! {

/// What an escape sequence stands for: a byte, or a scalar value where it
/// names one by its number (`\u`, `\U`).
#[derive(Debug, Clone, Copy, PartialEq, Eq, Structural)]
pub enum Escaped {
    Byte(u8),
    Scalar(char),
}

impl Escaped {
    /// The scalar value that the escape contributes to a rune literal.
    pub open spec fn as_char(self) -> char {
        match self {
            Escaped::Byte(b) => b as char,
            Escaped::Scalar(c) => c,
        }
    }

    /// The bytes that the escape contributes to a string literal.
    pub open spec fn as_bytes(self) -> Seq<u8> {
        match self {
            Escaped::Byte(b) => seq![b],
            Escaped::Scalar(c) => encode_scalar(c as u32),
        }
    }
}

/// The error for a literal that the end of the text cuts short.
pub open spec fn unterminated(quote: u8) -> LexError {
    if quote == '\'' as u8 {
        LexError::UnterminatedRune
    } else {
        LexError::UnterminatedString
    }
}

fn unterminated_error(quote: u8) -> (e: LexError)
    ensures
        e == unterminated(quote),
{
    if quote == '\'' as u8 {
        LexError::UnterminatedRune
    } else {
        LexError::UnterminatedString
    }
}

/// The byte that a backslash and `b` stand for, where the two form a simple
/// escape. The quote of the enclosing literal can be escaped, the other
/// quote cannot.
pub open spec fn simple_escape(b: u8, quote: u8) -> Option<u8> {
    match b as char {
        'a' => Some(0x07u8),
        'b' => Some(0x08u8),
        't' => Some(0x09u8),
        'n' => Some(0x0au8),
        'v' => Some(0x0bu8),
        'f' => Some(0x0cu8),
        'r' => Some(0x0du8),
        '\\' => Some(0x5cu8),
        _ => if b == quote {
            Some(quote)
        } else {
            None
        },
    }
}

fn simple_escape_of(b: u8, quote: u8) -> (r: Option<u8>)
    ensures
        r == simple_escape(b, quote),
{
    match b as char {
        'a' => Some(0x07u8),
        'b' => Some(0x08u8),
        't' => Some(0x09u8),
        'n' => Some(0x0au8),
        'v' => Some(0x0bu8),
        'f' => Some(0x0cu8),
        'r' => Some(0x0du8),
        '\\' => Some(0x5cu8),
        _ => if b == quote {
            Some(quote)
        } else {
            None
        },
    }
}

/// The base in which the digits of a class count.
pub open spec fn radix(class: ByteClass) -> int {
    if class == ByteClass::Octal {
        8
    } else {
        16
    }
}

/// The number that the `n` digits from `start` on spell in base `radix`.
pub open spec fn digits_value(src: Seq<u8>, start: int, n: nat, radix: int) -> int
    decreases n,
{
    if n == 0 {
        0
    } else {
        digits_value(src, start, (n - 1) as nat, radix) * radix + digit_value(src[start + n - 1])
    }
}

/// Where reading `n` digits of `class` from `start` on stops: behind the
/// `n` digits, or at the first offset that holds no such digit.
pub open spec fn digits_stop(src: Seq<u8>, start: int, n: nat, class: ByteClass) -> int {
    let end = run_end(src, start, class);
    if end < start + n {
        end
    } else {
        start + n
    }
}

pub open spec fn pow16(n: nat) -> int
    decreases n,
{
    if n == 0 {
        1
    } else {
        16 * pow16((n - 1) as nat)
    }
}

proof fn lemma_pow16(n: nat)
    requires
        n <= 8,
    ensures
        1 <= pow16(n) <= 0x1_0000_0000,
        n <= 7 ==> pow16(n) <= 0x1000_0000,
        n <= 2 ==> pow16(n) <= 0x100,
{
    reveal_with_fuel(pow16, 10);
}

/// Reads up to `n` digits of `class`, which is `Octal` or `Hex`.
fn read_digits(bytes: &[u8], start: usize, n: usize, class: ByteClass) -> (r: (u32, usize))
    requires
        start <= bytes.len(),
        n <= 8,
        class == ByteClass::Octal || class == ByteClass::Hex,
    ensures
        r.1 == digits_stop(bytes@, start as int, n as nat, class),
        start <= r.1 <= bytes.len(),
        r.1 <= start + n,
        r.1 == start + n ==> r.0 == digits_value(bytes@, start as int, n as nat, radix(class))
            && r.0 < pow16(n as nat),
        forall|k: int| start <= k < r.1 ==> #[trigger] bytes@[k] < 0x80,
{
    let len = bytes.len();
    let mut value: u32 = 0;
    let mut i: usize = 0;
    while i < n
        invariant
            i <= n <= 8,
            start + i <= len,
            len == bytes.len(),
            class == ByteClass::Octal || class == ByteClass::Hex,
            value == digits_value(bytes@, start as int, i as nat, radix(class)),
            value < pow16(i as nat),
            forall|k: int| start <= k < start + i ==> class.holds(#[trigger] bytes@[k]),
        decreases n - i,
    {
        if len - start <= i || !class.test(bytes[start + i]) {
            proof {
                lemma_run_end_unique(bytes@, start as int, class, start + i);
            }
            return (value, start + i);
        }
        let digit = hex_value(bytes[start + i]) as u32;
        proof {
            lemma_pow16(i as nat);
            lemma_pow16((i + 1) as nat);
        }
        value = if class == ByteClass::Octal {
            value * 8 + digit
        } else {
            value * 16 + digit
        };
        i = i + 1;
    }
    proof {
        lemma_run_end(bytes@, start as int, class);
    }
    (value, start + n)
}

/// The number that the `n` hexadecimal digits of the escape at `pos` spell.
/// They stand behind the backslash and the letter of the escape.
pub open spec fn hex_escape(src: Seq<u8>, pos: int, n: nat, quote: u8) -> Result<int, LexError> {
    let stop = digits_stop(src, pos + 2, n, ByteClass::Hex);
    if stop < pos + 2 + n {
        if stop >= src.len() {
            Err(unterminated(quote))
        } else {
            Err(LexError::IllegalHexDigit(stop as usize, char_end(src, stop) as usize))
        }
    } else {
        Ok(digits_value(src, pos + 2, n, 16))
    }
}

/// What the escape sequence whose backslash stands at `pos` denotes, and
/// where it ends. `quote` is the quote of the literal that holds it.
///
/// An octal escape has three digits and a value of at most 255; `\x` takes
/// two hexadecimal digits, `\u` four and `\U` eight, and the last two must
/// name a scalar value.
pub open spec fn escape(src: Seq<u8>, pos: int, quote: u8) -> Result<(Escaped, int), LexError> {
    let p = pos + 1;
    if p >= src.len() {
        Err(unterminated(quote))
    } else if simple_escape(src[p], quote) is Some {
        Ok((Escaped::Byte(simple_escape(src[p], quote)->0), pos + 2))
    } else if is_oct_digit(src[p]) {
        let stop = digits_stop(src, p, 3, ByteClass::Octal);
        if stop < p + 3 {
            if stop >= src.len() {
                Err(unterminated(quote))
            } else {
                Err(LexError::BadEscape(pos as usize, char_end(src, stop) as usize))
            }
        } else if digits_value(src, p, 3, 8) > 255 {
            Err(LexError::IllegalOctalValue(pos as usize, (pos + 4) as usize))
        } else {
            Ok((Escaped::Byte(digits_value(src, p, 3, 8) as u8), pos + 4))
        }
    } else if src[p] == 'x' as u8 {
        match hex_escape(src, pos, 2, quote) {
            Ok(v) => Ok((Escaped::Byte(v as u8), pos + 4)),
            Err(e) => Err(e),
        }
    } else if src[p] == 'u' as u8 || src[p] == 'U' as u8 {
        let n: nat = if src[p] == 'u' as u8 {
            4
        } else {
            8
        };
        match hex_escape(src, pos, n, quote) {
            Ok(v) => if is_scalar(v as u32) {
                Ok((Escaped::Scalar(v as u32 as char), pos + 2 + n))
            } else {
                Err(LexError::IllegalUnicodeValue(pos as usize, (pos + 2 + n) as usize))
            },
            Err(e) => Err(e),
        }
    } else {
        Err(LexError::BadEscape(pos as usize, char_end(src, p) as usize))
    }
}

/// Whether reading an escape came out as `want` says.
pub open spec fn escape_read(
    r: Result<(Escaped, usize), LexError>,
    want: Result<(Escaped, int), LexError>,
) -> bool {
    match want {
        Ok((escaped, end)) => r matches Ok((x, e)) && x == escaped && e == end,
        Err(err) => r matches Err(e) && e == err,
    }
}

fn read_hex_escape(bytes: &[u8], pos: usize, n: usize, quote: u8) -> (r: Result<u32, LexError>)
    requires
        valid_utf8(bytes@),
        is_char_boundary(bytes@, pos as int),
        pos + 2 <= bytes.len(),
        bytes@[pos as int] < 0x80,
        bytes@[pos + 1] < 0x80,
        n <= 8,
    ensures
        match hex_escape(bytes@, pos as int, n as nat, quote) {
            Ok(v) => r matches Ok(x) && x == v && x < pow16(n as nat) && pos + 2 + n
                <= bytes.len() && is_char_boundary(bytes@, pos + 2 + n),
            Err(err) => r matches Err(e) && e == err,
        },
{
    let (value, stop) = read_digits(bytes, pos + 2, n, ByteClass::Hex);
    proof {
        lemma_ascii_stretch(bytes@, pos as int, stop as int);
    }
    if stop - pos - 2 < n {
        if stop >= bytes.len() {
            Err(unterminated_error(quote))
        } else {
            Err(LexError::IllegalHexDigit(stop, scalar_end(bytes, stop)))
        }
    } else {
        Ok(value)
    }
}

/// Reads the escape sequence whose backslash stands at `pos`.
pub(crate) fn scan_escape(bytes: &[u8], pos: usize, quote: u8) -> (r: Result<
    (Escaped, usize),
    LexError,
>)
    requires
        valid_utf8(bytes@),
        pos < bytes.len(),
        bytes@[pos as int] == '\\' as u8,
        quote == '\'' as u8 || quote == '"' as u8,
    ensures
        escape_read(r, escape(bytes@, pos as int, quote)),
        r matches Ok((_, end)) ==> pos + 2 <= end <= bytes.len() && is_char_boundary(
            bytes@,
            end as int,
        ),
{
    let len = bytes.len();
    proof {
        lemma_ascii_boundary(bytes@, pos as int);
        lemma_scalar_step(bytes@, pos as int);
    }
    if len - pos < 2 {
        return Err(unterminated_error(quote));
    }
    let p = pos + 1;
    let b = bytes[p];
    if let Some(value) = simple_escape_of(b, quote) {
        proof {
            lemma_scalar_step(bytes@, p as int);
        }
        return Ok((Escaped::Byte(value), pos + 2));
    }
    if oct_digit(b) {
        let (value, stop) = read_digits(bytes, p, 3, ByteClass::Octal);
        proof {
            lemma_ascii_stretch(bytes@, pos as int, stop as int);
        }
        if stop - p < 3 {
            if stop >= len {
                Err(unterminated_error(quote))
            } else {
                Err(LexError::BadEscape(pos, scalar_end(bytes, stop)))
            }
        } else if value > 255 {
            Err(LexError::IllegalOctalValue(pos, pos + 4))
        } else {
            Ok((Escaped::Byte(value as u8), pos + 4))
        }
    } else if b == 'x' as u8 {
        match read_hex_escape(bytes, pos, 2, quote) {
            Ok(value) => {
                proof {
                    lemma_pow16(2);
                }
                Ok((Escaped::Byte(value as u8), pos + 4))
            },
            Err(e) => Err(e),
        }
    } else if b == 'u' as u8 || b == 'U' as u8 {
        let n: usize = if b == 'u' as u8 {
            4
        } else {
            8
        };
        match read_hex_escape(bytes, pos, n, quote) {
            Ok(value) => match char::from_u32(value) {
                Some(c) => Ok((Escaped::Scalar(c), pos + 2 + n)),
                None => Err(LexError::IllegalUnicodeValue(pos, pos + 2 + n)),
            },
            Err(e) => Err(e),
        }
    } else {
        Err(LexError::BadEscape(pos, scalar_end(bytes, p)))
    }
}

/// An escape that is read ends behind its backslash and inside the text.
pub proof fn lemma_escape_advances(src: Seq<u8>, pos: int, quote: u8)
    requires
        0 <= pos < src.len(),
    ensures
        escape(src, pos, quote) matches Ok((_, end)) ==> pos + 2 <= end <= src.len(),
{
    if pos + 1 < src.len() {
        lemma_run_end(src, pos + 1, ByteClass::Octal);
    }
    if pos + 2 <= src.len() {
        lemma_run_end(src, pos + 2, ByteClass::Hex);
    }
}

/// The scalar value that the body of a rune literal denotes, and where the
/// body ends. The body starts at `pos`, behind the opening quote.
pub open spec fn rune_body(src: Seq<u8>, pos: int) -> Result<(char, int), LexError> {
    if src[pos] == '\\' as u8 {
        match escape(src, pos, '\'' as u8) {
            Ok((escaped, end)) => Ok((escaped.as_char(), end)),
            Err(e) => Err(e),
        }
    } else {
        Ok((scalar_at(src, pos), char_end(src, pos)))
    }
}

/// The scalar value of the rune literal whose opening quote stands at
/// `pos`, and the offset of its closing quote.
///
/// The body is one scalar value or one escape sequence. A line feed in its
/// place is an illegal newline, and a quote is unexpected there. Behind the
/// body the closing quote must follow: the end of the line or of the text
/// leaves the literal unterminated, any other character is unexpected.
pub open spec fn rune_literal(src: Seq<u8>, pos: int) -> Result<(char, int), LexError> {
    let p = pos + 1;
    if p >= src.len() {
        Err(LexError::UnterminatedRune)
    } else if src[p] == '\n' as u8 {
        Err(LexError::IllegalNewline(p as usize, (p + 1) as usize))
    } else if src[p] == '\'' as u8 {
        Err(LexError::UnexpectedChar(p as usize, (p + 1) as usize))
    } else {
        match rune_body(src, p) {
            Ok((c, close)) => {
                if close >= src.len() || src[close] == '\n' as u8 {
                    Err(LexError::UnterminatedRune)
                } else if src[close] != '\'' as u8 {
                    Err(LexError::UnexpectedChar(close as usize, char_end(src, close) as usize))
                } else {
                    Ok((c, close))
                }
            },
            Err(e) => Err(e),
        }
    }
}

/// Reads the rune literal whose opening quote stands at `pos`.
pub(crate) fn scan_rune(bytes: &[u8], pos: usize) -> (r: Result<(char, usize), LexError>)
    requires
        valid_utf8(bytes@),
        pos < bytes.len(),
        bytes@[pos as int] == '\'' as u8,
    ensures
        match rune_literal(bytes@, pos as int) {
            Ok((c, close)) => r matches Ok((x, q)) && x == c && q == close && pos + 1 < q
                < bytes.len() && bytes@[q as int] == '\'' as u8,
            Err(err) => r matches Err(e) && e == err,
        },
{
    let len = bytes.len();
    proof {
        lemma_ascii_boundary(bytes@, pos as int);
        lemma_scalar_step(bytes@, pos as int);
    }
    let p = pos + 1;
    if p >= len {
        return Err(LexError::UnterminatedRune);
    }
    let b = bytes[p];
    if b == '\n' as u8 {
        return Err(LexError::IllegalNewline(p, p + 1));
    }
    if b == '\'' as u8 {
        return Err(LexError::UnexpectedChar(p, p + 1));
    }
    let (c, close) = if b == '\\' as u8 {
        match scan_escape(bytes, p, '\'' as u8) {
            Ok((Escaped::Byte(value), end)) => (value as char, end),
            Ok((Escaped::Scalar(c), end)) => (c, end),
            Err(e) => {
                return Err(e);
            },
        }
    } else {
        next_scalar(bytes, p)
    };
    if close >= len || bytes[close] == '\n' as u8 {
        Err(LexError::UnterminatedRune)
    } else if bytes[close] != '\'' as u8 {
        Err(LexError::UnexpectedChar(close, scalar_end(bytes, close)))
    } else {
        Ok((c, close))
    }
}

/// `bytes` put in front of the bytes of a string body that was read.
pub open spec fn prefixed(bytes: Seq<u8>, body: Result<(Seq<u8>, int), LexError>) -> Result<
    (Seq<u8>, int),
    LexError,
> {
    match body {
        Ok((more, close)) => Ok((bytes + more, close)),
        Err(e) => Err(e),
    }
}

/// The bytes that the body of an interpreted string denotes from `pos` on,
/// and the offset of the closing quote.
///
/// The body ends at the first double quote that no backslash escapes. An
/// escape sequence contributes the bytes it denotes, every other byte
/// stands for itself. A line feed in the body is an illegal newline, and
/// the end of the text leaves the literal unterminated.
pub open spec fn string_body(src: Seq<u8>, pos: int) -> Result<(Seq<u8>, int), LexError>
    decreases src.len() - pos,
{
    if !(0 <= pos < src.len()) {
        Err(LexError::UnterminatedString)
    } else if src[pos] == '"' as u8 {
        Ok((Seq::empty(), pos))
    } else if src[pos] == '\n' as u8 {
        Err(LexError::IllegalNewline(pos as usize, (pos + 1) as usize))
    } else if src[pos] == '\\' as u8 {
        match escape(src, pos, '"' as u8) {
            Ok((escaped, end)) => {
                proof {
                    lemma_escape_advances(src, pos, '"' as u8);
                }
                prefixed(escaped.as_bytes(), string_body(src, end))
            },
            Err(e) => Err(e),
        }
    } else {
        prefixed(seq![src[pos]], string_body(src, pos + 1))
    }
}

/// The body of a string ends at a double quote inside the text.
pub proof fn lemma_string_body_close(src: Seq<u8>, pos: int)
    requires
        0 <= pos,
    ensures
        string_body(src, pos) matches Ok((_, close)) ==> pos <= close < src.len() && src[close]
            == '"' as u8,
    decreases src.len() - pos,
{
    if pos < src.len() && src[pos] != '"' as u8 && src[pos] != '\n' as u8 {
        if src[pos] == '\\' as u8 {
            lemma_escape_advances(src, pos, '"' as u8);
            if let Ok((_, end)) = escape(src, pos, '"' as u8) {
                lemma_string_body_close(src, end);
            }
        } else {
            lemma_string_body_close(src, pos + 1);
        }
    }
}

/// The bytes of the interpreted string whose opening quote stands at
/// `pos`, and the offset of its closing quote.
pub open spec fn string_literal(src: Seq<u8>, pos: int) -> Result<(Seq<u8>, int), LexError> {
    string_body(src, pos + 1)
}

/// The bytes of `s` that are no carriage return.
pub open spec fn without_cr(s: Seq<u8>) -> Seq<u8>
    decreases s.len(),
{
    if s.len() == 0 {
        s
    } else if s.last() == '\r' as u8 {
        without_cr(s.drop_last())
    } else {
        without_cr(s.drop_last()).push(s.last())
    }
}

/// The bytes of the raw string whose opening quote stands at `pos`, and the
/// offset of its closing quote: what stands between the quotes, without
/// the carriage returns.
pub open spec fn raw_string_literal(src: Seq<u8>, pos: int) -> Result<(Seq<u8>, int), LexError> {
    let close = run_end(src, pos + 1, ByteClass::WithinRawString);
    if close >= src.len() {
        Err(LexError::UnterminatedString)
    } else {
        Ok((without_cr(src.subrange(pos + 1, close)), close))
    }
}

/// Whether reading a string literal came out as `want` says.
pub open spec fn string_read(
    r: Result<(Vec<u8>, usize), LexError>,
    want: Result<(Seq<u8>, int), LexError>,
) -> bool {
    match want {
        Ok((bytes, close)) => r matches Ok((v, q)) && v@ == bytes && q == close,
        Err(err) => r matches Err(e) && e == err,
    }
}

/// Appends the bytes that an escape sequence denotes in a string.
fn push_escaped(out: &mut Vec<u8>, escaped: Escaped)
    ensures
        final(out)@ == old(out)@ + escaped.as_bytes(),
{
    match escaped {
        Escaped::Byte(b) => {
            out.push(b);
            assert(out@ =~= old(out)@ + escaped.as_bytes());
        },
        Escaped::Scalar(c) => {
            let v = c as u32;
            if v <= 0x7F {
                out.push((v & 0x7F) as u8);
            } else if v <= 0x7FF {
                out.push(0xC0 | ((v >> 6) & 0x1F) as u8);
                out.push(0x80 | (v & 0x3F) as u8);
            } else if v <= 0xFFFF {
                out.push(0xE0 | ((v >> 12) & 0x0F) as u8);
                out.push(0x80 | ((v >> 6) & 0x3F) as u8);
                out.push(0x80 | (v & 0x3F) as u8);
            } else {
                out.push(0xF0 | ((v >> 18) & 0x7) as u8);
                out.push(0x80 | ((v >> 12) & 0x3F) as u8);
                out.push(0x80 | ((v >> 6) & 0x3F) as u8);
                out.push(0x80 | (v & 0x3F) as u8);
            }
            assert(out@ =~= old(out)@ + escaped.as_bytes());
        },
    }
}

/// Reads the interpreted string whose opening quote stands at `pos`.
pub(crate) fn scan_string(bytes: &[u8], pos: usize) -> (r: Result<(Vec<u8>, usize), LexError>)
    requires
        valid_utf8(bytes@),
        pos < bytes.len(),
        bytes@[pos as int] == '"' as u8,
    ensures
        string_read(r, string_literal(bytes@, pos as int)),
        r matches Ok((_, q)) ==> pos < q < bytes.len() && bytes@[q as int] == '"' as u8,
{
    let len = bytes.len();
    let mut out: Vec<u8> = Vec::new();
    let mut p = pos + 1;
    assert(out@ + Seq::<u8>::empty() =~= out@);
    loop
        invariant
            valid_utf8(bytes@),
            len == bytes.len(),
            pos < p <= len,
            string_literal(bytes@, pos as int) == prefixed(out@, string_body(bytes@, p as int)),
        decreases len - p,
    {
        if p >= len {
            return Err(LexError::UnterminatedString);
        }
        let b = bytes[p];
        if b == '"' as u8 {
            assert(out@ + Seq::<u8>::empty() =~= out@);
            return Ok((out, p));
        }
        if b == '\n' as u8 {
            return Err(LexError::IllegalNewline(p, p + 1));
        }
        let ghost before = out@;
        if b == '\\' as u8 {
            match scan_escape(bytes, p, '"' as u8) {
                Ok((escaped, end)) => {
                    push_escaped(&mut out, escaped);
                    proof {
                        let tail = string_body(bytes@, end as int);
                        if tail is Ok {
                            let more = tail->Ok_0.0;
                            assert(before + (escaped.as_bytes() + more) =~= out@ + more);
                        }
                    }
                    p = end;
                },
                Err(e) => {
                    return Err(e);
                },
            }
        } else {
            out.push(b);
            proof {
                let tail = string_body(bytes@, p + 1);
                if tail is Ok {
                    let more = tail->Ok_0.0;
                    assert(before + (seq![b] + more) =~= out@ + more);
                }
            }
            p = p + 1;
        }
    }
}

/// Reads the raw string whose opening quote stands at `pos`.
pub(crate) fn scan_raw_string(bytes: &[u8], pos: usize) -> (r: Result<(Vec<u8>, usize), LexError>)
    requires
        pos < bytes.len(),
        bytes@[pos as int] == '`' as u8,
    ensures
        string_read(r, raw_string_literal(bytes@, pos as int)),
        r matches Ok((_, q)) ==> pos < q < bytes.len() && bytes@[q as int] == '`' as u8,
{
    let close = scan_run(bytes, pos + 1, ByteClass::WithinRawString);
    proof {
        lemma_run_end(bytes@, pos + 1, ByteClass::WithinRawString);
    }
    if close >= bytes.len() {
        return Err(LexError::UnterminatedString);
    }
    let mut out: Vec<u8> = Vec::new();
    let mut i = pos + 1;
    assert(bytes@.subrange(pos + 1, i as int) =~= Seq::<u8>::empty());
    while i < close
        invariant
            pos < i <= close < bytes.len(),
            out@ == without_cr(bytes@.subrange(pos + 1, i as int)),
        decreases close - i,
    {
        assert(bytes@.subrange(pos + 1, i + 1).drop_last() =~= bytes@.subrange(pos + 1, i as int));
        if bytes[i] != '\r' as u8 {
            out.push(bytes[i]);
        }
        i = i + 1;
    }
    Ok((out, close))
}

} // verus!
