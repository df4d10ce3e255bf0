//! Character classes of the lexical grammar, and walking through UTF-8 text
//! one scalar value at a time.

use vstd::prelude::*;
use vstd::utf8::*;

verus! {

/// An ASCII letter or the underscore.
pub open spec fn is_letter_byte(b: u8) -> bool {
    ('a' as u8 <= b <= 'z' as u8) || ('A' as u8 <= b <= 'Z' as u8) || b == '_' as u8
}

pub open spec fn is_dec_digit(b: u8) -> bool {
    '0' as u8 <= b <= '9' as u8
}

pub open spec fn is_oct_digit(b: u8) -> bool {
    '0' as u8 <= b <= '7' as u8
}

pub open spec fn is_hex_digit(b: u8) -> bool {
    is_dec_digit(b) || ('a' as u8 <= b <= 'f' as u8) || ('A' as u8 <= b <= 'F' as u8)
}

/// The number that a hexadecimal digit stands for.
pub open spec fn digit_value(b: u8) -> int {
    if is_dec_digit(b) {
        b - '0' as u8
    } else if 'a' as u8 <= b <= 'f' as u8 {
        b - 'a' as u8 + 10
    } else {
        b - 'A' as u8 + 10
    }
}

pub(crate) fn letter_byte(b: u8) -> (r: bool)
    ensures
        r == is_letter_byte(b),
{
    ('a' as u8 <= b && b <= 'z' as u8) || ('A' as u8 <= b && b <= 'Z' as u8) || b == '_' as u8
}

pub(crate) fn dec_digit(b: u8) -> (r: bool)
    ensures
        r == is_dec_digit(b),
{
    '0' as u8 <= b && b <= '9' as u8
}

pub(crate) fn oct_digit(b: u8) -> (r: bool)
    ensures
        r == is_oct_digit(b),
{
    '0' as u8 <= b && b <= '7' as u8
}

pub(crate) fn hex_digit(b: u8) -> (r: bool)
    ensures
        r == is_hex_digit(b),
{
    dec_digit(b) || ('a' as u8 <= b && b <= 'f' as u8) || ('A' as u8 <= b && b <= 'F' as u8)
}

pub(crate) fn hex_value(b: u8) -> (v: u8)
    requires
        is_hex_digit(b),
    ensures
        v == digit_value(b),
        v < 16,
{
    if dec_digit(b) {
        b - '0' as u8
    } else if 'a' as u8 <= b && b <= 'f' as u8 {
        b - 'a' as u8 + 10
    } else {
        b - 'A' as u8 + 10
    }
}

/// Classes of bytes of which the scanner reads a whole run at once.
#[derive(Debug, Clone, Copy, PartialEq, Eq, Structural)]
pub enum ByteClass {
    /// Space, horizontal tab and carriage return.
    Blank,
    Decimal,
    Octal,
    Hex,
    /// Every byte but the line feed.
    WithinLine,
    /// Every byte but the back quote.
    WithinRawString,
}

impl ByteClass {
    pub open spec fn holds(self, b: u8) -> bool {
        match self {
            ByteClass::Blank => b == ' ' as u8 || b == '\t' as u8 || b == '\r' as u8,
            ByteClass::Decimal => is_dec_digit(b),
            ByteClass::Octal => is_oct_digit(b),
            ByteClass::Hex => is_hex_digit(b),
            ByteClass::WithinLine => b != '\n' as u8,
            ByteClass::WithinRawString => b != '`' as u8,
        }
    }

    pub(crate) fn test(self, b: u8) -> (r: bool)
        ensures
            r == self.holds(b),
    {
        match self {
            ByteClass::Blank => b == ' ' as u8 || b == '\t' as u8 || b == '\r' as u8,
            ByteClass::Decimal => dec_digit(b),
            ByteClass::Octal => oct_digit(b),
            ByteClass::Hex => hex_digit(b),
            ByteClass::WithinLine => b != '\n' as u8,
            ByteClass::WithinRawString => b != '`' as u8,
        }
    }
}

/// Where the run of bytes of `class` that starts at `pos` ends: the first
/// offset from `pos` on that holds no byte of the class.
pub open spec fn run_end(src: Seq<u8>, pos: int, class: ByteClass) -> int
    decreases src.len() - pos,
{
    if 0 <= pos < src.len() && class.holds(src[pos]) {
        run_end(src, pos + 1, class)
    } else {
        pos
    }
}

/// A run ends inside the text, holds only bytes of its class, and stops at
/// the end of the text or before a byte that is not of the class.
pub proof fn lemma_run_end(src: Seq<u8>, pos: int, class: ByteClass)
    requires
        0 <= pos <= src.len(),
    ensures
        pos <= run_end(src, pos, class) <= src.len(),
        forall|i: int| pos <= i < run_end(src, pos, class) ==> class.holds(#[trigger] src[i]),
        run_end(src, pos, class) < src.len() ==> !class.holds(src[run_end(src, pos, class)]),
    decreases src.len() - pos,
{
    if pos < src.len() && class.holds(src[pos]) {
        lemma_run_end(src, pos + 1, class);
    }
}

/// A run is the only stretch of bytes of its class that cannot be extended.
pub proof fn lemma_run_end_unique(src: Seq<u8>, pos: int, class: ByteClass, end: int)
    requires
        0 <= pos <= end <= src.len(),
        forall|i: int| pos <= i < end ==> class.holds(#[trigger] src[i]),
        end < src.len() ==> !class.holds(src[end]),
    ensures
        run_end(src, pos, class) == end,
    decreases end - pos,
{
    if pos < end {
        lemma_run_end_unique(src, pos + 1, class, end);
    }
}

pub(crate) fn scan_run(bytes: &[u8], pos: usize, class: ByteClass) -> (end: usize)
    requires
        pos <= bytes.len(),
    ensures
        end == run_end(bytes@, pos as int, class),
        pos <= end <= bytes.len(),
{
    let mut i: usize = pos;
    while i < bytes.len() && class.test(bytes[i])
        invariant
            pos <= i <= bytes.len(),
            run_end(bytes@, pos as int, class) == run_end(bytes@, i as int, class),
        decreases bytes.len() - i,
    {
        i = i + 1;
    }
    i
}

/// Whether a scalar value counts as a letter: what `char::is_alphabetic`
/// answers.
pub uninterp spec fn unicode_letter(c: char) -> bool;

/// Whether a scalar value counts as a digit: what `char::is_numeric` answers.
pub uninterp spec fn unicode_digit(c: char) -> bool;

/// `char::is_alphabetic` looks its argument up in the Unicode tables of the
/// standard library; its answer is a function of the scalar value alone.
pub assume_specification[ char::is_alphabetic ](c: char) -> (r: bool)
    ensures
        r == unicode_letter(c),
;

/// `char::is_numeric` looks its argument up in the Unicode tables of the
/// standard library; its answer is a function of the scalar value alone.
pub assume_specification[ char::is_numeric ](c: char) -> (r: bool)
    ensures
        r == unicode_digit(c),
;

/// `char::from_u32` returns the scalar value with the given number, and
/// `None` for a number that is no scalar value (a surrogate, or one above
/// `0x10FFFF`).
pub assume_specification[ char::from_u32 ](v: u32) -> (r: Option<char>)
    ensures
        r == (if is_scalar(v) { Some(v as char) } else { None }),
;

/// The text from `pos` to its end.
pub open spec fn rest(src: Seq<u8>, pos: int) -> Seq<u8> {
    src.subrange(pos, src.len() as int)
}

/// The scalar value whose encoding starts at `pos`.
pub open spec fn scalar_at(src: Seq<u8>, pos: int) -> char {
    decode_first_scalar(rest(src, pos)) as char
}

/// The number of bytes that encode the scalar value at `pos`.
pub open spec fn scalar_len(src: Seq<u8>, pos: int) -> int {
    length_of_first_scalar(rest(src, pos))
}

/// Where the scalar value at `pos` ends; `pos` itself at the end of the text.
pub open spec fn char_end(src: Seq<u8>, pos: int) -> int {
    if 0 <= pos < src.len() {
        pos + scalar_len(src, pos)
    } else {
        pos
    }
}

/// In well-formed text, a scalar value starts at every character boundary
/// before the end, and the next boundary lies right behind its encoding.
pub proof fn lemma_scalar_step(src: Seq<u8>, pos: int)
    requires
        valid_utf8(src),
        is_char_boundary(src, pos),
        0 <= pos < src.len(),
    ensures
        valid_first_scalar(rest(src, pos)),
        is_scalar(decode_first_scalar(rest(src, pos))),
        1 <= scalar_len(src, pos) <= 4,
        pos + scalar_len(src, pos) <= src.len(),
        is_char_boundary(src, pos + scalar_len(src, pos)),
        src[pos] < 0x80 <==> scalar_len(src, pos) == 1,
{
    let tail = rest(src, pos);
    valid_utf8_split(src, pos);
    assert(valid_utf8(tail));
    assert(valid_first_scalar(tail) && valid_utf8(pop_first_scalar(tail)));
    assert(tail[0] == src[pos]);
    let n = length_of_first_scalar(tail);
    let v = decode_first_scalar(tail);
    let (b0, b1, b2) = (tail[0], tail[1], tail[2]);
    if is_leading_byte_width_1(b0) {
        assert((b0 & 0x7F) as u32 <= 0x7F) by (bit_vector);
    } else if is_leading_byte_width_2(b0) {
        assert((((b0 & 0x1F) as u32) << 6) | ((b1 & 0x3F) as u32) <= 0x7FF) by (bit_vector);
    } else if is_leading_byte_width_3(b0) {
        assert((((b0 & 0x0F) as u32) << 12) | (((b1 & 0x3F) as u32) << 6) | ((b2 & 0x3F) as u32)
            <= 0xFFFF) by (bit_vector);
    }
    let next = pos + n;
    if next < src.len() {
        let after = pop_first_scalar(tail);
        assert(after.len() > 0);
        assert(valid_first_scalar(after));
        assert(after[0] == src[next]);
        is_char_boundary_iff_not_is_continuation_byte(src, next);
    } else {
        is_char_boundary_start_end_of_seq(src);
    }
}

/// In well-formed text every ASCII byte stands at a character boundary.
pub proof fn lemma_ascii_boundary(src: Seq<u8>, pos: int)
    requires
        valid_utf8(src),
        0 <= pos < src.len(),
        src[pos] < 0x80,
    ensures
        is_char_boundary(src, pos),
{
    is_char_boundary_iff_not_is_continuation_byte(src, pos);
}

/// A stretch of ASCII bytes that starts at a character boundary ends at one.
pub proof fn lemma_ascii_stretch(src: Seq<u8>, start: int, end: int)
    requires
        valid_utf8(src),
        0 <= start <= end <= src.len(),
        is_char_boundary(src, start),
        forall|i: int| start <= i < end ==> #[trigger] src[i] < 0x80,
    ensures
        is_char_boundary(src, end),
    decreases end - start,
{
    if start < end {
        lemma_ascii_stretch(src, start, end - 1);
        lemma_scalar_step(src, end - 1);
    }
}

/// Decodes the scalar value that starts at `pos`, and says where it ends.
pub(crate) fn next_scalar(bytes: &[u8], pos: usize) -> (r: (char, usize))
    requires
        valid_utf8(bytes@),
        is_char_boundary(bytes@, pos as int),
        pos < bytes.len(),
    ensures
        r.0 == scalar_at(bytes@, pos as int),
        r.1 == char_end(bytes@, pos as int),
        pos < r.1 <= bytes.len(),
        is_char_boundary(bytes@, r.1 as int),
{
    proof {
        lemma_scalar_step(bytes@, pos as int);
    }
    let ghost tail = rest(bytes@, pos as int);
    let b0 = bytes[pos];
    assert(b0 == tail[0]);
    if b0 < 0x80 {
        let v: u32 = (b0 & 0x7F) as u32;
        (char::from_u32(v).unwrap(), pos + 1)
    } else if b0 < 0xE0 {
        let b1 = bytes[pos + 1];
        assert(b1 == tail[1]);
        let v: u32 = (((b0 & 0x1F) as u32) << 6) | ((b1 & 0x3F) as u32);
        (char::from_u32(v).unwrap(), pos + 2)
    } else if b0 < 0xF0 {
        let b1 = bytes[pos + 1];
        let b2 = bytes[pos + 2];
        assert(b1 == tail[1] && b2 == tail[2]);
        let v: u32 = (((b0 & 0x0F) as u32) << 12) | (((b1 & 0x3F) as u32) << 6) | ((b2
            & 0x3F) as u32);
        (char::from_u32(v).unwrap(), pos + 3)
    } else {
        let b1 = bytes[pos + 1];
        let b2 = bytes[pos + 2];
        let b3 = bytes[pos + 3];
        assert(b1 == tail[1] && b2 == tail[2] && b3 == tail[3]);
        let v: u32 = (((b0 & 0x07) as u32) << 18) | (((b1 & 0x3F) as u32) << 12) | (((b2
            & 0x3F) as u32) << 6) | ((b3 & 0x3F) as u32);
        (char::from_u32(v).unwrap(), pos + 4)
    }
}

/// Where the scalar value at `pos` ends; `pos` itself at the end of the text.
pub(crate) fn scalar_end(bytes: &[u8], pos: usize) -> (end: usize)
    requires
        valid_utf8(bytes@),
        is_char_boundary(bytes@, pos as int),
        pos <= bytes.len(),
    ensures
        end == char_end(bytes@, pos as int),
        pos <= end <= bytes.len(),
{
    if pos < bytes.len() {
        next_scalar(bytes, pos).1
    } else {
        pos
    }
}

} // verus!
