//! Text: slices of a string between byte offsets, trimming, reading the
//! digits of an integer literal in base 10 or 16, and writing a number in
//! decimal.

use crate::lexer::Integer;
use vstd::prelude::*;
use vstd::string::*;
use vstd::utf8::*;

verus! {

/// The characters that the bytes of `text` from offset `from` up to offset
/// `to` encode. Offsets count the bytes of the UTF-8 encoding.
pub open spec fn byte_slice(text: Seq<char>, from: int, to: int) -> Seq<char> {
    decode_utf8(encode_utf8(text).subrange(from, to))
}

/// The number of bytes in the UTF-8 encoding of `text`.
pub open spec fn byte_len(text: Seq<char>) -> nat {
    encode_utf8(text).len()
}

/// In a text of ASCII characters every character is one byte: byte offsets
/// are character positions, each of them a character boundary.
pub proof fn lemma_ascii_offsets(text: Seq<char>, from: int, to: int)
    requires
        is_ascii_chars(text),
        0 <= from <= to <= text.len(),
    ensures
        byte_len(text) == text.len(),
        byte_slice(text, from, to) == text.subrange(from, to),
        is_char_boundary(encode_utf8(text), from),
        is_char_boundary(encode_utf8(text), to),
{
    let bytes = encode_utf8(text);
    let part = text.subrange(from, to);
    is_ascii_chars_encode_utf8(text);
    is_ascii_chars_encode_utf8(part);
    assert(encode_utf8(part) =~= bytes.subrange(from, to)) by {
        assert forall|i: int| 0 <= i < part.len() implies encode_utf8(part)[i] == bytes[from + i] by {
            assert(part[i] == text[from + i]);
        }
    }
    encode_utf8_decode_utf8(part);
    encode_utf8_valid_utf8(text);
    is_char_boundary_start_end_of_seq(bytes);
    if from < text.len() {
        assert(is_leading_byte_width_1(bytes[from])) by {
            assert(bytes[from] == text[from] as u8);
        }
        is_char_boundary_iff_is_leading_byte(bytes, from);
    }
    if to < text.len() {
        assert(is_leading_byte_width_1(bytes[to])) by {
            assert(bytes[to] == text[to] as u8);
        }
        is_char_boundary_iff_is_leading_byte(bytes, to);
    }
}

/// A character boundary of a text is one of each prefix that reaches it.
proof fn lemma_boundary_in_prefix(bytes: Seq<u8>, from: int, to: int)
    requires
        valid_utf8(bytes),
        0 <= from <= to <= bytes.len(),
        is_char_boundary(bytes, from),
        is_char_boundary(bytes, to),
    ensures
        valid_utf8(bytes.subrange(0, to)),
        is_char_boundary(bytes.subrange(0, to), from),
{
    let head = bytes.subrange(0, to);
    valid_utf8_split(bytes, to);
    if from == to {
        is_char_boundary_start_end_of_seq(head);
    } else {
        is_char_boundary_iff_not_is_continuation_byte(bytes, from);
        is_char_boundary_iff_not_is_continuation_byte(head, from);
    }
}

/// The part of `text` between two byte offsets that are character boundaries.
pub fn slice<'a>(text: &'a str, from: usize, to: usize) -> (r: &'a str)
    requires
        from <= to <= byte_len(text@),
        is_char_boundary(encode_utf8(text@), from as int),
        is_char_boundary(encode_utf8(text@), to as int),
    ensures
        r@ == byte_slice(text@, from as int, to as int),
        byte_len(r@) == to - from,
{
    let ghost bytes = encode_utf8(text@);
    proof {
        encode_utf8_valid_utf8(text@);
        lemma_boundary_in_prefix(bytes, from as int, to as int);
    }
    let (head, _) = text.split_at(to);
    let (_, r) = head.split_at(from);
    proof {
        assert(r.spec_bytes() =~= bytes.subrange(from as int, to as int));
        encode_utf8_decode_utf8(r@);
    }
    r
}

/// Whether `c` is white space: whether it has the Unicode property
/// `White_Space`, which is what `char::is_whitespace` tests. These are the
/// characters from tab to carriage return, the space, and the line and space
/// separators beyond ASCII.
pub open spec fn white_space(c: char) -> bool {
    ||| '\t' <= c && c <= '\r'
    ||| c == ' '
    ||| c == '\u{85}'
    ||| c == '\u{a0}'
    ||| c == '\u{1680}'
    ||| '\u{2000}' <= c && c <= '\u{200a}'
    ||| c == '\u{2028}'
    ||| c == '\u{2029}'
    ||| c == '\u{202f}'
    ||| c == '\u{205f}'
    ||| c == '\u{3000}'
}

/// `s` without the white space at its start.
pub open spec fn trim_start(s: Seq<char>) -> Seq<char>
    decreases s.len(),
{
    if s.len() > 0 && white_space(s[0]) {
        trim_start(s.skip(1))
    } else {
        s
    }
}

/// `s` without the white space at its end.
pub open spec fn trim_end(s: Seq<char>) -> Seq<char>
    decreases s.len(),
{
    if s.len() > 0 && white_space(s.last()) {
        trim_end(s.drop_last())
    } else {
        s
    }
}

/// `s` without the white space at its start and at its end.
pub open spec fn trimmed(s: Seq<char>) -> Seq<char> {
    trim_end(trim_start(s))
}

/// What is left after trimming neither starts nor ends with white space,
/// and is a part of the text.
pub proof fn lemma_trimmed(s: Seq<char>)
    ensures
        trimmed(s).len() > 0 ==> !white_space(trimmed(s).first()) && !white_space(
            trimmed(s).last(),
        ),
        exists|from: int, to: int|
            0 <= from <= to <= s.len() && trimmed(s) == #[trigger] s.subrange(from, to),
{
    lemma_trim_start(s);
    let from = s.len() - trim_start(s).len();
    let tail = s.skip(from);
    lemma_trim_end(tail);
    let to = from + trimmed(s).len();
    assert(tail.take(to - from) =~= s.subrange(from, to));
}

/// Trimming the start leaves an end of the text that does not start with
/// white space.
proof fn lemma_trim_start(s: Seq<char>)
    ensures
        trim_start(s).len() <= s.len(),
        trim_start(s) == s.skip(s.len() - trim_start(s).len()),
        trim_start(s).len() > 0 ==> !white_space(trim_start(s).first()),
    decreases s.len(),
{
    if s.len() > 0 && white_space(s[0]) {
        let tail = s.skip(1);
        lemma_trim_start(tail);
        assert(tail.skip(tail.len() - trim_start(tail).len()) =~= s.skip(
            s.len() - trim_start(s).len(),
        ));
    } else {
        assert(s.skip(0) =~= s);
    }
}

/// Trimming the end leaves a start of the text that does not end with white
/// space.
proof fn lemma_trim_end(s: Seq<char>)
    ensures
        trim_end(s).len() <= s.len(),
        trim_end(s) == s.take(trim_end(s).len() as int),
        trim_end(s).len() > 0 ==> !white_space(trim_end(s).last()),
    decreases s.len(),
{
    if s.len() > 0 && white_space(s.last()) {
        let head = s.drop_last();
        lemma_trim_end(head);
        assert(head.take(trim_end(head).len() as int) =~= s.take(trim_end(s).len() as int));
    } else {
        assert(s.take(s.len() as int) =~= s);
    }
}

/// `str::trim`: the slice of `text` that is left when the white space at both
/// ends is removed, where white space is what `char::is_whitespace` accepts.
#[verifier::external_body]
pub(crate) fn trim<'a>(text: &'a str) -> (r: &'a str)
    ensures
        r@ == trimmed(text@),
{
    text.trim()
}

/// The value of `c` read as a digit: 0 to 9 for `0`-`9`, 10 to 15 for `a`-`f`
/// and `A`-`F`, and 16 for every other character.
pub open spec fn digit_value(c: char) -> nat {
    if '0' <= c && c <= '9' {
        (c as u32 - '0' as u32) as nat
    } else if 'a' <= c && c <= 'f' {
        (c as u32 - 'a' as u32 + 10) as nat
    } else if 'A' <= c && c <= 'F' {
        (c as u32 - 'A' as u32 + 10) as nat
    } else {
        16
    }
}

/// Every character of `s` is a digit of the given base.
pub open spec fn all_digits(s: Seq<char>, base: nat) -> bool {
    forall|i: int| 0 <= i < s.len() ==> digit_value(#[trigger] s[i]) < base
}

/// The number that the digits of `s` denote in the given base, most
/// significant digit first.
pub open spec fn digits_value(s: Seq<char>, base: nat) -> nat
    decreases s.len(),
{
    if s.len() == 0 {
        0
    } else {
        digits_value(s.drop_last(), base) * base + digit_value(s.last())
    }
}

/// The digits of a literal: all of a decimal literal's text, and a hexadecimal
/// literal's text without its leading `0x`.
pub open spec fn literal_digits(itype: Integer, text: Seq<char>) -> Seq<char> {
    match itype {
        Integer::Decimal => text,
        Integer::Hexadecimal => if text.len() >= 2 && text[0] == '0' && text[1] == 'x' {
            text.skip(2)
        } else {
            text
        },
    }
}

/// The constant that a literal denotes: its digits must be at least one digit
/// of its base and denote a number that fits in 32 bits.
pub open spec fn literal_value(itype: Integer, text: Seq<char>) -> Option<u32> {
    let digits = literal_digits(itype, text);
    let base = itype.spec_base();
    if digits.len() > 0 && all_digits(digits, base) && digits_value(digits, base) <= u32::MAX {
        Some(digits_value(digits, base) as u32)
    } else {
        None
    }
}

/// The character that writes the digit `d` (below 10).
pub open spec fn digit_char(d: nat) -> char {
    ((d + '0' as u32) as u32) as char
}

/// `n` written in decimal, without leading zeros.
pub open spec fn decimal_text(n: nat) -> Seq<char>
    decreases n,
{
    if n < 10 {
        seq![digit_char(n)]
    } else {
        decimal_text(n / 10).push(digit_char(n % 10))
    }
}

/// A longer digit string denotes no less than its prefix.
pub proof fn lemma_digits_value_prefix(s: Seq<char>, k: int, base: nat)
    requires
        0 <= k <= s.len(),
        base >= 1,
    ensures
        digits_value(s.take(k), base) <= digits_value(s, base),
    decreases s.len(),
{
    if k == s.len() {
        assert(s.take(k) =~= s);
    } else {
        lemma_digits_value_prefix(s.drop_last(), k, base);
        assert(s.drop_last().take(k) =~= s.take(k));
        let hi = digits_value(s.drop_last(), base);
        assert(hi <= hi * base) by (nonlinear_arith)
            requires
                base >= 1,
        ;
    }
}

/// Reading back a number written in decimal gives the number.
pub proof fn lemma_decimal_round_trip(n: nat)
    ensures
        decimal_text(n).len() > 0,
        all_digits(decimal_text(n), 10),
        digits_value(decimal_text(n), 10) == n,
    decreases n,
{
    if n < 10 {
        let s = decimal_text(n);
        assert(digits_value(s.drop_last(), 10) == 0);
    } else {
        lemma_decimal_round_trip(n / 10);
        let hi = decimal_text(n / 10);
        let s = decimal_text(n);
        assert(s.drop_last() =~= hi);
        assert forall|i: int| 0 <= i < s.len() implies digit_value(#[trigger] s[i]) < 10 by {
            if i < hi.len() {
                assert(s[i] == hi[i]);
            }
        }
    }
}

/// A decimal literal that writes `n` denotes `n`.
pub proof fn lemma_decimal_literal(n: u32)
    ensures
        literal_value(Integer::Decimal, decimal_text(n as nat)) == Some(n),
{
    lemma_decimal_round_trip(n as nat);
}

/// The value of a byte read as a digit, as [`digit_value`] gives it for the
/// character with that code.
pub open spec fn byte_digit_value(b: u8) -> nat {
    if 48 <= b && b <= 57 {
        (b - 48) as nat
    } else if 97 <= b && b <= 102 {
        (b - 97 + 10) as nat
    } else if 65 <= b && b <= 70 {
        (b - 65 + 10) as nat
    } else {
        16
    }
}

/// A byte of an ASCII text is read as a digit like its character.
proof fn lemma_byte_digit(c: char)
    requires
        c <= '\u{7f}',
    ensures
        byte_digit_value(c as u8) == digit_value(c),
{
}

/// The value of a byte read as a digit.
fn byte_digit(b: u8) -> (r: u32)
    ensures
        r == byte_digit_value(b),
{
    if 48 <= b && b <= 57 {
        (b - 48) as u32
    } else if 97 <= b && b <= 102 {
        (b - 97) as u32 + 10
    } else if 65 <= b && b <= 70 {
        (b - 65) as u32 + 10
    } else {
        16
    }
}

/// Reads the bytes from `start` on as digits of the given base, where
/// `digits` is what they stand for.
fn decode_digits(bytes: &[u8], start: usize, base: u32, Ghost(digits): Ghost<Seq<char>>) -> (r:
    Option<u32>)
    requires
        1 <= base <= 16,
        start <= bytes@.len(),
        digits.len() == bytes@.len() - start,
        forall|k: int|
            0 <= k < digits.len() ==> byte_digit_value(#[trigger] bytes@[start + k])
                == digit_value(digits[k]),
    ensures
        r == if all_digits(digits, base as nat) && digits_value(digits, base as nat) <= u32::MAX {
            Some(digits_value(digits, base as nat) as u32)
        } else {
            None
        },
{
    let n = bytes.len();
    let mut acc: u32 = 0;
    let mut i: usize = start;
    while i < n
        invariant
            1 <= base <= 16,
            start <= i <= n,
            n == bytes@.len(),
            digits.len() == n - start,
            forall|k: int|
                0 <= k < digits.len() ==> byte_digit_value(#[trigger] bytes@[start + k])
                    == digit_value(digits[k]),
            all_digits(digits.take(i - start), base as nat),
            acc == digits_value(digits.take(i - start), base as nat),
        decreases n - i,
    {
        let d = byte_digit(bytes[i]);
        let ghost k = i - start;
        let ghost longer = digits.take(k + 1);
        proof {
            assert(bytes@[start + k] == bytes@[i as int]);
            assert(longer.drop_last() =~= digits.take(k));
        }
        if d >= base {
            return None;
        }
        assert(acc * base <= u32::MAX * 16) by (nonlinear_arith)
            requires
                acc <= u32::MAX,
                base <= 16,
        ;
        let next: u64 = acc as u64 * base as u64 + d as u64;
        if next > u32::MAX as u64 {
            proof {
                lemma_digits_value_prefix(digits, k + 1, base as nat);
            }
            return None;
        }
        proof {
            assert forall|j: int| 0 <= j < longer.len() implies digit_value(#[trigger] longer[j])
                < base by {
                if j < k {
                    assert(longer[j] == digits.take(k)[j]);
                }
            }
        }
        acc = next as u32;
        i += 1;
    }
    assert(digits.take(n - start) =~= digits);
    Some(acc)
}

/// Decodes the text of an integer literal of the given notation. `None` when
/// the text has no digits, holds a character that is no digit of the base, or
/// denotes a number above `u32::MAX`.
pub fn decode_literal(itype: Integer, text: &str) -> (r: Option<u32>)
    ensures
        r == literal_value(itype, text@),
{
    let base = itype.base();
    let ghost digits = literal_digits(itype, text@);
    if !text.is_ascii() {
        proof {
            let i = choose|i: int|
                0 <= i < text@.len() && !('\0' <= #[trigger] text@[i] <= '\u{7f}');
            let j = i - (text@.len() - digits.len());
            assert(digit_value(digits[j]) == 16);
        }
        return None;
    }
    let bytes = text.as_bytes();
    let n = bytes.len();
    proof {
        is_ascii_spec_bytes(text);
        assert forall|i: int| 0 <= i < n implies byte_digit_value(#[trigger] bytes@[i])
            == digit_value(text@[i]) by {
            lemma_byte_digit(text@[i]);
        }
    }
    let hex = match itype {
        Integer::Decimal => false,
        Integer::Hexadecimal => true,
    };
    let start: usize = if hex && n >= 2 && bytes[0] == 48 && bytes[1] == 120 {
        2
    } else {
        0
    };
    if start == n {
        return None;
    }
    decode_digits(bytes, start, base, Ghost(digits))
}

/// The one-character text of a decimal digit.
fn digit_str(d: u32) -> (r: &'static str)
    requires
        d < 10,
    ensures
        r@ == seq![digit_char(d as nat)],
{
    proof {
        reveal_strlit("0");
        reveal_strlit("1");
        reveal_strlit("2");
        reveal_strlit("3");
        reveal_strlit("4");
        reveal_strlit("5");
        reveal_strlit("6");
        reveal_strlit("7");
        reveal_strlit("8");
        reveal_strlit("9");
    }
    let r = if d == 0 {
        "0"
    } else if d == 1 {
        "1"
    } else if d == 2 {
        "2"
    } else if d == 3 {
        "3"
    } else if d == 4 {
        "4"
    } else if d == 5 {
        "5"
    } else if d == 6 {
        "6"
    } else if d == 7 {
        "7"
    } else if d == 8 {
        "8"
    } else {
        "9"
    };
    r
}

/// Appends `n`, written in decimal, to `out`.
pub fn push_decimal(out: &mut String, n: u32)
    ensures
        final(out)@ == old(out)@ + decimal_text(n as nat),
    decreases n,
{
    if n >= 10 {
        push_decimal(out, n / 10);
    }
    out.append(digit_str(n % 10));
}

} // verus!
