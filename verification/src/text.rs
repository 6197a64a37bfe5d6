//! Quoted strings, marks and white space of the metadata text form.
//!
//! A string stands between double quotes. It is written with a quote, a
//! backslash and every control byte as an escape, and all other bytes, those
//! of multi-byte characters among them, as themselves. It is read with every
//! escape that JSON knows: the two-character escapes, and `\uXXXX` for any
//! code unit, two of them where the character needs a surrogate pair.

use crate::hexcode::{hex_digit_byte, hex_digit_value};
use vstd::prelude::*;
use vstd::utf8::*;

verus! {

/// The double quote that opens and closes a string.
pub const QUOTE: u8 = 0x22;

/// The backslash that opens an escape.
pub const BACKSLASH: u8 = 0x5c;

/// How one byte of content is written.
pub open spec fn escape_unit(b: u8) -> Seq<u8> {
    if b == QUOTE {
        seq![BACKSLASH, QUOTE]
    } else if b == BACKSLASH {
        seq![BACKSLASH, BACKSLASH]
    } else if b == 0x08 {
        seq![BACKSLASH, 'b' as u8]
    } else if b == 0x09 {
        seq![BACKSLASH, 't' as u8]
    } else if b == 0x0a {
        seq![BACKSLASH, 'n' as u8]
    } else if b == 0x0c {
        seq![BACKSLASH, 'f' as u8]
    } else if b == 0x0d {
        seq![BACKSLASH, 'r' as u8]
    } else if b < 0x20 {
        seq![
            BACKSLASH,
            'u' as u8,
            '0' as u8,
            '0' as u8,
            hex_digit_byte(b / 16),
            hex_digit_byte(b % 16),
        ]
    } else {
        seq![b]
    }
}

/// How a run of content is written: byte by byte.
pub open spec fn escaped(content: Seq<u8>) -> Seq<u8>
    decreases content.len(),
{
    if content.len() == 0 {
        Seq::empty()
    } else {
        escape_unit(content[0]) + escaped(content.skip(1))
    }
}

/// A string as it stands in the text: its escaped content between quotes.
pub open spec fn quoted(content: Seq<u8>) -> Seq<u8> {
    seq![QUOTE] + escaped(content) + seq![QUOTE]
}

/// The byte that a two-character escape stands for.
pub open spec fn short_escape(c: u8) -> Option<u8> {
    if c == QUOTE {
        Some(QUOTE)
    } else if c == BACKSLASH {
        Some(BACKSLASH)
    } else if c == '/' as u8 {
        Some('/' as u8)
    } else if c == 'b' as u8 {
        Some(0x08u8)
    } else if c == 't' as u8 {
        Some(0x09u8)
    } else if c == 'n' as u8 {
        Some(0x0au8)
    } else if c == 'f' as u8 {
        Some(0x0cu8)
    } else if c == 'r' as u8 {
        Some(0x0du8)
    } else {
        None
    }
}

/// The number that the first four bytes of `input` spell in hexadecimal, of
/// either case.
pub open spec fn hex4(input: Seq<u8>) -> Option<u32> {
    if input.len() >= 4 && hex_digit_value(input[0]) is Some && hex_digit_value(input[1]) is Some
        && hex_digit_value(input[2]) is Some && hex_digit_value(input[3]) is Some {
        Some(
            (((hex_digit_value(input[0])->0 * 16 + hex_digit_value(input[1])->0) * 16
                + hex_digit_value(input[2])->0) * 16 + hex_digit_value(input[3])->0) as u32,
        )
    } else {
        None
    }
}

/// The bytes that stand for the character with this code: one byte below
/// 128, two below 2048, three below 65536, four above.
pub open spec fn utf8_bytes(code: u32) -> Seq<u8> {
    if code < 0x80 {
        seq![code as u8]
    } else if code < 0x800 {
        seq![(0xc0 + code / 64) as u8, (0x80 + code % 64) as u8]
    } else if code < 0x10000 {
        seq![
            (0xe0 + code / 4096) as u8,
            (0x80 + (code / 64) % 64) as u8,
            (0x80 + code % 64) as u8,
        ]
    } else {
        seq![
            (0xf0 + code / 262144) as u8,
            (0x80 + (code / 4096) % 64) as u8,
            (0x80 + (code / 64) % 64) as u8,
            (0x80 + code % 64) as u8,
        ]
    }
}

/// Whether `code` is the first half of a surrogate pair.
pub open spec fn is_leading(code: u32) -> bool {
    0xd800 <= code < 0xdc00
}

/// Whether `code` is the second half of a surrogate pair.
pub open spec fn is_trailing(code: u32) -> bool {
    0xdc00 <= code < 0xe000
}

/// The code of the character that a surrogate pair stands for.
pub open spec fn paired(leading: u32, trailing: u32) -> u32 {
    (0x10000 + (leading - 0xd800) * 0x400 + (trailing - 0xdc00)) as u32
}

/// Reads the code of a character behind `\u`: four hexadecimal digits, and
/// where they are the first half of a surrogate pair, `\u` and four more for
/// the second half. Half a pair alone is an error.
pub open spec fn take_code(input: Seq<u8>) -> Option<(u32, Seq<u8>)> {
    match hex4(input) {
        None => None,
        Some(first) => if is_trailing(first) {
            None
        } else if is_leading(first) {
            if input.len() >= 6 && input[4] == BACKSLASH && input[5] == 'u' as u8 {
                match hex4(input.skip(6)) {
                    None => None,
                    Some(second) => if is_trailing(second) {
                        Some((paired(first, second), input.skip(10)))
                    } else {
                        None
                    },
                }
            } else {
                None
            }
        } else {
            Some((first, input.skip(4)))
        },
    }
}

/// Reads one unit of content off the front of `input`: a plain byte, a
/// two-character escape, or a `\u` escape, which gives the bytes of its
/// character. A bare quote or control byte is no content.
pub open spec fn take_unit(input: Seq<u8>) -> Option<(Seq<u8>, Seq<u8>)> {
    if input.len() == 0 {
        None
    } else if input[0] == BACKSLASH {
        if input.len() >= 2 && short_escape(input[1]) is Some {
            Some((seq![short_escape(input[1])->0], input.skip(2)))
        } else if input.len() >= 2 && input[1] == 'u' as u8 {
            match take_code(input.skip(2)) {
                None => None,
                Some((code, rest)) => Some((utf8_bytes(code), rest)),
            }
        } else {
            None
        }
    } else if input[0] < 0x20 || input[0] == QUOTE {
        None
    } else {
        Some((seq![input[0]], input.skip(1)))
    }
}

/// Reads content up to and including the closing quote.
pub open spec fn take_string_body(input: Seq<u8>) -> Option<(Seq<u8>, Seq<u8>)>
    decreases input.len(),
{
    if input.len() == 0 {
        None
    } else if input[0] == QUOTE {
        Some((Seq::empty(), input.skip(1)))
    } else {
        match take_unit(input) {
            None => None,
            Some((unit, rest)) => {
                if rest.len() < input.len() {
                    match take_string_body(rest) {
                        None => None,
                        Some((tail, after)) => Some((unit + tail, after)),
                    }
                } else {
                    None
                }
            },
        }
    }
}

/// Reads a quoted string off the front of `input`; gives its content.
pub open spec fn take_string(input: Seq<u8>) -> Option<(Seq<u8>, Seq<u8>)> {
    if input.len() > 0 && input[0] == QUOTE {
        take_string_body(input.skip(1))
    } else {
        None
    }
}

/// Whether `b` is white space between tokens: a space, a tab, a line feed or
/// a carriage return.
pub open spec fn is_space(b: u8) -> bool {
    b == 0x20 || b == 0x09 || b == 0x0a || b == 0x0d
}

/// What is left of `input` behind its leading white space.
pub open spec fn skip_spaces(input: Seq<u8>) -> Seq<u8>
    decreases input.len(),
{
    if input.len() > 0 && is_space(input[0]) {
        skip_spaces(input.skip(1))
    } else {
        input
    }
}

/// Reads the byte `mark` off the front of `input`, behind any white space.
pub open spec fn take_mark(input: Seq<u8>, mark: u8) -> Option<Seq<u8>> {
    let trimmed = skip_spaces(input);
    if trimmed.len() > 0 && trimmed[0] == mark {
        Some(trimmed.skip(1))
    } else {
        None
    }
}

/// A mark is read off the front of what it was written before.
pub proof fn lemma_take_mark(mark: u8, rest: Seq<u8>)
    requires
        !is_space(mark),
    ensures
        take_mark(seq![mark] + rest, mark) == Some(rest),
{
    let input = seq![mark] + rest;
    assert(input[0] == mark);
    assert(input.skip(1) =~= rest);
}

/// No mark is read off an input that opens with another byte than the mark
/// or white space.
pub proof fn lemma_other_mark(input: Seq<u8>, mark: u8)
    requires
        input.len() > 0,
        !is_space(input[0]),
        input[0] != mark,
    ensures
        take_mark(input, mark) is None,
{
}

/// One written byte is read back, whatever follows, and its writing never
/// opens with a quote.
pub proof fn lemma_take_unit(b: u8, rest: Seq<u8>)
    ensures
        take_unit(escape_unit(b) + rest) == Some((seq![b], rest)),
        escape_unit(b).len() > 0,
        escape_unit(b)[0] != QUOTE,
{
    let unit = escape_unit(b);
    let input = unit + rest;
    assert(input.skip(unit.len() as int) =~= rest);
    if b < 0x20 && b != 0x08 && b != 0x09 && b != 0x0a && b != 0x0c && b != 0x0d {
        let digits = input.skip(2);
        assert(input[1] == 'u' as u8);
        assert(short_escape(input[1]) is None);
        assert(digits[0] == '0' as u8);
        assert(digits[1] == '0' as u8);
        assert(digits[2] == hex_digit_byte(b / 16));
        assert(digits[3] == hex_digit_byte(b % 16));
        assert(hex_digit_value(hex_digit_byte(b / 16)) == Some((b / 16) as u8));
        assert(hex_digit_value(hex_digit_byte(b % 16)) == Some((b % 16) as u8));
        assert(hex4(digits) == Some(b as u32));
        assert(digits.skip(4) =~= rest);
        assert(utf8_bytes(b as u32) =~= seq![b]);
    } else if unit.len() == 2 {
        assert(input[0] == BACKSLASH);
        assert(short_escape(input[1]) == Some(b));
    } else {
        assert(input[0] == b);
    }
}

/// Appending a byte to the content appends its writing to the text.
pub proof fn lemma_escaped_push(content: Seq<u8>, b: u8)
    ensures
        escaped(content.push(b)) == escaped(content) + escape_unit(b),
    decreases content.len(),
{
    if content.len() == 0 {
        assert(content.push(b).skip(1) =~= Seq::<u8>::empty());
        assert(escaped(content.push(b)) =~= escape_unit(b) + escaped(Seq::<u8>::empty()));
        assert(escaped(content.push(b)) =~= escaped(content) + escape_unit(b));
    } else {
        lemma_escaped_push(content.skip(1), b);
        assert(content.push(b).skip(1) =~= content.skip(1).push(b));
        assert(escaped(content.push(b)) =~= escaped(content) + escape_unit(b));
    }
}

/// Written content is read back up to its closing quote, whatever follows.
pub proof fn lemma_take_string_body(content: Seq<u8>, rest: Seq<u8>)
    ensures
        take_string_body(escaped(content) + seq![QUOTE] + rest) == Some((content, rest)),
    decreases content.len(),
{
    let input = escaped(content) + seq![QUOTE] + rest;
    if content.len() == 0 {
        assert(input.skip(1) =~= rest);
        assert(content =~= Seq::<u8>::empty());
    } else {
        let unit = escape_unit(content[0]);
        let tail = escaped(content.skip(1)) + seq![QUOTE] + rest;
        lemma_take_unit(content[0], tail);
        assert(input =~= unit + tail);
        assert(input[0] == unit[0]);
        lemma_take_string_body(content.skip(1), rest);
        assert(seq![content[0]] + content.skip(1) =~= content);
    }
}

/// A quoted string is read back as its content, whatever follows.
pub proof fn lemma_take_string(content: Seq<u8>, rest: Seq<u8>)
    ensures
        take_string(quoted(content) + rest) == Some((content, rest)),
{
    let input = quoted(content) + rest;
    lemma_take_string_body(content, rest);
    assert(input.skip(1) =~= escaped(content) + seq![QUOTE] + rest);
}

/// The byte of the lower-case hexadecimal digit for `n`.
fn hex_digit_of(n: u8) -> (c: u8)
    requires
        n < 16,
    ensures
        c == hex_digit_byte(n),
{
    if n < 10 {
        '0' as u8 + n
    } else {
        'a' as u8 + n - 10
    }
}

/// The value of the hexadecimal digit `c`, of either case.
fn hex_value_of(c: u8) -> (v: Option<u8>)
    ensures
        v == hex_digit_value(c),
{
    if '0' as u8 <= c && c <= '9' as u8 {
        Some(c - '0' as u8)
    } else if 'a' as u8 <= c && c <= 'f' as u8 {
        Some(c - 'a' as u8 + 10)
    } else if 'A' as u8 <= c && c <= 'F' as u8 {
        Some(c - 'A' as u8 + 10)
    } else {
        None
    }
}

/// The byte that the two-character escape ending in `c` stands for.
fn short_escape_of(c: u8) -> (b: Option<u8>)
    ensures
        b == short_escape(c),
{
    if c == QUOTE {
        Some(QUOTE)
    } else if c == BACKSLASH {
        Some(BACKSLASH)
    } else if c == '/' as u8 {
        Some('/' as u8)
    } else if c == 'b' as u8 {
        Some(0x08)
    } else if c == 't' as u8 {
        Some(0x09)
    } else if c == 'n' as u8 {
        Some(0x0a)
    } else if c == 'f' as u8 {
        Some(0x0c)
    } else if c == 'r' as u8 {
        Some(0x0d)
    } else {
        None
    }
}

/// Appends the writing of one byte of content.
fn put_unit(out: &mut Vec<u8>, b: u8)
    ensures
        final(out)@ == old(out)@ + escape_unit(b),
{
    if b == QUOTE || b == BACKSLASH {
        out.push(BACKSLASH);
        out.push(b);
    } else if b == 0x08 {
        out.push(BACKSLASH);
        out.push('b' as u8);
    } else if b == 0x09 {
        out.push(BACKSLASH);
        out.push('t' as u8);
    } else if b == 0x0a {
        out.push(BACKSLASH);
        out.push('n' as u8);
    } else if b == 0x0c {
        out.push(BACKSLASH);
        out.push('f' as u8);
    } else if b == 0x0d {
        out.push(BACKSLASH);
        out.push('r' as u8);
    } else if b < 0x20 {
        out.push(BACKSLASH);
        out.push('u' as u8);
        out.push('0' as u8);
        out.push('0' as u8);
        out.push(hex_digit_of(b / 16));
        out.push(hex_digit_of(b % 16));
    } else {
        out.push(b);
    }
    assert(out@ =~= old(out)@ + escape_unit(b));
}

/// Appends `content` to `out` as a quoted string.
pub fn put_quoted(out: &mut Vec<u8>, content: &[u8])
    ensures
        final(out)@ == old(out)@ + quoted(content@),
{
    let ghost before = out@;
    out.push(QUOTE);
    let mut i: usize = 0;
    while i < content.len()
        invariant
            i <= content@.len(),
            out@ == before + seq![QUOTE] + escaped(content@.take(i as int)),
        decreases content@.len() - i,
    {
        let b = content[i];
        put_unit(out, b);
        proof {
            lemma_escaped_push(content@.take(i as int), b);
            assert(content@.take(i + 1) =~= content@.take(i as int).push(b));
            assert(out@ =~= before + seq![QUOTE] + escaped(content@.take(i + 1)));
        }
        i += 1;
    }
    assert(content@.take(i as int) =~= content@);
    out.push(QUOTE);
    assert(out@ =~= before + quoted(content@));
}

/// Whether two runs of bytes are the same.
pub fn same_bytes(a: &[u8], b: &[u8]) -> (same: bool)
    ensures
        same == (a@ == b@),
{
    if a.len() != b.len() {
        return false;
    }
    let mut i: usize = 0;
    while i < a.len()
        invariant
            i <= a@.len(),
            a@.len() == b@.len(),
            forall|k: int| 0 <= k < i ==> a@[k] == b@[k],
        decreases a@.len() - i,
    {
        if a[i] != b[i] {
            return false;
        }
        i += 1;
    }
    assert(a@ =~= b@);
    true
}

/// Passes over white space at `at`; gives the position behind it.
pub fn skip_space(input: &[u8], at: usize) -> (next: usize)
    requires
        at <= input@.len(),
    ensures
        at <= next <= input@.len(),
        input@.skip(next as int) == skip_spaces(input@.skip(at as int)),
{
    let mut i: usize = at;
    while i < input.len() && (input[i] == 0x20 || input[i] == 0x09 || input[i] == 0x0a || input[i]
        == 0x0d)
        invariant
            at <= i <= input@.len(),
            skip_spaces(input@.skip(i as int)) == skip_spaces(input@.skip(at as int)),
        decreases input@.len() - i,
    {
        proof {
            let here = input@.skip(i as int);
            assert(here[0] == input@[i as int]);
            assert(here.skip(1) =~= input@.skip(i + 1));
        }
        i += 1;
    }
    proof {
        let here = input@.skip(i as int);
        if i < input@.len() {
            assert(here[0] == input@[i as int]);
        }
    }
    i
}

/// Reads the byte `mark` at `at`, behind any white space; gives the position
/// behind it.
pub fn read_mark(input: &[u8], at: usize, mark: u8) -> (r: Option<usize>)
    requires
        at <= input@.len(),
    ensures
        match take_mark(input@.skip(at as int), mark) {
            Some(rest) => r matches Some(next) && at < next && next <= input@.len() && rest
                == input@.skip(next as int),
            None => r is None,
        },
{
    let i = skip_space(input, at);
    if i < input.len() && input[i] == mark {
        assert(input@.skip(i as int)[0] == input@[i as int]);
        assert(input@.skip(i as int).skip(1) =~= input@.skip(i + 1));
        Some(i + 1)
    } else {
        proof {
            if i < input@.len() {
                assert(input@.skip(i as int)[0] == input@[i as int]);
            }
        }
        None
    }
}

/// Reads four hexadecimal digits at `at`; gives the number they spell.
fn read_hex4(input: &[u8], at: usize) -> (r: Option<u32>)
    requires
        at <= input@.len(),
    ensures
        r == hex4(input@.skip(at as int)),
{
    let ghost tail = input@.skip(at as int);
    if input.len() - at < 4 {
        return None;
    }
    assert(tail[0] == input@[at + 0]);
    assert(tail[1] == input@[at + 1]);
    assert(tail[2] == input@[at + 2]);
    assert(tail[3] == input@[at + 3]);
    let d0 = hex_value_of(input[at]);
    let d1 = hex_value_of(input[at + 1]);
    let d2 = hex_value_of(input[at + 2]);
    let d3 = hex_value_of(input[at + 3]);
    match (d0, d1, d2, d3) {
        (Some(a), Some(b), Some(c), Some(d)) => {
            let n: u32 = ((a as u32 * 16 + b as u32) * 16 + c as u32) * 16 + d as u32;
            Some(n)
        },
        _ => None,
    }
}

/// Appends the bytes of the character with this code.
fn put_utf8(out: &mut Vec<u8>, code: u32)
    requires
        code < 0x110000,
    ensures
        final(out)@ == old(out)@ + utf8_bytes(code),
{
    if code < 0x80 {
        out.push(code as u8);
    } else if code < 0x800 {
        out.push((0xc0 + code / 64) as u8);
        out.push((0x80 + code % 64) as u8);
    } else if code < 0x10000 {
        out.push((0xe0 + code / 4096) as u8);
        out.push((0x80 + (code / 64) % 64) as u8);
        out.push((0x80 + code % 64) as u8);
    } else {
        out.push((0xf0 + code / 262144) as u8);
        out.push((0x80 + (code / 4096) % 64) as u8);
        out.push((0x80 + (code / 64) % 64) as u8);
        out.push((0x80 + code % 64) as u8);
    }
    assert(out@ =~= old(out)@ + utf8_bytes(code));
}

/// Reads the code of a character behind `\u` at `at`.
fn read_code(input: &[u8], at: usize) -> (r: Option<(u32, usize)>)
    requires
        at <= input@.len(),
    ensures
        match take_code(input@.skip(at as int)) {
            Some((code, rest)) => r matches Some((c, next)) && c == code && code < 0x110000 && at
                < next && next <= input@.len() && rest == input@.skip(next as int),
            None => r is None,
        },
{
    let ghost tail = input@.skip(at as int);
    if input.len() - at < 4 {
        return None;
    }
    let Some(first) = read_hex4(input, at) else {
        return None;
    };
    if 0xdc00 <= first && first < 0xe000 {
        return None;
    }
    if 0xd800 <= first && first < 0xdc00 {
        if input.len() - at < 6 {
            return None;
        }
        assert(tail[4] == input@[at + 4]);
        assert(tail[5] == input@[at + 5]);
        if input[at + 4] != BACKSLASH || input[at + 5] != 'u' as u8 {
            return None;
        }
        if input.len() - at < 10 {
            return None;
        }
        assert(tail.skip(6) =~= input@.skip(at + 6));
        let Some(second) = read_hex4(input, at + 6) else {
            return None;
        };
        if 0xdc00 <= second && second < 0xe000 {
            assert(tail.skip(10) =~= input@.skip(at + 10));
            let code: u32 = 0x10000 + (first - 0xd800) * 0x400 + (second - 0xdc00);
            Some((code, at + 10))
        } else {
            None
        }
    } else {
        assert(tail.skip(4) =~= input@.skip(at + 4));
        Some((first, at + 4))
    }
}

/// Reads one unit of content at `at` and appends its bytes to `out`; gives
/// the position behind it.
fn read_unit(input: &[u8], at: usize, out: &mut Vec<u8>) -> (r: Option<usize>)
    requires
        at <= input@.len(),
    ensures
        match take_unit(input@.skip(at as int)) {
            Some((unit, rest)) => r matches Some(next) && at < next && next <= input@.len()
                && rest == input@.skip(next as int) && final(out)@ == old(out)@ + unit,
            None => r is None && final(out)@ == old(out)@,
        },
{
    let ghost tail = input@.skip(at as int);
    let room = input.len() - at;
    if room == 0 {
        return None;
    }
    let first = input[at];
    assert(tail[0] == first);
    if first == BACKSLASH {
        if room < 2 {
            return None;
        }
        assert(tail[1] == input@[at + 1]);
        match short_escape_of(input[at + 1]) {
            Some(b) => {
                assert(tail.skip(2) =~= input@.skip(at + 2));
                out.push(b);
                assert(out@ =~= old(out)@ + seq![b]);
                return Some(at + 2);
            },
            None => {},
        }
        if input[at + 1] != 'u' as u8 {
            return None;
        }
        assert(tail.skip(2) =~= input@.skip(at + 2));
        match read_code(input, at + 2) {
            None => None,
            Some((code, next)) => {
                put_utf8(out, code);
                Some(next)
            },
        }
    } else if first < 0x20 || first == QUOTE {
        None
    } else {
        assert(tail.skip(1) =~= input@.skip(at + 1));
        out.push(first);
        assert(out@ =~= old(out)@ + seq![first]);
        Some(at + 1)
    }
}

/// Reads a quoted string at `at`; gives its content with the position behind
/// the closing quote.
pub fn read_string(input: &[u8], at: usize) -> (r: Option<(Vec<u8>, usize)>)
    requires
        at <= input@.len(),
    ensures
        match take_string(input@.skip(at as int)) {
            Some((content, rest)) => r matches Some((c, next)) && c@ == content && at < next
                && next <= input@.len() && rest == input@.skip(next as int),
            None => r is None,
        },
{
    if input.len() - at == 0 {
        return None;
    }
    assert(input@.skip(at as int)[0] == input@[at as int]);
    if input[at] != QUOTE {
        return None;
    }
    assert(input@.skip(at as int).skip(1) =~= input@.skip(at + 1));
    let ghost whole = take_string(input@.skip(at as int));
    let mut content: Vec<u8> = Vec::new();
    let mut i: usize = at + 1;
    loop
        invariant
            at < i <= input@.len(),
            whole == take_string(input@.skip(at as int)),
            whole == match take_string_body(input@.skip(i as int)) {
                Some((tail, after)) => Some((content@ + tail, after)),
                None => None::<(Seq<u8>, Seq<u8>)>,
            },
        decreases input@.len() - i,
    {
        let ghost here = input@.skip(i as int);
        let ghost prior = content@;
        if i == input.len() {
            return None;
        }
        assert(here[0] == input@[i as int]);
        if input[i] == QUOTE {
            assert(here.skip(1) =~= input@.skip(i + 1));
            assert(content@ + Seq::<u8>::empty() =~= content@);
            return Some((content, i + 1));
        }
        match read_unit(input, i, &mut content) {
            None => {
                return None;
            },
            Some(next) => {
                proof {
                    let found = take_unit(here)->0;
                    let unit = found.0;
                    match take_string_body(input@.skip(next as int)) {
                        Some((tail, after)) => {
                            assert(prior + (unit + tail) =~= (prior + unit) + tail);
                        },
                        None => {},
                    }
                }
                i = next;
            },
        }
    }
}

/// Reads a quoted string at `at`, behind any white space.
pub fn read_spaced_string(input: &[u8], at: usize) -> (r: Option<(Vec<u8>, usize)>)
    requires
        at <= input@.len(),
    ensures
        match take_string(skip_spaces(input@.skip(at as int))) {
            Some((content, rest)) => r matches Some((c, next)) && c@ == content && at < next
                && next <= input@.len() && rest == input@.skip(next as int),
            None => r is None,
        },
{
    let i = skip_space(input, at);
    read_string(input, i)
}

/// Calls `String::from_utf8`, which gives the string that the bytes encode
/// and fails exactly where they are not UTF-8.
#[verifier::external_body]
pub(crate) fn string_from_utf8(bytes: Vec<u8>) -> (text: Option<String>)
    ensures
        text is Some <==> valid_utf8(bytes@),
        text is Some ==> text->0@ == decode_utf8(bytes@),
{
    match String::from_utf8(bytes) {
        Ok(text) => Some(text),
        Err(_) => None,
    }
}

} // verus!
