//! Reading past a JSON value that nobody asked for.
//!
//! A member whose name the reader does not know is passed over, whatever its
//! value: a word, a number, a string, or a list or an object of such values,
//! nested to any depth. The value is checked for its form and not kept.
//!
//! The reader keeps the brackets that are still open on a stack and is, at
//! every moment, in one of four places: before a value, before the first
//! item of a list or an object, before a member, or behind a value.

use crate::text::{
    hex4, read_mark, short_escape, skip_space, skip_spaces, string_from_utf8, take_mark,
    BACKSLASH, QUOTE,
};
use vstd::prelude::*;
use vstd::slice::*;
use vstd::utf8::*;

verus! {

/// Where the reader stands.
#[derive(Clone, Copy, Debug, PartialEq, Eq, Structural)]
pub enum Place {
    /// Before a value.
    Value,
    /// Before the name of a member.
    Member,
    /// Behind an opening bracket: before the first item, or the closing
    /// bracket.
    First,
    /// Behind a value.
    After,
}

/// How often the reader may move on from a place without reading a byte.
pub open spec fn rank(place: Place) -> nat {
    match place {
        Place::First => 1,
        _ => 0,
    }
}

/// Whether `b` is a decimal digit.
pub open spec fn is_digit(b: u8) -> bool {
    '0' as u8 <= b <= '9' as u8
}

/// What is left of `input` behind its leading digits.
pub open spec fn skip_digits(input: Seq<u8>) -> Seq<u8>
    decreases input.len(),
{
    if input.len() > 0 && is_digit(input[0]) {
        skip_digits(input.skip(1))
    } else {
        input
    }
}

/// Reads the bytes of `word` off the front of `input`.
pub open spec fn take_word(input: Seq<u8>, word: Seq<u8>) -> Option<Seq<u8>> {
    if word.len() <= input.len() && input.subrange(0, word.len() as int) == word {
        Some(input.skip(word.len() as int))
    } else {
        None
    }
}

/// `null`
pub open spec fn null_word() -> Seq<u8> {
    seq!['n' as u8, 'u' as u8, 'l' as u8, 'l' as u8]
}

/// `true`
pub open spec fn true_word() -> Seq<u8> {
    seq!['t' as u8, 'r' as u8, 'u' as u8, 'e' as u8]
}

/// `false`
pub open spec fn false_word() -> Seq<u8> {
    seq!['f' as u8, 'a' as u8, 'l' as u8, 's' as u8, 'e' as u8]
}

/// Reads digits, at least one.
pub open spec fn take_digits(input: Seq<u8>) -> Option<Seq<u8>> {
    if input.len() > 0 && is_digit(input[0]) {
        Some(skip_digits(input))
    } else {
        None
    }
}

/// Reads an exponent, where `input` opens with one.
pub open spec fn take_exponent(input: Seq<u8>) -> Option<Seq<u8>> {
    if input.len() > 0 && (input[0] == 'e' as u8 || input[0] == 'E' as u8) {
        let signed = input.skip(1);
        if signed.len() > 0 && (signed[0] == '+' as u8 || signed[0] == '-' as u8) {
            take_digits(signed.skip(1))
        } else {
            take_digits(signed)
        }
    } else {
        Some(input)
    }
}

/// Reads a fraction and an exponent, where `input` opens with them.
pub open spec fn take_fraction(input: Seq<u8>) -> Option<Seq<u8>> {
    if input.len() > 0 && input[0] == '.' as u8 {
        match take_digits(input.skip(1)) {
            None => None,
            Some(rest) => take_exponent(rest),
        }
    } else {
        take_exponent(input)
    }
}

/// Reads a number: an optional minus, digits without a needless leading
/// zero, an optional fraction and an optional exponent.
pub open spec fn take_number(input: Seq<u8>) -> Option<Seq<u8>> {
    let digits = if input.len() > 0 && input[0] == '-' as u8 {
        input.skip(1)
    } else {
        input
    };
    if digits.len() == 0 || !is_digit(digits[0]) {
        None
    } else if digits[0] == '0' as u8 {
        if digits.len() > 1 && is_digit(digits[1]) {
            None
        } else {
            take_fraction(digits.skip(1))
        }
    } else {
        take_fraction(skip_digits(digits))
    }
}

/// Reads past one unit of a string: a plain byte or an escape. The code that
/// a `\u` escape spells is not examined.
pub open spec fn take_ignored_unit(input: Seq<u8>) -> Option<Seq<u8>> {
    if input.len() == 0 {
        None
    } else if input[0] == BACKSLASH {
        if input.len() >= 2 && short_escape(input[1]) is Some {
            Some(input.skip(2))
        } else if input.len() >= 2 && input[1] == 'u' as u8 && hex4(input.skip(2)) is Some {
            Some(input.skip(6))
        } else {
            None
        }
    } else if input[0] < 0x20 {
        None
    } else {
        Some(input.skip(1))
    }
}

/// Reads past the content of a string and its closing quote.
pub open spec fn take_ignored_body(input: Seq<u8>) -> Option<Seq<u8>>
    decreases input.len(),
{
    if input.len() == 0 {
        None
    } else if input[0] == QUOTE {
        Some(input.skip(1))
    } else {
        match take_ignored_unit(input) {
            None => None,
            Some(rest) => if rest.len() < input.len() {
                take_ignored_body(rest)
            } else {
                None
            },
        }
    }
}

/// Reads past a string. What stands between its quotes must be UTF-8.
pub open spec fn take_ignored_string(input: Seq<u8>) -> Option<Seq<u8>> {
    if input.len() > 0 && input[0] == QUOTE {
        match take_ignored_body(input.skip(1)) {
            None => None,
            Some(rest) => if rest.len() + 2 <= input.len() && valid_utf8(
                input.subrange(1, input.len() - rest.len() - 1),
            ) {
                Some(rest)
            } else {
                None
            },
        }
    } else {
        None
    }
}

/// The bracket that closes `open`.
pub open spec fn closer(open: u8) -> u8 {
    if open == '[' as u8 {
        ']' as u8
    } else {
        '}' as u8
    }
}

/// The place before the next item inside the bracket `open`.
pub open spec fn item_place(open: u8) -> Place {
    if open == '[' as u8 {
        Place::Value
    } else {
        Place::Member
    }
}

/// One move of the reader: from `input`, which opens with a byte that is no
/// white space, with the open brackets `stack`, at `place`. It gives what is
/// left of the input, the brackets then open, and the next place.
pub open spec fn step(input: Seq<u8>, stack: Seq<u8>, place: Place) -> Option<
    (Seq<u8>, Seq<u8>, Place),
> {
    match place {
        Place::Value => if input[0] == 'n' as u8 {
            match take_word(input, null_word()) {
                Some(rest) => Some((rest, stack, Place::After)),
                None => None,
            }
        } else if input[0] == 't' as u8 {
            match take_word(input, true_word()) {
                Some(rest) => Some((rest, stack, Place::After)),
                None => None,
            }
        } else if input[0] == 'f' as u8 {
            match take_word(input, false_word()) {
                Some(rest) => Some((rest, stack, Place::After)),
                None => None,
            }
        } else if input[0] == '-' as u8 || is_digit(input[0]) {
            match take_number(input) {
                Some(rest) => Some((rest, stack, Place::After)),
                None => None,
            }
        } else if input[0] == QUOTE {
            match take_ignored_string(input) {
                Some(rest) => Some((rest, stack, Place::After)),
                None => None,
            }
        } else if input[0] == '[' as u8 || input[0] == '{' as u8 {
            Some((input.skip(1), stack.push(input[0]), Place::First))
        } else {
            None
        },
        Place::First => if stack.len() == 0 {
            None
        } else if input[0] == closer(stack.last()) {
            Some((input.skip(1), stack.drop_last(), Place::After))
        } else {
            Some((input, stack, item_place(stack.last())))
        },
        Place::Member => match take_ignored_string(input) {
            None => None,
            Some(r1) => match take_mark(r1, ':' as u8) {
                None => None,
                Some(r2) => Some((r2, stack, Place::Value)),
            },
        },
        Place::After => if stack.len() == 0 {
            None
        } else if input[0] == ',' as u8 {
            Some((input.skip(1), stack, item_place(stack.last())))
        } else if input[0] == closer(stack.last()) {
            Some((input.skip(1), stack.drop_last(), Place::After))
        } else {
            None
        },
    }
}

/// Reads on from `place` until the value is complete: until the reader
/// stands behind a value with no bracket open. It gives what is left of the
/// input behind the value.
pub open spec fn run(input: Seq<u8>, stack: Seq<u8>, place: Place) -> Option<Seq<u8>>
    decreases input.len(), rank(place),
{
    let trimmed = skip_spaces(input);
    if place is After && stack.len() == 0 {
        Some(input)
    } else if trimmed.len() == 0 || trimmed.len() > input.len() {
        None
    } else {
        match step(trimmed, stack, place) {
            None => None,
            Some((rest, open, next)) => if rest.len() < input.len() || (rest.len() == input.len()
                && rank(next) < rank(place)) {
                run(rest, open, next)
            } else {
                None
            },
        }
    }
}

/// Reads past one value of any kind, behind any white space.
pub open spec fn take_ignored(input: Seq<u8>) -> Option<Seq<u8>> {
    run(input, Seq::empty(), Place::Value)
}

/// Digits never lengthen what is left.
proof fn lemma_skip_digits_shortens(input: Seq<u8>)
    ensures
        skip_digits(input).len() <= input.len(),
    decreases input.len(),
{
    if input.len() > 0 && is_digit(input[0]) {
        lemma_skip_digits_shortens(input.skip(1));
    }
}

/// Passes over digits at `at`; gives the position behind them.
fn skip_digit(input: &[u8], at: usize) -> (next: usize)
    requires
        at <= input@.len(),
    ensures
        at <= next <= input@.len(),
        input@.skip(next as int) == skip_digits(input@.skip(at as int)),
{
    let mut i: usize = at;
    while i < input.len() && '0' as u8 <= input[i] && input[i] <= '9' as u8
        invariant
            at <= i <= input@.len(),
            skip_digits(input@.skip(i as int)) == skip_digits(input@.skip(at as int)),
        decreases input@.len() - i,
    {
        proof {
            let here = input@.skip(i as int);
            assert(here[0] == input@[i as int]);
            assert(here.skip(1) =~= input@.skip(i + 1));
        }
        i += 1;
    }
    proof {
        if i < input@.len() {
            assert(input@.skip(i as int)[0] == input@[i as int]);
        }
    }
    i
}

/// Reads digits at `at`, at least one.
fn read_digits(input: &[u8], at: usize) -> (r: Option<usize>)
    requires
        at <= input@.len(),
    ensures
        match take_digits(input@.skip(at as int)) {
            Some(rest) => r matches Some(next) && at < next && next <= input@.len() && rest
                == input@.skip(next as int),
            None => r is None,
        },
{
    if at < input.len() {
        assert(input@.skip(at as int)[0] == input@[at as int]);
    }
    if at < input.len() && '0' as u8 <= input[at] && input[at] <= '9' as u8 {
        let next = skip_digit(input, at);
        proof {
            let here = input@.skip(at as int);
            lemma_skip_digits_shortens(here.skip(1));
            assert(skip_digits(here) == skip_digits(here.skip(1)));
        }
        Some(next)
    } else {
        None
    }
}

/// Reads an exponent at `at`, where there is one.
fn read_exponent(input: &[u8], at: usize) -> (r: Option<usize>)
    requires
        at <= input@.len(),
    ensures
        match take_exponent(input@.skip(at as int)) {
            Some(rest) => r matches Some(next) && at <= next && next <= input@.len() && rest
                == input@.skip(next as int),
            None => r is None,
        },
{
    let ghost here = input@.skip(at as int);
    if at < input.len() {
        assert(here[0] == input@[at as int]);
    }
    if at < input.len() && (input[at] == 'e' as u8 || input[at] == 'E' as u8) {
        assert(here.skip(1) =~= input@.skip(at + 1));
        let signed = at + 1;
        if signed < input.len() {
            assert(input@.skip(signed as int)[0] == input@[signed as int]);
        }
        if signed < input.len() && (input[signed] == '+' as u8 || input[signed] == '-' as u8) {
            assert(input@.skip(signed as int).skip(1) =~= input@.skip(signed + 1));
            read_digits(input, signed + 1)
        } else {
            read_digits(input, signed)
        }
    } else {
        Some(at)
    }
}

/// Reads a fraction and an exponent at `at`, where they are.
fn read_fraction(input: &[u8], at: usize) -> (r: Option<usize>)
    requires
        at <= input@.len(),
    ensures
        match take_fraction(input@.skip(at as int)) {
            Some(rest) => r matches Some(next) && at <= next && next <= input@.len() && rest
                == input@.skip(next as int),
            None => r is None,
        },
{
    let ghost here = input@.skip(at as int);
    if at < input.len() {
        assert(here[0] == input@[at as int]);
    }
    if at < input.len() && input[at] == '.' as u8 {
        assert(here.skip(1) =~= input@.skip(at + 1));
        match read_digits(input, at + 1) {
            None => None,
            Some(next) => read_exponent(input, next),
        }
    } else {
        read_exponent(input, at)
    }
}

/// Reads a number at `at`.
fn read_number(input: &[u8], at: usize) -> (r: Option<usize>)
    requires
        at <= input@.len(),
    ensures
        match take_number(input@.skip(at as int)) {
            Some(rest) => r matches Some(next) && at < next && next <= input@.len() && rest
                == input@.skip(next as int),
            None => r is None,
        },
{
    let ghost here = input@.skip(at as int);
    if at < input.len() {
        assert(here[0] == input@[at as int]);
    }
    let start = if at < input.len() && input[at] == '-' as u8 {
        assert(here.skip(1) =~= input@.skip(at + 1));
        at + 1
    } else {
        assert(here =~= input@.skip(at as int));
        at
    };
    let ghost digits = input@.skip(start as int);
    if start < input.len() {
        assert(digits[0] == input@[start as int]);
    }
    if start == input.len() || !('0' as u8 <= input[start] && input[start] <= '9' as u8) {
        return None;
    }
    if input[start] == '0' as u8 {
        if start + 1 < input.len() {
            assert(digits[1] == input@[start + 1]);
        }
        if start + 1 < input.len() && '0' as u8 <= input[start + 1] && input[start + 1]
            <= '9' as u8 {
            return None;
        }
        assert(digits.skip(1) =~= input@.skip(start + 1));
        read_fraction(input, start + 1)
    } else {
        let Some(next) = read_digits(input, start) else {
            return None;
        };
        read_fraction(input, next)
    }
}

/// Reads the bytes of `word` at `at`.
fn read_word(input: &[u8], at: usize, word: &[u8]) -> (r: Option<usize>)
    requires
        at <= input@.len(),
    ensures
        match take_word(input@.skip(at as int), word@) {
            Some(rest) => r matches Some(next) && next == at + word@.len() && next
                <= input@.len() && rest == input@.skip(next as int),
            None => r is None,
        },
{
    let ghost tail = input@.skip(at as int);
    if input.len() - at < word.len() {
        return None;
    }
    let mut i: usize = 0;
    while i < word.len()
        invariant
            i <= word@.len(),
            at + word@.len() <= input@.len(),
            input@.len() <= usize::MAX,
            tail == input@.skip(at as int),
            forall|k: int| 0 <= k < i ==> input@[at + k] == word@[k],
        decreases word@.len() - i,
    {
        if input[at + i] != word[i] {
            assert(tail.subrange(0, word@.len() as int)[i as int] != word@[i as int]);
            return None;
        }
        i += 1;
    }
    assert(tail.subrange(0, word@.len() as int) =~= word@);
    assert(tail.skip(word@.len() as int) =~= input@.skip(at + word@.len()));
    Some(at + word.len())
}

/// The bytes of `null`.
fn null_bytes() -> (word: [u8; 4])
    ensures
        word@ == null_word(),
{
    let word: [u8; 4] = ['n' as u8, 'u' as u8, 'l' as u8, 'l' as u8];
    assert(word@ =~= null_word());
    word
}

/// The bytes of `true`.
fn true_bytes() -> (word: [u8; 4])
    ensures
        word@ == true_word(),
{
    let word: [u8; 4] = ['t' as u8, 'r' as u8, 'u' as u8, 'e' as u8];
    assert(word@ =~= true_word());
    word
}

/// The bytes of `false`.
fn false_bytes() -> (word: [u8; 5])
    ensures
        word@ == false_word(),
{
    let word: [u8; 5] = ['f' as u8, 'a' as u8, 'l' as u8, 's' as u8, 'e' as u8];
    assert(word@ =~= false_word());
    word
}

/// Whether `c` ends a two-character escape.
fn is_short_escape(c: u8) -> (known: bool)
    ensures
        known == short_escape(c) is Some,
{
    c == QUOTE || c == BACKSLASH || c == '/' as u8 || c == 'b' as u8 || c == 't' as u8 || c
        == 'n' as u8 || c == 'f' as u8 || c == 'r' as u8
}

/// Whether `c` is a hexadecimal digit of either case.
fn is_hex_digit(c: u8) -> (known: bool)
    ensures
        known == crate::hexcode::hex_digit_value(c) is Some,
{
    ('0' as u8 <= c && c <= '9' as u8) || ('a' as u8 <= c && c <= 'f' as u8) || ('A' as u8 <= c
        && c <= 'F' as u8)
}

/// Reads past one unit of a string at `at`.
fn read_ignored_unit(input: &[u8], at: usize) -> (r: Option<usize>)
    requires
        at <= input@.len(),
    ensures
        match take_ignored_unit(input@.skip(at as int)) {
            Some(rest) => r matches Some(next) && at < next && next <= input@.len() && rest
                == input@.skip(next as int),
            None => r is None,
        },
{
    let ghost tail = input@.skip(at as int);
    let room = input.len() - at;
    if room == 0 {
        return None;
    }
    let first = input[at];
    assert(tail[0] == first);
    if first == BACKSLASH {
        if room < 2 {
            return None;
        }
        assert(tail[1] == input@[at + 1]);
        if is_short_escape(input[at + 1]) {
            assert(tail.skip(2) =~= input@.skip(at + 2));
            return Some(at + 2);
        }
        if input[at + 1] != 'u' as u8 {
            return None;
        }
        let ghost digits = tail.skip(2);
        if room < 6 {
            return None;
        }
        assert(digits[0] == input@[at + 2]);
        assert(digits[1] == input@[at + 3]);
        assert(digits[2] == input@[at + 4]);
        assert(digits[3] == input@[at + 5]);
        if is_hex_digit(input[at + 2]) && is_hex_digit(input[at + 3]) && is_hex_digit(
            input[at + 4],
        ) && is_hex_digit(input[at + 5]) {
            assert(tail.skip(6) =~= input@.skip(at + 6));
            Some(at + 6)
        } else {
            None
        }
    } else if first < 0x20 {
        None
    } else {
        assert(tail.skip(1) =~= input@.skip(at + 1));
        Some(at + 1)
    }
}

/// Reads past a string at `at`.
fn read_ignored_string(input: &[u8], at: usize) -> (r: Option<usize>)
    requires
        at <= input@.len(),
    ensures
        match take_ignored_string(input@.skip(at as int)) {
            Some(rest) => r matches Some(next) && at < next && next <= input@.len() && rest
                == input@.skip(next as int),
            None => r is None,
        },
{
    let ghost tail = input@.skip(at as int);
    if input.len() - at == 0 {
        return None;
    }
    assert(tail[0] == input@[at as int]);
    if input[at] != QUOTE {
        return None;
    }
    assert(tail.skip(1) =~= input@.skip(at + 1));
    let ghost body = take_ignored_body(input@.skip(at + 1));
    let mut i: usize = at + 1;
    loop
        invariant
            at < i <= input@.len(),
            tail == input@.skip(at as int),
            tail.len() > 0 && tail[0] == QUOTE,
            body == take_ignored_body(tail.skip(1)),
            body == take_ignored_body(input@.skip(i as int)),
        decreases input@.len() - i,
    {
        let ghost here = input@.skip(i as int);
        if i == input.len() {
            return None;
        }
        assert(here[0] == input@[i as int]);
        if input[i] == QUOTE {
            assert(here.skip(1) =~= input@.skip(i + 1));
            let raw = slice_subrange(input, at + 1, i);
            assert(tail.subrange(1, tail.len() - input@.skip(i + 1).len() - 1) =~= raw@);
            return match string_from_utf8(slice_to_vec(raw)) {
                Some(_) => Some(i + 1),
                None => None,
            };
        }
        match read_ignored_unit(input, i) {
            None => {
                return None;
            },
            Some(next) => {
                i = next;
            },
        }
    }
}

/// Makes one move at `at`, where a byte stands that is no white space.
fn make_step(input: &[u8], at: usize, stack: &mut Vec<u8>, place: Place) -> (r: Option<
    (usize, Place),
>)
    requires
        at < input@.len(),
    ensures
        match step(input@.skip(at as int), old(stack)@, place) {
            Some((rest, open, next)) => r matches Some((position, found)) && found == next
                && final(stack)@ == open && at <= position && position <= input@.len() && rest
                == input@.skip(position as int) && (at < position || rank(next) < rank(place)),
            None => r is None,
        },
{
    let ghost tail = input@.skip(at as int);
    let first = input[at];
    assert(tail[0] == first);
    assert(tail.skip(1) =~= input@.skip(at + 1));
    match place {
        Place::Value => {
            let found = if first == 'n' as u8 {
                read_word(input, at, null_bytes().as_slice())
            } else if first == 't' as u8 {
                read_word(input, at, true_bytes().as_slice())
            } else if first == 'f' as u8 {
                read_word(input, at, false_bytes().as_slice())
            } else if first == '-' as u8 || ('0' as u8 <= first && first <= '9' as u8) {
                read_number(input, at)
            } else if first == QUOTE {
                read_ignored_string(input, at)
            } else if first == '[' as u8 || first == '{' as u8 {
                stack.push(first);
                return Some((at + 1, Place::First));
            } else {
                None
            };
            match found {
                Some(next) => Some((next, Place::After)),
                None => None,
            }
        },
        Place::First => {
            if stack.len() == 0 {
                return None;
            }
            let open = stack[stack.len() - 1];
            let close = if open == '[' as u8 {
                ']' as u8
            } else {
                '}' as u8
            };
            if first == close {
                stack.pop();
                Some((at + 1, Place::After))
            } else if open == '[' as u8 {
                Some((at, Place::Value))
            } else {
                Some((at, Place::Member))
            }
        },
        Place::Member => {
            let Some(at1) = read_ignored_string(input, at) else {
                return None;
            };
            let Some(at2) = read_mark(input, at1, ':' as u8) else {
                return None;
            };
            Some((at2, Place::Value))
        },
        Place::After => {
            if stack.len() == 0 {
                return None;
            }
            let open = stack[stack.len() - 1];
            let close = if open == '[' as u8 {
                ']' as u8
            } else {
                '}' as u8
            };
            if first == ',' as u8 {
                if open == '[' as u8 {
                    Some((at + 1, Place::Value))
                } else {
                    Some((at + 1, Place::Member))
                }
            } else if first == close {
                stack.pop();
                Some((at + 1, Place::After))
            } else {
                None
            }
        },
    }
}

/// Reads past one value of any kind at `at`, behind any white space; gives
/// the position behind it.
pub fn read_ignored(input: &[u8], at: usize) -> (r: Option<usize>)
    requires
        at <= input@.len(),
    ensures
        match take_ignored(input@.skip(at as int)) {
            Some(rest) => r matches Some(next) && at < next && next <= input@.len() && rest
                == input@.skip(next as int),
            None => r is None,
        },
{
    let ghost whole = take_ignored(input@.skip(at as int));
    let mut stack: Vec<u8> = Vec::new();
    let mut place = Place::Value;
    let mut i: usize = at;
    loop
        invariant
            at <= i <= input@.len(),
            whole == take_ignored(input@.skip(at as int)),
            whole == run(input@.skip(i as int), stack@, place),
            place is After || stack@.len() > 0 ==> at < i,
        decreases input@.len() - i, rank(place),
    {
        let done = match place {
            Place::After => stack.len() == 0,
            _ => false,
        };
        if done {
            return Some(i);
        }
        let trimmed = skip_space(input, i);
        if trimmed == input.len() {
            return None;
        }
        match make_step(input, trimmed, &mut stack, place) {
            None => {
                return None;
            },
            Some((next, found)) => {
                i = next;
                place = found;
            },
        }
    }
}

} // verus!
