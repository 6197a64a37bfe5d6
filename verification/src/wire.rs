//! The binary framing of the exchange format: little-endian integers and
//! length-prefixed byte strings.
//!
//! Every reader is specified on the input that is still unread: it yields a
//! value together with what follows it, so readers compose by feeding the
//! remainder of one to the next.

use vstd::bytes::*;
use vstd::prelude::*;
use vstd::slice::*;

verus! {

/// A byte string behind its length, written as eight little-endian bytes.
pub open spec fn frame(body: Seq<u8>) -> Seq<u8> {
    spec_u64_to_le_bytes(body.len() as u64) + body
}

/// Reads a four-byte little-endian integer off the front of `input`.
pub open spec fn take_u32(input: Seq<u8>) -> Option<(u32, Seq<u8>)> {
    if input.len() < 4 {
        None
    } else {
        Some((spec_u32_from_le_bytes(input.subrange(0, 4)), input.skip(4)))
    }
}

/// Reads a length-prefixed byte string off the front of `input`. A length
/// that runs past the end of the input is an error.
pub open spec fn take_frame(input: Seq<u8>) -> Option<(Seq<u8>, Seq<u8>)> {
    if input.len() < 8 {
        None
    } else {
        let n = spec_u64_from_le_bytes(input.subrange(0, 8)) as int;
        if n > input.len() - 8 {
            None
        } else {
            Some((input.subrange(8, 8 + n), input.skip(8 + n)))
        }
    }
}

/// Reads exactly `n` bytes off the front of `input`.
pub open spec fn take_bytes(input: Seq<u8>, n: nat) -> Option<(Seq<u8>, Seq<u8>)> {
    if input.len() < n {
        None
    } else {
        Some((input.subrange(0, n as int), input.skip(n as int)))
    }
}

/// A four-byte integer is read back from its encoding, whatever follows.
pub proof fn lemma_take_u32(n: u32, rest: Seq<u8>)
    ensures
        take_u32(spec_u32_to_le_bytes(n) + rest) == Some((n, rest)),
{
    lemma_auto_spec_u32_to_from_le_bytes();
    let input = spec_u32_to_le_bytes(n) + rest;
    assert(input.subrange(0, 4) =~= spec_u32_to_le_bytes(n));
    assert(input.skip(4) =~= rest);
}

/// A frame is read back as its body, whatever follows.
pub proof fn lemma_take_frame(body: Seq<u8>, rest: Seq<u8>)
    requires
        body.len() <= u64::MAX,
    ensures
        take_frame(frame(body) + rest) == Some((body, rest)),
{
    lemma_auto_spec_u64_to_from_le_bytes();
    let input = frame(body) + rest;
    assert(input.subrange(0, 8) =~= spec_u64_to_le_bytes(body.len() as u64));
    let end = 8 + body.len() as int;
    assert(input.subrange(8, end) =~= body);
    assert(input.skip(end) =~= rest);
}

/// A run of bytes is read back, whatever follows.
pub proof fn lemma_take_bytes(body: Seq<u8>, rest: Seq<u8>)
    ensures
        take_bytes(body + rest, body.len()) == Some((body, rest)),
{
    let input = body + rest;
    assert(input.subrange(0, body.len() as int) =~= body);
    assert(input.skip(body.len() as int) =~= rest);
}

/// Appends the four little-endian bytes of `n` to `out`.
pub fn put_u32(out: &mut Vec<u8>, n: u32)
    ensures
        final(out)@ == old(out)@ + spec_u32_to_le_bytes(n),
{
    let bytes = u32_to_le_bytes(n);
    out.extend_from_slice(bytes.as_slice());
}

/// Appends `body` to `out` as it stands.
pub fn put_bytes(out: &mut Vec<u8>, body: &[u8])
    ensures
        final(out)@ == old(out)@ + body@,
{
    out.extend_from_slice(body);
}

/// Appends `body` to `out` behind its length.
pub fn put_frame(out: &mut Vec<u8>, body: &[u8])
    ensures
        final(out)@ == old(out)@ + frame(body@),
{
    let len = u64_to_le_bytes(body.len() as u64);
    out.extend_from_slice(len.as_slice());
    out.extend_from_slice(body);
    assert(out@ =~= old(out)@ + frame(body@));
}

/// Reads a four-byte integer at `at`; gives it with the position behind it.
pub fn read_u32(input: &[u8], at: usize) -> (r: Option<(u32, usize)>)
    requires
        at <= input@.len(),
    ensures
        match take_u32(input@.skip(at as int)) {
            Some((n, rest)) => r == Some((n, (at + 4) as usize)) && at + 4 <= input@.len()
                && rest == input@.skip(at + 4),
            None => r is None,
        },
{
    if input.len() - at < 4 {
        return None;
    }
    let word = slice_subrange(input, at, at + 4);
    let n = u32_from_le_bytes(word);
    assert(input@.skip(at as int).subrange(0, 4) =~= word@);
    assert(input@.skip(at as int).skip(4) =~= input@.skip(at + 4));
    Some((n, at + 4))
}

/// Reads exactly `n` bytes at `at`; gives them with the position behind them.
pub fn read_bytes<'a>(input: &'a [u8], at: usize, n: usize) -> (r: Option<(&'a [u8], usize)>)
    requires
        at <= input@.len(),
    ensures
        match take_bytes(input@.skip(at as int), n as nat) {
            Some((body, rest)) => r matches Some((b, next)) && b@ == body && next == at + n
                && next <= input@.len() && rest == input@.skip(next as int),
            None => r is None,
        },
{
    if input.len() - at < n {
        return None;
    }
    let body = slice_subrange(input, at, at + n);
    assert(input@.skip(at as int).subrange(0, n as int) =~= body@);
    assert(input@.skip(at as int).skip(n as int) =~= input@.skip(at + n));
    Some((body, at + n))
}

/// Reads a length-prefixed byte string at `at`; gives its body with the
/// position behind it.
pub fn read_frame<'a>(input: &'a [u8], at: usize) -> (r: Option<(&'a [u8], usize)>)
    requires
        at <= input@.len(),
    ensures
        match take_frame(input@.skip(at as int)) {
            Some((body, rest)) => r matches Some((b, next)) && b@ == body && at + 8 <= next
                && next <= input@.len() && rest == input@.skip(next as int),
            None => r is None,
        },
{
    if input.len() - at < 8 {
        return None;
    }
    let word = slice_subrange(input, at, at + 8);
    let n = u64_from_le_bytes(word);
    assert(input@.skip(at as int).subrange(0, 8) =~= word@);
    let room = input.len() - at - 8;
    if n > room as u64 {
        return None;
    }
    let start = at + 8;
    let end = start + n as usize;
    let body = slice_subrange(input, start, end);
    assert(input@.skip(at as int).subrange(8, 8 + n) =~= body@);
    assert(input@.skip(at as int).skip(8 + n) =~= input@.skip(end as int));
    Some((body, end))
}

} // verus!
