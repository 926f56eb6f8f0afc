//! Text: a byte count as a 32-bit variable-length integer, then UTF-8.

use vstd::prelude::*;
use vstd::slice::{slice_subrange, slice_to_vec};
use vstd::string::StringSliceAdditionalSpecFns;
use vstd::utf8::{decode_utf8, encode_utf8, valid_utf8};
use vstd::utf8::{encode_utf8_decode_utf8, encode_utf8_valid_utf8};
use crate::error::Error;
use crate::foreign::string_from_utf8;
use crate::varint::{lemma_varint_roundtrip, parse_varint, varint_bytes, varint_parse, write_varint};
use crate::parse::Parsed;

verus! {

/// The largest byte count a string's length prefix can carry.
pub const MAX_STRING_BYTES: usize = 0x7fff_ffff;

/// The wire form of a string: the count of its UTF-8 bytes as a 32-bit
/// variable-length integer, then those bytes, with no terminator.
pub open spec fn string_bytes(s: Seq<char>) -> Seq<u8>
    recommends
        encode_utf8(s).len() <= MAX_STRING_BYTES,
{
    varint_bytes(encode_utf8(s).len() as i32) + encode_utf8(s)
}

/// Reads a string from the front of `b`. A count that the rest of `b` cannot
/// meet is a truncation, and so is a negative one; bytes that are not UTF-8
/// are an error of their own.
pub open spec fn string_parse(b: Seq<u8>) -> Parsed<Seq<char>> {
    match varint_parse(b) {
        Err(e) => Err(e),
        Ok((count, n)) => {
            if count < 0 || b.len() - n < count {
                Err(Error::TruncatedInput)
            } else {
                let body = b.subrange(n as int, n + count);
                if valid_utf8(body) {
                    Ok((decode_utf8(body), (n + count) as nat))
                } else {
                    Err(Error::InvalidUtf8)
                }
            }
        },
    }
}

/// A string whose UTF-8 form fits the length prefix survives a round trip,
/// whatever bytes follow it.
pub proof fn lemma_string_roundtrip(s: Seq<char>, rest: Seq<u8>)
    requires
        encode_utf8(s).len() <= MAX_STRING_BYTES,
    ensures
        string_parse(string_bytes(s) + rest) == Ok::<(Seq<char>, nat), Error>(
            (s, string_bytes(s).len()),
        ),
{
    let body = encode_utf8(s);
    let count = body.len() as i32;
    let head = varint_bytes(count);
    let b = string_bytes(s) + rest;
    assert(b =~= head + (body + rest));
    lemma_varint_roundtrip(count, body + rest);
    assert(b.subrange(head.len() as int, head.len() + count) =~= body);
    encode_utf8_valid_utf8(s);
    encode_utf8_decode_utf8(s);
}

/// No character takes more than four bytes of UTF-8.
pub proof fn lemma_utf8_size(s: Seq<char>)
    ensures
        encode_utf8(s).len() <= 4 * s.len(),
    decreases s.len(),
{
    if s.len() > 0 {
        lemma_utf8_size(s.drop_first());
    }
}

/// A text that was read took no more bytes than there were.
pub proof fn lemma_string_within(b: Seq<u8>)
    requires
        string_parse(b) is Ok,
    ensures
        string_parse(b)->Ok_0.1 <= b.len(),
{
}

/// A length prefix that asks for more bytes than follow it is a truncation.
pub proof fn lemma_string_truncated(b: Seq<u8>)
    requires
        varint_parse(b) is Ok,
        varint_parse(b)->Ok_0.0 > b.len() - varint_parse(b)->Ok_0.1,
    ensures
        string_parse(b) == Err::<(Seq<char>, nat), Error>(Error::TruncatedInput),
{
}

/// Appends the wire form of `s` to `out`. A string of more bytes than the
/// length prefix can carry is refused and nothing is written.
pub fn write_string(s: &str, out: &mut Vec<u8>) -> (r: Result<(), Error>)
    ensures
        encode_utf8(s@).len() <= MAX_STRING_BYTES ==> r is Ok && final(out)@ == old(out)@
            + string_bytes(s@),
        encode_utf8(s@).len() > MAX_STRING_BYTES ==> r == Err::<(), Error>(
            Error::LengthOverflow,
        ) && final(out)@ == old(out)@,
{
    let body: &[u8] = s.as_bytes();
    let count: usize = body.len();
    if count > MAX_STRING_BYTES {
        return Err(Error::LengthOverflow);
    }
    write_varint(count as i32, out);
    out.extend_from_slice(body);
    proof {
        assert(out@ =~= old(out)@ + string_bytes(s@));
    }
    Ok(())
}

/// Reads a string from `src`, starting at `start`. Returns the string and the
/// number of bytes it took.
pub fn parse_string(src: &[u8], start: usize) -> (r: Result<(String, usize), Error>)
    requires
        start <= src@.len(),
    ensures
        match string_parse(src@.skip(start as int)) {
            Ok((s, n)) => r is Ok && r->Ok_0.0@ == s && r->Ok_0.1 == n && start + n
                <= src@.len(),
            Err(e) => r == Err::<(String, usize), Error>(e),
        },
{
    let (count, n) = match parse_varint(src, start) {
        Ok(pair) => pair,
        Err(e) => {
            return Err(e);
        },
    };
    let len: usize = src.len();
    if count < 0 || len - start - n < count as usize {
        return Err(Error::TruncatedInput);
    }
    let from: usize = start + n;
    let to: usize = from + count as usize;
    let body: Vec<u8> = slice_to_vec(slice_subrange(src, from, to));
    proof {
        assert(body@ =~= src@.skip(start as int).subrange(n as int, n + count));
    }
    match string_from_utf8(body) {
        Some(s) => Ok((s, n + count as usize)),
        None => Err(Error::InvalidUtf8),
    }
}

} // verus!
