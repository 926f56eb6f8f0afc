//! The convention for values that may be absent: two bytes are peeked at,
//! and either they are the marker of absence or the value begins with them.

use vstd::prelude::*;
use crate::error::Error;
use crate::fixed::{be_value, lemma_pow256_values};
use crate::primitive::{i16_parse, parse_i16};
use crate::parse::Parsed;

verus! {

/// The two bytes that stand for an absent optional value: `-1` as a signed
/// 16-bit integer.
pub open spec fn absent_bytes() -> Seq<u8> {
    seq![0xffu8, 0xffu8]
}

/// Reads an optional value from the front of `b`, given what reading the
/// value itself from the front of the same `b` yields. The first two bytes
/// are peeked at as a signed 16-bit integer: `-1` is absence and takes those
/// two bytes; anything else takes nothing by itself, and the value is read
/// from the very bytes that were peeked at.
pub open spec fn optional_parse<T>(b: Seq<u8>, inner: Parsed<T>) -> Parsed<Option<T>> {
    match i16_parse(b) {
        Err(e) => Err(e),
        Ok((marker, _)) => {
            if marker == -1 {
                Ok((None, 2))
            } else {
                match inner {
                    Ok((v, n)) => Ok((Some(v), n)),
                    Err(e) => Err(e),
                }
            }
        },
    }
}

/// Two bytes spell `-1` as a signed 16-bit integer exactly when both are
/// `0xff`.
pub proof fn lemma_marker_meaning(b: Seq<u8>)
    requires
        b.len() >= 2,
    ensures
        i16_parse(b) is Ok,
        i16_parse(b)->Ok_0.1 == 2,
        i16_parse(b)->Ok_0.0 == -1 <==> (b[0] == 0xff && b[1] == 0xff),
{
    let two = b.take(2);
    lemma_pow256_values();
    assert(two.drop_last() =~= seq![b[0]]);
    assert(two.drop_last().drop_last() =~= Seq::<u8>::empty());
    assert(be_value(two.drop_last().drop_last()) == 0);
    assert(be_value(two.drop_last()) == b[0] as nat);
    assert(be_value(two) == b[0] * 256 + b[1]);
}

/// Written as absent, an optional value is read as absent whatever its
/// payload would have been, and the reading takes the two marker bytes.
pub proof fn lemma_absent_roundtrip<T>(rest: Seq<u8>, inner: Parsed<T>)
    ensures
        optional_parse(absent_bytes() + rest, inner) == Ok::<(Option<T>, nat), Error>((None, 2)),
{
    lemma_marker_meaning(absent_bytes() + rest);
}

/// An optional value that was read took no more bytes than there were,
/// provided that the same holds of its payload.
pub proof fn lemma_optional_within<T>(b: Seq<u8>, inner: Parsed<T>)
    requires
        optional_parse(b, inner) is Ok,
        inner is Ok ==> inner->Ok_0.1 <= b.len(),
    ensures
        optional_parse(b, inner)->Ok_0.1 <= b.len(),
{
}

/// Peeks at the front of `src` from `start` on: whether the value there is
/// absent. Nothing is taken; an absent value is the two bytes peeked at.
pub fn peek_absent(src: &[u8], start: usize) -> (r: Result<bool, Error>)
    requires
        start <= src@.len(),
    ensures
        match i16_parse(src@.skip(start as int)) {
            Ok((marker, _)) => r == Ok::<bool, Error>(marker == -1) && start + 2 <= src@.len(),
            Err(e) => r == Err::<bool, Error>(e),
        },
{
    match parse_i16(src, start) {
        Ok((marker, _)) => Ok(marker == -1),
        Err(e) => Err(e),
    }
}

/// Appends the marker of an absent value to `out`.
pub fn write_absent(out: &mut Vec<u8>)
    ensures
        final(out)@ == old(out)@ + absent_bytes(),
{
    out.push(0xff);
    out.push(0xff);
    proof {
        assert(out@ =~= old(out)@ + absent_bytes());
    }
}

} // verus!
