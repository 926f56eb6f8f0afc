//! The framing layer: a byte stream as a run of frames, each a length prefix
//! and that many bytes of payload.

use vstd::prelude::*;
use vstd::slice::slice_to_vec;
use bytes::BytesMut;
use crate::engine::{decode, decode_at, encode, encode_into};
use crate::error::Error;
use crate::shape::Shape;
use crate::value::Value;
use crate::foreign::{buffer_advance, buffer_bytes, buffer_extend, buffer_split_to, buffered};
use crate::varint::{lemma_varint_prefix_truncated, lemma_varint_roundtrip};
use crate::varint::{parse_varint, varint_bytes, varint_parse, write_varint};

verus! {

/// The largest payload a frame's length prefix can carry.
pub const MAX_FRAME_BYTES: usize = 0x7fff_ffff;

/// One message on the stream: the count of its bytes as a 32-bit
/// variable-length integer, then the bytes.
pub open spec fn frame_bytes(payload: Seq<u8>) -> Seq<u8>
    recommends
        payload.len() <= MAX_FRAME_BYTES,
{
    varint_bytes(payload.len() as i32) + payload
}

/// What the front of a buffer holds: a whole frame, as its payload and the
/// bytes it takes with its prefix; nothing yet, while the prefix or the
/// payload is still arriving; or a prefix that can never become one. A
/// negative length is a demand that no input meets, so it stays "nothing yet".
pub open spec fn frame_parse(b: Seq<u8>) -> Result<Option<(Seq<u8>, nat)>, Error> {
    match varint_parse(b) {
        Err(Error::TruncatedInput) => Ok(None),
        Err(e) => Err(e),
        Ok((count, n)) => {
            if count < 0 || b.len() - n < count {
                Ok(None)
            } else {
                Ok(Some((b.subrange(n as int, n + count), (n + count) as nat)))
            }
        },
    }
}

/// A buffer that holds exactly one message yields that message and is
/// drained by it.
pub proof fn lemma_frame_roundtrip(payload: Seq<u8>, rest: Seq<u8>)
    requires
        payload.len() <= MAX_FRAME_BYTES,
    ensures
        frame_parse(frame_bytes(payload) + rest) == Ok::<Option<(Seq<u8>, nat)>, Error>(
            Some((payload, frame_bytes(payload).len())),
        ),
        (frame_bytes(payload) + rest).skip(frame_bytes(payload).len() as int) == rest,
{
    let count = payload.len() as i32;
    let head = varint_bytes(count);
    let b = frame_bytes(payload) + rest;
    assert(b =~= head + (payload + rest));
    lemma_varint_roundtrip(count, payload + rest);
    assert(b.subrange(head.len() as int, head.len() + count) =~= payload);
    assert(b.skip(frame_bytes(payload).len() as int) =~= rest);
}

/// A message that arrives in two chunks: after the first chunk, wherever the
/// cut falls, there is no frame yet; once the second has been appended there
/// is exactly the message, and taking it leaves the buffer empty.
pub proof fn lemma_frame_split(payload: Seq<u8>, cut: nat)
    requires
        payload.len() <= MAX_FRAME_BYTES,
        cut < frame_bytes(payload).len(),
    ensures
        frame_parse(frame_bytes(payload).take(cut as int)) == Ok::<
            Option<(Seq<u8>, nat)>,
            Error,
        >(None),
        frame_bytes(payload).take(cut as int) + frame_bytes(payload).skip(cut as int)
            == frame_bytes(payload),
        frame_parse(frame_bytes(payload)) == Ok::<Option<(Seq<u8>, nat)>, Error>(
            Some((payload, frame_bytes(payload).len())),
        ),
        frame_bytes(payload).skip(frame_bytes(payload).len() as int) == Seq::<u8>::empty(),
{
    let count = payload.len() as i32;
    let head = varint_bytes(count);
    let whole = frame_bytes(payload);
    let first = whole.take(cut as int);
    assert(first + whole.skip(cut as int) =~= whole);
    assert(whole + Seq::<u8>::empty() =~= whole);
    lemma_frame_roundtrip(payload, Seq::empty());
    if cut < head.len() {
        assert(first =~= head.take(cut as int));
        lemma_varint_prefix_truncated(count, cut);
    } else {
        let part = payload.take(cut - head.len());
        assert(first =~= head + part);
        lemma_varint_roundtrip(count, part);
    }
}

/// Reads a 32-bit variable-length integer from the front of the buffer and
/// says how many bytes it takes. The buffer is left as it was.
pub fn read_varint(bytes: &mut BytesMut) -> (r: Result<(i32, usize), Error>)
    ensures
        buffered(*final(bytes)) == buffered(*old(bytes)),
        match varint_parse(buffered(*old(bytes))) {
            Ok((v, n)) => r == Ok::<(i32, usize), Error>((v, n as usize)) && 1 <= n <= 5 && n
                <= buffered(*old(bytes)).len(),
            Err(e) => r == Err::<(i32, usize), Error>(e),
        },
{
    let src: &[u8] = buffer_bytes(bytes);
    proof {
        assert(src@.skip(0) =~= src@);
    }
    parse_varint(src, 0)
}

/// Takes one frame from the front of the buffer, if a whole one is there.
/// While the prefix or the payload is incomplete the buffer is left untouched,
/// so that the attempt can be made again when more bytes have arrived.
pub fn frame_decode(src: &mut BytesMut) -> (r: Result<Option<Vec<u8>>, Error>)
    ensures
        match frame_parse(buffered(*old(src))) {
            Ok(Some((payload, used))) => r is Ok && r->Ok_0 is Some && r->Ok_0->Some_0@
                == payload && buffered(*final(src)) == buffered(*old(src)).skip(used as int),
            Ok(None) => r == Ok::<Option<Vec<u8>>, Error>(None) && buffered(*final(src))
                == buffered(*old(src)),
            Err(e) => r == Err::<Option<Vec<u8>>, Error>(e) && buffered(*final(src))
                == buffered(*old(src)),
        },
{
    let ghost before = buffered(*src);
    let (count, n) = match read_varint(src) {
        Ok(pair) => pair,
        Err(Error::TruncatedInput) => {
            return Ok(None);
        },
        Err(e) => {
            return Err(e);
        },
    };
    let held: usize = buffer_bytes(src).len();
    if count < 0 || held - n < count as usize {
        return Ok(None);
    }
    buffer_advance(src, n);
    let frame: BytesMut = buffer_split_to(src, count as usize);
    let payload: Vec<u8> = slice_to_vec(buffer_bytes(&frame));
    proof {
        assert(payload@ =~= before.subrange(n as int, n + count));
        assert(buffered(*src) =~= before.skip(n + count));
    }
    Ok(Some(payload))
}

/// Whether a frame of the given payload can be appended to a buffer that
/// holds `held` bytes: the payload fits its prefix, and the buffer stays
/// within what one allocation can hold.
pub open spec fn frame_fits(held: nat, payload: nat) -> bool {
    payload <= MAX_FRAME_BYTES && held + payload + 5 <= isize::MAX
}

/// Appends one frame to the buffer: the length prefix, then the payload. A
/// payload that does not fit is refused and nothing is written.
pub fn frame_encode(payload: &[u8], dst: &mut BytesMut) -> (r: Result<(), Error>)
    ensures
        frame_fits(buffered(*old(dst)).len(), payload@.len()) ==> r is Ok && buffered(*final(dst))
            == buffered(*old(dst)) + frame_bytes(payload@),
        !frame_fits(buffered(*old(dst)).len(), payload@.len()) ==> r == Err::<(), Error>(
            Error::LengthOverflow,
        ) && buffered(*final(dst)) == buffered(*old(dst)),
{
    let count: usize = payload.len();
    let held: usize = buffer_bytes(dst).len();
    let limit: usize = isize::MAX as usize;
    if count > MAX_FRAME_BYTES || held > limit || limit - held < 5 || limit - held - 5 < count {
        return Err(Error::LengthOverflow);
    }
    let mut prefix: Vec<u8> = Vec::new();
    write_varint(count as i32, &mut prefix);
    proof {
        lemma_varint_roundtrip(count as i32, Seq::empty());
        assert(prefix@ =~= varint_bytes(count as i32));
    }
    buffer_extend(dst, prefix.as_slice());
    buffer_extend(dst, payload);
    proof {
        assert(buffered(*dst) =~= buffered(*old(dst)) + frame_bytes(payload@));
    }
    Ok(())
}

/// The codec of one connection: it cuts frames out of the incoming buffer
/// and reads each as a message of one shape, and it writes each outgoing
/// message of another shape as one frame. It keeps nothing between calls but
/// the two shapes; bytes of an incomplete frame stay in the buffer.
pub struct MCProtoCodec {
    pub outgoing: Shape,
    pub incoming: Shape,
}

impl MCProtoCodec {
    /// A codec that writes messages of the first shape and reads messages of
    /// the second.
    pub fn new(outgoing: Shape, incoming: Shape) -> (r: MCProtoCodec)
        ensures
            r.outgoing == outgoing,
            r.incoming == incoming,
    {
        MCProtoCodec { outgoing, incoming }
    }

    /// Takes one frame from the buffer, if a whole one is there, and reads
    /// its payload as a message. Without a whole frame the buffer is left
    /// untouched and there is no message yet. A frame whose payload does not
    /// read as a message is taken from the buffer all the same.
    pub fn decode(&mut self, src: &mut BytesMut) -> (r: Result<Option<Value>, Error>)
        ensures
            final(self).outgoing == old(self).outgoing,
            final(self).incoming == old(self).incoming,
            match frame_parse(buffered(*old(src))) {
                Ok(Some((payload, used))) => buffered(*final(src)) == buffered(*old(src)).skip(
                    used as int,
                ) && (match decode(old(self).incoming, payload) {
                    Ok((v, _)) => r is Ok && r->Ok_0 is Some && r->Ok_0->Some_0@ == v,
                    Err(e) => r == Err::<Option<Value>, Error>(e),
                }),
                Ok(None) => r == Ok::<Option<Value>, Error>(None) && buffered(*final(src))
                    == buffered(*old(src)),
                Err(e) => r == Err::<Option<Value>, Error>(e) && buffered(*final(src))
                    == buffered(*old(src)),
            },
    {
        match frame_decode(src) {
            Err(e) => Err(e),
            Ok(None) => Ok(None),
            Ok(Some(payload)) => {
                proof {
                    assert(payload@.skip(0) =~= payload@);
                }
                match decode_at(&self.incoming, payload.as_slice(), 0) {
                    Ok((v, _)) => Ok(Some(v)),
                    Err(e) => Err(e),
                }
            },
        }
    }

    /// Writes a message as one frame at the end of the buffer. A message
    /// without a wire form, or one whose frame does not fit, is refused and
    /// nothing is written.
    pub fn encode(&mut self, item: &Value, dst: &mut BytesMut) -> (r: Result<(), Error>)
        ensures
            final(self).outgoing == old(self).outgoing,
            final(self).incoming == old(self).incoming,
            match encode(old(self).outgoing, item@) {
                Err(e) => r == Err::<(), Error>(e) && buffered(*final(dst)) == buffered(*old(dst)),
                Ok(payload) => {
                    if frame_fits(buffered(*old(dst)).len(), payload.len()) {
                        r is Ok && buffered(*final(dst)) == buffered(*old(dst)) + frame_bytes(
                            payload,
                        )
                    } else {
                        r == Err::<(), Error>(Error::LengthOverflow) && buffered(*final(dst))
                            == buffered(*old(dst))
                    }
                },
            },
    {
        let mut buffer: Vec<u8> = Vec::new();
        match encode_into(&self.outgoing, item, &mut buffer) {
            Err(e) => Err(e),
            Ok(()) => {
                proof {
                    assert(buffer@ =~= encode(self.outgoing, item@)->Ok_0);
                }
                frame_encode(buffer.as_slice(), dst)
            },
        }
    }
}

} // verus!
