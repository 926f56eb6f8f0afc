//! The message codec of a framed transport: one frame of bytes, one
//! message.

use vstd::prelude::*;
use bytes::BytesMut;
use crate::engine::{decode, decode_at, encode, encode_into};
use crate::error::Error;
use crate::foreign::{buffer_bytes, buffered};
use crate::shape::Shape;
use crate::value::Value;

verus! {

/// What a framed transport needs to turn the bytes of one frame into a
/// message and back: the shape of the messages.
pub struct MCProto {
    pub shape: Shape,
}

impl MCProto {
    /// The message codec of the given shape.
    pub fn new(shape: Shape) -> (r: MCProto)
        ensures
            r.shape == shape,
    {
        MCProto { shape }
    }

    /// Reads the message that the bytes of one frame hold. The buffer is
    /// only read; what follows the message in it is left aside.
    pub fn deserialize(&mut self, src: &BytesMut) -> (r: Result<Value, Error>)
        ensures
            final(self).shape == old(self).shape,
            match decode(old(self).shape, buffered(*src)) {
                Ok((v, _)) => r is Ok && r->Ok_0@ == v,
                Err(e) => r == Err::<Value, Error>(e),
            },
    {
        let bytes: &[u8] = buffer_bytes(src);
        proof {
            assert(bytes@.skip(0) =~= bytes@);
        }
        match decode_at(&self.shape, bytes, 0) {
            Ok((v, _)) => Ok(v),
            Err(e) => Err(e),
        }
    }

    /// The bytes of the frame that carries the message.
    pub fn serialize(&mut self, item: &Value) -> (r: Result<Vec<u8>, Error>)
        ensures
            final(self).shape == old(self).shape,
            match encode(old(self).shape, item@) {
                Ok(bytes) => r is Ok && r->Ok_0@ == bytes,
                Err(e) => r == Err::<Vec<u8>, Error>(e),
            },
    {
        let mut buffer: Vec<u8> = Vec::new();
        match encode_into(&self.shape, item, &mut buffer) {
            Ok(()) => {
                proof {
                    assert(buffer@ =~= encode(self.shape, item@)->Ok_0);
                }
                Ok(buffer)
            },
            Err(e) => Err(e),
        }
    }
}

} // verus!
