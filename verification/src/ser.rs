//! A sink of bytes, for writing value by value.

use vstd::prelude::*;
use vstd::utf8::encode_utf8;
use crate::engine::{encode, encode_into};
use crate::error::Error;
use crate::optional::{absent_bytes, write_absent};
use crate::shape::Shape;
use crate::value::Value;
use crate::primitive::{bool_bytes, write_bool};
use crate::primitive::{i16_bytes, write_i16};
use crate::primitive::{i32_bytes, write_i32};
use crate::primitive::{i64_bytes, write_i64};
use crate::primitive::{i8_bytes, write_i8};
use crate::primitive::{u128_bytes, write_u128};
use crate::primitive::{u16_bytes, write_u16};
use crate::primitive::{u32_bytes, write_u32};
use crate::primitive::{u64_bytes, write_u64};
use crate::primitive::{u8_bytes, write_u8};
use crate::text::{string_bytes, write_string, MAX_STRING_BYTES};
use crate::varint::{tag_of, varint_bytes, varlong_bytes, write_tag, write_varint, write_varlong};

verus! {

/// An append-only sink of bytes. Its view is what has been written.
pub struct MCProtoSerializer {
    pub writer: Vec<u8>,
}

impl View for MCProtoSerializer {
    type V = Seq<u8>;

    open spec fn view(&self) -> Seq<u8> {
        self.writer@
    }
}

impl MCProtoSerializer {
    /// A sink that appends to the given bytes.
    pub fn new(w: Vec<u8>) -> (s: MCProtoSerializer)
        ensures
            s@ == w@,
    {
        MCProtoSerializer { writer: w }
    }

    /// Gives the written bytes out.
    pub fn into_inner(self) -> (r: Vec<u8>)
        ensures
            r@ == self@,
    {
        self.writer
    }

    /// Writes a boolean.
    pub fn serialize_bool(&mut self, v: bool) -> (r: Result<(), Error>)
        ensures
            r is Ok,
            final(self)@ == old(self)@ + bool_bytes(v),
    {
        write_bool(v, &mut self.writer);
        Ok(())
    }

    /// Writes a signed 8-bit integer.
    pub fn serialize_i8(&mut self, v: i8) -> (r: Result<(), Error>)
        ensures
            r is Ok,
            final(self)@ == old(self)@ + i8_bytes(v),
    {
        write_i8(v, &mut self.writer);
        Ok(())
    }

    /// Writes a signed 16-bit integer.
    pub fn serialize_i16(&mut self, v: i16) -> (r: Result<(), Error>)
        ensures
            r is Ok,
            final(self)@ == old(self)@ + i16_bytes(v),
    {
        write_i16(v, &mut self.writer);
        Ok(())
    }

    /// Writes a signed 32-bit integer.
    pub fn serialize_i32(&mut self, v: i32) -> (r: Result<(), Error>)
        ensures
            r is Ok,
            final(self)@ == old(self)@ + i32_bytes(v),
    {
        write_i32(v, &mut self.writer);
        Ok(())
    }

    /// Writes a signed 64-bit integer.
    pub fn serialize_i64(&mut self, v: i64) -> (r: Result<(), Error>)
        ensures
            r is Ok,
            final(self)@ == old(self)@ + i64_bytes(v),
    {
        write_i64(v, &mut self.writer);
        Ok(())
    }

    /// Writes an unsigned 8-bit integer.
    pub fn serialize_u8(&mut self, v: u8) -> (r: Result<(), Error>)
        ensures
            r is Ok,
            final(self)@ == old(self)@ + u8_bytes(v),
    {
        write_u8(v, &mut self.writer);
        Ok(())
    }

    /// Writes an unsigned 16-bit integer.
    pub fn serialize_u16(&mut self, v: u16) -> (r: Result<(), Error>)
        ensures
            r is Ok,
            final(self)@ == old(self)@ + u16_bytes(v),
    {
        write_u16(v, &mut self.writer);
        Ok(())
    }

    /// Writes an unsigned 32-bit integer.
    pub fn serialize_u32(&mut self, v: u32) -> (r: Result<(), Error>)
        ensures
            r is Ok,
            final(self)@ == old(self)@ + u32_bytes(v),
    {
        write_u32(v, &mut self.writer);
        Ok(())
    }

    /// Writes an unsigned 64-bit integer.
    pub fn serialize_u64(&mut self, v: u64) -> (r: Result<(), Error>)
        ensures
            r is Ok,
            final(self)@ == old(self)@ + u64_bytes(v),
    {
        write_u64(v, &mut self.writer);
        Ok(())
    }

    /// Writes an unsigned 128-bit integer.
    pub fn serialize_u128(&mut self, v: u128) -> (r: Result<(), Error>)
        ensures
            r is Ok,
            final(self)@ == old(self)@ + u128_bytes(v),
    {
        write_u128(v, &mut self.writer);
        Ok(())
    }

    /// Writes the bit pattern of a 32-bit float.
    pub fn serialize_f32(&mut self, v: u32) -> (r: Result<(), Error>)
        ensures
            r is Ok,
            final(self)@ == old(self)@ + u32_bytes(v),
    {
        write_u32(v, &mut self.writer);
        Ok(())
    }

    /// Writes the bit pattern of a 64-bit float.
    pub fn serialize_f64(&mut self, v: u64) -> (r: Result<(), Error>)
        ensures
            r is Ok,
            final(self)@ == old(self)@ + u64_bytes(v),
    {
        write_u64(v, &mut self.writer);
        Ok(())
    }

    /// Writes a 32-bit variable-length integer.
    pub fn serialize_varint(&mut self, v: i32) -> (r: Result<(), Error>)
        ensures
            r is Ok,
            final(self)@ == old(self)@ + varint_bytes(v),
    {
        write_varint(v, &mut self.writer);
        Ok(())
    }

    /// Writes a 64-bit variable-length integer.
    pub fn serialize_varlong(&mut self, v: i64) -> (r: Result<(), Error>)
        ensures
            r is Ok,
            final(self)@ == old(self)@ + varlong_bytes(v),
    {
        write_varlong(v, &mut self.writer);
        Ok(())
    }

    /// Writes a text. One of more bytes than its length prefix can carry is
    /// refused and nothing is written.
    pub fn serialize_str(&mut self, val: &str) -> (r: Result<(), Error>)
        ensures
            encode_utf8(val@).len() <= MAX_STRING_BYTES ==> r is Ok && final(self)@ == old(self)@
                + string_bytes(val@),
            encode_utf8(val@).len() > MAX_STRING_BYTES ==> r == Err::<(), Error>(
                Error::LengthOverflow,
            ) && final(self)@ == old(self)@,
    {
        write_string(val, &mut self.writer)
    }

    /// Writes the given bytes as they are, with no count in front.
    pub fn serialize_bytes(&mut self, value: &[u8]) -> (r: Result<(), Error>)
        ensures
            r is Ok,
            final(self)@ == old(self)@ + value@,
    {
        self.writer.extend_from_slice(value);
        Ok(())
    }
}

impl MCProtoSerializer {
    /// Writes a value, read as one of the given shape. On an error nothing
    /// is written.
    pub fn serialize(&mut self, value: &Value, shape: &Shape) -> (r: Result<(), Error>)
        ensures
            match encode(*shape, value@) {
                Ok(bytes) => r is Ok && final(self)@ == old(self)@ + bytes,
                Err(e) => r == Err::<(), Error>(e) && final(self)@ == old(self)@,
            },
    {
        encode_into(shape, value, &mut self.writer)
    }

    /// Writes an absent optional value: the two bytes that a reader takes
    /// for absence.
    pub fn serialize_none(&mut self) -> (r: Result<(), Error>)
        ensures
            r is Ok,
            final(self)@ == old(self)@ + absent_bytes(),
    {
        write_absent(&mut self.writer);
        Ok(())
    }

    /// Writes a present optional value: the value itself, with nothing in
    /// front of it.
    pub fn serialize_some(&mut self, value: &Value, shape: &Shape) -> (r: Result<(), Error>)
        ensures
            match encode(*shape, value@) {
                Ok(bytes) => r is Ok && final(self)@ == old(self)@ + bytes,
                Err(e) => r == Err::<(), Error>(e) && final(self)@ == old(self)@,
            },
    {
        self.serialize(value, shape)
    }

    /// Writes the index of a union's alternative that carries no payload.
    pub fn serialize_unit_variant(&mut self, variant_index: u32) -> (r: Result<(), Error>)
        ensures
            r is Ok,
            final(self)@ == old(self)@ + varint_bytes(tag_of(variant_index)),
    {
        write_tag(variant_index, &mut self.writer);
        Ok(())
    }

    /// Starts a record: its fields follow one another with nothing between
    /// them and nothing in front.
    pub fn serialize_struct(self) -> (r: Compound)
        ensures
            r@ == self@,
    {
        Compound { ser: self }
    }

    /// Starts the record of a union's alternative: the index, then the
    /// fields.
    pub fn serialize_struct_variant(self, variant_index: u32) -> (r: Result<Compound, Error>)
        ensures
            r is Ok,
            r->Ok_0@ == self@ + varint_bytes(tag_of(variant_index)),
    {
        let mut ser = self;
        write_tag(variant_index, &mut ser.writer);
        Ok(Compound { ser })
    }
}

/// A record in the writing: each field is appended as it is handed in.
pub struct Compound {
    pub ser: MCProtoSerializer,
}

impl View for Compound {
    type V = Seq<u8>;

    open spec fn view(&self) -> Seq<u8> {
        self.ser@
    }
}

impl Compound {
    /// Writes the next field. The wire carries no names: the order of the
    /// calls is the order of the fields.
    pub fn serialize_field(&mut self, value: &Value, shape: &Shape) -> (r: Result<(), Error>)
        ensures
            match encode(*shape, value@) {
                Ok(bytes) => r is Ok && final(self)@ == old(self)@ + bytes,
                Err(e) => r == Err::<(), Error>(e) && final(self)@ == old(self)@,
            },
    {
        self.ser.serialize(value, shape)
    }

    /// Ends the record and hands the sink back; nothing is written.
    pub fn end(self) -> (r: MCProtoSerializer)
        ensures
            r@ == self@,
    {
        self.ser
    }
}

/// Writes a value, read as one of the given shape, through the sink.
pub fn serialize(data: &Value, shape: &Shape, serializer: &mut MCProtoSerializer) -> (r: Result<
    (),
    Error,
>)
    ensures
        match encode(*shape, data@) {
            Ok(bytes) => r is Ok && final(serializer)@ == old(serializer)@ + bytes,
            Err(e) => r == Err::<(), Error>(e) && final(serializer)@ == old(serializer)@,
        },
{
    serializer.serialize(data, shape)
}

/// The wire form of a value, read as one of the given shape.
pub fn to_bytes(data: &Value, shape: &Shape) -> (r: Result<Vec<u8>, Error>)
    ensures
        match encode(*shape, data@) {
            Ok(bytes) => r is Ok && r->Ok_0@ == bytes,
            Err(e) => r == Err::<Vec<u8>, Error>(e),
        },
{
    let mut out: Vec<u8> = Vec::new();
    match encode_into(shape, data, &mut out) {
        Ok(()) => {
            proof {
                assert(out@ =~= encode(*shape, data@)->Ok_0);
            }
            Ok(out)
        },
        Err(e) => Err(e),
    }
}

} // verus!
