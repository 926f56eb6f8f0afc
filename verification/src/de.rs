//! A cursor over a byte buffer, for reading value by value.

use vstd::prelude::*;
use vstd::slice::slice_subrange;
use crate::engine::{decode, decode_at, decode_fields, decode_fields_at, decode_items};
use crate::engine::{decode_items_at, decode_newtype_at, decode_union_at, is_newtype, option_model};
use crate::error::Error;
use crate::optional::{optional_parse, peek_absent};
use crate::shape::Shape;
use crate::value::{models_of, Value, ValueView};
use crate::primitive::{bool_parse, parse_bool};
use crate::primitive::{i16_parse, parse_i16};
use crate::primitive::{i32_parse, parse_i32};
use crate::primitive::{i64_parse, parse_i64};
use crate::primitive::{i8_parse, parse_i8};
use crate::primitive::{u128_parse, parse_u128};
use crate::primitive::{u16_parse, parse_u16};
use crate::primitive::{u32_parse, parse_u32};
use crate::primitive::{u64_parse, parse_u64};
use crate::primitive::{u8_parse, parse_u8};
use crate::text::{parse_string, string_parse};
use crate::varint::{parse_varint, parse_varlong, varint_parse, varlong_parse};
use crate::parse::Parsed;

verus! {

/// How one read relates the cursor before and after it: on success the value
/// is the parsed one and the cursor has moved past its bytes; on failure the
/// cursor has not moved.
pub open spec fn took<T>(before: Seq<u8>, after: Seq<u8>, parsed: Parsed<T>, r: Result<T, Error>) -> bool {
    match parsed {
        Ok((v, n)) => r == Ok::<T, Error>(v) && n <= before.len() && after == before.skip(n as int),
        Err(e) => r == Err::<T, Error>(e) && after == before,
    }
}

/// `took`, for a value that is known by its view.
pub open spec fn took_view<T: View>(
    before: Seq<u8>,
    after: Seq<u8>,
    parsed: Parsed<T::V>,
    r: Result<T, Error>,
) -> bool {
    match parsed {
        Ok((v, n)) => r is Ok && r->Ok_0@ == v && n <= before.len() && after == before.skip(
            n as int,
        ),
        Err(e) => r == Err::<T, Error>(e) && after == before,
    }
}

/// A consume-only cursor over a byte buffer. Its view is what is still to be
/// read.
pub struct MCProtoDeserializer {
    reader: Vec<u8>,
    pos: usize,
}

impl View for MCProtoDeserializer {
    type V = Seq<u8>;

    closed spec fn view(&self) -> Seq<u8> {
        self.reader@.skip(self.pos as int)
    }
}

impl MCProtoDeserializer {
    #[verifier::type_invariant]
    spec fn in_bounds(self) -> bool {
        self.pos <= self.reader@.len()
    }

    /// A cursor at the start of the given bytes.
    pub fn new(r: Vec<u8>) -> (d: MCProtoDeserializer)
        ensures
            d@ == r@,
    {
        proof {
            assert(r@.skip(0) =~= r@);
        }
        MCProtoDeserializer { reader: r, pos: 0 }
    }

    /// The number of bytes still to be read.
    pub fn remaining(&self) -> (n: usize)
        ensures
            n == self@.len(),
    {
        proof {
            use_type_invariant(self);
        }
        self.reader.len() - self.pos
    }

    /// The bytes still to be read.
    pub fn peek(&self) -> (r: &[u8])
        ensures
            r@ == self@,
    {
        proof {
            use_type_invariant(self);
        }
        let r = slice_subrange(self.reader.as_slice(), self.pos, self.reader.len());
        proof {
            assert(r@ =~= self@);
        }
        r
    }

    /// Moves the cursor past the next `n` bytes.
    pub fn advance(&mut self, n: usize)
        requires
            n <= old(self)@.len(),
        ensures
            final(self)@ == old(self)@.skip(n as int),
    {
        let total: usize = self.reader.len();
        proof {
            use_type_invariant(&*self);
            assert(self@.len() == total - self.pos);
        }
        self.pos = self.pos + n;
        proof {
            assert(self.reader@.skip(self.pos as int) =~= old(self).reader@.skip(
                old(self).pos as int,
            ).skip(n as int));
        }
    }

    /// Gives the buffer back, read bytes and all.
    pub fn into_inner(self) -> (r: Vec<u8>)
        ensures
            self@.len() <= r@.len(),
            self@ == r@.skip(r@.len() - self@.len()),
    {
        proof {
            use_type_invariant(&self);
        }
        self.reader
    }

    /// Reads a boolean.
    pub fn deserialize_bool(&mut self) -> (r: Result<bool, Error>)
        ensures
            took(old(self)@, final(self)@, bool_parse(old(self)@), r),
    {
        proof {
            use_type_invariant(&*self);
        }
        match parse_bool(self.reader.as_slice(), self.pos) {
            Ok((v, n)) => {
                self.advance(n);
                Ok(v)
            },
            Err(e) => Err(e),
        }
    }

    /// Reads a signed 8-bit integer.
    pub fn deserialize_i8(&mut self) -> (r: Result<i8, Error>)
        ensures
            took(old(self)@, final(self)@, i8_parse(old(self)@), r),
    {
        proof {
            use_type_invariant(&*self);
        }
        match parse_i8(self.reader.as_slice(), self.pos) {
            Ok((v, n)) => {
                self.advance(n);
                Ok(v)
            },
            Err(e) => Err(e),
        }
    }

    /// Reads a signed 16-bit integer.
    pub fn deserialize_i16(&mut self) -> (r: Result<i16, Error>)
        ensures
            took(old(self)@, final(self)@, i16_parse(old(self)@), r),
    {
        proof {
            use_type_invariant(&*self);
        }
        match parse_i16(self.reader.as_slice(), self.pos) {
            Ok((v, n)) => {
                self.advance(n);
                Ok(v)
            },
            Err(e) => Err(e),
        }
    }

    /// Reads a signed 32-bit integer.
    pub fn deserialize_i32(&mut self) -> (r: Result<i32, Error>)
        ensures
            took(old(self)@, final(self)@, i32_parse(old(self)@), r),
    {
        proof {
            use_type_invariant(&*self);
        }
        match parse_i32(self.reader.as_slice(), self.pos) {
            Ok((v, n)) => {
                self.advance(n);
                Ok(v)
            },
            Err(e) => Err(e),
        }
    }

    /// Reads a signed 64-bit integer.
    pub fn deserialize_i64(&mut self) -> (r: Result<i64, Error>)
        ensures
            took(old(self)@, final(self)@, i64_parse(old(self)@), r),
    {
        proof {
            use_type_invariant(&*self);
        }
        match parse_i64(self.reader.as_slice(), self.pos) {
            Ok((v, n)) => {
                self.advance(n);
                Ok(v)
            },
            Err(e) => Err(e),
        }
    }

    /// Reads an unsigned 8-bit integer.
    pub fn deserialize_u8(&mut self) -> (r: Result<u8, Error>)
        ensures
            took(old(self)@, final(self)@, u8_parse(old(self)@), r),
    {
        proof {
            use_type_invariant(&*self);
        }
        match parse_u8(self.reader.as_slice(), self.pos) {
            Ok((v, n)) => {
                self.advance(n);
                Ok(v)
            },
            Err(e) => Err(e),
        }
    }

    /// Reads an unsigned 16-bit integer.
    pub fn deserialize_u16(&mut self) -> (r: Result<u16, Error>)
        ensures
            took(old(self)@, final(self)@, u16_parse(old(self)@), r),
    {
        proof {
            use_type_invariant(&*self);
        }
        match parse_u16(self.reader.as_slice(), self.pos) {
            Ok((v, n)) => {
                self.advance(n);
                Ok(v)
            },
            Err(e) => Err(e),
        }
    }

    /// Reads an unsigned 32-bit integer.
    pub fn deserialize_u32(&mut self) -> (r: Result<u32, Error>)
        ensures
            took(old(self)@, final(self)@, u32_parse(old(self)@), r),
    {
        proof {
            use_type_invariant(&*self);
        }
        match parse_u32(self.reader.as_slice(), self.pos) {
            Ok((v, n)) => {
                self.advance(n);
                Ok(v)
            },
            Err(e) => Err(e),
        }
    }

    /// Reads an unsigned 64-bit integer.
    pub fn deserialize_u64(&mut self) -> (r: Result<u64, Error>)
        ensures
            took(old(self)@, final(self)@, u64_parse(old(self)@), r),
    {
        proof {
            use_type_invariant(&*self);
        }
        match parse_u64(self.reader.as_slice(), self.pos) {
            Ok((v, n)) => {
                self.advance(n);
                Ok(v)
            },
            Err(e) => Err(e),
        }
    }

    /// Reads an unsigned 128-bit integer.
    pub fn deserialize_u128(&mut self) -> (r: Result<u128, Error>)
        ensures
            took(old(self)@, final(self)@, u128_parse(old(self)@), r),
    {
        proof {
            use_type_invariant(&*self);
        }
        match parse_u128(self.reader.as_slice(), self.pos) {
            Ok((v, n)) => {
                self.advance(n);
                Ok(v)
            },
            Err(e) => Err(e),
        }
    }

    /// Reads the bit pattern of a 32-bit float.
    pub fn deserialize_f32(&mut self) -> (r: Result<u32, Error>)
        ensures
            took(old(self)@, final(self)@, u32_parse(old(self)@), r),
    {
        proof {
            use_type_invariant(&*self);
        }
        match parse_u32(self.reader.as_slice(), self.pos) {
            Ok((v, n)) => {
                self.advance(n);
                Ok(v)
            },
            Err(e) => Err(e),
        }
    }

    /// Reads the bit pattern of a 64-bit float.
    pub fn deserialize_f64(&mut self) -> (r: Result<u64, Error>)
        ensures
            took(old(self)@, final(self)@, u64_parse(old(self)@), r),
    {
        proof {
            use_type_invariant(&*self);
        }
        match parse_u64(self.reader.as_slice(), self.pos) {
            Ok((v, n)) => {
                self.advance(n);
                Ok(v)
            },
            Err(e) => Err(e),
        }
    }

    /// Reads a 32-bit variable-length integer.
    pub fn deserialize_varint(&mut self) -> (r: Result<i32, Error>)
        ensures
            took(old(self)@, final(self)@, varint_parse(old(self)@), r),
    {
        proof {
            use_type_invariant(&*self);
        }
        match parse_varint(self.reader.as_slice(), self.pos) {
            Ok((v, n)) => {
                self.advance(n);
                Ok(v)
            },
            Err(e) => Err(e),
        }
    }

    /// Reads a 64-bit variable-length integer.
    pub fn deserialize_varlong(&mut self) -> (r: Result<i64, Error>)
        ensures
            took(old(self)@, final(self)@, varlong_parse(old(self)@), r),
    {
        proof {
            use_type_invariant(&*self);
        }
        match parse_varlong(self.reader.as_slice(), self.pos) {
            Ok((v, n)) => {
                self.advance(n);
                Ok(v)
            },
            Err(e) => Err(e),
        }
    }

    /// Reads a text.
    pub fn deserialize_string(&mut self) -> (r: Result<String, Error>)
        ensures
            took_view(old(self)@, final(self)@, string_parse(old(self)@), r),
    {
        proof {
            use_type_invariant(&*self);
        }
        match parse_string(self.reader.as_slice(), self.pos) {
            Ok((v, n)) => {
                self.advance(n);
                Ok(v)
            },
            Err(e) => Err(e),
        }
    }
}

impl MCProtoDeserializer {
    /// Reads a value of the given shape. The walk stops at the first error,
    /// hands out no partial value and leaves the cursor where it was.
    pub fn deserialize(&mut self, shape: &Shape) -> (r: Result<Value, Error>)
        ensures
            took_view(old(self)@, final(self)@, decode(*shape, old(self)@), r),
    {
        proof {
            assert(self@.skip(0) =~= self@);
        }
        match decode_at(shape, self.peek(), 0) {
            Ok((v, n)) => {
                self.advance(n);
                Ok(v)
            },
            Err(e) => Err(e),
        }
    }

    /// Reads an optional value of the given shape. The first two bytes are
    /// peeked at as a signed 16-bit integer; `-1` is absence and is taken.
    /// Anything else is given back to the source, and the value is read from
    /// the very bytes that were peeked at.
    pub fn deserialize_option(&mut self, inner: &Shape) -> (r: Result<Option<Value>, Error>)
        ensures
            match optional_parse(old(self)@, decode(*inner, old(self)@)) {
                Ok((o, n)) => r is Ok && option_model(r->Ok_0) == o && n <= old(self)@.len()
                    && final(self)@ == old(self)@.skip(n as int),
                Err(e) => r == Err::<Option<Value>, Error>(e) && final(self)@ == old(self)@,
            },
    {
        proof {
            assert(self@.skip(0) =~= self@);
        }
        match peek_absent(self.peek(), 0) {
            Err(e) => Err(e),
            Ok(true) => {
                self.advance(2);
                Ok(None)
            },
            Ok(false) => match self.deserialize(inner) {
                Ok(v) => Ok(Some(v)),
                Err(e) => Err(e),
            },
        }
    }

    /// Reads a value of one of the named wrapper shapes; any other shape is
    /// refused.
    pub fn deserialize_newtype_struct(&mut self, shape: &Shape) -> (r: Result<Value, Error>)
        ensures
            is_newtype(*shape) ==> took_view(
                old(self)@,
                final(self)@,
                decode(*shape, old(self)@),
                r,
            ),
            !is_newtype(*shape) ==> r == Err::<Value, Error>(Error::UnsupportedShape) && final(self)@ == old(self)@,
    {
        proof {
            assert(self@.skip(0) =~= self@);
        }
        match shape {
            Shape::VarInt | Shape::VarLong | Shape::Array(_, _) | Shape::Metadata | Shape::Nbt
            | Shape::GzipNbt => match decode_newtype_at(shape, self.peek(), 0) {
                Ok((v, n)) => {
                    self.advance(n);
                    Ok(v)
                },
                Err(e) => Err(e),
            },
            _ => Err(Error::UnsupportedShape),
        }
    }

    /// Reads the fields of a tuple, in their order.
    pub fn deserialize_tuple(&mut self, fields: &Vec<Shape>) -> (r: Result<Vec<Value>, Error>)
        ensures
            match decode_fields(fields@, 0, old(self)@) {
                Ok((vs, n)) => r is Ok && models_of(r->Ok_0@) == vs && n <= old(self)@.len()
                    && final(self)@ == old(self)@.skip(n as int),
                Err(e) => r == Err::<Vec<Value>, Error>(e) && final(self)@ == old(self)@,
            },
    {
        proof {
            assert(self@.skip(0) =~= self@);
        }
        match decode_fields_at(fields, self.peek(), 0) {
            Ok((vs, n)) => {
                self.advance(n);
                Ok(vs)
            },
            Err(e) => Err(e),
        }
    }

    /// Reads the fields of a record, in their declared order: the wire
    /// carries no names, so a record is read as the tuple of its fields.
    pub fn deserialize_struct(&mut self, fields: &Vec<Shape>) -> (r: Result<Vec<Value>, Error>)
        ensures
            match decode_fields(fields@, 0, old(self)@) {
                Ok((vs, n)) => r is Ok && models_of(r->Ok_0@) == vs && n <= old(self)@.len()
                    && final(self)@ == old(self)@.skip(n as int),
                Err(e) => r == Err::<Vec<Value>, Error>(e) && final(self)@ == old(self)@,
            },
    {
        self.deserialize_tuple(fields)
    }

    /// Reads a value of a union: the index of the alternative and its
    /// payload.
    pub fn deserialize_enum(&mut self, variants: &Vec<Shape>) -> (r: Result<(u32, Value), Error>)
        ensures
            match decode(Shape::Union(*variants), old(self)@) {
                Ok((v, n)) => r is Ok && v == ValueView::Union(r->Ok_0.0, Box::new(r->Ok_0.1@))
                    && n <= old(self)@.len() && final(self)@ == old(self)@.skip(n as int),
                Err(e) => r == Err::<(u32, Value), Error>(e) && final(self)@ == old(self)@,
            },
    {
        proof {
            assert(self@.skip(0) =~= self@);
        }
        match decode_union_at(variants, self.peek(), 0) {
            Ok((k, v, n)) => {
                self.advance(n);
                Ok((k, v))
            },
            Err(e) => Err(e),
        }
    }
}

/// Reads a value of the given shape through the cursor.
pub fn deserialize(deserializer: &mut MCProtoDeserializer, shape: &Shape) -> (r: Result<
    Value,
    Error,
>)
    ensures
        took_view(old(deserializer)@, final(deserializer)@, decode(*shape, old(deserializer)@), r),
{
    deserializer.deserialize(shape)
}

/// Reads a value of the given shape from the front of the given bytes;
/// whatever follows it is left aside.
pub fn from_bytes(bytes: &[u8], shape: &Shape) -> (r: Result<Value, Error>)
    ensures
        match decode(*shape, bytes@) {
            Ok((v, _)) => r is Ok && r->Ok_0@ == v,
            Err(e) => r == Err::<Value, Error>(e),
        },
{
    proof {
        assert(bytes@.skip(0) =~= bytes@);
    }
    match decode_at(shape, bytes, 0) {
        Ok((v, _)) => Ok(v),
        Err(e) => Err(e),
    }
}

/// A sequence of a known count, read one element at a time.
pub struct CountedSeq {
    pub de: MCProtoDeserializer,
    pub len: usize,
}

impl CountedSeq {
    /// A sequence of `len` elements that reads from the given cursor.
    pub fn new(de: MCProtoDeserializer, len: usize) -> (r: CountedSeq)
        ensures
            r.de@ == de@,
            r.len == len,
    {
        CountedSeq { de, len }
    }

    /// The number of elements still to come.
    pub fn size_hint(&self) -> (r: Option<usize>)
        ensures
            r == Some(self.len),
    {
        Some(self.len)
    }

    /// Hands the cursor back.
    pub fn into_inner(self) -> (r: MCProtoDeserializer)
        ensures
            r@ == self.de@,
    {
        self.de
    }

    /// Reads the next element, or says that there is none left. An element
    /// counts as taken as soon as its reading starts, so after an error one
    /// fewer is still to come, though the cursor has not moved.
    pub fn next_element(&mut self, shape: &Shape) -> (r: Result<Option<Value>, Error>)
        ensures
            old(self).len == 0 ==> r == Ok::<Option<Value>, Error>(None) && final(self).len == 0
                && final(self).de@ == old(self).de@,
            old(self).len > 0 ==> final(self).len == old(self).len - 1 && (match decode(
                *shape,
                old(self).de@,
            ) {
                Ok((v, n)) => r is Ok && r->Ok_0 is Some && r->Ok_0->Some_0@ == v && n <= old(self).de@.len() && final(self).de@ == old(self).de@.skip(n as int),
                Err(e) => r == Err::<Option<Value>, Error>(e) && final(self).de@ == old(self).de@,
            }),
    {
        if self.len == 0 {
            return Ok(None);
        }
        self.len = self.len - 1;
        match self.de.deserialize(shape) {
            Ok(v) => Ok(Some(v)),
            Err(e) => Err(e),
        }
    }

    /// Reads all the elements still to come. On an error nothing is taken.
    pub fn collect(&mut self, shape: &Shape) -> (r: Result<Vec<Value>, Error>)
        ensures
            match decode_items(*shape, old(self).len as nat, old(self).de@) {
                Ok((vs, n)) => r is Ok && models_of(r->Ok_0@) == vs && vs.len() == old(self).len
                    && final(self).len == 0 && n <= old(self).de@.len() && final(self).de@ == old(self).de@.skip(n as int),
                Err(e) => r == Err::<Vec<Value>, Error>(e) && final(self).len == old(self).len
                    && final(self).de@ == old(self).de@,
            },
    {
        proof {
            assert(self.de@.skip(0) =~= self.de@);
        }
        match decode_items_at(shape, self.len, self.de.peek(), 0) {
            Ok((vs, n)) => {
                self.de.advance(n);
                self.len = 0;
                Ok(vs)
            },
            Err(e) => Err(e),
        }
    }
}

} // verus!
