//! Sequences behind each of the five length prefixes.

use vstd::prelude::*;
use crate::de::MCProtoDeserializer;
use crate::engine::{array_bytes, array_parse, decode_array_at, encode_array_into};
use crate::error::Error;
use crate::ser::MCProtoSerializer;
use crate::shape::{Prefix, Shape};
use crate::value::{models_of, Value};

verus! {

/// A sequence that travels behind an unsigned 8-bit count.
#[derive(Debug, PartialEq)]
pub struct UBytePrefix<T> {
    elements: Vec<T>,
}

impl<T> View for UBytePrefix<T> {
    type V = Seq<T>;

    closed spec fn view(&self) -> Seq<T> {
        self.elements@
    }
}

impl<T> UBytePrefix<T> {
    /// The sequence of the given elements.
    pub fn new(elements: Vec<T>) -> (r: Self)
        ensures
            r@ == elements@,
    {
        UBytePrefix { elements }
    }

    /// The elements.
    pub fn elements(&self) -> (r: &Vec<T>)
        ensures
            r@ == self@,
    {
        &self.elements
    }

    /// Gives the elements out.
    pub fn into_inner(self) -> (r: Vec<T>)
        ensures
            r@ == self@,
    {
        self.elements
    }

    /// The length prefix that this sequence travels behind.
    pub fn prefix() -> (r: Prefix)
        ensures
            r == Prefix::UByte,
    {
        Prefix::UByte
    }
}

impl UBytePrefix<Value> {
    /// Writes the count and then each element, read as one of the given
    /// shape. On an error nothing is written.
    pub fn serialize(&self, elem: &Shape, serializer: &mut MCProtoSerializer) -> (r: Result<
        (),
        Error,
    >)
        ensures
            match array_bytes(Prefix::UByte, *elem, models_of(self@)) {
                Ok(bytes) => r is Ok && final(serializer)@ == old(serializer)@ + bytes,
                Err(e) => r == Err::<(), Error>(e) && final(serializer)@ == old(serializer)@,
            },
    {
        encode_array_into(Prefix::UByte, elem, &self.elements, &mut serializer.writer)
    }

    /// Reads the count and then that many elements of the given shape. On
    /// an error the cursor stays where it was.
    pub fn deserialize(elem: &Shape, deserializer: &mut MCProtoDeserializer) -> (r: Result<
        Self,
        Error,
    >)
        ensures
            match array_parse(Prefix::UByte, *elem, old(deserializer)@) {
                Ok((vs, n)) => r is Ok && models_of(r->Ok_0@) == vs && n <= old(deserializer)@.len()
                    && final(deserializer)@ == old(deserializer)@.skip(n as int),
                Err(e) => r == Err::<Self, Error>(e) && final(deserializer)@ == old(deserializer)@,
            },
    {
        proof {
            assert(deserializer@.skip(0) =~= deserializer@);
        }
        match decode_array_at(Prefix::UByte, elem, deserializer.peek(), 0) {
            Ok((elements, n)) => {
                deserializer.advance(n);
                Ok(UBytePrefix { elements })
            },
            Err(e) => Err(e),
        }
    }
}

/// A sequence that travels behind a signed 8-bit count.
#[derive(Debug, PartialEq)]
pub struct BytePrefix<T> {
    elements: Vec<T>,
}

impl<T> View for BytePrefix<T> {
    type V = Seq<T>;

    closed spec fn view(&self) -> Seq<T> {
        self.elements@
    }
}

impl<T> BytePrefix<T> {
    /// The sequence of the given elements.
    pub fn new(elements: Vec<T>) -> (r: Self)
        ensures
            r@ == elements@,
    {
        BytePrefix { elements }
    }

    /// The elements.
    pub fn elements(&self) -> (r: &Vec<T>)
        ensures
            r@ == self@,
    {
        &self.elements
    }

    /// Gives the elements out.
    pub fn into_inner(self) -> (r: Vec<T>)
        ensures
            r@ == self@,
    {
        self.elements
    }

    /// The length prefix that this sequence travels behind.
    pub fn prefix() -> (r: Prefix)
        ensures
            r == Prefix::Byte,
    {
        Prefix::Byte
    }
}

impl BytePrefix<Value> {
    /// Writes the count and then each element, read as one of the given
    /// shape. On an error nothing is written.
    pub fn serialize(&self, elem: &Shape, serializer: &mut MCProtoSerializer) -> (r: Result<
        (),
        Error,
    >)
        ensures
            match array_bytes(Prefix::Byte, *elem, models_of(self@)) {
                Ok(bytes) => r is Ok && final(serializer)@ == old(serializer)@ + bytes,
                Err(e) => r == Err::<(), Error>(e) && final(serializer)@ == old(serializer)@,
            },
    {
        encode_array_into(Prefix::Byte, elem, &self.elements, &mut serializer.writer)
    }

    /// Reads the count and then that many elements of the given shape. On
    /// an error the cursor stays where it was.
    pub fn deserialize(elem: &Shape, deserializer: &mut MCProtoDeserializer) -> (r: Result<
        Self,
        Error,
    >)
        ensures
            match array_parse(Prefix::Byte, *elem, old(deserializer)@) {
                Ok((vs, n)) => r is Ok && models_of(r->Ok_0@) == vs && n <= old(deserializer)@.len()
                    && final(deserializer)@ == old(deserializer)@.skip(n as int),
                Err(e) => r == Err::<Self, Error>(e) && final(deserializer)@ == old(deserializer)@,
            },
    {
        proof {
            assert(deserializer@.skip(0) =~= deserializer@);
        }
        match decode_array_at(Prefix::Byte, elem, deserializer.peek(), 0) {
            Ok((elements, n)) => {
                deserializer.advance(n);
                Ok(BytePrefix { elements })
            },
            Err(e) => Err(e),
        }
    }
}

/// A sequence that travels behind a signed 16-bit count.
#[derive(Debug, PartialEq)]
pub struct ShortPrefix<T> {
    elements: Vec<T>,
}

impl<T> View for ShortPrefix<T> {
    type V = Seq<T>;

    closed spec fn view(&self) -> Seq<T> {
        self.elements@
    }
}

impl<T> ShortPrefix<T> {
    /// The sequence of the given elements.
    pub fn new(elements: Vec<T>) -> (r: Self)
        ensures
            r@ == elements@,
    {
        ShortPrefix { elements }
    }

    /// The elements.
    pub fn elements(&self) -> (r: &Vec<T>)
        ensures
            r@ == self@,
    {
        &self.elements
    }

    /// Gives the elements out.
    pub fn into_inner(self) -> (r: Vec<T>)
        ensures
            r@ == self@,
    {
        self.elements
    }

    /// The length prefix that this sequence travels behind.
    pub fn prefix() -> (r: Prefix)
        ensures
            r == Prefix::Short,
    {
        Prefix::Short
    }
}

impl ShortPrefix<Value> {
    /// Writes the count and then each element, read as one of the given
    /// shape. On an error nothing is written.
    pub fn serialize(&self, elem: &Shape, serializer: &mut MCProtoSerializer) -> (r: Result<
        (),
        Error,
    >)
        ensures
            match array_bytes(Prefix::Short, *elem, models_of(self@)) {
                Ok(bytes) => r is Ok && final(serializer)@ == old(serializer)@ + bytes,
                Err(e) => r == Err::<(), Error>(e) && final(serializer)@ == old(serializer)@,
            },
    {
        encode_array_into(Prefix::Short, elem, &self.elements, &mut serializer.writer)
    }

    /// Reads the count and then that many elements of the given shape. On
    /// an error the cursor stays where it was.
    pub fn deserialize(elem: &Shape, deserializer: &mut MCProtoDeserializer) -> (r: Result<
        Self,
        Error,
    >)
        ensures
            match array_parse(Prefix::Short, *elem, old(deserializer)@) {
                Ok((vs, n)) => r is Ok && models_of(r->Ok_0@) == vs && n <= old(deserializer)@.len()
                    && final(deserializer)@ == old(deserializer)@.skip(n as int),
                Err(e) => r == Err::<Self, Error>(e) && final(deserializer)@ == old(deserializer)@,
            },
    {
        proof {
            assert(deserializer@.skip(0) =~= deserializer@);
        }
        match decode_array_at(Prefix::Short, elem, deserializer.peek(), 0) {
            Ok((elements, n)) => {
                deserializer.advance(n);
                Ok(ShortPrefix { elements })
            },
            Err(e) => Err(e),
        }
    }
}

/// A sequence that travels behind a signed 32-bit count.
#[derive(Debug, PartialEq)]
pub struct IntPrefix<T> {
    elements: Vec<T>,
}

impl<T> View for IntPrefix<T> {
    type V = Seq<T>;

    closed spec fn view(&self) -> Seq<T> {
        self.elements@
    }
}

impl<T> IntPrefix<T> {
    /// The sequence of the given elements.
    pub fn new(elements: Vec<T>) -> (r: Self)
        ensures
            r@ == elements@,
    {
        IntPrefix { elements }
    }

    /// The elements.
    pub fn elements(&self) -> (r: &Vec<T>)
        ensures
            r@ == self@,
    {
        &self.elements
    }

    /// Gives the elements out.
    pub fn into_inner(self) -> (r: Vec<T>)
        ensures
            r@ == self@,
    {
        self.elements
    }

    /// The length prefix that this sequence travels behind.
    pub fn prefix() -> (r: Prefix)
        ensures
            r == Prefix::Int,
    {
        Prefix::Int
    }
}

impl IntPrefix<Value> {
    /// Writes the count and then each element, read as one of the given
    /// shape. On an error nothing is written.
    pub fn serialize(&self, elem: &Shape, serializer: &mut MCProtoSerializer) -> (r: Result<
        (),
        Error,
    >)
        ensures
            match array_bytes(Prefix::Int, *elem, models_of(self@)) {
                Ok(bytes) => r is Ok && final(serializer)@ == old(serializer)@ + bytes,
                Err(e) => r == Err::<(), Error>(e) && final(serializer)@ == old(serializer)@,
            },
    {
        encode_array_into(Prefix::Int, elem, &self.elements, &mut serializer.writer)
    }

    /// Reads the count and then that many elements of the given shape. On
    /// an error the cursor stays where it was.
    pub fn deserialize(elem: &Shape, deserializer: &mut MCProtoDeserializer) -> (r: Result<
        Self,
        Error,
    >)
        ensures
            match array_parse(Prefix::Int, *elem, old(deserializer)@) {
                Ok((vs, n)) => r is Ok && models_of(r->Ok_0@) == vs && n <= old(deserializer)@.len()
                    && final(deserializer)@ == old(deserializer)@.skip(n as int),
                Err(e) => r == Err::<Self, Error>(e) && final(deserializer)@ == old(deserializer)@,
            },
    {
        proof {
            assert(deserializer@.skip(0) =~= deserializer@);
        }
        match decode_array_at(Prefix::Int, elem, deserializer.peek(), 0) {
            Ok((elements, n)) => {
                deserializer.advance(n);
                Ok(IntPrefix { elements })
            },
            Err(e) => Err(e),
        }
    }
}

/// A sequence that travels behind a count that is a 32-bit variable-length integer.
#[derive(Debug, PartialEq)]
pub struct VarIntPrefix<T> {
    elements: Vec<T>,
}

impl<T> View for VarIntPrefix<T> {
    type V = Seq<T>;

    closed spec fn view(&self) -> Seq<T> {
        self.elements@
    }
}

impl<T> VarIntPrefix<T> {
    /// The sequence of the given elements.
    pub fn new(elements: Vec<T>) -> (r: Self)
        ensures
            r@ == elements@,
    {
        VarIntPrefix { elements }
    }

    /// The elements.
    pub fn elements(&self) -> (r: &Vec<T>)
        ensures
            r@ == self@,
    {
        &self.elements
    }

    /// Gives the elements out.
    pub fn into_inner(self) -> (r: Vec<T>)
        ensures
            r@ == self@,
    {
        self.elements
    }

    /// The length prefix that this sequence travels behind.
    pub fn prefix() -> (r: Prefix)
        ensures
            r == Prefix::VarInt,
    {
        Prefix::VarInt
    }
}

impl VarIntPrefix<Value> {
    /// Writes the count and then each element, read as one of the given
    /// shape. On an error nothing is written.
    pub fn serialize(&self, elem: &Shape, serializer: &mut MCProtoSerializer) -> (r: Result<
        (),
        Error,
    >)
        ensures
            match array_bytes(Prefix::VarInt, *elem, models_of(self@)) {
                Ok(bytes) => r is Ok && final(serializer)@ == old(serializer)@ + bytes,
                Err(e) => r == Err::<(), Error>(e) && final(serializer)@ == old(serializer)@,
            },
    {
        encode_array_into(Prefix::VarInt, elem, &self.elements, &mut serializer.writer)
    }

    /// Reads the count and then that many elements of the given shape. On
    /// an error the cursor stays where it was.
    pub fn deserialize(elem: &Shape, deserializer: &mut MCProtoDeserializer) -> (r: Result<
        Self,
        Error,
    >)
        ensures
            match array_parse(Prefix::VarInt, *elem, old(deserializer)@) {
                Ok((vs, n)) => r is Ok && models_of(r->Ok_0@) == vs && n <= old(deserializer)@.len()
                    && final(deserializer)@ == old(deserializer)@.skip(n as int),
                Err(e) => r == Err::<Self, Error>(e) && final(deserializer)@ == old(deserializer)@,
            },
    {
        proof {
            assert(deserializer@.skip(0) =~= deserializer@);
        }
        match decode_array_at(Prefix::VarInt, elem, deserializer.peek(), 0) {
            Ok((elements, n)) => {
                deserializer.advance(n);
                Ok(VarIntPrefix { elements })
            },
            Err(e) => Err(e),
        }
    }
}

} // verus!
