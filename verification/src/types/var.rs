//! Integers that travel as variable-length integers.

use vstd::prelude::*;
use crate::de::{took, MCProtoDeserializer};
use crate::error::Error;
use crate::ser::MCProtoSerializer;
use crate::varint::{varint_bytes, varint_parse, varlong_bytes, varlong_parse};

verus! {

/// A 32-bit integer that travels as a variable-length integer.
#[derive(Debug, Clone, Copy, PartialEq, Eq, Structural)]
pub struct VarInt(pub i32);

/// A 64-bit integer that travels as a variable-length integer.
#[derive(Debug, Clone, Copy, PartialEq, Eq, Structural)]
pub struct VarLong(pub i64);

impl VarInt {
    /// Writes the integer in one to five bytes.
    pub fn serialize(&self, serializer: &mut MCProtoSerializer) -> (r: Result<(), Error>)
        ensures
            r is Ok,
            final(serializer)@ == old(serializer)@ + varint_bytes(self.0),
    {
        serializer.serialize_varint(self.0)
    }

    /// Reads the integer.
    pub fn deserialize(deserializer: &mut MCProtoDeserializer) -> (r: Result<VarInt, Error>)
        ensures
            took(
                old(deserializer)@,
                final(deserializer)@,
                varint_parse(old(deserializer)@),
                match r {
                    Ok(v) => Ok(v.0),
                    Err(e) => Err(e),
                },
            ),
    {
        match deserializer.deserialize_varint() {
            Ok(v) => Ok(VarInt(v)),
            Err(e) => Err(e),
        }
    }
}

impl VarLong {
    /// Writes the integer in one to ten bytes.
    pub fn serialize(&self, serializer: &mut MCProtoSerializer) -> (r: Result<(), Error>)
        ensures
            r is Ok,
            final(serializer)@ == old(serializer)@ + varlong_bytes(self.0),
    {
        serializer.serialize_varlong(self.0)
    }

    /// Reads the integer.
    pub fn deserialize(deserializer: &mut MCProtoDeserializer) -> (r: Result<VarLong, Error>)
        ensures
            took(
                old(deserializer)@,
                final(deserializer)@,
                varlong_parse(old(deserializer)@),
                match r {
                    Ok(v) => Ok(v.0),
                    Err(e) => Err(e),
                },
            ),
    {
        match deserializer.deserialize_varlong() {
            Ok(v) => Ok(VarLong(v)),
            Err(e) => Err(e),
        }
    }
}

impl From<i32> for VarInt {
    fn from(v: i32) -> (r: VarInt) {
        VarInt(v)
    }
}

impl vstd::std_specs::convert::FromSpecImpl<i32> for VarInt {
    open spec fn obeys_from_spec() -> bool {
        true
    }

    open spec fn from_spec(v: i32) -> VarInt {
        VarInt(v)
    }
}

impl From<i64> for VarLong {
    fn from(v: i64) -> (r: VarLong) {
        VarLong(v)
    }
}

impl vstd::std_specs::convert::FromSpecImpl<i64> for VarLong {
    open spec fn obeys_from_spec() -> bool {
        true
    }

    open spec fn from_spec(v: i64) -> VarLong {
        VarLong(v)
    }
}

impl From<VarLong> for i64 {
    fn from(v: VarLong) -> (r: i64) {
        v.0
    }
}

impl vstd::std_specs::convert::FromSpecImpl<VarLong> for i64 {
    open spec fn obeys_from_spec() -> bool {
        true
    }

    open spec fn from_spec(v: VarLong) -> i64 {
        v.0
    }
}

impl From<VarInt> for i32 {
    fn from(v: VarInt) -> (r: i32) {
        v.0
    }
}

impl vstd::std_specs::convert::FromSpecImpl<VarInt> for i32 {
    open spec fn obeys_from_spec() -> bool {
        true
    }

    open spec fn from_spec(v: VarInt) -> i32 {
        v.0
    }
}

} // verus!
