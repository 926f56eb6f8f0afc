//! The description of a value's shape.

use vstd::prelude::*;

verus! {

/// How a sequence declares its element count on the wire.
#[derive(Debug, Clone, Copy, PartialEq, Eq, Structural)]
pub enum Prefix {
    /// An unsigned 8-bit count.
    UByte,
    /// A signed 8-bit count.
    Byte,
    /// A signed 16-bit count.
    Short,
    /// A signed 32-bit count.
    Int,
    /// A 32-bit variable-length integer count.
    VarInt,
}

/// The shape of a value: what the traversal engine reads to know which bytes
/// to expect, since the wire carries neither names nor type tags.
#[derive(Debug, PartialEq, Eq)]
pub enum Shape {
    Bool,
    I8,
    I16,
    I32,
    I64,
    U8,
    U16,
    U32,
    U64,
    U128,
    /// A 32-bit float, carried as its bit pattern.
    F32,
    /// A 64-bit float, carried as its bit pattern.
    F64,
    /// Text: a length-prefixed run of UTF-8.
    Str,
    /// A 32-bit variable-length integer.
    VarInt,
    /// A 64-bit variable-length integer.
    VarLong,
    /// A value that may be absent.
    Optional(Box<Shape>),
    /// A sequence whose count is declared by the given prefix.
    Array(Prefix, Box<Shape>),
    /// Fields in their declared order, with nothing between them.
    Record(Vec<Shape>),
    /// One of several alternatives, chosen by a zero-based index.
    Union(Vec<Shape>),
    /// A tree-structured document in a length-prefixed span.
    Nbt,
    /// A tree-structured document, gzip-compressed, in a length-prefixed
    /// span.
    GzipNbt,
    /// A 128-bit identifier as hyphenated text.
    Uuid,
    /// A 128-bit identifier as a raw 128-bit integer.
    Uuidi128,
    /// A stack of items.
    Slot,
    /// A terminated list of keyed attributes.
    Metadata,
    /// A bulk chunk payload, whose lengths come from its own first fields.
    ChunkBulk,
    /// A raw character: no wire form.
    Char,
    /// The empty value: no wire form.
    Unit,
    /// A run of bytes without a count: no wire form.
    Bytes,
    /// A sequence without a declared count: no wire form.
    Sequence,
    /// A map without constraints: no wire form.
    Mapping,
}

impl Shape {
    /// The shape of a variant that carries no payload.
    pub fn unit_variant() -> (s: Shape)
        ensures
            s matches Shape::Record(fs) && fs@.len() == 0,
    {
        Shape::Record(Vec::new())
    }

    /// Whether the engine has a wire form for the shape itself, whatever it
    /// holds inside.
    pub fn is_supported(&self) -> (r: bool)
        ensures
            r == !(*self is Char || *self is Unit || *self is Bytes || *self is Sequence
                || *self is Mapping),
    {
        match self {
            Shape::Char | Shape::Unit | Shape::Bytes | Shape::Sequence | Shape::Mapping => false,
            _ => true,
        }
    }
}

} // verus!
