//! What reading and writing a value of a given shape means, as a pair of
//! specification functions over byte sequences, and the functions that read
//! and write under it.

use vstd::prelude::*;
use vstd::utf8::encode_utf8;
use crate::error::Error;
use crate::optional::{absent_bytes, optional_parse};
use crate::primitive::{bool_bytes, bool_parse, parse_bool, write_bool};
use crate::primitive::{i16_bytes, i16_parse, parse_i16, write_i16};
use crate::primitive::{i32_bytes, i32_parse, parse_i32, write_i32};
use crate::primitive::{i64_bytes, i64_parse, parse_i64, write_i64};
use crate::primitive::{i8_bytes, i8_parse, parse_i8, write_i8};
use crate::primitive::{parse_u128, u128_bytes, u128_parse, write_u128};
use crate::primitive::{parse_u16, u16_bytes, u16_parse, write_u16};
use crate::primitive::{parse_u32, u32_bytes, u32_parse, write_u32};
use crate::primitive::{parse_u64, u64_bytes, u64_parse, write_u64};
use crate::primitive::{parse_u8, u8_bytes, u8_parse, write_u8};
use crate::shape::{Prefix, Shape};
use crate::types::chunk::{chunk_bytes, chunk_parse, ChunkBulkView, ChunkDataBulk};
use crate::types::entity_metadata::{metadata_bytes, metadata_parse, EntityMetadata, EntryView};
use crate::types::nbt::{gzip_nbt_bytes, gzip_nbt_parse, nbt_bytes, nbt_parse};
use crate::types::nbt::{parse_document, write_document, GZIPNBT, NBT};
use crate::types::slot::{slot_bytes, slot_parse, Slot};
use crate::types::uuid::{uuid_bytes, uuid_parse_text, Uuid, Uuidi128};
use crate::text::{parse_string, string_bytes, string_parse, write_string, MAX_STRING_BYTES};
use crate::value::{lemma_models_push, models_of, Value, ValueView};
use crate::emit::encode_walk;
use crate::walk::decode_walk;
use crate::varint::{bits_of_i32, parse_varint, parse_varlong, write_varint, write_varlong};
use crate::varint::{tag_of, varint_bytes, varint_parse, varlong_bytes, varlong_parse};
use crate::parse::{lift, Parsed};

verus! {

/// The largest count that a prefix can carry.
pub open spec fn prefix_limit(p: Prefix) -> nat {
    match p {
        Prefix::UByte => 0xff,
        Prefix::Byte => 0x7f,
        Prefix::Short => 0x7fff,
        Prefix::Int => 0x7fff_ffff,
        Prefix::VarInt => 0x7fff_ffff,
    }
}

/// The wire form of an element count under the given prefix.
pub open spec fn count_bytes(p: Prefix, n: nat) -> Seq<u8>
    recommends
        n <= prefix_limit(p),
{
    match p {
        Prefix::UByte => u8_bytes(n as u8),
        Prefix::Byte => i8_bytes(n as i8),
        Prefix::Short => i16_bytes(n as i16),
        Prefix::Int => i32_bytes(n as i32),
        Prefix::VarInt => varint_bytes(n as i32),
    }
}

/// Reads an element count under the given prefix. The signed prefixes can
/// spell a negative count; it is handed on as it is.
pub open spec fn count_parse(p: Prefix, b: Seq<u8>) -> Parsed<int> {
    match p {
        Prefix::UByte => lift(u8_parse(b), |v: u8| v as int),
        Prefix::Byte => lift(i8_parse(b), |v: i8| v as int),
        Prefix::Short => lift(i16_parse(b), |v: i16| v as int),
        Prefix::Int => lift(i32_parse(b), |v: i32| v as int),
        Prefix::VarInt => lift(varint_parse(b), |v: i32| v as int),
    }
}

/// The view of what an optional holds.
pub open spec fn option_model(o: Option<Value>) -> Option<ValueView> {
    match o {
        Some(v) => Some(v@),
        None => None,
    }
}

/// The view of an optional value, from the view of what it holds.
pub open spec fn optional_view(o: Option<ValueView>) -> ValueView {
    match o {
        Some(v) => ValueView::Optional(Some(Box::new(v))),
        None => ValueView::Optional(None),
    }
}

/// Reads a value that holds no other value from the front of `b`: a number,
/// a boolean, a text, or one of the values with a codec of their own. The
/// shapes without a wire form are errors, and so is, here, a shape whose
/// values hold others.
pub open spec fn decode_flat(s: Shape, b: Seq<u8>) -> Parsed<ValueView> {
    match s {
        Shape::Bool => lift(bool_parse(b), |v: bool| ValueView::Bool(v)),
        Shape::I8 => lift(i8_parse(b), |v: i8| ValueView::I8(v)),
        Shape::I16 => lift(i16_parse(b), |v: i16| ValueView::I16(v)),
        Shape::I32 => lift(i32_parse(b), |v: i32| ValueView::I32(v)),
        Shape::I64 => lift(i64_parse(b), |v: i64| ValueView::I64(v)),
        Shape::U8 => lift(u8_parse(b), |v: u8| ValueView::U8(v)),
        Shape::U16 => lift(u16_parse(b), |v: u16| ValueView::U16(v)),
        Shape::U32 => lift(u32_parse(b), |v: u32| ValueView::U32(v)),
        Shape::U64 => lift(u64_parse(b), |v: u64| ValueView::U64(v)),
        Shape::U128 => lift(u128_parse(b), |v: u128| ValueView::U128(v)),
        Shape::F32 => lift(u32_parse(b), |v: u32| ValueView::F32(v)),
        Shape::F64 => lift(u64_parse(b), |v: u64| ValueView::F64(v)),
        Shape::VarInt => lift(varint_parse(b), |v: i32| ValueView::VarInt(v)),
        Shape::VarLong => lift(varlong_parse(b), |v: i64| ValueView::VarLong(v)),
        Shape::Str => lift(string_parse(b), |v: Seq<char>| ValueView::Str(v)),
        Shape::Nbt => lift(nbt_parse(b), |v: nbt::Blob| ValueView::Nbt(v)),
        Shape::GzipNbt => lift(gzip_nbt_parse(b), |v: nbt::Blob| ValueView::GzipNbt(v)),
        Shape::Uuid => lift(uuid_parse_text(b), |v: Seq<u8>| ValueView::Uuid(v)),
        Shape::Uuidi128 => lift(u128_parse(b), |v: u128| ValueView::Uuidi128(v)),
        Shape::Slot => lift(slot_parse(b), |v: Slot| ValueView::Slot(v)),
        Shape::Metadata => lift(
            metadata_parse(b),
            |v: Map<u8, EntryView>| ValueView::Metadata(v),
        ),
        Shape::ChunkBulk => lift(chunk_parse(b), |v: ChunkBulkView| ValueView::ChunkBulk(v)),
        _ => Err(Error::UnsupportedShape),
    }
}

/// Reads a value of shape `s` from the front of `b`.
///
/// A record is its fields one after another. A union is the index of the
/// chosen alternative as a 32-bit variable-length integer, then that
/// alternative's payload. A sequence is its count, then that many elements; a
/// negative count demands what no input holds. An optional value is first
/// peeked at as a signed 16-bit integer: `-1` is absence and takes those two
/// bytes; anything else takes nothing, and the value is read from the very
/// bytes that were peeked at.
pub open spec fn decode(s: Shape, b: Seq<u8>) -> Parsed<ValueView>
    decreases s, 0nat,
{
    match s {
        Shape::Optional(inner) => lift(
            optional_parse(b, decode(*inner, b)),
            |o: Option<ValueView>| optional_view(o),
        ),
        Shape::Array(p, elem) => match count_parse(p, b) {
            Err(e) => Err(e),
            Ok((count, n)) => {
                if count < 0 {
                    Err(Error::TruncatedInput)
                } else {
                    match decode_items(*elem, count as nat, b.skip(n as int)) {
                        Ok((vs, m)) => Ok((ValueView::Array(vs), n + m)),
                        Err(e) => Err(e),
                    }
                }
            },
        },
        Shape::Record(fs) => lift(
            decode_fields(fs@, 0, b),
            |vs: Seq<ValueView>| ValueView::Record(vs),
        ),
        Shape::Union(alts) => match varint_parse(b) {
            Err(e) => Err(e),
            Ok((tag, n)) => {
                let k = bits_of_i32(tag);
                if k >= alts@.len() {
                    Err(Error::UnsupportedShape)
                } else {
                    match decode(alts@[k as int], b.skip(n as int)) {
                        Ok((v, m)) => Ok((ValueView::Union(k as u32, Box::new(v)), n + m)),
                        Err(e) => Err(e),
                    }
                }
            },
        },
        _ => decode_flat(s, b),
    }
}

/// Reads the fields of a record from `i` on, one after another.
pub open spec fn decode_fields(fs: Seq<Shape>, i: nat, b: Seq<u8>) -> Parsed<Seq<ValueView>>
    decreases fs, fs.len() - i,
{
    if i >= fs.len() {
        Ok((Seq::empty(), 0))
    } else {
        match decode(fs[i as int], b) {
            Err(e) => Err(e),
            Ok((v, n)) => match decode_fields(fs, i + 1, b.skip(n as int)) {
                Err(e) => Err(e),
                Ok((vs, m)) => Ok((seq![v] + vs, n + m)),
            },
        }
    }
}

/// Reads `count` elements of one shape, one after another.
pub open spec fn decode_items(elem: Shape, count: nat, b: Seq<u8>) -> Parsed<Seq<ValueView>>
    decreases elem, count + 1,
{
    if count == 0 {
        Ok((Seq::empty(), 0))
    } else {
        match decode(elem, b) {
            Err(e) => Err(e),
            Ok((v, n)) => match decode_items(elem, (count - 1) as nat, b.skip(n as int)) {
                Err(e) => Err(e),
                Ok((vs, m)) => Ok((seq![v] + vs, n + m)),
            },
        }
    }
}

/// Reads a sequence from the front of `b`: its count under the given
/// prefix, then that many elements of one shape.
pub open spec fn array_parse(p: Prefix, elem: Shape, b: Seq<u8>) -> Parsed<Seq<ValueView>> {
    match count_parse(p, b) {
        Err(e) => Err(e),
        Ok((count, n)) => {
            if count < 0 {
                Err(Error::TruncatedInput)
            } else {
                match decode_items(elem, count as nat, b.skip(n as int)) {
                    Ok((vs, m)) => Ok((vs, n + m)),
                    Err(e) => Err(e),
                }
            }
        },
    }
}

/// The wire form of a sequence: its count under the given prefix, then each
/// of its elements. A count that the prefix cannot carry has no wire form.
pub open spec fn array_bytes(p: Prefix, elem: Shape, vs: Seq<ValueView>) -> Result<Seq<u8>, Error> {
    if vs.len() > prefix_limit(p) {
        Err(Error::LengthOverflow)
    } else {
        match encode_items(elem, vs, 0) {
            Ok(body) => Ok(count_bytes(p, vs.len()) + body),
            Err(e) => Err(e),
        }
    }
}

/// The wire form of a value that holds no other value, read as a value of
/// shape `s`, or the reason it has none.
pub open spec fn encode_flat(s: Shape, v: ValueView) -> Result<Seq<u8>, Error> {
    match (s, v) {
        (Shape::Bool, ValueView::Bool(x)) => Ok(bool_bytes(x)),
        (Shape::I8, ValueView::I8(x)) => Ok(i8_bytes(x)),
        (Shape::I16, ValueView::I16(x)) => Ok(i16_bytes(x)),
        (Shape::I32, ValueView::I32(x)) => Ok(i32_bytes(x)),
        (Shape::I64, ValueView::I64(x)) => Ok(i64_bytes(x)),
        (Shape::U8, ValueView::U8(x)) => Ok(u8_bytes(x)),
        (Shape::U16, ValueView::U16(x)) => Ok(u16_bytes(x)),
        (Shape::U32, ValueView::U32(x)) => Ok(u32_bytes(x)),
        (Shape::U64, ValueView::U64(x)) => Ok(u64_bytes(x)),
        (Shape::U128, ValueView::U128(x)) => Ok(u128_bytes(x)),
        (Shape::F32, ValueView::F32(x)) => Ok(u32_bytes(x)),
        (Shape::F64, ValueView::F64(x)) => Ok(u64_bytes(x)),
        (Shape::VarInt, ValueView::VarInt(x)) => Ok(varint_bytes(x)),
        (Shape::VarLong, ValueView::VarLong(x)) => Ok(varlong_bytes(x)),
        (Shape::Str, ValueView::Str(t)) => {
            if encode_utf8(t).len() > MAX_STRING_BYTES {
                Err(Error::LengthOverflow)
            } else {
                Ok(string_bytes(t))
            }
        },
        (Shape::Nbt, ValueView::Nbt(d)) => nbt_bytes(d),
        (Shape::GzipNbt, ValueView::GzipNbt(d)) => gzip_nbt_bytes(d),
        (Shape::Uuid, ValueView::Uuid(id)) => Ok(uuid_bytes(id)),
        (Shape::Uuidi128, ValueView::Uuidi128(id)) => Ok(u128_bytes(id)),
        (Shape::Slot, ValueView::Slot(s)) => slot_bytes(s),
        (Shape::Metadata, ValueView::Metadata(m)) => metadata_bytes(m),
        (Shape::ChunkBulk, ValueView::ChunkBulk(c)) => chunk_bytes(c),
        _ => Err(Error::UnsupportedShape),
    }
}

/// The wire form of `v` read as a value of shape `s`, or the reason it has
/// none: a value of another shape, a union index that selects nothing, or a
/// length that its prefix cannot carry.
pub open spec fn encode(s: Shape, v: ValueView) -> Result<Seq<u8>, Error>
    decreases s, 0nat,
{
    match (s, v) {
        (Shape::Optional(_), ValueView::Optional(None)) => Ok(absent_bytes()),
        (Shape::Optional(inner), ValueView::Optional(Some(x))) => encode(*inner, *x),
        (Shape::Array(p, elem), ValueView::Array(vs)) => {
            if vs.len() > prefix_limit(p) {
                Err(Error::LengthOverflow)
            } else {
                match encode_items(*elem, vs, 0) {
                    Ok(body) => Ok(count_bytes(p, vs.len()) + body),
                    Err(e) => Err(e),
                }
            }
        },
        (Shape::Record(fs), ValueView::Record(vs)) => {
            if fs@.len() != vs.len() {
                Err(Error::UnsupportedShape)
            } else {
                encode_fields(fs@, vs, 0)
            }
        },
        (Shape::Union(alts), ValueView::Union(k, x)) => {
            if k >= alts@.len() {
                Err(Error::UnsupportedShape)
            } else {
                match encode(alts@[k as int], *x) {
                    Ok(body) => Ok(varint_bytes(tag_of(k)) + body),
                    Err(e) => Err(e),
                }
            }
        },
        (Shape::Optional(_), _) | (Shape::Array(_, _), _) | (Shape::Record(_), _) | (
            Shape::Union(_),
            _,
        ) => Err(Error::UnsupportedShape),
        _ => encode_flat(s, v),
    }
}

/// The wire forms of the fields of a record from `i` on, one after another.
pub open spec fn encode_fields(fs: Seq<Shape>, vs: Seq<ValueView>, i: nat) -> Result<
    Seq<u8>,
    Error,
>
    recommends
        fs.len() == vs.len(),
    decreases fs, fs.len() - i,
{
    if i >= fs.len() {
        Ok(Seq::empty())
    } else {
        match encode(fs[i as int], vs[i as int]) {
            Err(e) => Err(e),
            Ok(head) => match encode_fields(fs, vs, i + 1) {
                Err(e) => Err(e),
                Ok(tail) => Ok(head + tail),
            },
        }
    }
}

/// The wire forms of the elements of a sequence from `i` on, one after
/// another.
pub open spec fn encode_items(elem: Shape, vs: Seq<ValueView>, i: nat) -> Result<Seq<u8>, Error>
    decreases elem, vs.len() - i + 1,
{
    if i >= vs.len() {
        Ok(Seq::empty())
    } else {
        match encode(elem, vs[i as int]) {
            Err(e) => Err(e),
            Ok(head) => match encode_items(elem, vs, i + 1) {
                Err(e) => Err(e),
                Ok(tail) => Ok(head + tail),
            },
        }
    }
}

/// Reads an element count under the given prefix from `src`, starting at
/// `start`.
pub fn parse_count(p: Prefix, src: &[u8], start: usize) -> (r: Result<(i64, usize), Error>)
    requires
        start <= src@.len(),
    ensures
        match count_parse(p, src@.skip(start as int)) {
            Ok((v, n)) => r == Ok::<(i64, usize), Error>((v as i64, n as usize)) && start + n
                <= src@.len() && -0x8000_0000 <= v <= 0x7fff_ffff,
            Err(e) => r == Err::<(i64, usize), Error>(e),
        },
{
    match p {
        Prefix::UByte => match parse_u8(src, start) {
            Ok((v, n)) => Ok((v as i64, n)),
            Err(e) => Err(e),
        },
        Prefix::Byte => match parse_i8(src, start) {
            Ok((v, n)) => Ok((v as i64, n)),
            Err(e) => Err(e),
        },
        Prefix::Short => match parse_i16(src, start) {
            Ok((v, n)) => Ok((v as i64, n)),
            Err(e) => Err(e),
        },
        Prefix::Int => match parse_i32(src, start) {
            Ok((v, n)) => Ok((v as i64, n)),
            Err(e) => Err(e),
        },
        Prefix::VarInt => match parse_varint(src, start) {
            Ok((v, n)) => Ok((v as i64, n)),
            Err(e) => Err(e),
        },
    }
}

/// Whether a shape is one of the named wrappers: a variable-length integer,
/// a sequence under one of the five length prefixes, an attribute list, or an
/// embedded document, plain or compressed. What they share is that the shape
/// alone, not the structure of the value, says which wire convention applies.
pub open spec fn is_newtype(s: Shape) -> bool {
    s is VarInt || s is VarLong || s is Array || s is Metadata || s is Nbt || s is GzipNbt
}

/// Whether a shape is one of the other shapes with a codec of their own.
pub open spec fn is_special(s: Shape) -> bool {
    s is Uuid || s is Uuidi128 || s is Slot || s is ChunkBulk
}

/// Whether a shape is a single fixed-width number, a boolean or a text.
pub open spec fn is_leaf(s: Shape) -> bool {
    !(s is Optional || s is Record || s is Union || s is Char || s is Unit || s is Bytes
        || s is Sequence || s is Mapping || is_special(s) || is_newtype(s))
}

/// Reads a value whose shape has a codec of its own from `src`, starting at
/// `start`.
fn decode_special_at(shape: &Shape, src: &[u8], start: usize) -> (r: Result<
    (Value, usize),
    Error,
>)
    requires
        start <= src@.len(),
        is_special(*shape),
    ensures
        match decode(*shape, src@.skip(start as int)) {
            Ok((v, n)) => r is Ok && r->Ok_0.0@ == v && r->Ok_0.1 == n && start + n
                <= src@.len(),
            Err(e) => r == Err::<(Value, usize), Error>(e),
        },
{
    match shape {
        Shape::Uuid => match Uuid::decode_at(src, start) {
            Ok((v, n)) => Ok((Value::Uuid(v), n)),
            Err(e) => Err(e),
        },
        Shape::Uuidi128 => match parse_u128(src, start) {
            Ok((v, n)) => Ok((Value::Uuidi128(Uuidi128(v)), n)),
            Err(e) => Err(e),
        },
        Shape::Slot => match Slot::decode_at(src, start) {
            Ok((v, n)) => Ok((Value::Slot(v), n)),
            Err(e) => Err(e),
        },
        Shape::ChunkBulk => match ChunkDataBulk::decode_at(src, start) {
            Ok((v, n)) => Ok((Value::ChunkBulk(v), n)),
            Err(e) => Err(e),
        },
        _ => Err(Error::UnsupportedShape),
    }
}

/// Appends a value whose shape has a codec of its own to `out`.
fn encode_special_into(shape: &Shape, v: &Value, out: &mut Vec<u8>) -> (r: Result<(), Error>)
    requires
        is_special(*shape),
    ensures
        match encode(*shape, v@) {
            Ok(bytes) => r is Ok && final(out)@ == old(out)@ + bytes,
            Err(e) => r == Err::<(), Error>(e) && final(out)@ == old(out)@,
        },
{
    match (shape, v) {
        (Shape::Uuid, Value::Uuid(id)) => id.encode_into(out),
        (Shape::Uuidi128, Value::Uuidi128(id)) => {
            write_u128(id.0, out);
            Ok(())
        },
        (Shape::Slot, Value::Slot(s)) => s.encode_into(out),
        (Shape::ChunkBulk, Value::ChunkBulk(c)) => {
            c.encode_into(out);
            Ok(())
        },
        _ => Err(Error::UnsupportedShape),
    }
}

/// Reads a number, a boolean or a text from `src`, starting at `start`.
fn decode_leaf_at(shape: &Shape, src: &[u8], start: usize) -> (r: Result<(Value, usize), Error>)
    requires
        start <= src@.len(),
        is_leaf(*shape),
    ensures
        match decode(*shape, src@.skip(start as int)) {
            Ok((v, n)) => r is Ok && r->Ok_0.0@ == v && r->Ok_0.1 == n && start + n
                <= src@.len(),
            Err(e) => r == Err::<(Value, usize), Error>(e),
        },
{
    match shape {
        Shape::Bool => match parse_bool(src, start) {
            Ok((v, n)) => Ok((Value::Bool(v), n)),
            Err(e) => Err(e),
        },
        Shape::I8 => match parse_i8(src, start) {
            Ok((v, n)) => Ok((Value::I8(v), n)),
            Err(e) => Err(e),
        },
        Shape::I16 => match parse_i16(src, start) {
            Ok((v, n)) => Ok((Value::I16(v), n)),
            Err(e) => Err(e),
        },
        Shape::I32 => match parse_i32(src, start) {
            Ok((v, n)) => Ok((Value::I32(v), n)),
            Err(e) => Err(e),
        },
        Shape::I64 => match parse_i64(src, start) {
            Ok((v, n)) => Ok((Value::I64(v), n)),
            Err(e) => Err(e),
        },
        Shape::U8 => match parse_u8(src, start) {
            Ok((v, n)) => Ok((Value::U8(v), n)),
            Err(e) => Err(e),
        },
        Shape::U16 => match parse_u16(src, start) {
            Ok((v, n)) => Ok((Value::U16(v), n)),
            Err(e) => Err(e),
        },
        Shape::U32 => match parse_u32(src, start) {
            Ok((v, n)) => Ok((Value::U32(v), n)),
            Err(e) => Err(e),
        },
        Shape::U64 => match parse_u64(src, start) {
            Ok((v, n)) => Ok((Value::U64(v), n)),
            Err(e) => Err(e),
        },
        Shape::U128 => match parse_u128(src, start) {
            Ok((v, n)) => Ok((Value::U128(v), n)),
            Err(e) => Err(e),
        },
        Shape::F32 => match parse_u32(src, start) {
            Ok((v, n)) => Ok((Value::F32(v), n)),
            Err(e) => Err(e),
        },
        Shape::F64 => match parse_u64(src, start) {
            Ok((v, n)) => Ok((Value::F64(v), n)),
            Err(e) => Err(e),
        },
        Shape::Str => match parse_string(src, start) {
            Ok((v, n)) => Ok((Value::Str(v), n)),
            Err(e) => Err(e),
        },
        _ => Err(Error::UnsupportedShape),
    }
}

/// Reads a value of one of the named wrappers that hold no value of the
/// engine's own: a variable-length integer, an attribute list, or a
/// document, plain or compressed.
fn decode_wrapper_at(shape: &Shape, src: &[u8], start: usize) -> (r: Result<(Value, usize), Error>)
    requires
        start <= src@.len(),
        is_newtype(*shape),
        !(*shape is Array),
    ensures
        match decode(*shape, src@.skip(start as int)) {
            Ok((v, n)) => r is Ok && r->Ok_0.0@ == v && r->Ok_0.1 == n && start + n
                <= src@.len(),
            Err(e) => r == Err::<(Value, usize), Error>(e),
        },
{
    match shape {
        Shape::VarInt => match parse_varint(src, start) {
            Ok((v, n)) => Ok((Value::VarInt(v), n)),
            Err(e) => Err(e),
        },
        Shape::VarLong => match parse_varlong(src, start) {
            Ok((v, n)) => Ok((Value::VarLong(v), n)),
            Err(e) => Err(e),
        },
        Shape::Metadata => match EntityMetadata::decode_at(src, start) {
            Ok((v, n)) => Ok((Value::Metadata(v), n)),
            Err(e) => Err(e),
        },
        Shape::Nbt => match parse_document(src, start, false) {
            Ok((v, n)) => Ok((Value::Nbt(NBT(v)), n)),
            Err(e) => Err(e),
        },
        Shape::GzipNbt => match parse_document(src, start, true) {
            Ok((v, n)) => Ok((Value::GzipNbt(GZIPNBT(v)), n)),
            Err(e) => Err(e),
        },
        _ => Err(Error::UnsupportedShape),
    }
}

/// Reads a value that holds no other value from `src`, starting at `start`.
pub fn decode_flat_at(shape: &Shape, src: &[u8], start: usize) -> (r: Result<
    (Value, usize),
    Error,
>)
    requires
        start <= src@.len(),
    ensures
        match decode_flat(*shape, src@.skip(start as int)) {
            Ok((v, n)) => r is Ok && r->Ok_0.0@ == v && r->Ok_0.1 == n && start + n
                <= src@.len(),
            Err(e) => r == Err::<(Value, usize), Error>(e),
        },
{
    match shape {
        Shape::VarInt | Shape::VarLong | Shape::Metadata | Shape::Nbt | Shape::GzipNbt => {
            decode_wrapper_at(shape, src, start)
        },
        Shape::Uuid | Shape::Uuidi128 | Shape::Slot | Shape::ChunkBulk => decode_special_at(
            shape,
            src,
            start,
        ),
        Shape::Optional(_) | Shape::Array(_, _) | Shape::Record(_) | Shape::Union(_)
        | Shape::Char | Shape::Unit | Shape::Bytes | Shape::Sequence | Shape::Mapping => Err(
            Error::UnsupportedShape,
        ),
        _ => decode_leaf_at(shape, src, start),
    }
}

/// Reads a value of the given shape from `src`, starting at `start`. Returns
/// the value and the number of bytes it took. The walk stops at the first
/// error and hands out no partial value. It keeps what it has opened on a
/// stack of its own, so its depth is that of no call stack.
pub fn decode_at(shape: &Shape, src: &[u8], start: usize) -> (r: Result<(Value, usize), Error>)
    requires
        start <= src@.len(),
    ensures
        match decode(*shape, src@.skip(start as int)) {
            Ok((v, n)) => r is Ok && r->Ok_0.0@ == v && r->Ok_0.1 == n && start + n
                <= src@.len(),
            Err(e) => r == Err::<(Value, usize), Error>(e),
        },
{
    decode_walk(shape, src, start)
}

/// Reads a value of a union from `src`, starting at `start`: the index of
/// the alternative, which must select one, and then that alternative's
/// payload. Returns the index, the payload and the number of bytes taken.
pub fn decode_union_at(alts: &Vec<Shape>, src: &[u8], start: usize) -> (r: Result<
    (u32, Value, usize),
    Error,
>)
    requires
        start <= src@.len(),
    ensures
        match decode(Shape::Union(*alts), src@.skip(start as int)) {
            Ok((v, n)) => r is Ok && v == ValueView::Union(r->Ok_0.0, Box::new(r->Ok_0.1@))
                && r->Ok_0.2 == n && start + n <= src@.len() && r->Ok_0.0 < alts@.len(),
            Err(e) => r == Err::<(u32, Value, usize), Error>(e),
        },
{
    let total: usize = src.len();
    match parse_varint(src, start) {
        Err(e) => Err(e),
        Ok((tag, n)) => {
            let k: u64 = if tag < 0 {
                (tag as i64 + 0x1_0000_0000) as u64
            } else {
                tag as u64
            };
            if k >= alts.len() as u64 {
                Err(Error::UnsupportedShape)
            } else {
                proof {
                    assert(src@.skip(start as int).skip(n as int) =~= src@.skip(start + n));
                }
                match decode_at(&alts[k as usize], src, start + n) {
                    Ok((v, m)) => Ok((k as u32, v, n + m)),
                    Err(e) => Err(e),
                }
            }
        },
    }
}

/// Reads a value of one of the named wrapper shapes from `src`, starting at
/// `start`: the shape names the wire convention. A variable-length integer
/// is read as one; a sequence has its count read under its own prefix and
/// then exactly that many elements; an attribute list runs to its
/// terminator; a document is a length-prefixed span handed to the document
/// codec, after inflation where the shape says so.
pub fn decode_newtype_at(shape: &Shape, src: &[u8], start: usize) -> (r: Result<
    (Value, usize),
    Error,
>)
    requires
        start <= src@.len(),
        is_newtype(*shape),
    ensures
        match decode(*shape, src@.skip(start as int)) {
            Ok((v, n)) => r is Ok && r->Ok_0.0@ == v && r->Ok_0.1 == n && start + n
                <= src@.len(),
            Err(e) => r == Err::<(Value, usize), Error>(e),
        },
{
    match shape {
        Shape::Array(p, elem) => match decode_array_at(*p, elem, src, start) {
            Ok((vs, n)) => Ok((Value::Array(vs), n)),
            Err(e) => Err(e),
        },
        _ => decode_wrapper_at(shape, src, start),
    }
}

/// Reads a sequence from `src`, starting at `start`: its count under the
/// given prefix, then exactly that many elements of one shape.
pub fn decode_array_at(p: Prefix, elem: &Shape, src: &[u8], start: usize) -> (r: Result<
    (Vec<Value>, usize),
    Error,
>)
    requires
        start <= src@.len(),
    ensures
        match array_parse(p, *elem, src@.skip(start as int)) {
            Ok((vs, n)) => r is Ok && models_of(r->Ok_0.0@) == vs && r->Ok_0.1 == n && start + n
                <= src@.len(),
            Err(e) => r == Err::<(Vec<Value>, usize), Error>(e),
        },
{
    let total: usize = src.len();
    match parse_count(p, src, start) {
        Err(e) => Err(e),
        Ok((count, n)) => {
            proof {
                assert(src@.skip(start as int).skip(n as int) =~= src@.skip(start + n));
            }
            if count < 0 {
                Err(Error::TruncatedInput)
            } else {
                match decode_items_at(elem, count as usize, src, start + n) {
                    Ok((vs, m)) => Ok((vs, n + m)),
                    Err(e) => Err(e),
                }
            }
        },
    }
}

/// Reads the fields of a record from `src`, starting at `start`. Returns the
/// fields and the number of bytes they took.
pub fn decode_fields_at(fs: &Vec<Shape>, src: &[u8], start: usize) -> (r: Result<
    (Vec<Value>, usize),
    Error,
>)
    requires
        start <= src@.len(),
    ensures
        match decode_fields(fs@, 0, src@.skip(start as int)) {
            Ok((vs, n)) => r is Ok && models_of(r->Ok_0.0@) == vs && r->Ok_0.1 == n && start + n
                <= src@.len() && vs.len() == fs@.len(),
            Err(e) => r == Err::<(Vec<Value>, usize), Error>(e),
        },
{
    let total: usize = src.len();
    let ghost whole = src@.skip(start as int);
    let mut out: Vec<Value> = Vec::new();
    let mut i: usize = 0;
    let mut used: usize = 0;
    proof {
        assert(models_of(out@) =~= Seq::<ValueView>::empty());
        assert(src@.skip(start + used) =~= whole);
        let first = decode_fields(fs@, 0, whole);
        if first is Ok {
            assert(models_of(out@) + first->Ok_0.0 =~= first->Ok_0.0);
        }
    }
    while i < fs.len()
        invariant
            total == src@.len(),
            whole == src@.skip(start as int),
            i <= fs.len(),
            start + used <= src@.len(),
            out@.len() == i,
            match decode_fields(fs@, i as nat, src@.skip(start + used)) {
                Ok((vs, m)) => decode_fields(fs@, 0, whole) == Ok::<(Seq<ValueView>, nat), Error>(
                    (models_of(out@) + vs, (used + m) as nat),
                ),
                Err(e) => decode_fields(fs@, 0, whole) == Err::<(Seq<ValueView>, nat), Error>(e),
            },
        decreases fs.len() - i,
    {
        match decode_at(&fs[i], src, start + used) {
            Err(e) => {
                return Err(e);
            },
            Ok((v, n)) => {
                proof {
                    assert(src@.skip(start + used).skip(n as int) =~= src@.skip(
                        start + used + n,
                    ));
                    let tail = decode_fields(fs@, (i + 1) as nat, src@.skip(start + used + n));
                    lemma_models_push(out@, v);
                    if tail is Ok {
                        let vs = tail->Ok_0.0;
                        assert(models_of(out@) + (seq![v@] + vs) =~= models_of(out@.push(v))
                            + vs);
                    }
                }
                out.push(v);
                used = used + n;
                i = i + 1;
            },
        }
    }
    proof {
        assert(models_of(out@) + Seq::<ValueView>::empty() =~= models_of(out@));
    }
    Ok((out, used))
}

/// Reads `count` elements of one shape from `src`, starting at `start`.
/// Returns the elements and the number of bytes they took.
pub fn decode_items_at(elem: &Shape, count: usize, src: &[u8], start: usize) -> (r: Result<
    (Vec<Value>, usize),
    Error,
>)
    requires
        start <= src@.len(),
    ensures
        match decode_items(*elem, count as nat, src@.skip(start as int)) {
            Ok((vs, n)) => r is Ok && models_of(r->Ok_0.0@) == vs && r->Ok_0.1 == n && start + n
                <= src@.len() && vs.len() == count,
            Err(e) => r == Err::<(Vec<Value>, usize), Error>(e),
        },
{
    let total: usize = src.len();
    let ghost whole = src@.skip(start as int);
    let mut out: Vec<Value> = Vec::new();
    let mut i: usize = 0;
    let mut used: usize = 0;
    proof {
        assert(models_of(out@) =~= Seq::<ValueView>::empty());
        assert(src@.skip(start + used) =~= whole);
        let first = decode_items(*elem, count as nat, whole);
        if first is Ok {
            assert(models_of(out@) + first->Ok_0.0 =~= first->Ok_0.0);
        }
    }
    while i < count
        invariant
            total == src@.len(),
            whole == src@.skip(start as int),
            i <= count,
            start + used <= src@.len(),
            out@.len() == i,
            match decode_items(*elem, (count - i) as nat, src@.skip(start + used)) {
                Ok((vs, m)) => decode_items(*elem, count as nat, whole) == Ok::<
                    (Seq<ValueView>, nat),
                    Error,
                >((models_of(out@) + vs, (used + m) as nat)),
                Err(e) => decode_items(*elem, count as nat, whole) == Err::<
                    (Seq<ValueView>, nat),
                    Error,
                >(e),
            },
        decreases count - i,
    {
        match decode_at(elem, src, start + used) {
            Err(e) => {
                return Err(e);
            },
            Ok((v, n)) => {
                proof {
                    assert(src@.skip(start + used).skip(n as int) =~= src@.skip(
                        start + used + n,
                    ));
                    let tail = decode_items(
                        *elem,
                        (count - i - 1) as nat,
                        src@.skip(start + used + n),
                    );
                    lemma_models_push(out@, v);
                    if tail is Ok {
                        let vs = tail->Ok_0.0;
                        assert(models_of(out@) + (seq![v@] + vs) =~= models_of(out@.push(v))
                            + vs);
                    }
                }
                out.push(v);
                used = used + n;
                i = i + 1;
            },
        }
    }
    proof {
        assert(models_of(out@) + Seq::<ValueView>::empty() =~= models_of(out@));
    }
    Ok((out, used))
}

/// Appends an element count under the given prefix to `out`.
pub fn write_count(p: Prefix, n: usize, out: &mut Vec<u8>)
    requires
        n <= prefix_limit(p),
    ensures
        final(out)@ == old(out)@ + count_bytes(p, n as nat),
{
    match p {
        Prefix::UByte => write_u8(n as u8, out),
        Prefix::Byte => write_i8(n as i8, out),
        Prefix::Short => write_i16(n as i16, out),
        Prefix::Int => write_i32(n as i32, out),
        Prefix::VarInt => write_varint(n as i32, out),
    }
}

/// The largest count that a prefix can carry.
pub fn limit_of(p: Prefix) -> (r: usize)
    ensures
        r == prefix_limit(p),
{
    match p {
        Prefix::UByte => 0xff,
        Prefix::Byte => 0x7f,
        Prefix::Short => 0x7fff,
        Prefix::Int => 0x7fff_ffff,
        Prefix::VarInt => 0x7fff_ffff,
    }
}

/// Appends a number, a boolean or a text to `out`.
fn encode_leaf_into(shape: &Shape, v: &Value, out: &mut Vec<u8>) -> (r: Result<(), Error>)
    requires
        is_leaf(*shape),
    ensures
        match encode(*shape, v@) {
            Ok(bytes) => r is Ok && final(out)@ == old(out)@ + bytes,
            Err(e) => r == Err::<(), Error>(e) && final(out)@ == old(out)@,
        },
{
    match (shape, v) {
        (Shape::Bool, Value::Bool(x)) => {
            write_bool(*x, out);
            Ok(())
        },
        (Shape::I8, Value::I8(x)) => {
            write_i8(*x, out);
            Ok(())
        },
        (Shape::I16, Value::I16(x)) => {
            write_i16(*x, out);
            Ok(())
        },
        (Shape::I32, Value::I32(x)) => {
            write_i32(*x, out);
            Ok(())
        },
        (Shape::I64, Value::I64(x)) => {
            write_i64(*x, out);
            Ok(())
        },
        (Shape::U8, Value::U8(x)) => {
            write_u8(*x, out);
            Ok(())
        },
        (Shape::U16, Value::U16(x)) => {
            write_u16(*x, out);
            Ok(())
        },
        (Shape::U32, Value::U32(x)) => {
            write_u32(*x, out);
            Ok(())
        },
        (Shape::U64, Value::U64(x)) => {
            write_u64(*x, out);
            Ok(())
        },
        (Shape::U128, Value::U128(x)) => {
            write_u128(*x, out);
            Ok(())
        },
        (Shape::F32, Value::F32(x)) => {
            write_u32(*x, out);
            Ok(())
        },
        (Shape::F64, Value::F64(x)) => {
            write_u64(*x, out);
            Ok(())
        },
        (Shape::Str, Value::Str(t)) => write_string(t.as_str(), out),
        _ => Err(Error::UnsupportedShape),
    }
}

/// Appends a value of one of the named wrappers that hold no value of the
/// engine's own to `out`. On an error nothing is written.
fn encode_wrapper_into(shape: &Shape, v: &Value, out: &mut Vec<u8>) -> (r: Result<(), Error>)
    requires
        is_newtype(*shape),
        !(*shape is Array),
    ensures
        match encode(*shape, v@) {
            Ok(bytes) => r is Ok && final(out)@ == old(out)@ + bytes,
            Err(e) => r == Err::<(), Error>(e) && final(out)@ == old(out)@,
        },
{
    match (shape, v) {
        (Shape::VarInt, Value::VarInt(x)) => {
            write_varint(*x, out);
            Ok(())
        },
        (Shape::VarLong, Value::VarLong(x)) => {
            write_varlong(*x, out);
            Ok(())
        },
        (Shape::Metadata, Value::Metadata(m)) => m.encode_into(out),
        (Shape::Nbt, Value::Nbt(d)) => write_document(&d.0, false, out),
        (Shape::GzipNbt, Value::GzipNbt(d)) => write_document(&d.0, true, out),
        _ => Err(Error::UnsupportedShape),
    }
}

/// Appends the wire form of a value that holds no other value to `out`. On
/// an error nothing is written.
pub fn encode_flat_into(shape: &Shape, v: &Value, out: &mut Vec<u8>) -> (r: Result<(), Error>)
    ensures
        match encode_flat(*shape, v@) {
            Ok(bytes) => r is Ok && final(out)@ == old(out)@ + bytes,
            Err(e) => r == Err::<(), Error>(e) && final(out)@ == old(out)@,
        },
{
    match (shape, v) {
        (Shape::VarInt, _) | (Shape::VarLong, _) | (Shape::Metadata, _) | (Shape::Nbt, _) | (
            Shape::GzipNbt,
            _,
        ) => encode_wrapper_into(shape, v, out),
        (Shape::Uuid, _) | (Shape::Uuidi128, _) | (Shape::Slot, _) | (Shape::ChunkBulk, _) => {
            encode_special_into(shape, v, out)
        },
        (Shape::Optional(_), _) | (Shape::Array(_, _), _) | (Shape::Record(_), _) | (
            Shape::Union(_),
            _,
        ) => Err(Error::UnsupportedShape),
        (Shape::Char, _) | (Shape::Unit, _) | (Shape::Bytes, _) | (Shape::Sequence, _) | (
            Shape::Mapping,
            _,
        ) => Err(Error::UnsupportedShape),
        _ => encode_leaf_into(shape, v, out),
    }
}

/// Appends the wire form of `v`, read as a value of the given shape, to
/// `out`. On an error nothing is left behind in `out`. The walk keeps what
/// it has opened on a stack of its own, so its depth is that of no call
/// stack.
pub fn encode_into(shape: &Shape, v: &Value, out: &mut Vec<u8>) -> (r: Result<(), Error>)
    ensures
        match encode(*shape, v@) {
            Ok(bytes) => r is Ok && final(out)@ == old(out)@ + bytes,
            Err(e) => r == Err::<(), Error>(e) && final(out)@ == old(out)@,
        },
{
    encode_walk(shape, v, out)
}

/// Appends a value of one of the named wrapper shapes to `out`. A sequence
/// is its count under its own prefix and then each of its elements; a
/// document is written anew by the document codec. On an error nothing is
/// left behind in `out`.
pub fn encode_newtype_into(shape: &Shape, v: &Value, out: &mut Vec<u8>) -> (r: Result<(), Error>)
    requires
        is_newtype(*shape),
    ensures
        match encode(*shape, v@) {
            Ok(bytes) => r is Ok && final(out)@ == old(out)@ + bytes,
            Err(e) => r == Err::<(), Error>(e) && final(out)@ == old(out)@,
        },
{
    match (shape, v) {
        (Shape::Array(p, elem), Value::Array(vs)) => encode_array_into(*p, elem, vs, out),
        (Shape::Array(_, _), _) => Err(Error::UnsupportedShape),
        _ => encode_wrapper_into(shape, v, out),
    }
}

/// Appends a sequence to `out`: its count under the given prefix, then each
/// of its elements. On an error nothing is left behind in `out`.
pub fn encode_array_into(p: Prefix, elem: &Shape, vs: &Vec<Value>, out: &mut Vec<u8>) -> (r:
    Result<(), Error>)
    ensures
        match array_bytes(p, *elem, models_of(vs@)) {
            Ok(bytes) => r is Ok && final(out)@ == old(out)@ + bytes,
            Err(e) => r == Err::<(), Error>(e) && final(out)@ == old(out)@,
        },
{
    let base: usize = out.len();
    proof {
        assert(models_of(vs@).len() == vs@.len());
    }
    if vs.len() > limit_of(p) {
        return Err(Error::LengthOverflow);
    }
    write_count(p, vs.len(), out);
    match encode_items_into(elem, vs, out) {
        Ok(()) => {
            proof {
                let body = encode_items(*elem, models_of(vs@), 0)->Ok_0;
                assert(out@ =~= old(out)@ + (count_bytes(p, vs@.len()) + body));
            }
            Ok(())
        },
        Err(e) => {
            out.truncate(base);
            proof {
                assert(out@ =~= old(out)@);
            }
            Err(e)
        },
    }
}

/// Appends the fields of a record, one after another, to `out`. On an error
/// nothing is left behind in `out`.
pub fn encode_fields_into(fs: &Vec<Shape>, vs: &Vec<Value>, out: &mut Vec<u8>) -> (r: Result<
    (),
    Error,
>)
    requires
        fs@.len() == vs@.len(),
    ensures
        match encode_fields(fs@, models_of(vs@), 0) {
            Ok(bytes) => r is Ok && final(out)@ == old(out)@ + bytes,
            Err(e) => r == Err::<(), Error>(e) && final(out)@ == old(out)@,
        },
{
    let base: usize = out.len();
    let ghost ms = models_of(vs@);
    let ghost mut acc: Seq<u8> = Seq::empty();
    let mut i: usize = 0;
    proof {
        assert(out@ =~= old(out)@ + acc);
        let first = encode_fields(fs@, ms, 0);
        if first is Ok {
            assert(acc + first->Ok_0 =~= first->Ok_0);
        }
    }
    while i < fs.len()
        invariant
            fs@.len() == vs@.len(),
            ms == models_of(vs@),
            base == old(out)@.len(),
            i <= fs.len(),
            out@ == old(out)@ + acc,
            match encode_fields(fs@, ms, i as nat) {
                Ok(tail) => encode_fields(fs@, ms, 0) == Ok::<Seq<u8>, Error>(acc + tail),
                Err(e) => encode_fields(fs@, ms, 0) == Err::<Seq<u8>, Error>(e),
            },
        decreases fs.len() - i,
    {
        let ghost before = out@;
        match encode_into(&fs[i], &vs[i], out) {
            Err(e) => {
                out.truncate(base);
                proof {
                    assert(out@ =~= old(out)@);
                }
                return Err(e);
            },
            Ok(()) => {
                proof {
                    let head = encode(fs@[i as int], ms[i as int])->Ok_0;
                    let tail = encode_fields(fs@, ms, (i + 1) as nat);
                    assert(out@ =~= old(out)@ + (acc + head));
                    if tail is Ok {
                        assert(acc + (head + tail->Ok_0) =~= (acc + head) + tail->Ok_0);
                    }
                    acc = acc + head;
                }
                i = i + 1;
            },
        }
    }
    proof {
        assert(acc + Seq::<u8>::empty() =~= acc);
    }
    Ok(())
}

/// Appends the elements of a sequence, one after another, to `out`. On an
/// error nothing is left behind in `out`.
pub fn encode_items_into(elem: &Shape, vs: &Vec<Value>, out: &mut Vec<u8>) -> (r: Result<
    (),
    Error,
>)
    ensures
        match encode_items(*elem, models_of(vs@), 0) {
            Ok(bytes) => r is Ok && final(out)@ == old(out)@ + bytes,
            Err(e) => r == Err::<(), Error>(e) && final(out)@ == old(out)@,
        },
{
    let base: usize = out.len();
    let ghost ms = models_of(vs@);
    let ghost mut acc: Seq<u8> = Seq::empty();
    let mut i: usize = 0;
    proof {
        assert(out@ =~= old(out)@ + acc);
        let first = encode_items(*elem, ms, 0);
        if first is Ok {
            assert(acc + first->Ok_0 =~= first->Ok_0);
        }
    }
    while i < vs.len()
        invariant
            ms == models_of(vs@),
            base == old(out)@.len(),
            i <= vs.len(),
            out@ == old(out)@ + acc,
            match encode_items(*elem, ms, i as nat) {
                Ok(tail) => encode_items(*elem, ms, 0) == Ok::<Seq<u8>, Error>(acc + tail),
                Err(e) => encode_items(*elem, ms, 0) == Err::<Seq<u8>, Error>(e),
            },
        decreases vs.len() - i,
    {
        match encode_into(elem, &vs[i], out) {
            Err(e) => {
                out.truncate(base);
                proof {
                    assert(out@ =~= old(out)@);
                }
                return Err(e);
            },
            Ok(()) => {
                proof {
                    let head = encode(*elem, ms[i as int])->Ok_0;
                    let tail = encode_items(*elem, ms, (i + 1) as nat);
                    assert(out@ =~= old(out)@ + (acc + head));
                    if tail is Ok {
                        assert(acc + (head + tail->Ok_0) =~= (acc + head) + tail->Ok_0);
                    }
                    acc = acc + head;
                }
                i = i + 1;
            },
        }
    }
    proof {
        assert(acc + Seq::<u8>::empty() =~= acc);
    }
    Ok(())
}

} // verus!
