//! What holds of the wire format as a whole: reading gives back what was
//! written, for every shape the engine has a wire form for.

use vstd::prelude::*;
use crate::codec::{frame_bytes, frame_parse, lemma_frame_roundtrip, MAX_FRAME_BYTES};
use crate::engine::{count_bytes, count_parse, prefix_limit};
use crate::optional::{absent_bytes, lemma_marker_meaning};
use crate::engine::{decode, decode_fields, decode_items, encode, encode_fields, encode_items};
use crate::error::Error;
use crate::primitive::lemma_bool_roundtrip;
use crate::primitive::{lemma_i16_roundtrip, lemma_i32_roundtrip, lemma_i64_roundtrip};
use crate::primitive::{lemma_i8_roundtrip, lemma_u128_roundtrip, lemma_u16_roundtrip};
use crate::primitive::{lemma_u32_roundtrip, lemma_u64_roundtrip, lemma_u8_roundtrip};
use crate::shape::{Prefix, Shape};
use crate::optional::lemma_optional_within;
use crate::text::{lemma_string_roundtrip, lemma_string_within};
use crate::types::chunk::lemma_chunk_within;
use crate::types::entity_metadata::{lemma_entries_within, lemma_metadata_roundtrip};
use crate::types::entity_metadata::metadata_plain;
use crate::types::slot::{lemma_slot_roundtrip, lemma_slot_within};
use crate::types::uuid::lemma_uuid_roundtrip;
use crate::types::chunk::lemma_chunk_roundtrip;
use crate::value::ValueView;
use crate::varint::{bits_of_i32, lemma_var_parse_bounds, lemma_varint_roundtrip};
use crate::varint::{lemma_varlong_roundtrip, tag_of, varint_bytes, varint_parse};

verus! {

/// Written as absent, an optional value is read as absent, and the reading
/// takes the two marker bytes and nothing of what follows.
pub proof fn lemma_optional_absent(s: Shape, rest: Seq<u8>)
    requires
        s is Optional,
    ensures
        encode(s, ValueView::Optional(None)) == Ok::<Seq<u8>, Error>(absent_bytes()),
        decode(s, absent_bytes() + rest) == Ok::<(ValueView, nat), Error>(
            (ValueView::Optional(None), 2),
        ),
{
    lemma_marker_meaning(absent_bytes() + rest);
}

/// Written as present, an optional value is read as present with the same
/// value, provided that the payload itself reads back and that the two bytes
/// the reader peeks at are not the absence marker.
pub proof fn lemma_optional_present(s: Shape, x: ValueView, rest: Seq<u8>)
    requires
        s is Optional,
        encode(*s->Optional_0, x) is Ok,
        decode(*s->Optional_0, encode(*s->Optional_0, x)->Ok_0 + rest) == Ok::<
            (ValueView, nat),
            Error,
        >((x, encode(*s->Optional_0, x)->Ok_0.len())),
        (encode(*s->Optional_0, x)->Ok_0 + rest).len() >= 2,
        !((encode(*s->Optional_0, x)->Ok_0 + rest)[0] == 0xff && (encode(*s->Optional_0, x)->Ok_0
            + rest)[1] == 0xff),
    ensures
        encode(s, ValueView::Optional(Some(Box::new(x)))) == encode(*s->Optional_0, x),
        decode(s, encode(s, ValueView::Optional(Some(Box::new(x))))->Ok_0 + rest) == Ok::<
            (ValueView, nat),
            Error,
        >(
            (
                ValueView::Optional(Some(Box::new(x))),
                encode(s, ValueView::Optional(Some(Box::new(x))))->Ok_0.len(),
            ),
        ),
{
    lemma_marker_meaning(encode(*s->Optional_0, x)->Ok_0 + rest);
}

/// Written under the index `k`, the payload of a union's alternative is read
/// back under the same index, provided that the payload itself reads back.
#[verifier::rlimit(40)]
pub proof fn lemma_union_roundtrip(s: Shape, k: u32, x: ValueView, rest: Seq<u8>)
    requires
        s is Union,
        k < s->Union_0@.len(),
        encode(s->Union_0@[k as int], x) is Ok,
        decode(s->Union_0@[k as int], encode(s->Union_0@[k as int], x)->Ok_0 + rest) == Ok::<
            (ValueView, nat),
            Error,
        >((x, encode(s->Union_0@[k as int], x)->Ok_0.len())),
    ensures
        encode(s, ValueView::Union(k, Box::new(x))) == Ok::<Seq<u8>, Error>(
            varint_bytes(tag_of(k)) + encode(s->Union_0@[k as int], x)->Ok_0,
        ),
        decode(s, encode(s, ValueView::Union(k, Box::new(x)))->Ok_0 + rest) == Ok::<
            (ValueView, nat),
            Error,
        >(
            (
                ValueView::Union(k, Box::new(x)),
                encode(s, ValueView::Union(k, Box::new(x)))->Ok_0.len(),
            ),
        ),
{
    let body = encode(s->Union_0@[k as int], x)->Ok_0;
    let head = varint_bytes(tag_of(k));
    lemma_varint_roundtrip(tag_of(k), body + rest);
    assert((head + body) + rest =~= head + (body + rest));
    assert((head + (body + rest)).skip(head.len() as int) =~= body + rest);
}

/// An index that selects none of a union's alternatives is an error, not a
/// value. The index is the tag read as an unsigned number, so a negative tag
/// selects nothing in any union of fewer than `2^31` alternatives.
pub proof fn lemma_union_out_of_range(s: Shape, tag: i32, rest: Seq<u8>)
    requires
        s is Union,
        bits_of_i32(tag) >= s->Union_0@.len(),
    ensures
        decode(s, varint_bytes(tag) + rest) == Err::<(ValueView, nat), Error>(
            Error::UnsupportedShape,
        ),
{
    lemma_varint_roundtrip(tag, rest);
}

/// A count within its prefix's range survives a round trip.
pub proof fn lemma_count_roundtrip(p: Prefix, n: nat, rest: Seq<u8>)
    requires
        n <= prefix_limit(p),
    ensures
        count_parse(p, count_bytes(p, n) + rest) == Ok::<(int, nat), Error>(
            (n as int, count_bytes(p, n).len()),
        ),
{
    match p {
        Prefix::UByte => lemma_u8_roundtrip(n as u8, rest),
        Prefix::Byte => lemma_i8_roundtrip(n as i8, rest),
        Prefix::Short => lemma_i16_roundtrip(n as i16, rest),
        Prefix::Int => lemma_i32_roundtrip(n as i32, rest),
        Prefix::VarInt => lemma_varint_roundtrip(n as i32, rest),
    }
}

/// Whether `v` is made only of what is known to read back as written:
/// numbers, booleans, text, 128-bit identifiers in either form, bulk chunk
/// payloads, item stacks without a document, attribute lists of plain
/// attributes, and records, unions, sequences and optional values of those,
/// where every present optional value is told from absence by its first two
/// bytes (its wire form is at least two bytes long and does not begin with
/// the absence marker). Documents pass through codecs of which no round trip
/// is known here.
pub open spec fn faithful(s: Shape, v: ValueView) -> bool
    decreases s, 0nat,
{
    match (s, v) {
        (Shape::Optional(inner), ValueView::Optional(Some(x))) => {
            &&& faithful(*inner, *x)
            &&& encode(*inner, *x) is Ok
            &&& encode(*inner, *x)->Ok_0.len() >= 2
            &&& !(encode(*inner, *x)->Ok_0[0] == 0xff && encode(*inner, *x)->Ok_0[1] == 0xff)
        },
        (Shape::Array(_, elem), ValueView::Array(vs)) => faithful_items(*elem, vs, 0),
        (Shape::Record(fs), ValueView::Record(vs)) => fs@.len() == vs.len() && faithful_fields(
            fs@,
            vs,
            0,
        ),
        (Shape::Union(alts), ValueView::Union(k, x)) => k < alts@.len() && faithful(
            alts@[k as int],
            *x,
        ),
        (Shape::Slot, ValueView::Slot(slot)) => slot.tag is None,
        (Shape::Metadata, ValueView::Metadata(m)) => metadata_plain(m),
        (Shape::Uuid, ValueView::Uuid(id)) => id.len() == 16,
        (Shape::Nbt, _) | (Shape::GzipNbt, _) => false,
        _ => true,
    }
}

/// `faithful` of the fields of a record from `i` on.
pub open spec fn faithful_fields(fs: Seq<Shape>, vs: Seq<ValueView>, i: nat) -> bool
    recommends
        fs.len() == vs.len(),
    decreases fs, fs.len() - i,
{
    if i >= fs.len() {
        true
    } else {
        faithful(fs[i as int], vs[i as int]) && faithful_fields(fs, vs, i + 1)
    }
}

/// `faithful` of the elements of a sequence from `i` on.
pub open spec fn faithful_items(elem: Shape, vs: Seq<ValueView>, i: nat) -> bool
    decreases elem, vs.len() - i + 1,
{
    if i >= vs.len() {
        true
    } else {
        faithful(elem, vs[i as int]) && faithful_items(elem, vs, i + 1)
    }
}

/// The round trip of a value that holds no other value.
#[verifier::rlimit(40)]
pub proof fn lemma_roundtrip_leaf(s: Shape, v: ValueView, rest: Seq<u8>)
    requires
        encode(s, v) is Ok,
        faithful(s, v),
        !(s is Optional || s is Array || s is Record || s is Union),
    ensures
        decode(s, encode(s, v)->Ok_0 + rest) == Ok::<(ValueView, nat), Error>(
            (v, encode(s, v)->Ok_0.len()),
        ),
{
    match (s, v) {
        (Shape::Bool, ValueView::Bool(x)) => lemma_bool_roundtrip(x, rest),
        (Shape::I8, ValueView::I8(x)) => lemma_i8_roundtrip(x, rest),
        (Shape::I16, ValueView::I16(x)) => lemma_i16_roundtrip(x, rest),
        (Shape::I32, ValueView::I32(x)) => lemma_i32_roundtrip(x, rest),
        (Shape::I64, ValueView::I64(x)) => lemma_i64_roundtrip(x, rest),
        (Shape::U8, ValueView::U8(x)) => lemma_u8_roundtrip(x, rest),
        (Shape::U16, ValueView::U16(x)) => lemma_u16_roundtrip(x, rest),
        (Shape::U32, ValueView::U32(x)) => lemma_u32_roundtrip(x, rest),
        (Shape::U64, ValueView::U64(x)) => lemma_u64_roundtrip(x, rest),
        (Shape::U128, ValueView::U128(x)) => lemma_u128_roundtrip(x, rest),
        (Shape::F32, ValueView::F32(x)) => lemma_u32_roundtrip(x, rest),
        (Shape::F64, ValueView::F64(x)) => lemma_u64_roundtrip(x, rest),
        (Shape::VarInt, ValueView::VarInt(x)) => lemma_varint_roundtrip(x, rest),
        (Shape::VarLong, ValueView::VarLong(x)) => lemma_varlong_roundtrip(x, rest),
        (Shape::Str, ValueView::Str(t)) => lemma_string_roundtrip(t, rest),
        (Shape::Uuid, ValueView::Uuid(id)) => lemma_uuid_roundtrip(id, rest),
        (Shape::Uuidi128, ValueView::Uuidi128(x)) => lemma_u128_roundtrip(x, rest),
        (Shape::ChunkBulk, ValueView::ChunkBulk(c)) => lemma_chunk_roundtrip(c, rest),
        (Shape::Slot, ValueView::Slot(slot)) => lemma_slot_roundtrip(slot, rest),
        (Shape::Metadata, ValueView::Metadata(m)) => lemma_metadata_roundtrip(m, rest),
        _ => {},
    }
}

/// The round trip of an optional value.
proof fn lemma_roundtrip_optional(s: Shape, v: ValueView, rest: Seq<u8>)
    requires
        s is Optional,
        encode(s, v) is Ok,
        faithful(s, v),
    ensures
        decode(s, encode(s, v)->Ok_0 + rest) == Ok::<(ValueView, nat), Error>(
            (v, encode(s, v)->Ok_0.len()),
        ),
    decreases s, 0nat,
{
    match v {
        ValueView::Optional(None) => lemma_optional_absent(s, rest),
        ValueView::Optional(Some(x)) => {
            lemma_roundtrip(*s->Optional_0, *x, rest);
            lemma_marker_meaning(encode(s, v)->Ok_0 + rest);
        },
        _ => {},
    }
}

/// The round trip of a sequence.
proof fn lemma_roundtrip_array(s: Shape, v: ValueView, rest: Seq<u8>)
    requires
        s is Array,
        encode(s, v) is Ok,
        faithful(s, v),
    ensures
        decode(s, encode(s, v)->Ok_0 + rest) == Ok::<(ValueView, nat), Error>(
            (v, encode(s, v)->Ok_0.len()),
        ),
    decreases s, 0nat,
{
    match v {
        ValueView::Array(vs) => {
            let p = s->Array_0;
            let elem = *s->Array_1;
            let head = count_bytes(p, vs.len());
            let body = encode_items(elem, vs, 0)->Ok_0;
            lemma_count_roundtrip(p, vs.len(), body + rest);
            assert((head + body) + rest =~= head + (body + rest));
            assert((head + (body + rest)).skip(head.len() as int) =~= body + rest);
            lemma_roundtrip_items(elem, vs, 0, rest);
            assert(vs.skip(0) =~= vs);
        },
        _ => {},
    }
}

/// The round trip of a record.
proof fn lemma_roundtrip_record(s: Shape, v: ValueView, rest: Seq<u8>)
    requires
        s is Record,
        encode(s, v) is Ok,
        faithful(s, v),
    ensures
        decode(s, encode(s, v)->Ok_0 + rest) == Ok::<(ValueView, nat), Error>(
            (v, encode(s, v)->Ok_0.len()),
        ),
    decreases s, 0nat,
{
    match v {
        ValueView::Record(vs) => {
            lemma_roundtrip_fields(s->Record_0@, vs, 0, rest);
            assert(vs.skip(0) =~= vs);
        },
        _ => {},
    }
}

/// The round trip of a union.
proof fn lemma_roundtrip_union(s: Shape, v: ValueView, rest: Seq<u8>)
    requires
        s is Union,
        encode(s, v) is Ok,
        faithful(s, v),
    ensures
        decode(s, encode(s, v)->Ok_0 + rest) == Ok::<(ValueView, nat), Error>(
            (v, encode(s, v)->Ok_0.len()),
        ),
    decreases s, 0nat,
{
    match v {
        ValueView::Union(k, x) => {
            lemma_roundtrip(s->Union_0@[k as int], *x, rest);
            lemma_union_roundtrip(s, k, *x, rest);
        },
        _ => {},
    }
}

/// Reading what was written gives the value back and takes exactly the bytes
/// written, whatever follows them: for every shape, and every value of it
/// that has a wire form and is made of what is known to read back.
pub proof fn lemma_roundtrip(s: Shape, v: ValueView, rest: Seq<u8>)
    requires
        encode(s, v) is Ok,
        faithful(s, v),
    ensures
        decode(s, encode(s, v)->Ok_0 + rest) == Ok::<(ValueView, nat), Error>(
            (v, encode(s, v)->Ok_0.len()),
        ),
    decreases s, 1nat,
{
    if s is Optional {
        lemma_roundtrip_optional(s, v, rest);
    } else if s is Array {
        lemma_roundtrip_array(s, v, rest);
    } else if s is Record {
        lemma_roundtrip_record(s, v, rest);
    } else if s is Union {
        lemma_roundtrip_union(s, v, rest);
    } else {
        lemma_roundtrip_leaf(s, v, rest);
    }
}

/// A present optional value is written as its payload and nothing more, and
/// is read back as present with the same value, taking every byte that was
/// written. This holds wherever the reader can tell the payload from
/// absence: two bytes are there to peek at, and they are not the marker.
pub proof fn lemma_optional_value_roundtrip(s: Shape, x: ValueView, rest: Seq<u8>)
    requires
        s is Optional,
        encode(*s->Optional_0, x) is Ok,
        faithful(*s->Optional_0, x),
        (encode(*s->Optional_0, x)->Ok_0 + rest).len() >= 2,
        !((encode(*s->Optional_0, x)->Ok_0 + rest)[0] == 0xff && (encode(*s->Optional_0, x)->Ok_0
            + rest)[1] == 0xff),
    ensures
        encode(s, ValueView::Optional(Some(Box::new(x)))) == encode(*s->Optional_0, x),
        decode(s, encode(*s->Optional_0, x)->Ok_0 + rest) == Ok::<(ValueView, nat), Error>(
            (ValueView::Optional(Some(Box::new(x))), encode(*s->Optional_0, x)->Ok_0.len()),
        ),
{
    lemma_roundtrip(*s->Optional_0, x, rest);
    lemma_optional_present(s, x, rest);
}

/// The payload of a union's alternative is written behind its index, and is
/// read back as the same alternative with the same payload, taking every
/// byte that was written.
pub proof fn lemma_union_value_roundtrip(s: Shape, k: u32, x: ValueView, rest: Seq<u8>)
    requires
        s is Union,
        k < s->Union_0@.len(),
        encode(s->Union_0@[k as int], x) is Ok,
        faithful(s->Union_0@[k as int], x),
    ensures
        encode(s, ValueView::Union(k, Box::new(x))) == Ok::<Seq<u8>, Error>(
            varint_bytes(tag_of(k)) + encode(s->Union_0@[k as int], x)->Ok_0,
        ),
        decode(s, varint_bytes(tag_of(k)) + encode(s->Union_0@[k as int], x)->Ok_0 + rest)
            == Ok::<(ValueView, nat), Error>(
            (
                ValueView::Union(k, Box::new(x)),
                (varint_bytes(tag_of(k)) + encode(s->Union_0@[k as int], x)->Ok_0).len(),
            ),
        ),
{
    lemma_roundtrip(s->Union_0@[k as int], x, rest);
    lemma_union_roundtrip(s, k, x, rest);
}

/// The round trip of the fields of a record from `i` on.
#[verifier::rlimit(40)]
pub proof fn lemma_roundtrip_fields(fs: Seq<Shape>, vs: Seq<ValueView>, i: nat, rest: Seq<u8>)
    requires
        fs.len() == vs.len(),
        i <= fs.len(),
        encode_fields(fs, vs, i) is Ok,
        faithful_fields(fs, vs, i),
    ensures
        decode_fields(fs, i, encode_fields(fs, vs, i)->Ok_0 + rest) == Ok::<
            (Seq<ValueView>, nat),
            Error,
        >((vs.skip(i as int), encode_fields(fs, vs, i)->Ok_0.len())),
    decreases fs, fs.len() - i,
{
    if i >= fs.len() {
        assert(vs.skip(i as int) =~= Seq::<ValueView>::empty());
    } else {
        let head = encode(fs[i as int], vs[i as int])->Ok_0;
        let tail = encode_fields(fs, vs, i + 1)->Ok_0;
        lemma_roundtrip(fs[i as int], vs[i as int], tail + rest);
        assert((head + tail) + rest =~= head + (tail + rest));
        assert((head + (tail + rest)).skip(head.len() as int) =~= tail + rest);
        lemma_roundtrip_fields(fs, vs, i + 1, rest);
        assert(seq![vs[i as int]] + vs.skip(i as int + 1) =~= vs.skip(i as int));
    }
}

/// The round trip of the elements of a sequence from `i` on.
#[verifier::rlimit(40)]
pub proof fn lemma_roundtrip_items(elem: Shape, vs: Seq<ValueView>, i: nat, rest: Seq<u8>)
    requires
        i <= vs.len(),
        encode_items(elem, vs, i) is Ok,
        faithful_items(elem, vs, i),
    ensures
        decode_items(elem, (vs.len() - i) as nat, encode_items(elem, vs, i)->Ok_0 + rest) == Ok::<
            (Seq<ValueView>, nat),
            Error,
        >((vs.skip(i as int), encode_items(elem, vs, i)->Ok_0.len())),
    decreases elem, vs.len() - i + 2,
{
    if i >= vs.len() {
        assert(vs.skip(i as int) =~= Seq::<ValueView>::empty());
    } else {
        let head = encode(elem, vs[i as int])->Ok_0;
        let tail = encode_items(elem, vs, i + 1)->Ok_0;
        lemma_roundtrip(elem, vs[i as int], tail + rest);
        assert((head + tail) + rest =~= head + (tail + rest));
        assert((head + (tail + rest)).skip(head.len() as int) =~= tail + rest);
        lemma_roundtrip_items(elem, vs, i + 1, rest);
        assert(seq![vs[i as int]] + vs.skip(i as int + 1) =~= vs.skip(i as int));
    }
}

/// A message written as a frame comes back whole: the frame is found at the
/// front of the buffer whatever follows it, taking it leaves exactly what
/// followed, and its payload reads as the message that was written.
pub proof fn lemma_message_roundtrip(s: Shape, v: ValueView, rest: Seq<u8>)
    requires
        encode(s, v) is Ok,
        faithful(s, v),
        encode(s, v)->Ok_0.len() <= MAX_FRAME_BYTES,
    ensures
        frame_parse(frame_bytes(encode(s, v)->Ok_0) + rest) == Ok::<
            Option<(Seq<u8>, nat)>,
            Error,
        >(Some((encode(s, v)->Ok_0, frame_bytes(encode(s, v)->Ok_0).len()))),
        (frame_bytes(encode(s, v)->Ok_0) + rest).skip(
            frame_bytes(encode(s, v)->Ok_0).len() as int,
        ) == rest,
        decode(s, encode(s, v)->Ok_0) == Ok::<(ValueView, nat), Error>(
            (v, encode(s, v)->Ok_0.len()),
        ),
{
    let payload = encode(s, v)->Ok_0;
    lemma_frame_roundtrip(payload, rest);
    lemma_roundtrip(s, v, Seq::empty());
    assert(payload + Seq::<u8>::empty() =~= payload);
}

/// A count that was read took no more bytes than there were.
pub proof fn lemma_count_within(p: Prefix, b: Seq<u8>)
    requires
        count_parse(p, b) is Ok,
    ensures
        count_parse(p, b)->Ok_0.1 <= b.len(),
{
    if p is VarInt {
        lemma_var_parse_bounds(b, 5, 16);
    }
}

/// A value that was read took no more bytes than there were: no shape makes
/// the walk run past the end of its source.
#[verifier::rlimit(60)]
pub proof fn lemma_decode_within(s: Shape, b: Seq<u8>)
    requires
        decode(s, b) is Ok,
    ensures
        decode(s, b)->Ok_0.1 <= b.len(),
    decreases s, 0nat,
{
    match s {
        Shape::VarInt => lemma_var_parse_bounds(b, 5, 16),
        Shape::VarLong => lemma_var_parse_bounds(b, 10, 2),
        Shape::Str => lemma_string_within(b),
        Shape::Optional(inner) => {
            if decode(*inner, b) is Ok {
                lemma_decode_within(*inner, b);
            }
            lemma_optional_within(b, decode(*inner, b));
        },
        Shape::Array(p, elem) => {
            lemma_count_within(p, b);
            let n = count_parse(p, b)->Ok_0.1;
            let count = count_parse(p, b)->Ok_0.0;
            lemma_items_within(*elem, count as nat, b.skip(n as int));
        },
        Shape::Record(fs) => lemma_fields_within(fs@, 0, b),
        Shape::Union(alts) => {
            lemma_var_parse_bounds(b, 5, 16);
            let n = varint_parse(b)->Ok_0.1;
            let k = bits_of_i32(varint_parse(b)->Ok_0.0);
            lemma_decode_within(alts@[k as int], b.skip(n as int));
        },
        Shape::Uuid => lemma_string_within(b),
        Shape::Slot => lemma_slot_within(b),
        Shape::Metadata => lemma_entries_within(b),
        Shape::ChunkBulk => lemma_chunk_within(b),
        _ => {},
    }
}

/// The fields of a record that were read took no more bytes than there
/// were.
#[verifier::rlimit(40)]
pub proof fn lemma_fields_within(fs: Seq<Shape>, i: nat, b: Seq<u8>)
    requires
        decode_fields(fs, i, b) is Ok,
    ensures
        decode_fields(fs, i, b)->Ok_0.1 <= b.len(),
    decreases fs, fs.len() - i,
{
    if i < fs.len() {
        lemma_decode_within(fs[i as int], b);
        let n = decode(fs[i as int], b)->Ok_0.1;
        lemma_fields_within(fs, i + 1, b.skip(n as int));
    }
}

/// The elements of a sequence that were read took no more bytes than there
/// were.
#[verifier::rlimit(40)]
pub proof fn lemma_items_within(elem: Shape, count: nat, b: Seq<u8>)
    requires
        decode_items(elem, count, b) is Ok,
    ensures
        decode_items(elem, count, b)->Ok_0.1 <= b.len(),
    decreases elem, count + 1,
{
    if count > 0 {
        lemma_decode_within(elem, b);
        let n = decode(elem, b)->Ok_0.1;
        lemma_items_within(elem, (count - 1) as nat, b.skip(n as int));
    }
}

} // verus!
