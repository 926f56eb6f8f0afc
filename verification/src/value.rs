//! Structured values and their mathematical form.

use vstd::prelude::*;
use crate::types::chunk::{ChunkBulkView, ChunkDataBulk};
use crate::types::entity_metadata::{EntityMetadata, EntryView};
use crate::types::nbt::{GZIPNBT, NBT};
use crate::types::slot::Slot;
use crate::types::uuid::{Uuid, Uuidi128};

verus! {

/// A structured value, as the traversal engine reads and writes it.
#[derive(Debug, PartialEq)]
pub enum Value {
    Bool(bool),
    I8(i8),
    I16(i16),
    I32(i32),
    I64(i64),
    U8(u8),
    U16(u16),
    U32(u32),
    U64(u64),
    U128(u128),
    /// The bit pattern of a 32-bit float.
    F32(u32),
    /// The bit pattern of a 64-bit float.
    F64(u64),
    Str(String),
    VarInt(i32),
    VarLong(i64),
    Optional(Option<Box<Value>>),
    Array(Vec<Value>),
    Record(Vec<Value>),
    /// The index of the chosen alternative and its payload.
    Union(u32, Box<Value>),
    Nbt(NBT),
    GzipNbt(GZIPNBT),
    Uuid(Uuid),
    Uuidi128(Uuidi128),
    Slot(Slot),
    Metadata(EntityMetadata),
    ChunkBulk(ChunkDataBulk),
}

/// The mathematical form of a `Value`: text as characters, sequences as `Seq`.
pub enum ValueView {
    Bool(bool),
    I8(i8),
    I16(i16),
    I32(i32),
    I64(i64),
    U8(u8),
    U16(u16),
    U32(u32),
    U64(u64),
    U128(u128),
    F32(u32),
    F64(u64),
    Str(Seq<char>),
    VarInt(i32),
    VarLong(i64),
    Optional(Option<Box<ValueView>>),
    Array(Seq<ValueView>),
    Record(Seq<ValueView>),
    Union(u32, Box<ValueView>),
    Nbt(nbt::Blob),
    GzipNbt(nbt::Blob),
    Uuid(Seq<u8>),
    Uuidi128(u128),
    Slot(Slot),
    Metadata(Map<u8, EntryView>),
    ChunkBulk(ChunkBulkView),
}

/// The views of the values of `vs`, in order.
pub open spec fn models_of(vs: Seq<Value>) -> Seq<ValueView>
    decreases vs,
{
    Seq::new(
        vs.len(),
        |i: int|
            if 0 <= i < vs.len() {
                model_of(vs[i])
            } else {
                ValueView::Bool(false)
            },
    )
}

/// The view of a value.
pub open spec fn model_of(v: Value) -> ValueView
    decreases v,
{
    match v {
        Value::Bool(x) => ValueView::Bool(x),
        Value::I8(x) => ValueView::I8(x),
        Value::I16(x) => ValueView::I16(x),
        Value::I32(x) => ValueView::I32(x),
        Value::I64(x) => ValueView::I64(x),
        Value::U8(x) => ValueView::U8(x),
        Value::U16(x) => ValueView::U16(x),
        Value::U32(x) => ValueView::U32(x),
        Value::U64(x) => ValueView::U64(x),
        Value::U128(x) => ValueView::U128(x),
        Value::F32(x) => ValueView::F32(x),
        Value::F64(x) => ValueView::F64(x),
        Value::Str(s) => ValueView::Str(s@),
        Value::VarInt(x) => ValueView::VarInt(x),
        Value::VarLong(x) => ValueView::VarLong(x),
        Value::Optional(None) => ValueView::Optional(None),
        Value::Optional(Some(x)) => ValueView::Optional(Some(Box::new(model_of(*x)))),
        Value::Array(vs) => ValueView::Array(models_of(vs@)),
        Value::Record(vs) => ValueView::Record(models_of(vs@)),
        Value::Union(k, x) => ValueView::Union(k, Box::new(model_of(*x))),
        Value::Nbt(d) => ValueView::Nbt(d.0),
        Value::GzipNbt(d) => ValueView::GzipNbt(d.0),
        Value::Uuid(id) => ValueView::Uuid(id@),
        Value::Uuidi128(id) => ValueView::Uuidi128(id.0),
        Value::Slot(s) => ValueView::Slot(s),
        Value::Metadata(m) => ValueView::Metadata(m@),
        Value::ChunkBulk(c) => ValueView::ChunkBulk(c@),
    }
}

impl View for Value {
    type V = ValueView;

    open spec fn view(&self) -> ValueView {
        model_of(*self)
    }
}

/// Appending a value to a sequence appends its view to the views.
pub proof fn lemma_models_push(vs: Seq<Value>, v: Value)
    ensures
        models_of(vs.push(v)) == models_of(vs).push(model_of(v)),
{
    assert(models_of(vs.push(v)) =~= models_of(vs).push(model_of(v)));
}

/// The engine value that stands for a run of bytes: a sequence of unsigned
/// 8-bit integers.
pub open spec fn bytes_model(b: Seq<u8>) -> ValueView {
    ValueView::Array(Seq::new(b.len(), |i: int| ValueView::U8(b[i])))
}

/// Whether an engine value stands for a run of bytes.
pub open spec fn is_bytes_model(v: ValueView) -> bool {
    v is Array && forall|i: int| 0 <= i < v->Array_0.len() ==> (#[trigger] v->Array_0[i]) is U8
}

/// A run of bytes as an engine value.
pub fn bytes_value(bytes: &Vec<u8>) -> (v: Value)
    ensures
        v@ == bytes_model(bytes@),
        is_bytes_model(v@),
{
    let mut items: Vec<Value> = Vec::new();
    let mut i: usize = 0;
    while i < bytes.len()
        invariant
            i <= bytes.len(),
            items@.len() == i,
            forall|j: int| 0 <= j < i ==> (#[trigger] items@[j]) == Value::U8(bytes@[j]),
        decreases bytes.len() - i,
    {
        items.push(Value::U8(bytes[i]));
        i = i + 1;
    }
    proof {
        assert(models_of(items@) =~= bytes_model(bytes@)->Array_0);
    }
    Value::Array(items)
}

/// The run of bytes that an engine value stands for, if it stands for one.
pub fn value_bytes(v: Value) -> (r: Option<Vec<u8>>)
    ensures
        r is Some <==> is_bytes_model(v@),
        r is Some ==> bytes_model(r->Some_0@) == v@,
{
    let ghost whole = v@;
    let items: Vec<Value> = match v {
        Value::Array(items) => items,
        _ => {
            return None;
        },
    };
    let ghost all = models_of(items@);
    let mut out: Vec<u8> = Vec::new();
    let mut i: usize = 0;
    while i < items.len()
        invariant
            whole == v@,
            whole == ValueView::Array(all),
            all == models_of(items@),
            i <= items.len(),
            out@.len() == i,
            forall|j: int| 0 <= j < i ==> (#[trigger] all[j]) == ValueView::U8(out@[j]),
        decreases items.len() - i,
    {
        match &items[i] {
            Value::U8(b) => {
                proof {
                    assert(all[i as int] == model_of(items@[i as int]));
                }
                out.push(*b);
            },
            _ => {
                proof {
                    assert(all[i as int] == model_of(items@[i as int]));
                    assert(all.len() == items@.len());
                    assert(!(whole->Array_0[i as int] is U8));
                }
                return None;
            },
        }
        i = i + 1;
    }
    proof {
        assert(bytes_model(out@)->Array_0 =~= all);
    }
    Some(out)
}

} // verus!
