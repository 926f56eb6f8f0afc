//! The shapes of the messages of the handshake, status and login phases,
//! with plain types for the values they carry. The types hold no codec
//! logic: each says what its shape is and how it reads as an engine value.

use vstd::prelude::*;
use crate::shape::{Prefix, Shape};
use crate::types::array::ShortPrefix;
use crate::types::uuid::{Uuid, Uuidi128};
use crate::types::var::VarInt;
use crate::value::{bytes_model, bytes_value, is_bytes_model, value_bytes};
use crate::value::{lemma_models_push, model_of, models_of, Value, ValueView};

verus! {

/// Whether an engine value is an alternative of a union with a record for
/// its payload.
pub open spec fn is_record_variant(v: ValueView) -> bool {
    match v {
        ValueView::Union(_, payload) => *payload is Record,
        _ => false,
    }
}

/// The fields of the record that an alternative of a union carries.
pub open spec fn variant_fields(v: ValueView) -> Seq<ValueView> {
    match v {
        ValueView::Union(_, payload) => match *payload {
            ValueView::Record(fields) => fields,
            _ => Seq::empty(),
        },
        _ => Seq::empty(),
    }
}

/// One changed block of a multi-block change.
#[derive(Debug, Clone, PartialEq, Eq)]
pub struct BlockChangeRecord {
    pub xz: u8,
    pub y: u8,
    pub block_id: VarInt,
}

impl BlockChangeRecord {
    /// Whether `s` is the shape of this record: its fields in their declared
    /// order.
    pub open spec fn is_shape(s: Shape) -> bool {
        &&& s is Record
        &&& s->Record_0@.len() == 3
        &&& s->Record_0@[0] == Shape::U8
        &&& s->Record_0@[1] == Shape::U8
        &&& s->Record_0@[2] == Shape::VarInt
    }

    /// The engine value that stands for this record.
    pub open spec fn model(&self) -> ValueView {
        ValueView::Record(seq![ValueView::U8(self.xz), ValueView::U8(self.y), ValueView::VarInt(self.block_id.0)])
    }

    /// Whether an engine value stands for a record of this type.
    pub open spec fn matches(v: ValueView) -> bool {
        &&& v is Record
        &&& v->Record_0.len() == 3
        &&& v->Record_0[0] is U8
        &&& v->Record_0[1] is U8
        &&& v->Record_0[2] is VarInt
    }

    /// The shape of this record.
    pub fn shape() -> (s: Shape)
        ensures
            BlockChangeRecord::is_shape(s),
    {
        let mut fields: Vec<Shape> = Vec::new();
        fields.push(Shape::U8);
        fields.push(Shape::U8);
        fields.push(Shape::VarInt);
        Shape::Record(fields)
    }

    /// This record as an engine value.
    pub fn to_value(&self) -> (v: Value)
        ensures
            v@ == self.model(),
            BlockChangeRecord::matches(v@),
    {
        let mut fields: Vec<Value> = Vec::new();
        let item: Value = Value::U8(self.xz);
        proof {
            lemma_models_push(fields@, item);
        }
        fields.push(item);
        let item: Value = Value::U8(self.y);
        proof {
            lemma_models_push(fields@, item);
        }
        fields.push(item);
        let item: Value = Value::VarInt(self.block_id.0);
        proof {
            lemma_models_push(fields@, item);
        }
        fields.push(item);
        proof {
            assert(models_of(fields@) =~= self.model()->Record_0);
        }
        Value::Record(fields)
    }

    /// The record that an engine value stands for, if it stands for one.
    pub fn from_value(v: Value) -> (r: Option<BlockChangeRecord>)
        ensures
            r is Some <==> BlockChangeRecord::matches(v@),
            r is Some ==> r->Some_0.model() == v@,
    {
        let mut fields: Vec<Value> = match v {
            Value::Record(fields) => fields,
            _ => {
                return None;
            },
        };
        let ghost all = models_of(fields@);
        if fields.len() != 3 {
            return None;
        }
        proof {
            assert(all[0] == model_of(fields@[0]));
            assert(all[1] == model_of(fields@[1]));
            assert(all[2] == model_of(fields@[2]));
        }
        let block_id: VarInt = match fields.pop() {
            Some(Value::VarInt(x)) => VarInt(x),
            _ => {
                return None;
            },
        };
        let y: u8 = match fields.pop() {
            Some(Value::U8(x)) => x,
            _ => {
                return None;
            },
        };
        let xz: u8 = match fields.pop() {
            Some(Value::U8(x)) => x,
            _ => {
                return None;
            },
        };
        let r = BlockChangeRecord { xz, y, block_id };
        proof {
            assert(r.model()->Record_0 =~= all);
        }
        Some(r)
    }
}

/// One statistic and its value.
#[derive(Debug, Clone, PartialEq, Eq)]
pub struct Stat {
    pub name: String,
    pub value: VarInt,
}

impl Stat {
    /// Whether `s` is the shape of this record: its fields in their declared
    /// order.
    pub open spec fn is_shape(s: Shape) -> bool {
        &&& s is Record
        &&& s->Record_0@.len() == 2
        &&& s->Record_0@[0] == Shape::Str
        &&& s->Record_0@[1] == Shape::VarInt
    }

    /// The engine value that stands for this record.
    pub open spec fn model(&self) -> ValueView {
        ValueView::Record(seq![ValueView::Str(self.name@), ValueView::VarInt(self.value.0)])
    }

    /// Whether an engine value stands for a record of this type.
    pub open spec fn matches(v: ValueView) -> bool {
        &&& v is Record
        &&& v->Record_0.len() == 2
        &&& v->Record_0[0] is Str
        &&& v->Record_0[1] is VarInt
    }

    /// The shape of this record.
    pub fn shape() -> (s: Shape)
        ensures
            Stat::is_shape(s),
    {
        let mut fields: Vec<Shape> = Vec::new();
        fields.push(Shape::Str);
        fields.push(Shape::VarInt);
        Shape::Record(fields)
    }

    /// This record as an engine value.
    pub fn to_value(&self) -> (v: Value)
        ensures
            v@ == self.model(),
            Stat::matches(v@),
    {
        let mut fields: Vec<Value> = Vec::new();
        let item: Value = Value::Str(self.name.clone());
        proof {
            lemma_models_push(fields@, item);
        }
        fields.push(item);
        let item: Value = Value::VarInt(self.value.0);
        proof {
            lemma_models_push(fields@, item);
        }
        fields.push(item);
        proof {
            assert(models_of(fields@) =~= self.model()->Record_0);
        }
        Value::Record(fields)
    }

    /// The record that an engine value stands for, if it stands for one.
    pub fn from_value(v: Value) -> (r: Option<Stat>)
        ensures
            r is Some <==> Stat::matches(v@),
            r is Some ==> r->Some_0.model() == v@,
    {
        let mut fields: Vec<Value> = match v {
            Value::Record(fields) => fields,
            _ => {
                return None;
            },
        };
        let ghost all = models_of(fields@);
        if fields.len() != 2 {
            return None;
        }
        proof {
            assert(all[0] == model_of(fields@[0]));
            assert(all[1] == model_of(fields@[1]));
        }
        let value: VarInt = match fields.pop() {
            Some(Value::VarInt(x)) => VarInt(x),
            _ => {
                return None;
            },
        };
        let name: String = match fields.pop() {
            Some(Value::Str(x)) => x,
            _ => {
                return None;
            },
        };
        let r = Stat { name, value };
        proof {
            assert(r.model()->Record_0 =~= all);
        }
        Some(r)
    }
}

/// One player of a status sample.
#[derive(Debug, Clone, PartialEq, Eq)]
pub struct Sample {
    pub name: String,
    pub id: String,
}

impl Sample {
    /// Whether `s` is the shape of this record: its fields in their declared
    /// order.
    pub open spec fn is_shape(s: Shape) -> bool {
        &&& s is Record
        &&& s->Record_0@.len() == 2
        &&& s->Record_0@[0] == Shape::Str
        &&& s->Record_0@[1] == Shape::Str
    }

    /// The engine value that stands for this record.
    pub open spec fn model(&self) -> ValueView {
        ValueView::Record(seq![ValueView::Str(self.name@), ValueView::Str(self.id@)])
    }

    /// Whether an engine value stands for a record of this type.
    pub open spec fn matches(v: ValueView) -> bool {
        &&& v is Record
        &&& v->Record_0.len() == 2
        &&& v->Record_0[0] is Str
        &&& v->Record_0[1] is Str
    }

    /// The shape of this record.
    pub fn shape() -> (s: Shape)
        ensures
            Sample::is_shape(s),
    {
        let mut fields: Vec<Shape> = Vec::new();
        fields.push(Shape::Str);
        fields.push(Shape::Str);
        Shape::Record(fields)
    }

    /// This record as an engine value.
    pub fn to_value(&self) -> (v: Value)
        ensures
            v@ == self.model(),
            Sample::matches(v@),
    {
        let mut fields: Vec<Value> = Vec::new();
        let item: Value = Value::Str(self.name.clone());
        proof {
            lemma_models_push(fields@, item);
        }
        fields.push(item);
        let item: Value = Value::Str(self.id.clone());
        proof {
            lemma_models_push(fields@, item);
        }
        fields.push(item);
        proof {
            assert(models_of(fields@) =~= self.model()->Record_0);
        }
        Value::Record(fields)
    }

    /// The record that an engine value stands for, if it stands for one.
    pub fn from_value(v: Value) -> (r: Option<Sample>)
        ensures
            r is Some <==> Sample::matches(v@),
            r is Some ==> r->Some_0.model() == v@,
    {
        let mut fields: Vec<Value> = match v {
            Value::Record(fields) => fields,
            _ => {
                return None;
            },
        };
        let ghost all = models_of(fields@);
        if fields.len() != 2 {
            return None;
        }
        proof {
            assert(all[0] == model_of(fields@[0]));
            assert(all[1] == model_of(fields@[1]));
        }
        let id: String = match fields.pop() {
            Some(Value::Str(x)) => x,
            _ => {
                return None;
            },
        };
        let name: String = match fields.pop() {
            Some(Value::Str(x)) => x,
            _ => {
                return None;
            },
        };
        let r = Sample { name, id };
        proof {
            assert(r.model()->Record_0 =~= all);
        }
        Some(r)
    }
}

/// The name and number of a protocol version.
#[derive(Debug, Clone, PartialEq, Eq)]
pub struct Version {
    pub name: String,
    pub protocol: i32,
}

impl Version {
    /// Whether `s` is the shape of this record: its fields in their declared
    /// order.
    pub open spec fn is_shape(s: Shape) -> bool {
        &&& s is Record
        &&& s->Record_0@.len() == 2
        &&& s->Record_0@[0] == Shape::Str
        &&& s->Record_0@[1] == Shape::I32
    }

    /// The engine value that stands for this record.
    pub open spec fn model(&self) -> ValueView {
        ValueView::Record(seq![ValueView::Str(self.name@), ValueView::I32(self.protocol)])
    }

    /// Whether an engine value stands for a record of this type.
    pub open spec fn matches(v: ValueView) -> bool {
        &&& v is Record
        &&& v->Record_0.len() == 2
        &&& v->Record_0[0] is Str
        &&& v->Record_0[1] is I32
    }

    /// The shape of this record.
    pub fn shape() -> (s: Shape)
        ensures
            Version::is_shape(s),
    {
        let mut fields: Vec<Shape> = Vec::new();
        fields.push(Shape::Str);
        fields.push(Shape::I32);
        Shape::Record(fields)
    }

    /// This record as an engine value.
    pub fn to_value(&self) -> (v: Value)
        ensures
            v@ == self.model(),
            Version::matches(v@),
    {
        let mut fields: Vec<Value> = Vec::new();
        let item: Value = Value::Str(self.name.clone());
        proof {
            lemma_models_push(fields@, item);
        }
        fields.push(item);
        let item: Value = Value::I32(self.protocol);
        proof {
            lemma_models_push(fields@, item);
        }
        fields.push(item);
        proof {
            assert(models_of(fields@) =~= self.model()->Record_0);
        }
        Value::Record(fields)
    }

    /// The record that an engine value stands for, if it stands for one.
    pub fn from_value(v: Value) -> (r: Option<Version>)
        ensures
            r is Some <==> Version::matches(v@),
            r is Some ==> r->Some_0.model() == v@,
    {
        let mut fields: Vec<Value> = match v {
            Value::Record(fields) => fields,
            _ => {
                return None;
            },
        };
        let ghost all = models_of(fields@);
        if fields.len() != 2 {
            return None;
        }
        proof {
            assert(all[0] == model_of(fields@[0]));
            assert(all[1] == model_of(fields@[1]));
        }
        let protocol: i32 = match fields.pop() {
            Some(Value::I32(x)) => x,
            _ => {
                return None;
            },
        };
        let name: String = match fields.pop() {
            Some(Value::Str(x)) => x,
            _ => {
                return None;
            },
        };
        let r = Version { name, protocol };
        proof {
            assert(r.model()->Record_0 =~= all);
        }
        Some(r)
    }
}

/// One modifier of an entity property. The amount is the bit pattern of a
/// 64-bit float.
#[derive(Debug, Clone, PartialEq, Eq)]
pub struct ModifierData {
    pub uuid: Uuidi128,
    pub amount: u64,
    pub operation: i8,
}

impl ModifierData {
    /// Whether `s` is the shape of this record: its fields in their declared
    /// order.
    pub open spec fn is_shape(s: Shape) -> bool {
        &&& s is Record
        &&& s->Record_0@.len() == 3
        &&& s->Record_0@[0] == Shape::Uuidi128
        &&& s->Record_0@[1] == Shape::F64
        &&& s->Record_0@[2] == Shape::I8
    }

    /// The engine value that stands for this record.
    pub open spec fn model(&self) -> ValueView {
        ValueView::Record(seq![ValueView::Uuidi128(self.uuid.0), ValueView::F64(self.amount), ValueView::I8(self.operation)])
    }

    /// Whether an engine value stands for a record of this type.
    pub open spec fn matches(v: ValueView) -> bool {
        &&& v is Record
        &&& v->Record_0.len() == 3
        &&& v->Record_0[0] is Uuidi128
        &&& v->Record_0[1] is F64
        &&& v->Record_0[2] is I8
    }

    /// The shape of this record.
    pub fn shape() -> (s: Shape)
        ensures
            ModifierData::is_shape(s),
    {
        let mut fields: Vec<Shape> = Vec::new();
        fields.push(Shape::Uuidi128);
        fields.push(Shape::F64);
        fields.push(Shape::I8);
        Shape::Record(fields)
    }

    /// This record as an engine value.
    pub fn to_value(&self) -> (v: Value)
        ensures
            v@ == self.model(),
            ModifierData::matches(v@),
    {
        let mut fields: Vec<Value> = Vec::new();
        let item: Value = Value::Uuidi128(Uuidi128(self.uuid.0));
        proof {
            lemma_models_push(fields@, item);
        }
        fields.push(item);
        let item: Value = Value::F64(self.amount);
        proof {
            lemma_models_push(fields@, item);
        }
        fields.push(item);
        let item: Value = Value::I8(self.operation);
        proof {
            lemma_models_push(fields@, item);
        }
        fields.push(item);
        proof {
            assert(models_of(fields@) =~= self.model()->Record_0);
        }
        Value::Record(fields)
    }

    /// The record that an engine value stands for, if it stands for one.
    pub fn from_value(v: Value) -> (r: Option<ModifierData>)
        ensures
            r is Some <==> ModifierData::matches(v@),
            r is Some ==> r->Some_0.model() == v@,
    {
        let mut fields: Vec<Value> = match v {
            Value::Record(fields) => fields,
            _ => {
                return None;
            },
        };
        let ghost all = models_of(fields@);
        if fields.len() != 3 {
            return None;
        }
        proof {
            assert(all[0] == model_of(fields@[0]));
            assert(all[1] == model_of(fields@[1]));
            assert(all[2] == model_of(fields@[2]));
        }
        let operation: i8 = match fields.pop() {
            Some(Value::I8(x)) => x,
            _ => {
                return None;
            },
        };
        let amount: u64 = match fields.pop() {
            Some(Value::F64(x)) => x,
            _ => {
                return None;
            },
        };
        let uuid: Uuidi128 = match fields.pop() {
            Some(Value::Uuidi128(x)) => x,
            _ => {
                return None;
            },
        };
        let r = ModifierData { uuid, amount, operation };
        proof {
            assert(r.model()->Record_0 =~= all);
        }
        Some(r)
    }
}

/// One signed property of a player.
#[derive(Debug, Clone, PartialEq, Eq)]
pub struct Data {
    pub name: String,
    pub value: String,
    pub signature: String,
}

impl Data {
    /// Whether `s` is the shape of this record: its fields in their declared
    /// order.
    pub open spec fn is_shape(s: Shape) -> bool {
        &&& s is Record
        &&& s->Record_0@.len() == 3
        &&& s->Record_0@[0] == Shape::Str
        &&& s->Record_0@[1] == Shape::Str
        &&& s->Record_0@[2] == Shape::Str
    }

    /// The engine value that stands for this record.
    pub open spec fn model(&self) -> ValueView {
        ValueView::Record(seq![ValueView::Str(self.name@), ValueView::Str(self.value@), ValueView::Str(self.signature@)])
    }

    /// Whether an engine value stands for a record of this type.
    pub open spec fn matches(v: ValueView) -> bool {
        &&& v is Record
        &&& v->Record_0.len() == 3
        &&& v->Record_0[0] is Str
        &&& v->Record_0[1] is Str
        &&& v->Record_0[2] is Str
    }

    /// The shape of this record.
    pub fn shape() -> (s: Shape)
        ensures
            Data::is_shape(s),
    {
        let mut fields: Vec<Shape> = Vec::new();
        fields.push(Shape::Str);
        fields.push(Shape::Str);
        fields.push(Shape::Str);
        Shape::Record(fields)
    }

    /// This record as an engine value.
    pub fn to_value(&self) -> (v: Value)
        ensures
            v@ == self.model(),
            Data::matches(v@),
    {
        let mut fields: Vec<Value> = Vec::new();
        let item: Value = Value::Str(self.name.clone());
        proof {
            lemma_models_push(fields@, item);
        }
        fields.push(item);
        let item: Value = Value::Str(self.value.clone());
        proof {
            lemma_models_push(fields@, item);
        }
        fields.push(item);
        let item: Value = Value::Str(self.signature.clone());
        proof {
            lemma_models_push(fields@, item);
        }
        fields.push(item);
        proof {
            assert(models_of(fields@) =~= self.model()->Record_0);
        }
        Value::Record(fields)
    }

    /// The record that an engine value stands for, if it stands for one.
    pub fn from_value(v: Value) -> (r: Option<Data>)
        ensures
            r is Some <==> Data::matches(v@),
            r is Some ==> r->Some_0.model() == v@,
    {
        let mut fields: Vec<Value> = match v {
            Value::Record(fields) => fields,
            _ => {
                return None;
            },
        };
        let ghost all = models_of(fields@);
        if fields.len() != 3 {
            return None;
        }
        proof {
            assert(all[0] == model_of(fields@[0]));
            assert(all[1] == model_of(fields@[1]));
            assert(all[2] == model_of(fields@[2]));
        }
        let signature: String = match fields.pop() {
            Some(Value::Str(x)) => x,
            _ => {
                return None;
            },
        };
        let value: String = match fields.pop() {
            Some(Value::Str(x)) => x,
            _ => {
                return None;
            },
        };
        let name: String = match fields.pop() {
            Some(Value::Str(x)) => x,
            _ => {
                return None;
            },
        };
        let r = Data { name, value, signature };
        proof {
            assert(r.model()->Record_0 =~= all);
        }
        Some(r)
    }
}

/// What an object was spawned with.
#[derive(Debug, Clone, PartialEq, Eq)]
pub struct ObjectData {
    pub object_id: i32,
    pub velocity_x: i16,
    pub velocity_y: i16,
    pub velocity_z: i16,
}

impl ObjectData {
    /// Whether `s` is the shape of this record: its fields in their declared
    /// order.
    pub open spec fn is_shape(s: Shape) -> bool {
        &&& s is Record
        &&& s->Record_0@.len() == 4
        &&& s->Record_0@[0] == Shape::I32
        &&& s->Record_0@[1] == Shape::I16
        &&& s->Record_0@[2] == Shape::I16
        &&& s->Record_0@[3] == Shape::I16
    }

    /// The engine value that stands for this record.
    pub open spec fn model(&self) -> ValueView {
        ValueView::Record(seq![ValueView::I32(self.object_id), ValueView::I16(self.velocity_x), ValueView::I16(self.velocity_y), ValueView::I16(self.velocity_z)])
    }

    /// Whether an engine value stands for a record of this type.
    pub open spec fn matches(v: ValueView) -> bool {
        &&& v is Record
        &&& v->Record_0.len() == 4
        &&& v->Record_0[0] is I32
        &&& v->Record_0[1] is I16
        &&& v->Record_0[2] is I16
        &&& v->Record_0[3] is I16
    }

    /// The shape of this record.
    pub fn shape() -> (s: Shape)
        ensures
            ObjectData::is_shape(s),
    {
        let mut fields: Vec<Shape> = Vec::new();
        fields.push(Shape::I32);
        fields.push(Shape::I16);
        fields.push(Shape::I16);
        fields.push(Shape::I16);
        Shape::Record(fields)
    }

    /// This record as an engine value.
    pub fn to_value(&self) -> (v: Value)
        ensures
            v@ == self.model(),
            ObjectData::matches(v@),
    {
        let mut fields: Vec<Value> = Vec::new();
        let item: Value = Value::I32(self.object_id);
        proof {
            lemma_models_push(fields@, item);
        }
        fields.push(item);
        let item: Value = Value::I16(self.velocity_x);
        proof {
            lemma_models_push(fields@, item);
        }
        fields.push(item);
        let item: Value = Value::I16(self.velocity_y);
        proof {
            lemma_models_push(fields@, item);
        }
        fields.push(item);
        let item: Value = Value::I16(self.velocity_z);
        proof {
            lemma_models_push(fields@, item);
        }
        fields.push(item);
        proof {
            assert(models_of(fields@) =~= self.model()->Record_0);
        }
        Value::Record(fields)
    }

    /// The record that an engine value stands for, if it stands for one.
    pub fn from_value(v: Value) -> (r: Option<ObjectData>)
        ensures
            r is Some <==> ObjectData::matches(v@),
            r is Some ==> r->Some_0.model() == v@,
    {
        let mut fields: Vec<Value> = match v {
            Value::Record(fields) => fields,
            _ => {
                return None;
            },
        };
        let ghost all = models_of(fields@);
        if fields.len() != 4 {
            return None;
        }
        proof {
            assert(all[0] == model_of(fields@[0]));
            assert(all[1] == model_of(fields@[1]));
            assert(all[2] == model_of(fields@[2]));
            assert(all[3] == model_of(fields@[3]));
        }
        let velocity_z: i16 = match fields.pop() {
            Some(Value::I16(x)) => x,
            _ => {
                return None;
            },
        };
        let velocity_y: i16 = match fields.pop() {
            Some(Value::I16(x)) => x,
            _ => {
                return None;
            },
        };
        let velocity_x: i16 = match fields.pop() {
            Some(Value::I16(x)) => x,
            _ => {
                return None;
            },
        };
        let object_id: i32 = match fields.pop() {
            Some(Value::I32(x)) => x,
            _ => {
                return None;
            },
        };
        let r = ObjectData { object_id, velocity_x, velocity_y, velocity_z };
        proof {
            assert(r.model()->Record_0 =~= all);
        }
        Some(r)
    }
}

/// Which way a message travels.
#[derive(Debug, Clone, PartialEq, Eq)]
pub enum Direction {
    Clientbound,
    Serverbound,
}

impl Direction {
    /// Whether `s` is the shape of this union: one record for each
    /// alternative, in the declared order.
    pub open spec fn is_shape(s: Shape) -> bool {
        &&& s is Union
        &&& s->Union_0@.len() == 2
        &&& s->Union_0@[0] is Record
        &&& s->Union_0@[0]->Record_0@.len() == 0
        &&& s->Union_0@[1] is Record
        &&& s->Union_0@[1]->Record_0@.len() == 0
    }

    /// The engine value that stands for this alternative: its index and the
    /// record of its fields.
    pub open spec fn model(&self) -> ValueView {
        match *self {
            Direction::Clientbound => ValueView::Union(0, Box::new(ValueView::Record(Seq::<ValueView>::empty()))),
            Direction::Serverbound => ValueView::Union(1, Box::new(ValueView::Record(Seq::<ValueView>::empty()))),
        }
    }

    /// Whether an engine value stands for an alternative of this union.
    pub open spec fn matches(v: ValueView) -> bool {
        &&& is_record_variant(v)
        &&& ((v->Union_0 == 0 && variant_fields(v).len() == 0)
            || (v->Union_0 == 1 && variant_fields(v).len() == 0))
    }

    /// The shape of this union.
    pub fn shape() -> (s: Shape)
        ensures
            Direction::is_shape(s),
    {
        let mut alternatives: Vec<Shape> = Vec::new();
        {
            let mut fields: Vec<Shape> = Vec::new();
            alternatives.push(Shape::Record(fields));
        }
        {
            let mut fields: Vec<Shape> = Vec::new();
            alternatives.push(Shape::Record(fields));
        }
        Shape::Union(alternatives)
    }

    /// This alternative as an engine value.
    pub fn to_value(&self) -> (v: Value)
        ensures
            v@ == self.model(),
            Direction::matches(v@),
    {
        proof {
            reveal_with_fuel(model_of, 2);
        }
        match self {
            Direction::Clientbound => {
                let mut fields: Vec<Value> = Vec::new();
                proof {
                    assert(models_of(fields@) =~= variant_fields(self.model()));
                }
                Value::Union(0, Box::new(Value::Record(fields)))
            },
            Direction::Serverbound => {
                let mut fields: Vec<Value> = Vec::new();
                proof {
                    assert(models_of(fields@) =~= variant_fields(self.model()));
                }
                Value::Union(1, Box::new(Value::Record(fields)))
            },
        }
    }

    /// The alternative that an engine value stands for, if it stands for one.
    pub fn from_value(v: Value) -> (r: Option<Direction>)
        ensures
            r is Some <==> Direction::matches(v@),
            r is Some ==> r->Some_0.model() == v@,
    {
        proof {
            reveal_with_fuel(model_of, 2);
        }
        let (index, payload) = match v {
            Value::Union(index, payload) => (index, payload),
            _ => {
                return None;
            },
        };
        let mut fields: Vec<Value> = match *payload {
            Value::Record(fields) => fields,
            _ => {
                return None;
            },
        };
        let ghost all = models_of(fields@);
        if index == 0 {
            if fields.len() != 0 {
                return None;
            }
            let r = Direction::Clientbound;
            proof {
                assert(variant_fields(r.model()) =~= all);
            }
            Some(r)
        } else if index == 1 {
            if fields.len() != 0 {
                return None;
            }
            let r = Direction::Serverbound;
            proof {
                assert(variant_fields(r.model()) =~= all);
            }
            Some(r)
        } else {
            None
        }
    }
}

/// The phase that a handshake asks for. The first alternative asks for none
/// and only takes up index zero.
#[derive(Debug, Clone, PartialEq, Eq)]
pub enum NextState {
    Nothing,
    Status,
    Login,
}

impl NextState {
    /// Whether `s` is the shape of this union: one record for each
    /// alternative, in the declared order.
    pub open spec fn is_shape(s: Shape) -> bool {
        &&& s is Union
        &&& s->Union_0@.len() == 3
        &&& s->Union_0@[0] is Record
        &&& s->Union_0@[0]->Record_0@.len() == 0
        &&& s->Union_0@[1] is Record
        &&& s->Union_0@[1]->Record_0@.len() == 0
        &&& s->Union_0@[2] is Record
        &&& s->Union_0@[2]->Record_0@.len() == 0
    }

    /// The engine value that stands for this alternative: its index and the
    /// record of its fields.
    pub open spec fn model(&self) -> ValueView {
        match *self {
            NextState::Nothing => ValueView::Union(0, Box::new(ValueView::Record(Seq::<ValueView>::empty()))),
            NextState::Status => ValueView::Union(1, Box::new(ValueView::Record(Seq::<ValueView>::empty()))),
            NextState::Login => ValueView::Union(2, Box::new(ValueView::Record(Seq::<ValueView>::empty()))),
        }
    }

    /// Whether an engine value stands for an alternative of this union.
    pub open spec fn matches(v: ValueView) -> bool {
        &&& is_record_variant(v)
        &&& ((v->Union_0 == 0 && variant_fields(v).len() == 0)
            || (v->Union_0 == 1 && variant_fields(v).len() == 0)
            || (v->Union_0 == 2 && variant_fields(v).len() == 0))
    }

    /// The shape of this union.
    pub fn shape() -> (s: Shape)
        ensures
            NextState::is_shape(s),
    {
        let mut alternatives: Vec<Shape> = Vec::new();
        {
            let mut fields: Vec<Shape> = Vec::new();
            alternatives.push(Shape::Record(fields));
        }
        {
            let mut fields: Vec<Shape> = Vec::new();
            alternatives.push(Shape::Record(fields));
        }
        {
            let mut fields: Vec<Shape> = Vec::new();
            alternatives.push(Shape::Record(fields));
        }
        Shape::Union(alternatives)
    }

    /// This alternative as an engine value.
    pub fn to_value(&self) -> (v: Value)
        ensures
            v@ == self.model(),
            NextState::matches(v@),
    {
        proof {
            reveal_with_fuel(model_of, 2);
        }
        match self {
            NextState::Nothing => {
                let mut fields: Vec<Value> = Vec::new();
                proof {
                    assert(models_of(fields@) =~= variant_fields(self.model()));
                }
                Value::Union(0, Box::new(Value::Record(fields)))
            },
            NextState::Status => {
                let mut fields: Vec<Value> = Vec::new();
                proof {
                    assert(models_of(fields@) =~= variant_fields(self.model()));
                }
                Value::Union(1, Box::new(Value::Record(fields)))
            },
            NextState::Login => {
                let mut fields: Vec<Value> = Vec::new();
                proof {
                    assert(models_of(fields@) =~= variant_fields(self.model()));
                }
                Value::Union(2, Box::new(Value::Record(fields)))
            },
        }
    }

    /// The alternative that an engine value stands for, if it stands for one.
    pub fn from_value(v: Value) -> (r: Option<NextState>)
        ensures
            r is Some <==> NextState::matches(v@),
            r is Some ==> r->Some_0.model() == v@,
    {
        proof {
            reveal_with_fuel(model_of, 2);
        }
        let (index, payload) = match v {
            Value::Union(index, payload) => (index, payload),
            _ => {
                return None;
            },
        };
        let mut fields: Vec<Value> = match *payload {
            Value::Record(fields) => fields,
            _ => {
                return None;
            },
        };
        let ghost all = models_of(fields@);
        if index == 0 {
            if fields.len() != 0 {
                return None;
            }
            let r = NextState::Nothing;
            proof {
                assert(variant_fields(r.model()) =~= all);
            }
            Some(r)
        } else if index == 1 {
            if fields.len() != 0 {
                return None;
            }
            let r = NextState::Status;
            proof {
                assert(variant_fields(r.model()) =~= all);
            }
            Some(r)
        } else if index == 2 {
            if fields.len() != 0 {
                return None;
            }
            let r = NextState::Login;
            proof {
                assert(variant_fields(r.model()) =~= all);
            }
            Some(r)
        } else {
            None
        }
    }
}

/// The messages of the handshake phase.
#[derive(Debug, Clone, PartialEq, Eq)]
pub enum Handshake {
    Handshake { proto_version: VarInt, server_address: String, server_port: u16, next_state: NextState },
}

impl Handshake {
    /// Whether `s` is the shape of this union: one record for each
    /// alternative, in the declared order.
    pub open spec fn is_shape(s: Shape) -> bool {
        &&& s is Union
        &&& s->Union_0@.len() == 1
        &&& s->Union_0@[0] is Record
        &&& s->Union_0@[0]->Record_0@.len() == 4
        &&& s->Union_0@[0]->Record_0@[0] == Shape::VarInt
        &&& s->Union_0@[0]->Record_0@[1] == Shape::Str
        &&& s->Union_0@[0]->Record_0@[2] == Shape::U16
        &&& NextState::is_shape(s->Union_0@[0]->Record_0@[3])
    }

    /// The engine value that stands for this alternative: its index and the
    /// record of its fields.
    pub open spec fn model(&self) -> ValueView {
        match *self {
            Handshake::Handshake { proto_version, server_address, server_port, next_state } => ValueView::Union(0, Box::new(ValueView::Record(seq![ValueView::VarInt(proto_version.0), ValueView::Str(server_address@), ValueView::U16(server_port), next_state.model()]))),
        }
    }

    /// Whether an engine value stands for an alternative of this union.
    pub open spec fn matches(v: ValueView) -> bool {
        &&& is_record_variant(v)
        &&& ((v->Union_0 == 0 && variant_fields(v).len() == 4 && variant_fields(v)[0] is VarInt && variant_fields(v)[1] is Str && variant_fields(v)[2] is U16 && NextState::matches(variant_fields(v)[3])))
    }

    /// The shape of this union.
    pub fn shape() -> (s: Shape)
        ensures
            Handshake::is_shape(s),
    {
        let mut alternatives: Vec<Shape> = Vec::new();
        {
            let mut fields: Vec<Shape> = Vec::new();
            fields.push(Shape::VarInt);
            fields.push(Shape::Str);
            fields.push(Shape::U16);
            fields.push(NextState::shape());
            alternatives.push(Shape::Record(fields));
        }
        Shape::Union(alternatives)
    }

    /// This alternative as an engine value.
    pub fn to_value(&self) -> (v: Value)
        ensures
            v@ == self.model(),
            Handshake::matches(v@),
    {
        proof {
            reveal_with_fuel(model_of, 2);
        }
        match self {
            Handshake::Handshake { proto_version, server_address, server_port, next_state } => {
                let mut fields: Vec<Value> = Vec::new();
                let item: Value = Value::VarInt(proto_version.0);
                proof {
                    lemma_models_push(fields@, item);
                }
                fields.push(item);
                let item: Value = Value::Str(server_address.clone());
                proof {
                    lemma_models_push(fields@, item);
                }
                fields.push(item);
                let item: Value = Value::U16(*server_port);
                proof {
                    lemma_models_push(fields@, item);
                }
                fields.push(item);
                let item: Value = next_state.to_value();
                proof {
                    lemma_models_push(fields@, item);
                }
                fields.push(item);
                proof {
                    assert(models_of(fields@) =~= variant_fields(self.model()));
                }
                Value::Union(0, Box::new(Value::Record(fields)))
            },
        }
    }

    /// The alternative that an engine value stands for, if it stands for one.
    pub fn from_value(v: Value) -> (r: Option<Handshake>)
        ensures
            r is Some <==> Handshake::matches(v@),
            r is Some ==> r->Some_0.model() == v@,
    {
        proof {
            reveal_with_fuel(model_of, 2);
        }
        let (index, payload) = match v {
            Value::Union(index, payload) => (index, payload),
            _ => {
                return None;
            },
        };
        let mut fields: Vec<Value> = match *payload {
            Value::Record(fields) => fields,
            _ => {
                return None;
            },
        };
        let ghost all = models_of(fields@);
        if index == 0 {
            if fields.len() != 4 {
                return None;
            }
            proof {
                assert(all[0] == model_of(fields@[0]));
                assert(all[1] == model_of(fields@[1]));
                assert(all[2] == model_of(fields@[2]));
                assert(all[3] == model_of(fields@[3]));
            }
            let next_state: NextState = match fields.pop() {
                Some(x) => match NextState::from_value(x) {
                    Some(y) => y,
                    None => {
                        return None;
                    },
                },
                _ => {
                    return None;
                },
            };
            let server_port: u16 = match fields.pop() {
                Some(Value::U16(x)) => x,
                _ => {
                    return None;
                },
            };
            let server_address: String = match fields.pop() {
                Some(Value::Str(x)) => x,
                _ => {
                    return None;
                },
            };
            let proto_version: VarInt = match fields.pop() {
                Some(Value::VarInt(x)) => VarInt(x),
                _ => {
                    return None;
                },
            };
            let r = Handshake::Handshake { proto_version, server_address, server_port, next_state };
            proof {
                assert(variant_fields(r.model()) =~= all);
            }
            Some(r)
        } else {
            None
        }
    }
}

/// The messages that a server sends in the status phase.
#[derive(Debug, Clone, PartialEq, Eq)]
pub enum StatusToClient {
    StatusResponse { response: String },
    Pong { time: i64 },
}

impl StatusToClient {
    /// Whether `s` is the shape of this union: one record for each
    /// alternative, in the declared order.
    pub open spec fn is_shape(s: Shape) -> bool {
        &&& s is Union
        &&& s->Union_0@.len() == 2
        &&& s->Union_0@[0] is Record
        &&& s->Union_0@[0]->Record_0@.len() == 1
        &&& s->Union_0@[0]->Record_0@[0] == Shape::Str
        &&& s->Union_0@[1] is Record
        &&& s->Union_0@[1]->Record_0@.len() == 1
        &&& s->Union_0@[1]->Record_0@[0] == Shape::I64
    }

    /// The engine value that stands for this alternative: its index and the
    /// record of its fields.
    pub open spec fn model(&self) -> ValueView {
        match *self {
            StatusToClient::StatusResponse { response } => ValueView::Union(0, Box::new(ValueView::Record(seq![ValueView::Str(response@)]))),
            StatusToClient::Pong { time } => ValueView::Union(1, Box::new(ValueView::Record(seq![ValueView::I64(time)]))),
        }
    }

    /// Whether an engine value stands for an alternative of this union.
    pub open spec fn matches(v: ValueView) -> bool {
        &&& is_record_variant(v)
        &&& ((v->Union_0 == 0 && variant_fields(v).len() == 1 && variant_fields(v)[0] is Str)
            || (v->Union_0 == 1 && variant_fields(v).len() == 1 && variant_fields(v)[0] is I64))
    }

    /// The shape of this union.
    pub fn shape() -> (s: Shape)
        ensures
            StatusToClient::is_shape(s),
    {
        let mut alternatives: Vec<Shape> = Vec::new();
        {
            let mut fields: Vec<Shape> = Vec::new();
            fields.push(Shape::Str);
            alternatives.push(Shape::Record(fields));
        }
        {
            let mut fields: Vec<Shape> = Vec::new();
            fields.push(Shape::I64);
            alternatives.push(Shape::Record(fields));
        }
        Shape::Union(alternatives)
    }

    /// This alternative as an engine value.
    pub fn to_value(&self) -> (v: Value)
        ensures
            v@ == self.model(),
            StatusToClient::matches(v@),
    {
        proof {
            reveal_with_fuel(model_of, 2);
        }
        match self {
            StatusToClient::StatusResponse { response } => {
                let mut fields: Vec<Value> = Vec::new();
                let item: Value = Value::Str(response.clone());
                proof {
                    lemma_models_push(fields@, item);
                }
                fields.push(item);
                proof {
                    assert(models_of(fields@) =~= variant_fields(self.model()));
                }
                Value::Union(0, Box::new(Value::Record(fields)))
            },
            StatusToClient::Pong { time } => {
                let mut fields: Vec<Value> = Vec::new();
                let item: Value = Value::I64(*time);
                proof {
                    lemma_models_push(fields@, item);
                }
                fields.push(item);
                proof {
                    assert(models_of(fields@) =~= variant_fields(self.model()));
                }
                Value::Union(1, Box::new(Value::Record(fields)))
            },
        }
    }

    /// The alternative that an engine value stands for, if it stands for one.
    pub fn from_value(v: Value) -> (r: Option<StatusToClient>)
        ensures
            r is Some <==> StatusToClient::matches(v@),
            r is Some ==> r->Some_0.model() == v@,
    {
        proof {
            reveal_with_fuel(model_of, 2);
        }
        let (index, payload) = match v {
            Value::Union(index, payload) => (index, payload),
            _ => {
                return None;
            },
        };
        let mut fields: Vec<Value> = match *payload {
            Value::Record(fields) => fields,
            _ => {
                return None;
            },
        };
        let ghost all = models_of(fields@);
        if index == 0 {
            if fields.len() != 1 {
                return None;
            }
            proof {
                assert(all[0] == model_of(fields@[0]));
            }
            let response: String = match fields.pop() {
                Some(Value::Str(x)) => x,
                _ => {
                    return None;
                },
            };
            let r = StatusToClient::StatusResponse { response };
            proof {
                assert(variant_fields(r.model()) =~= all);
            }
            Some(r)
        } else if index == 1 {
            if fields.len() != 1 {
                return None;
            }
            proof {
                assert(all[0] == model_of(fields@[0]));
            }
            let time: i64 = match fields.pop() {
                Some(Value::I64(x)) => x,
                _ => {
                    return None;
                },
            };
            let r = StatusToClient::Pong { time };
            proof {
                assert(variant_fields(r.model()) =~= all);
            }
            Some(r)
        } else {
            None
        }
    }
}

/// The messages that a client sends in the status phase.
#[derive(Debug, Clone, PartialEq, Eq)]
pub enum StatusToServer {
    StatusRequest,
    Ping { time: i64 },
}

impl StatusToServer {
    /// Whether `s` is the shape of this union: one record for each
    /// alternative, in the declared order.
    pub open spec fn is_shape(s: Shape) -> bool {
        &&& s is Union
        &&& s->Union_0@.len() == 2
        &&& s->Union_0@[0] is Record
        &&& s->Union_0@[0]->Record_0@.len() == 0
        &&& s->Union_0@[1] is Record
        &&& s->Union_0@[1]->Record_0@.len() == 1
        &&& s->Union_0@[1]->Record_0@[0] == Shape::I64
    }

    /// The engine value that stands for this alternative: its index and the
    /// record of its fields.
    pub open spec fn model(&self) -> ValueView {
        match *self {
            StatusToServer::StatusRequest => ValueView::Union(0, Box::new(ValueView::Record(Seq::<ValueView>::empty()))),
            StatusToServer::Ping { time } => ValueView::Union(1, Box::new(ValueView::Record(seq![ValueView::I64(time)]))),
        }
    }

    /// Whether an engine value stands for an alternative of this union.
    pub open spec fn matches(v: ValueView) -> bool {
        &&& is_record_variant(v)
        &&& ((v->Union_0 == 0 && variant_fields(v).len() == 0)
            || (v->Union_0 == 1 && variant_fields(v).len() == 1 && variant_fields(v)[0] is I64))
    }

    /// The shape of this union.
    pub fn shape() -> (s: Shape)
        ensures
            StatusToServer::is_shape(s),
    {
        let mut alternatives: Vec<Shape> = Vec::new();
        {
            let mut fields: Vec<Shape> = Vec::new();
            alternatives.push(Shape::Record(fields));
        }
        {
            let mut fields: Vec<Shape> = Vec::new();
            fields.push(Shape::I64);
            alternatives.push(Shape::Record(fields));
        }
        Shape::Union(alternatives)
    }

    /// This alternative as an engine value.
    pub fn to_value(&self) -> (v: Value)
        ensures
            v@ == self.model(),
            StatusToServer::matches(v@),
    {
        proof {
            reveal_with_fuel(model_of, 2);
        }
        match self {
            StatusToServer::StatusRequest => {
                let mut fields: Vec<Value> = Vec::new();
                proof {
                    assert(models_of(fields@) =~= variant_fields(self.model()));
                }
                Value::Union(0, Box::new(Value::Record(fields)))
            },
            StatusToServer::Ping { time } => {
                let mut fields: Vec<Value> = Vec::new();
                let item: Value = Value::I64(*time);
                proof {
                    lemma_models_push(fields@, item);
                }
                fields.push(item);
                proof {
                    assert(models_of(fields@) =~= variant_fields(self.model()));
                }
                Value::Union(1, Box::new(Value::Record(fields)))
            },
        }
    }

    /// The alternative that an engine value stands for, if it stands for one.
    pub fn from_value(v: Value) -> (r: Option<StatusToServer>)
        ensures
            r is Some <==> StatusToServer::matches(v@),
            r is Some ==> r->Some_0.model() == v@,
    {
        proof {
            reveal_with_fuel(model_of, 2);
        }
        let (index, payload) = match v {
            Value::Union(index, payload) => (index, payload),
            _ => {
                return None;
            },
        };
        let mut fields: Vec<Value> = match *payload {
            Value::Record(fields) => fields,
            _ => {
                return None;
            },
        };
        let ghost all = models_of(fields@);
        if index == 0 {
            if fields.len() != 0 {
                return None;
            }
            let r = StatusToServer::StatusRequest;
            proof {
                assert(variant_fields(r.model()) =~= all);
            }
            Some(r)
        } else if index == 1 {
            if fields.len() != 1 {
                return None;
            }
            proof {
                assert(all[0] == model_of(fields@[0]));
            }
            let time: i64 = match fields.pop() {
                Some(Value::I64(x)) => x,
                _ => {
                    return None;
                },
            };
            let r = StatusToServer::Ping { time };
            proof {
                assert(variant_fields(r.model()) =~= all);
            }
            Some(r)
        } else {
            None
        }
    }
}

/// The messages that a server sends in the login phase.
#[derive(Debug, PartialEq)]
pub enum LoginToClient {
    Disconnect { reason: String },
    EncryptionRequest { server_id: String, pubkey: ShortPrefix<u8>, verify_token: ShortPrefix<u8> },
    LoginSuccess { uuid: Uuid, username: String },
}

impl LoginToClient {
    /// Whether `s` is the shape of this union: one record for each
    /// alternative, in the declared order.
    pub open spec fn is_shape(s: Shape) -> bool {
        &&& s is Union
        &&& s->Union_0@.len() == 3
        &&& s->Union_0@[0] is Record
        &&& s->Union_0@[0]->Record_0@.len() == 1
        &&& s->Union_0@[0]->Record_0@[0] == Shape::Str
        &&& s->Union_0@[1] is Record
        &&& s->Union_0@[1]->Record_0@.len() == 3
        &&& s->Union_0@[1]->Record_0@[0] == Shape::Str
        &&& s->Union_0@[1]->Record_0@[1] == Shape::Array(Prefix::Short, Box::new(Shape::U8))
        &&& s->Union_0@[1]->Record_0@[2] == Shape::Array(Prefix::Short, Box::new(Shape::U8))
        &&& s->Union_0@[2] is Record
        &&& s->Union_0@[2]->Record_0@.len() == 2
        &&& s->Union_0@[2]->Record_0@[0] == Shape::Uuid
        &&& s->Union_0@[2]->Record_0@[1] == Shape::Str
    }

    /// The engine value that stands for this alternative: its index and the
    /// record of its fields.
    pub open spec fn model(&self) -> ValueView {
        match *self {
            LoginToClient::Disconnect { reason } => ValueView::Union(0, Box::new(ValueView::Record(seq![ValueView::Str(reason@)]))),
            LoginToClient::EncryptionRequest { server_id, pubkey, verify_token } => ValueView::Union(1, Box::new(ValueView::Record(seq![ValueView::Str(server_id@), bytes_model(pubkey@), bytes_model(verify_token@)]))),
            LoginToClient::LoginSuccess { uuid, username } => ValueView::Union(2, Box::new(ValueView::Record(seq![ValueView::Uuid(uuid@), ValueView::Str(username@)]))),
        }
    }

    /// Whether an engine value stands for an alternative of this union.
    pub open spec fn matches(v: ValueView) -> bool {
        &&& is_record_variant(v)
        &&& ((v->Union_0 == 0 && variant_fields(v).len() == 1 && variant_fields(v)[0] is Str)
            || (v->Union_0 == 1 && variant_fields(v).len() == 3 && variant_fields(v)[0] is Str && is_bytes_model(variant_fields(v)[1]) && is_bytes_model(variant_fields(v)[2]))
            || (v->Union_0 == 2 && variant_fields(v).len() == 2 && variant_fields(v)[0] is Uuid && variant_fields(v)[1] is Str))
    }

    /// The shape of this union.
    pub fn shape() -> (s: Shape)
        ensures
            LoginToClient::is_shape(s),
    {
        let mut alternatives: Vec<Shape> = Vec::new();
        {
            let mut fields: Vec<Shape> = Vec::new();
            fields.push(Shape::Str);
            alternatives.push(Shape::Record(fields));
        }
        {
            let mut fields: Vec<Shape> = Vec::new();
            fields.push(Shape::Str);
            fields.push(Shape::Array(Prefix::Short, Box::new(Shape::U8)));
            fields.push(Shape::Array(Prefix::Short, Box::new(Shape::U8)));
            alternatives.push(Shape::Record(fields));
        }
        {
            let mut fields: Vec<Shape> = Vec::new();
            fields.push(Shape::Uuid);
            fields.push(Shape::Str);
            alternatives.push(Shape::Record(fields));
        }
        Shape::Union(alternatives)
    }

    /// This alternative as an engine value.
    pub fn to_value(&self) -> (v: Value)
        ensures
            v@ == self.model(),
            LoginToClient::matches(v@),
    {
        proof {
            reveal_with_fuel(model_of, 2);
        }
        match self {
            LoginToClient::Disconnect { reason } => {
                let mut fields: Vec<Value> = Vec::new();
                let item: Value = Value::Str(reason.clone());
                proof {
                    lemma_models_push(fields@, item);
                }
                fields.push(item);
                proof {
                    assert(models_of(fields@) =~= variant_fields(self.model()));
                }
                Value::Union(0, Box::new(Value::Record(fields)))
            },
            LoginToClient::EncryptionRequest { server_id, pubkey, verify_token } => {
                let mut fields: Vec<Value> = Vec::new();
                let item: Value = Value::Str(server_id.clone());
                proof {
                    lemma_models_push(fields@, item);
                }
                fields.push(item);
                let item: Value = bytes_value(pubkey.elements());
                proof {
                    lemma_models_push(fields@, item);
                }
                fields.push(item);
                let item: Value = bytes_value(verify_token.elements());
                proof {
                    lemma_models_push(fields@, item);
                }
                fields.push(item);
                proof {
                    assert(models_of(fields@) =~= variant_fields(self.model()));
                }
                Value::Union(1, Box::new(Value::Record(fields)))
            },
            LoginToClient::LoginSuccess { uuid, username } => {
                let mut fields: Vec<Value> = Vec::new();
                let item: Value = Value::Uuid(Uuid(uuid.0));
                proof {
                    lemma_models_push(fields@, item);
                }
                fields.push(item);
                let item: Value = Value::Str(username.clone());
                proof {
                    lemma_models_push(fields@, item);
                }
                fields.push(item);
                proof {
                    assert(models_of(fields@) =~= variant_fields(self.model()));
                }
                Value::Union(2, Box::new(Value::Record(fields)))
            },
        }
    }

    /// The alternative that an engine value stands for, if it stands for one.
    pub fn from_value(v: Value) -> (r: Option<LoginToClient>)
        ensures
            r is Some <==> LoginToClient::matches(v@),
            r is Some ==> r->Some_0.model() == v@,
    {
        proof {
            reveal_with_fuel(model_of, 2);
        }
        let (index, payload) = match v {
            Value::Union(index, payload) => (index, payload),
            _ => {
                return None;
            },
        };
        let mut fields: Vec<Value> = match *payload {
            Value::Record(fields) => fields,
            _ => {
                return None;
            },
        };
        let ghost all = models_of(fields@);
        if index == 0 {
            if fields.len() != 1 {
                return None;
            }
            proof {
                assert(all[0] == model_of(fields@[0]));
            }
            let reason: String = match fields.pop() {
                Some(Value::Str(x)) => x,
                _ => {
                    return None;
                },
            };
            let r = LoginToClient::Disconnect { reason };
            proof {
                assert(variant_fields(r.model()) =~= all);
            }
            Some(r)
        } else if index == 1 {
            if fields.len() != 3 {
                return None;
            }
            proof {
                assert(all[0] == model_of(fields@[0]));
                assert(all[1] == model_of(fields@[1]));
                assert(all[2] == model_of(fields@[2]));
            }
            let verify_token: ShortPrefix<u8> = match fields.pop() {
                Some(x) => match value_bytes(x) {
                    Some(y) => ShortPrefix::new(y),
                    None => {
                        return None;
                    },
                },
                _ => {
                    return None;
                },
            };
            let pubkey: ShortPrefix<u8> = match fields.pop() {
                Some(x) => match value_bytes(x) {
                    Some(y) => ShortPrefix::new(y),
                    None => {
                        return None;
                    },
                },
                _ => {
                    return None;
                },
            };
            let server_id: String = match fields.pop() {
                Some(Value::Str(x)) => x,
                _ => {
                    return None;
                },
            };
            let r = LoginToClient::EncryptionRequest { server_id, pubkey, verify_token };
            proof {
                assert(variant_fields(r.model()) =~= all);
            }
            Some(r)
        } else if index == 2 {
            if fields.len() != 2 {
                return None;
            }
            proof {
                assert(all[0] == model_of(fields@[0]));
                assert(all[1] == model_of(fields@[1]));
            }
            let username: String = match fields.pop() {
                Some(Value::Str(x)) => x,
                _ => {
                    return None;
                },
            };
            let uuid: Uuid = match fields.pop() {
                Some(Value::Uuid(x)) => x,
                _ => {
                    return None;
                },
            };
            let r = LoginToClient::LoginSuccess { uuid, username };
            proof {
                assert(variant_fields(r.model()) =~= all);
            }
            Some(r)
        } else {
            None
        }
    }
}

/// The messages that a client sends in the login phase.
#[derive(Debug, PartialEq)]
pub enum LoginToServer {
    LoginStart { name: String },
    EncryptionResponse { shared_secret: ShortPrefix<u8>, verify_token: ShortPrefix<u8> },
}

impl LoginToServer {
    /// Whether `s` is the shape of this union: one record for each
    /// alternative, in the declared order.
    pub open spec fn is_shape(s: Shape) -> bool {
        &&& s is Union
        &&& s->Union_0@.len() == 2
        &&& s->Union_0@[0] is Record
        &&& s->Union_0@[0]->Record_0@.len() == 1
        &&& s->Union_0@[0]->Record_0@[0] == Shape::Str
        &&& s->Union_0@[1] is Record
        &&& s->Union_0@[1]->Record_0@.len() == 2
        &&& s->Union_0@[1]->Record_0@[0] == Shape::Array(Prefix::Short, Box::new(Shape::U8))
        &&& s->Union_0@[1]->Record_0@[1] == Shape::Array(Prefix::Short, Box::new(Shape::U8))
    }

    /// The engine value that stands for this alternative: its index and the
    /// record of its fields.
    pub open spec fn model(&self) -> ValueView {
        match *self {
            LoginToServer::LoginStart { name } => ValueView::Union(0, Box::new(ValueView::Record(seq![ValueView::Str(name@)]))),
            LoginToServer::EncryptionResponse { shared_secret, verify_token } => ValueView::Union(1, Box::new(ValueView::Record(seq![bytes_model(shared_secret@), bytes_model(verify_token@)]))),
        }
    }

    /// Whether an engine value stands for an alternative of this union.
    pub open spec fn matches(v: ValueView) -> bool {
        &&& is_record_variant(v)
        &&& ((v->Union_0 == 0 && variant_fields(v).len() == 1 && variant_fields(v)[0] is Str)
            || (v->Union_0 == 1 && variant_fields(v).len() == 2 && is_bytes_model(variant_fields(v)[0]) && is_bytes_model(variant_fields(v)[1])))
    }

    /// The shape of this union.
    pub fn shape() -> (s: Shape)
        ensures
            LoginToServer::is_shape(s),
    {
        let mut alternatives: Vec<Shape> = Vec::new();
        {
            let mut fields: Vec<Shape> = Vec::new();
            fields.push(Shape::Str);
            alternatives.push(Shape::Record(fields));
        }
        {
            let mut fields: Vec<Shape> = Vec::new();
            fields.push(Shape::Array(Prefix::Short, Box::new(Shape::U8)));
            fields.push(Shape::Array(Prefix::Short, Box::new(Shape::U8)));
            alternatives.push(Shape::Record(fields));
        }
        Shape::Union(alternatives)
    }

    /// This alternative as an engine value.
    pub fn to_value(&self) -> (v: Value)
        ensures
            v@ == self.model(),
            LoginToServer::matches(v@),
    {
        proof {
            reveal_with_fuel(model_of, 2);
        }
        match self {
            LoginToServer::LoginStart { name } => {
                let mut fields: Vec<Value> = Vec::new();
                let item: Value = Value::Str(name.clone());
                proof {
                    lemma_models_push(fields@, item);
                }
                fields.push(item);
                proof {
                    assert(models_of(fields@) =~= variant_fields(self.model()));
                }
                Value::Union(0, Box::new(Value::Record(fields)))
            },
            LoginToServer::EncryptionResponse { shared_secret, verify_token } => {
                let mut fields: Vec<Value> = Vec::new();
                let item: Value = bytes_value(shared_secret.elements());
                proof {
                    lemma_models_push(fields@, item);
                }
                fields.push(item);
                let item: Value = bytes_value(verify_token.elements());
                proof {
                    lemma_models_push(fields@, item);
                }
                fields.push(item);
                proof {
                    assert(models_of(fields@) =~= variant_fields(self.model()));
                }
                Value::Union(1, Box::new(Value::Record(fields)))
            },
        }
    }

    /// The alternative that an engine value stands for, if it stands for one.
    pub fn from_value(v: Value) -> (r: Option<LoginToServer>)
        ensures
            r is Some <==> LoginToServer::matches(v@),
            r is Some ==> r->Some_0.model() == v@,
    {
        proof {
            reveal_with_fuel(model_of, 2);
        }
        let (index, payload) = match v {
            Value::Union(index, payload) => (index, payload),
            _ => {
                return None;
            },
        };
        let mut fields: Vec<Value> = match *payload {
            Value::Record(fields) => fields,
            _ => {
                return None;
            },
        };
        let ghost all = models_of(fields@);
        if index == 0 {
            if fields.len() != 1 {
                return None;
            }
            proof {
                assert(all[0] == model_of(fields@[0]));
            }
            let name: String = match fields.pop() {
                Some(Value::Str(x)) => x,
                _ => {
                    return None;
                },
            };
            let r = LoginToServer::LoginStart { name };
            proof {
                assert(variant_fields(r.model()) =~= all);
            }
            Some(r)
        } else if index == 1 {
            if fields.len() != 2 {
                return None;
            }
            proof {
                assert(all[0] == model_of(fields@[0]));
                assert(all[1] == model_of(fields@[1]));
            }
            let verify_token: ShortPrefix<u8> = match fields.pop() {
                Some(x) => match value_bytes(x) {
                    Some(y) => ShortPrefix::new(y),
                    None => {
                        return None;
                    },
                },
                _ => {
                    return None;
                },
            };
            let shared_secret: ShortPrefix<u8> = match fields.pop() {
                Some(x) => match value_bytes(x) {
                    Some(y) => ShortPrefix::new(y),
                    None => {
                        return None;
                    },
                },
                _ => {
                    return None;
                },
            };
            let r = LoginToServer::EncryptionResponse { shared_secret, verify_token };
            proof {
                assert(variant_fields(r.model()) =~= all);
            }
            Some(r)
        } else {
            None
        }
    }
}

/// The players of a status response: how many may join, how many have, and
/// a sample of them. The sample is a sequence without a declared count, so
/// the record has no wire form; it travels inside the status text.
#[derive(Debug, Clone, PartialEq, Eq)]
pub struct Players {
    pub max: i32,
    pub online: i32,
    pub sample: Option<Vec<Sample>>,
}

impl Players {
    /// Whether `s` is the shape of this record.
    pub open spec fn is_shape(s: Shape) -> bool {
        &&& s is Record
        &&& s->Record_0@.len() == 3
        &&& s->Record_0@[0] == Shape::I32
        &&& s->Record_0@[1] == Shape::I32
        &&& s->Record_0@[2] == Shape::Optional(Box::new(Shape::Sequence))
    }

    /// The shape of this record.
    pub fn shape() -> (s: Shape)
        ensures
            Players::is_shape(s),
    {
        let mut fields: Vec<Shape> = Vec::new();
        fields.push(Shape::I32);
        fields.push(Shape::I32);
        fields.push(Shape::Optional(Box::new(Shape::Sequence)));
        Shape::Record(fields)
    }
}

/// What a server answers to a status request. It travels as text; its shape
/// says why it cannot travel as a record.
#[derive(Debug, Clone, PartialEq, Eq)]
pub struct Response {
    pub description: String,
    pub favicon: Option<String>,
    pub players: Players,
    pub version: Version,
}

impl Response {
    /// Whether `s` is the shape of this record.
    pub open spec fn is_shape(s: Shape) -> bool {
        &&& s is Record
        &&& s->Record_0@.len() == 4
        &&& s->Record_0@[0] == Shape::Str
        &&& s->Record_0@[1] == Shape::Optional(Box::new(Shape::Str))
        &&& Players::is_shape(s->Record_0@[2])
        &&& Version::is_shape(s->Record_0@[3])
    }

    /// The shape of this record.
    pub fn shape() -> (s: Shape)
        ensures
            Response::is_shape(s),
    {
        let mut fields: Vec<Shape> = Vec::new();
        fields.push(Shape::Str);
        fields.push(Shape::Optional(Box::new(Shape::Str)));
        fields.push(Players::shape());
        fields.push(Version::shape());
        Shape::Record(fields)
    }
}

/// One property of an entity: its key, its value as the bit pattern of a
/// 64-bit float, and its modifiers.
#[derive(Debug, PartialEq)]
pub struct Property {
    pub key: String,
    pub value: u64,
    pub modifiers: ShortPrefix<ModifierData>,
}

impl Property {
    /// Whether `s` is the shape of this record.
    pub open spec fn is_shape(s: Shape) -> bool {
        &&& s is Record
        &&& s->Record_0@.len() == 3
        &&& s->Record_0@[0] == Shape::Str
        &&& s->Record_0@[1] == Shape::F64
        &&& s->Record_0@[2] is Array
        &&& s->Record_0@[2]->Array_0 == Prefix::Short
        &&& ModifierData::is_shape(*s->Record_0@[2]->Array_1)
    }

    /// The shape of this record.
    pub fn shape() -> (s: Shape)
        ensures
            Property::is_shape(s),
    {
        let mut fields: Vec<Shape> = Vec::new();
        fields.push(Shape::Str);
        fields.push(Shape::F64);
        fields.push(Shape::Array(Prefix::Short, Box::new(ModifierData::shape())));
        Shape::Record(fields)
    }
}

} // verus!
