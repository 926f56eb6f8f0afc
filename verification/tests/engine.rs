use mcproto::de::{from_bytes, CountedSeq};
use mcproto::engine::{decode_at, encode_into};
use mcproto::error::Error;
use mcproto::ser::{to_bytes, Compound};
use mcproto::shape::{Prefix, Shape};
use mcproto::value::Value;
use mcproto::{deserialize, serialize, MCProtoDeserializer, MCProtoSerializer};

fn optional(inner: Shape) -> Shape {
    Shape::Optional(Box::new(inner))
}

fn array(p: Prefix, elem: Shape) -> Shape {
    Shape::Array(p, Box::new(elem))
}

fn some(v: Value) -> Value {
    Value::Optional(Some(Box::new(v)))
}

fn round_trip(shape: &Shape, value: &Value) -> Vec<u8> {
    let bytes = to_bytes(value, shape).unwrap();
    let mut padded = bytes.clone();
    padded.extend_from_slice(&[0xde, 0xad]);
    let (back, used) = decode_at(shape, &padded, 0).unwrap();
    assert_eq!(&back, value);
    assert_eq!(used, bytes.len());
    bytes
}

#[test]
fn scalars_round_trip_through_the_engine() {
    assert_eq!(round_trip(&Shape::Bool, &Value::Bool(true)), vec![1]);
    assert_eq!(round_trip(&Shape::I8, &Value::I8(-5)), vec![0xfb]);
    assert_eq!(round_trip(&Shape::I16, &Value::I16(258)), vec![1, 2]);
    assert_eq!(round_trip(&Shape::I32, &Value::I32(-1)), vec![0xff; 4]);
    assert_eq!(round_trip(&Shape::I64, &Value::I64(1)), vec![0, 0, 0, 0, 0, 0, 0, 1]);
    assert_eq!(round_trip(&Shape::U8, &Value::U8(200)), vec![200]);
    assert_eq!(round_trip(&Shape::U16, &Value::U16(0xfffe)), vec![0xff, 0xfe]);
    assert_eq!(round_trip(&Shape::U32, &Value::U32(7)), vec![0, 0, 0, 7]);
    assert_eq!(round_trip(&Shape::U64, &Value::U64(u64::MAX)), vec![0xff; 8]);
    assert_eq!(round_trip(&Shape::U128, &Value::U128(1)).len(), 16);
    assert_eq!(round_trip(&Shape::F32, &Value::F32(1.0f32.to_bits())), vec![0x3f, 0x80, 0, 0]);
    assert_eq!(round_trip(&Shape::F64, &Value::F64(1.0f64.to_bits())), vec![0x3f, 0xf0, 0, 0, 0, 0, 0, 0]);
    assert_eq!(round_trip(&Shape::VarInt, &Value::VarInt(300)), vec![0xac, 0x02]);
    assert_eq!(round_trip(&Shape::VarLong, &Value::VarLong(-1)).len(), 10);
    assert_eq!(round_trip(&Shape::Str, &Value::Str("hi".to_string())), vec![2, b'h', b'i']);
}

#[test]
fn a_value_of_another_shape_has_no_wire_form() {
    assert_eq!(to_bytes(&Value::I16(1), &Shape::I32), Err(Error::UnsupportedShape));
    assert_eq!(to_bytes(&Value::Bool(true), &Shape::Str), Err(Error::UnsupportedShape));
    assert_eq!(to_bytes(&Value::VarInt(1), &Shape::I32), Err(Error::UnsupportedShape));
    assert_eq!(to_bytes(&Value::Record(vec![]), &Shape::Union(vec![])), Err(Error::UnsupportedShape));
    assert_eq!(to_bytes(&Value::U8(1), &optional(Shape::U8)), Err(Error::UnsupportedShape));
}

#[test]
fn shapes_without_a_wire_form_are_unsupported() {
    for shape in [Shape::Char, Shape::Unit, Shape::Bytes, Shape::Sequence, Shape::Mapping] {
        assert!(!shape.is_supported());
        assert_eq!(from_bytes(&[0, 0, 0, 0], &shape), Err(Error::UnsupportedShape));
        assert_eq!(to_bytes(&Value::U8(0), &shape), Err(Error::UnsupportedShape));
    }
    assert!(Shape::I32.is_supported());
    assert!(optional(Shape::Char).is_supported());
}

#[test]
fn absent_optional_is_the_two_byte_marker() {
    let shape = optional(Shape::I32);
    let bytes = to_bytes(&Value::Optional(None), &shape).unwrap();
    assert_eq!(bytes, vec![0xff, 0xff]);
    let (v, used) = decode_at(&shape, &[0xff, 0xff, 0x01, 0x02], 0).unwrap();
    assert_eq!(v, Value::Optional(None));
    assert_eq!(used, 2);
}

#[test]
fn present_optional_is_the_payload_itself() {
    let shape = optional(Shape::I32);
    let bytes = round_trip(&shape, &some(Value::I32(5)));
    assert_eq!(bytes, vec![0, 0, 0, 5]);
    let shape = optional(Shape::Str);
    let bytes = round_trip(&shape, &some(Value::Str("abc".to_string())));
    assert_eq!(bytes, vec![3, b'a', b'b', b'c']);
}

#[test]
fn optional_peeks_two_bytes_even_for_a_one_byte_payload() {
    let shape = optional(Shape::U8);
    assert_eq!(from_bytes(&[7], &shape), Err(Error::TruncatedInput));
    let (v, used) = decode_at(&shape, &[7, 9], 0).unwrap();
    assert_eq!(v, some(Value::U8(7)));
    assert_eq!(used, 1);
    assert_eq!(from_bytes(&[], &shape), Err(Error::TruncatedInput));
}

#[test]
fn a_payload_that_begins_with_the_marker_reads_as_absent() {
    let shape = optional(Shape::I32);
    let bytes = to_bytes(&some(Value::I32(-1)), &shape).unwrap();
    assert_eq!(bytes, vec![0xff, 0xff, 0xff, 0xff]);
    let (v, used) = decode_at(&shape, &bytes, 0).unwrap();
    assert_eq!(v, Value::Optional(None));
    assert_eq!(used, 2);
}

#[test]
fn optional_error_inside_is_handed_on() {
    let shape = optional(Shape::I64);
    assert_eq!(from_bytes(&[0, 0, 0, 1], &shape), Err(Error::TruncatedInput));
}

#[test]
fn records_are_fields_in_order() {
    let shape = Shape::Record(vec![Shape::U8, Shape::Str, Shape::VarInt, Shape::Bool]);
    let value = Value::Record(vec![
        Value::U8(9),
        Value::Str("ab".to_string()),
        Value::VarInt(128),
        Value::Bool(false),
    ]);
    assert_eq!(round_trip(&shape, &value), vec![9, 2, b'a', b'b', 0x80, 0x01, 0]);
}

#[test]
fn empty_record_takes_no_bytes() {
    let shape = Shape::unit_variant();
    assert_eq!(round_trip(&shape, &Value::Record(vec![])), Vec::<u8>::new());
    assert_eq!(from_bytes(&[], &shape), Ok(Value::Record(vec![])));
}

#[test]
fn record_with_wrong_field_count_is_refused() {
    let shape = Shape::Record(vec![Shape::U8, Shape::U8]);
    assert_eq!(to_bytes(&Value::Record(vec![Value::U8(1)]), &shape), Err(Error::UnsupportedShape));
    assert_eq!(
        to_bytes(&Value::Record(vec![Value::U8(1), Value::U8(2), Value::U8(3)]), &shape),
        Err(Error::UnsupportedShape)
    );
}

#[test]
fn record_error_leaves_nothing_written() {
    let shape = Shape::Record(vec![Shape::U8, Shape::U16]);
    let mut out: Vec<u8> = vec![0x11];
    let bad = Value::Record(vec![Value::U8(1), Value::U8(2)]);
    assert_eq!(encode_into(&shape, &bad, &mut out), Err(Error::UnsupportedShape));
    assert_eq!(out, vec![0x11]);
}

#[test]
fn record_truncated_in_a_later_field() {
    let shape = Shape::Record(vec![Shape::U8, Shape::I32]);
    assert_eq!(from_bytes(&[1, 0, 0], &shape), Err(Error::TruncatedInput));
}

#[test]
fn union_is_index_then_payload() {
    let shape = Shape::Union(vec![
        Shape::unit_variant(),
        Shape::Record(vec![Shape::I64]),
        Shape::Str,
    ]);
    assert_eq!(round_trip(&shape, &Value::Union(0, Box::new(Value::Record(vec![])))), vec![0]);
    assert_eq!(
        round_trip(&shape, &Value::Union(1, Box::new(Value::Record(vec![Value::I64(2)])))),
        vec![1, 0, 0, 0, 0, 0, 0, 0, 2]
    );
    assert_eq!(
        round_trip(&shape, &Value::Union(2, Box::new(Value::Str("x".to_string())))),
        vec![2, 1, b'x']
    );
}

#[test]
fn union_index_out_of_range_is_unsupported() {
    let shape = Shape::Union(vec![Shape::unit_variant(), Shape::U8]);
    assert_eq!(from_bytes(&[2, 0], &shape), Err(Error::UnsupportedShape));
    assert_eq!(from_bytes(&[0x7f], &shape), Err(Error::UnsupportedShape));
    assert_eq!(from_bytes(&[0xff, 0xff, 0xff, 0xff, 0x0f], &shape), Err(Error::UnsupportedShape));
    assert_eq!(from_bytes(&[], &shape), Err(Error::TruncatedInput));
    assert_eq!(from_bytes(&[0xff, 0xff, 0xff, 0xff, 0x1f], &shape), Err(Error::MalformedVarInt));
    assert_eq!(
        to_bytes(&Value::Union(2, Box::new(Value::U8(0))), &shape),
        Err(Error::UnsupportedShape)
    );
    assert_eq!(from_bytes(&[0], &Shape::Union(vec![])), Err(Error::UnsupportedShape));
}

#[test]
fn union_of_many_variants_selects_each() {
    let n: u32 = 200;
    let shape = Shape::Union((0..n).map(|_| Shape::U8).collect());
    for k in [0u32, 1, 127, 128, 199] {
        let value = Value::Union(k, Box::new(Value::U8(k as u8)));
        let bytes = round_trip(&shape, &value);
        if k < 128 {
            assert_eq!(bytes, vec![k as u8, k as u8]);
        } else {
            assert_eq!(bytes.len(), 3);
        }
    }
    assert_eq!(from_bytes(&[0xc8, 0x01, 0], &shape), Err(Error::UnsupportedShape));
}

#[test]
fn sequences_under_each_prefix() {
    let items = Value::Array(vec![Value::U8(7), Value::U8(8)]);
    assert_eq!(round_trip(&array(Prefix::UByte, Shape::U8), &items), vec![2, 7, 8]);
    assert_eq!(round_trip(&array(Prefix::Byte, Shape::U8), &items), vec![2, 7, 8]);
    assert_eq!(round_trip(&array(Prefix::Short, Shape::U8), &items), vec![0, 2, 7, 8]);
    assert_eq!(round_trip(&array(Prefix::Int, Shape::U8), &items), vec![0, 0, 0, 2, 7, 8]);
    assert_eq!(round_trip(&array(Prefix::VarInt, Shape::U8), &items), vec![2, 7, 8]);
}

#[test]
fn varint_prefixed_sequence_of_many() {
    let items = Value::Array((0..300).map(|i| Value::U8((i % 256) as u8)).collect());
    let bytes = round_trip(&array(Prefix::VarInt, Shape::U8), &items);
    assert_eq!(&bytes[0..2], &[0xac, 0x02]);
    assert_eq!(bytes.len(), 302);
}

#[test]
fn empty_sequence_is_its_count() {
    let empty = Value::Array(vec![]);
    assert_eq!(round_trip(&array(Prefix::UByte, Shape::I64), &empty), vec![0]);
    assert_eq!(round_trip(&array(Prefix::Int, Shape::I64), &empty), vec![0, 0, 0, 0]);
}

#[test]
fn sequence_count_beyond_its_prefix_is_refused() {
    let many = Value::Array((0..256).map(|_| Value::Bool(true)).collect());
    assert_eq!(to_bytes(&many, &array(Prefix::UByte, Shape::Bool)), Err(Error::LengthOverflow));
    let many = Value::Array((0..128).map(|_| Value::Bool(true)).collect());
    assert_eq!(to_bytes(&many, &array(Prefix::Byte, Shape::Bool)), Err(Error::LengthOverflow));
    assert_eq!(to_bytes(&many, &array(Prefix::UByte, Shape::Bool)).unwrap().len(), 129);
    let many = Value::Array((0..32768).map(|_| Value::Bool(true)).collect());
    assert_eq!(to_bytes(&many, &array(Prefix::Short, Shape::Bool)), Err(Error::LengthOverflow));
    assert_eq!(to_bytes(&many, &array(Prefix::Int, Shape::Bool)).unwrap().len(), 4 + 32768);
}

#[test]
fn sequence_with_negative_count_is_truncated() {
    assert_eq!(from_bytes(&[0xff, 1, 2], &array(Prefix::Byte, Shape::U8)), Err(Error::TruncatedInput));
    assert_eq!(from_bytes(&[0xff, 0xff, 1], &array(Prefix::Short, Shape::U8)), Err(Error::TruncatedInput));
    assert_eq!(
        from_bytes(&[0xff, 0xff, 0xff, 0xff, 1], &array(Prefix::Int, Shape::U8)),
        Err(Error::TruncatedInput)
    );
    assert_eq!(
        from_bytes(&[0xff, 0xff, 0xff, 0xff, 0x0f], &array(Prefix::VarInt, Shape::U8)),
        Err(Error::TruncatedInput)
    );
    assert_eq!(
        from_bytes(&[0xff], &array(Prefix::Byte, Shape::unit_variant())),
        Err(Error::TruncatedInput)
    );
}

#[test]
fn unsigned_byte_count_reads_up_to_255() {
    let mut bytes = vec![0xff];
    bytes.extend(std::iter::repeat(3u8).take(255));
    let v = from_bytes(&bytes, &array(Prefix::UByte, Shape::U8)).unwrap();
    match v {
        Value::Array(items) => assert_eq!(items.len(), 255),
        other => panic!("not a sequence: {:?}", other),
    }
}

#[test]
fn sequence_with_fewer_elements_than_counted_is_truncated() {
    assert_eq!(from_bytes(&[3, 1, 2], &array(Prefix::UByte, Shape::U8)), Err(Error::TruncatedInput));
    assert_eq!(from_bytes(&[], &array(Prefix::UByte, Shape::U8)), Err(Error::TruncatedInput));
}

#[test]
fn nested_shapes_round_trip() {
    let shape = optional(Shape::Record(vec![
        Shape::I16,
        array(
            Prefix::VarInt,
            Shape::Union(vec![Shape::unit_variant(), Shape::Record(vec![Shape::Str, optional(Shape::I32)])]),
        ),
    ]));
    let value = some(Value::Record(vec![
        Value::I16(1),
        Value::Array(vec![
            Value::Union(0, Box::new(Value::Record(vec![]))),
            Value::Union(
                1,
                Box::new(Value::Record(vec![Value::Str("k".to_string()), some(Value::I32(4))])),
            ),
            Value::Union(
                1,
                Box::new(Value::Record(vec![Value::Str("".to_string()), Value::Optional(None)])),
            ),
        ]),
    ]));
    let bytes = round_trip(&shape, &value);
    assert_eq!(bytes, vec![0, 1, 3, 0, 1, 1, b'k', 0, 0, 0, 4, 1, 0, 0xff, 0xff]);
}

#[test]
fn deeply_nested_optionals() {
    let mut shape = Shape::I32;
    let mut value = Value::I32(77);
    for _ in 0..200 {
        shape = optional(shape);
        value = some(value);
    }
    assert_eq!(round_trip(&shape, &value), vec![0, 0, 0, 77]);
}

#[test]
fn deeply_nested_records_and_unions() {
    let mut shape = Shape::U8;
    let mut value = Value::U8(9);
    for level in 0..300u32 {
        if level % 2 == 0 {
            shape = Shape::Record(vec![shape, Shape::Bool]);
            value = Value::Record(vec![value, Value::Bool(true)]);
        } else {
            shape = Shape::Union(vec![Shape::unit_variant(), shape]);
            value = Value::Union(1, Box::new(value));
        }
    }
    let bytes = to_bytes(&value, &shape).unwrap();
    assert_eq!(bytes.len(), 150 + 1 + 150);
    let (back, used) = decode_at(&shape, &bytes, 0).unwrap();
    assert_eq!(used, bytes.len());
    assert_eq!(back, value);
}

#[test]
fn nested_sequences_of_sequences() {
    let shape = array(Prefix::UByte, array(Prefix::Short, array(Prefix::VarInt, Shape::I8)));
    let value = Value::Array(vec![
        Value::Array(vec![]),
        Value::Array(vec![Value::Array(vec![Value::I8(1), Value::I8(2)]), Value::Array(vec![])]),
        Value::Array(vec![Value::Array(vec![Value::I8(-1)])]),
    ]);
    assert_eq!(
        round_trip(&shape, &value),
        vec![3, 0, 0, 0, 2, 2, 1, 2, 0, 0, 1, 1, 0xff]
    );
}

#[test]
fn an_error_deep_inside_leaves_nothing_written() {
    let shape = Shape::Record(vec![
        Shape::U8,
        array(Prefix::UByte, Shape::Record(vec![Shape::Str, optional(Shape::I16)])),
        Shape::U8,
    ]);
    let value = Value::Record(vec![
        Value::U8(1),
        Value::Array(vec![
            Value::Record(vec![Value::Str("ok".to_string()), some(Value::I16(3))]),
            Value::Record(vec![Value::Str("bad".to_string()), some(Value::I32(3))]),
        ]),
        Value::U8(2),
    ]);
    let mut out: Vec<u8> = vec![0xaa, 0xbb];
    assert_eq!(encode_into(&shape, &value, &mut out), Err(Error::UnsupportedShape));
    assert_eq!(out, vec![0xaa, 0xbb]);
    assert_eq!(
        from_bytes(&[1, 2, 2, b'o', b'k', 0, 3, 3, b'b', b'a', b'd', 0], &shape),
        Err(Error::TruncatedInput)
    );
}

#[test]
fn cursor_reads_values_in_turn_and_stays_put_on_error() {
    let mut de = MCProtoDeserializer::new(vec![1, 0, 5, 0xac, 0x02, 9]);
    assert_eq!(de.remaining(), 6);
    assert_eq!(deserialize(&mut de, &Shape::Bool), Ok(Value::Bool(true)));
    assert_eq!(de.deserialize(&Shape::I16), Ok(Value::I16(5)));
    assert_eq!(de.deserialize_varint(), Ok(300));
    assert_eq!(de.remaining(), 1);
    assert_eq!(de.deserialize(&Shape::I32), Err(Error::TruncatedInput));
    assert_eq!(de.remaining(), 1);
    assert_eq!(de.peek(), &[9]);
    assert_eq!(de.deserialize_u8(), Ok(9));
    assert_eq!(de.remaining(), 0);
    assert_eq!(de.deserialize_u8(), Err(Error::TruncatedInput));
    assert_eq!(de.into_inner(), vec![1, 0, 5, 0xac, 0x02, 9]);
}

#[test]
fn cursor_primitive_reads() {
    let mut ser = MCProtoSerializer::new(Vec::new());
    ser.serialize_bool(true).unwrap();
    ser.serialize_i8(-1).unwrap();
    ser.serialize_i16(-2).unwrap();
    ser.serialize_i32(-3).unwrap();
    ser.serialize_i64(-4).unwrap();
    ser.serialize_u8(1).unwrap();
    ser.serialize_u16(2).unwrap();
    ser.serialize_u32(3).unwrap();
    ser.serialize_u64(4).unwrap();
    ser.serialize_u128(5).unwrap();
    ser.serialize_f32(2.5f32.to_bits()).unwrap();
    ser.serialize_f64(3.5f64.to_bits()).unwrap();
    ser.serialize_varint(-1).unwrap();
    ser.serialize_varlong(1 << 40).unwrap();
    ser.serialize_str("text").unwrap();
    ser.serialize_bytes(&[0xca, 0xfe]).unwrap();
    let mut de = MCProtoDeserializer::new(ser.into_inner());
    assert_eq!(de.deserialize_bool(), Ok(true));
    assert_eq!(de.deserialize_i8(), Ok(-1));
    assert_eq!(de.deserialize_i16(), Ok(-2));
    assert_eq!(de.deserialize_i32(), Ok(-3));
    assert_eq!(de.deserialize_i64(), Ok(-4));
    assert_eq!(de.deserialize_u8(), Ok(1));
    assert_eq!(de.deserialize_u16(), Ok(2));
    assert_eq!(de.deserialize_u32(), Ok(3));
    assert_eq!(de.deserialize_u64(), Ok(4));
    assert_eq!(de.deserialize_u128(), Ok(5));
    assert_eq!(de.deserialize_f32().map(f32::from_bits), Ok(2.5f32));
    assert_eq!(de.deserialize_f64().map(f64::from_bits), Ok(3.5f64));
    assert_eq!(de.deserialize_varint(), Ok(-1));
    assert_eq!(de.deserialize_varlong(), Ok(1 << 40));
    assert_eq!(de.deserialize_string(), Ok("text".to_string()));
    assert_eq!(de.peek(), &[0xca, 0xfe]);
    de.advance(2);
    assert_eq!(de.remaining(), 0);
}

#[test]
fn cursor_optional_peek_and_splice() {
    let mut de = MCProtoDeserializer::new(vec![0xff, 0xff, 0x00, 0x07, 0x01]);
    assert_eq!(de.deserialize_option(&Shape::I16), Ok(None));
    assert_eq!(de.remaining(), 3);
    assert_eq!(de.deserialize_option(&Shape::I16), Ok(Some(Value::I16(7))));
    assert_eq!(de.remaining(), 1);
    assert_eq!(de.deserialize_option(&Shape::I16), Err(Error::TruncatedInput));
    assert_eq!(de.remaining(), 1);
}

#[test]
fn cursor_named_wrappers() {
    let mut de = MCProtoDeserializer::new(vec![0xac, 0x02, 2, 1, 0, 0x05]);
    assert_eq!(de.deserialize_newtype_struct(&Shape::VarInt), Ok(Value::VarInt(300)));
    assert_eq!(
        de.deserialize_newtype_struct(&array(Prefix::UByte, Shape::Bool)),
        Ok(Value::Array(vec![Value::Bool(true), Value::Bool(false)]))
    );
    assert_eq!(de.deserialize_newtype_struct(&Shape::I32), Err(Error::UnsupportedShape));
    assert_eq!(de.deserialize_newtype_struct(&Shape::U8), Err(Error::UnsupportedShape));
    assert_eq!(de.remaining(), 1);
    assert_eq!(de.deserialize_newtype_struct(&Shape::VarLong), Ok(Value::VarLong(5)));
}

#[test]
fn cursor_tuple_struct_and_enum() {
    let fields = vec![Shape::U8, Shape::U16];
    let mut de = MCProtoDeserializer::new(vec![1, 0, 2, 3, 0, 4, 1, 9, 5]);
    assert_eq!(de.deserialize_tuple(&fields), Ok(vec![Value::U8(1), Value::U16(2)]));
    assert_eq!(de.deserialize_struct(&fields), Ok(vec![Value::U8(3), Value::U16(4)]));
    let variants = vec![Shape::unit_variant(), Shape::U8];
    assert_eq!(de.deserialize_enum(&variants), Ok((1, Value::U8(9))));
    assert_eq!(de.deserialize_enum(&variants), Err(Error::UnsupportedShape));
    assert_eq!(de.remaining(), 1);
    assert_eq!(de.deserialize_tuple(&fields), Err(Error::TruncatedInput));
    assert_eq!(de.remaining(), 1);
}

#[test]
fn counted_sequence_hands_out_its_elements() {
    let de = MCProtoDeserializer::new(vec![1, 2, 3]);
    let mut seq = CountedSeq::new(de, 2);
    assert_eq!(seq.size_hint(), Some(2));
    assert_eq!(seq.next_element(&Shape::U8), Ok(Some(Value::U8(1))));
    assert_eq!(seq.size_hint(), Some(1));
    assert_eq!(seq.next_element(&Shape::U8), Ok(Some(Value::U8(2))));
    assert_eq!(seq.next_element(&Shape::U8), Ok(None));
    assert_eq!(seq.next_element(&Shape::U8), Ok(None));
    assert_eq!(seq.into_inner().remaining(), 1);
}

#[test]
fn counted_sequence_counts_an_element_whose_reading_failed() {
    let de = MCProtoDeserializer::new(vec![1]);
    let mut seq = CountedSeq::new(de, 3);
    assert_eq!(seq.next_element(&Shape::U16), Err(Error::TruncatedInput));
    assert_eq!(seq.size_hint(), Some(2));
    assert_eq!(seq.de.remaining(), 1);
}

#[test]
fn counted_sequence_collects() {
    let de = MCProtoDeserializer::new(vec![0, 1, 0, 2, 0, 3, 9]);
    let mut seq = CountedSeq::new(de, 3);
    assert_eq!(seq.collect(&Shape::I16), Ok(vec![Value::I16(1), Value::I16(2), Value::I16(3)]));
    assert_eq!(seq.size_hint(), Some(0));
    assert_eq!(seq.de.remaining(), 1);
    let de = MCProtoDeserializer::new(vec![0, 1, 0]);
    let mut seq = CountedSeq::new(de, 2);
    assert_eq!(seq.collect(&Shape::I16), Err(Error::TruncatedInput));
    assert_eq!(seq.size_hint(), Some(2));
    assert_eq!(seq.de.remaining(), 3);
}

#[test]
fn sink_writes_optionals_variants_and_records() {
    let mut ser = MCProtoSerializer::new(vec![0x01]);
    ser.serialize_none().unwrap();
    ser.serialize_some(&Value::U8(4), &Shape::U8).unwrap();
    ser.serialize_unit_variant(300).unwrap();
    assert_eq!(serialize(&Value::I16(2), &Shape::I16, &mut ser), Ok(()));
    assert_eq!(serialize(&Value::I16(2), &Shape::I8, &mut ser), Err(Error::UnsupportedShape));
    assert_eq!(ser.writer, vec![0x01, 0xff, 0xff, 4, 0xac, 0x02, 0, 2]);
    let mut record: Compound = ser.serialize_struct();
    record.serialize_field(&Value::Bool(true), &Shape::Bool).unwrap();
    record.serialize_field(&Value::Str("z".to_string()), &Shape::Str).unwrap();
    assert_eq!(record.serialize_field(&Value::Bool(true), &Shape::Str), Err(Error::UnsupportedShape));
    let ser = record.end();
    assert_eq!(&ser.writer[8..], &[1, 1, b'z']);
    let mut variant = MCProtoSerializer::new(Vec::new()).serialize_struct_variant(2).unwrap();
    variant.serialize_field(&Value::I64(1), &Shape::I64).unwrap();
    assert_eq!(variant.end().into_inner(), vec![2, 0, 0, 0, 0, 0, 0, 0, 1]);
    let high = MCProtoSerializer::new(Vec::new()).serialize_struct_variant(u32::MAX).unwrap();
    assert_eq!(high.end().into_inner(), vec![0xff, 0xff, 0xff, 0xff, 0x0f]);
    let mut ser = MCProtoSerializer::new(Vec::new());
    ser.serialize_unit_variant(0x8000_0000).unwrap();
    assert_eq!(ser.writer, vec![0x80, 0x80, 0x80, 0x80, 0x08]);
}

#[test]
fn a_record_written_field_by_field_reads_as_the_record() {
    let fields = vec![Shape::VarInt, Shape::Str, Shape::U16];
    let values = vec![Value::VarInt(47), Value::Str("localhost".to_string()), Value::U16(25565)];
    let mut record = MCProtoSerializer::new(Vec::new()).serialize_struct();
    for (v, s) in values.iter().zip(fields.iter()) {
        record.serialize_field(v, s).unwrap();
    }
    let bytes = record.end().into_inner();
    let whole = to_bytes(&Value::Record(vec![
        Value::VarInt(47),
        Value::Str("localhost".to_string()),
        Value::U16(25565),
    ]), &Shape::Record(vec![Shape::VarInt, Shape::Str, Shape::U16])).unwrap();
    assert_eq!(bytes, whole);
    assert_eq!(from_bytes(&bytes, &Shape::Record(fields)), Ok(Value::Record(values)));
}

#[test]
fn text_too_long_for_anything_is_still_fine_at_small_sizes() {
    let s = "a".repeat(70_000);
    let bytes = to_bytes(&Value::Str(s.clone()), &Shape::Str).unwrap();
    assert_eq!(bytes.len(), 70_003);
    assert_eq!(from_bytes(&bytes, &Shape::Str), Ok(Value::Str(s)));
}

#[test]
fn long_sequences_are_read_in_a_loop() {
    let mut bytes = vec![0x00, 0x03, 0x0d, 0x40];
    bytes.extend(std::iter::repeat(1u8).take(200_000));
    let v = from_bytes(&bytes, &array(Prefix::Int, Shape::Bool)).unwrap();
    match v {
        Value::Array(items) => assert_eq!(items.len(), 200_000),
        other => panic!("not a sequence: {:?}", other),
    }
    let wide = Shape::Record((0..50_000).map(|_| Shape::U8).collect());
    let bytes: Vec<u8> = vec![9; 50_000];
    match from_bytes(&bytes, &wide).unwrap() {
        Value::Record(fields) => assert_eq!(fields.len(), 50_000),
        other => panic!("not a record: {:?}", other),
    }
}
