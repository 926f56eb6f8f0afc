use mcproto::de::from_bytes;
use mcproto::error::Error;
use mcproto::ser::to_bytes;
use mcproto::shape::{Prefix, Shape};
use mcproto::types::array::{BytePrefix, IntPrefix, ShortPrefix, UBytePrefix, VarIntPrefix};
use mcproto::types::chunk::{parse_meta, parse_metas, write_meta, ChunkDataBulk, ChunkMeta, META_BYTES};
use mcproto::types::entity_metadata::{step_at, EntityMetadata, Entry, MetaDataSeq};
use mcproto::types::nbt::{bytes_produced, document_read, parse_span, write_span, GZIPNBT, NBT};
use mcproto::types::slot::Slot;
use mcproto::types::uuid::{Endian, Uuid, Uuidi128};
use mcproto::types::var::{VarInt, VarLong};
use mcproto::value::Value;
use mcproto::{MCProtoDeserializer, MCProtoSerializer};

fn sample_blob() -> nbt::Blob {
    let mut blob = nbt::Blob::new();
    blob.insert("name", "Herobrine").unwrap();
    blob.insert("health", 100i8).unwrap();
    blob.insert("level", 7i32).unwrap();
    blob
}

#[test]
fn varint_type_converts_and_travels() {
    let v: VarInt = VarInt::from(300);
    assert_eq!(v, VarInt(300));
    assert_eq!(i32::from(v), 300);
    let l: VarLong = VarLong::from(-1i64);
    assert_eq!(i64::from(l), -1);
    let mut ser = MCProtoSerializer::new(Vec::new());
    v.serialize(&mut ser).unwrap();
    l.serialize(&mut ser).unwrap();
    assert_eq!(ser.writer.len(), 12);
    let mut de = MCProtoDeserializer::new(ser.into_inner());
    assert_eq!(VarInt::deserialize(&mut de), Ok(VarInt(300)));
    assert_eq!(VarLong::deserialize(&mut de), Ok(VarLong(-1)));
    assert_eq!(VarInt::deserialize(&mut de), Err(Error::TruncatedInput));
}

#[test]
fn text_identifier_is_hyphenated_and_round_trips() {
    let id = Uuid([
        0x93, 0x6d, 0xa0, 0x1f, 0x9a, 0xbd, 0x4d, 0x9d, 0x80, 0xc7, 0x02, 0xaf, 0x85, 0xc8, 0x22, 0xa8,
    ]);
    let mut ser = MCProtoSerializer::new(Vec::new());
    id.serialize(&mut ser).unwrap();
    let bytes = ser.into_inner();
    assert_eq!(bytes[0], 36);
    assert_eq!(&bytes[1..], "936da01f-9abd-4d9d-80c7-02af85c822a8".as_bytes());
    let mut de = MCProtoDeserializer::new(bytes.clone());
    assert_eq!(Uuid::deserialize(&mut de), Ok(id));
    assert_eq!(de.remaining(), 0);
    assert_eq!(Uuid::decode_at(&bytes, 0), Ok((id, 37)));
    assert_eq!(to_bytes(&Value::Uuid(id), &Shape::Uuid), Ok(bytes.clone()));
    assert_eq!(from_bytes(&bytes, &Shape::Uuid), Ok(Value::Uuid(id)));
}

#[test]
fn text_identifier_accepts_the_forms_of_its_grammar() {
    let expected = Uuid([
        0x93, 0x6d, 0xa0, 0x1f, 0x9a, 0xbd, 0x4d, 0x9d, 0x80, 0xc7, 0x02, 0xaf, 0x85, 0xc8, 0x22, 0xa8,
    ]);
    for text in [
        "936DA01F-9ABD-4D9D-80C7-02AF85C822A8",
        "936da01f9abd4d9d80c702af85c822a8",
        "urn:uuid:936da01f-9abd-4d9d-80c7-02af85c822a8",
    ] {
        let mut bytes = vec![text.len() as u8];
        bytes.extend_from_slice(text.as_bytes());
        assert_eq!(Uuid::decode_at(&bytes, 0), Ok((expected, bytes.len())));
    }
}

#[test]
fn text_identifier_that_does_not_parse_is_malformed() {
    for text in ["", "not-a-uuid", "936da01f-9abd-4d9d-80c7-02af85c822a", "936da01f-9abd-4d9d-80c7-02af85c822ag"] {
        let mut bytes = vec![text.len() as u8];
        bytes.extend_from_slice(text.as_bytes());
        let mut de = MCProtoDeserializer::new(bytes.clone());
        assert_eq!(Uuid::deserialize(&mut de), Err(Error::MalformedIdentifier));
        assert_eq!(de.remaining(), bytes.len());
    }
    assert_eq!(Uuid::decode_at(&[5, b'a'], 0), Err(Error::TruncatedInput));
    assert_eq!(Uuid::decode_at(&[2, 0xc3, 0x28], 0), Err(Error::InvalidUtf8));
}

#[test]
fn text_identifier_grammar_takes_nothing_else() {
    let refused = [
        "936da01f9-abd-4d9d-80c7-02af85c822a8",
        "936da01f-9abd4-d9d-80c7-02af85c822a8",
        "936da01f-9abd-4d9d-80c702af-85c822a8",
        "936da01f-9abd-4d9d-80c7-02af85c822a-",
        "-936da01f-9abd-4d9d-80c7-02af85c822a",
        "936da01f9abd4d9d80c702af85c822a80000",
        "936da01f-9abd-4d9d-80c7-02af85c8",
        "936da01f9abd4d9d80c702af85c822a",
        "936da01f9abd4d9d80c702af85c822a8a",
        "urn:uuid:936da01f9abd4d9d80c702af85c822a8",
        "urn:uuid:936da01f9abd4d9d80c702af85c822a80000",
        "URN:UUID:936da01f-9abd-4d9d-80c7-02af85c822a8",
        "urn-uuid-936da01f-9abd-4d9d-80c7-02af85c822a8",
        "{936da01f-9abd-4d9d-80c7-02af85c822a8}",
        "936da01f 9abd 4d9d 80c7 02af85c822a8",
        "936da01f-9abd-4d9d-80c7-02af85c822\u{e9}",
        "936da01f9abd4d9d80c702af85c822\u{e9}",
    ];
    for text in refused {
        let mut bytes = vec![text.len() as u8];
        bytes.extend_from_slice(text.as_bytes());
        assert_eq!(Uuid::decode_at(&bytes, 0), Err(Error::MalformedIdentifier), "{}", text);
    }
    let expected = Uuid([
        0x93, 0x6d, 0xa0, 0x1f, 0x9a, 0xbd, 0x4d, 0x9d, 0x80, 0xc7, 0x02, 0xaf, 0x85, 0xc8, 0x22, 0xa8,
    ]);
    for text in [
        "936dA01f-9AbD-4d9D-80C7-02aF85c822A8",
        "936DA01F9ABD4D9D80C702AF85C822A8",
        "urn:uuid:936DA01F-9abd-4d9d-80c7-02af85c822a8",
    ] {
        let mut bytes = vec![text.len() as u8];
        bytes.extend_from_slice(text.as_bytes());
        assert_eq!(Uuid::decode_at(&bytes, 0), Ok((expected, bytes.len())), "{}", text);
    }
}

#[test]
fn text_identifier_of_every_byte_value_round_trips() {
    let digits = b"0123456789abcdef";
    for value in 0..=255u8 {
        let mut raw = [0u8; 16];
        for (i, byte) in raw.iter_mut().enumerate() {
            *byte = value.wrapping_add((i as u8).wrapping_mul(17));
        }
        let id = Uuid(raw);
        let mut out: Vec<u8> = Vec::new();
        assert_eq!(id.encode_into(&mut out), Ok(()));
        let mut expected: Vec<u8> = vec![36];
        for (i, byte) in raw.iter().enumerate() {
            if i == 4 || i == 6 || i == 8 || i == 10 {
                expected.push(b'-');
            }
            expected.push(digits[(byte / 16) as usize]);
            expected.push(digits[(byte % 16) as usize]);
        }
        assert_eq!(out, expected);
        assert_eq!(Uuid::decode_at(&out, 0), Ok((id, 37)));
    }
}

fn digit_value(c: u8) -> Option<u8> {
    match c {
        b'0'..=b'9' => Some(c - b'0'),
        b'a'..=b'f' => Some(c - b'a' + 10),
        b'A'..=b'F' => Some(c - b'A' + 10),
        _ => None,
    }
}

fn spelled_plain(text: &[u8]) -> Option<[u8; 16]> {
    if text.len() != 32 {
        return None;
    }
    let mut id = [0u8; 16];
    for j in 0..16 {
        id[j] = 16 * digit_value(text[2 * j])? + digit_value(text[2 * j + 1])?;
    }
    Some(id)
}

fn spelled_hyphenated(text: &[u8]) -> Option<[u8; 16]> {
    if text.len() != 36 || text[8] != b'-' || text[13] != b'-' || text[18] != b'-' || text[23] != b'-' {
        return None;
    }
    let mut digits: Vec<u8> = Vec::new();
    digits.extend_from_slice(&text[0..8]);
    digits.extend_from_slice(&text[9..13]);
    digits.extend_from_slice(&text[14..18]);
    digits.extend_from_slice(&text[19..23]);
    digits.extend_from_slice(&text[24..36]);
    spelled_plain(&digits)
}

fn spelled(text: &[u8]) -> Option<[u8; 16]> {
    if text.len() == 45 && &text[0..9] == b"urn:uuid:" {
        spelled_hyphenated(&text[9..])
    } else if text.len() == 36 {
        spelled_hyphenated(text)
    } else {
        spelled_plain(text)
    }
}

fn next_random(state: &mut u64) -> usize {
    *state = state.wrapping_mul(6364136223846793005).wrapping_add(1442695040888963407);
    (*state >> 33) as usize
}

#[test]
fn text_identifier_grammar_is_the_parsers_on_many_texts() {
    let alphabet = b"0123456789abcdefABCDEF--gu:rnid {";
    let lower = b"0123456789abcdef";
    let either = b"0123456789abcdefABCDEF";
    let mut state: u64 = 0x5eed;
    let mut accepted: usize = 0;
    let mut refused: usize = 0;
    for round in 0..60000 {
        let mut text: Vec<u8> = Vec::new();
        let form = next_random(&mut state) % 3;
        if form == 2 {
            text.extend_from_slice(b"urn:uuid:");
        }
        for k in 0..32 {
            if form != 0 && (k == 8 || k == 12 || k == 16 || k == 20) {
                text.push(b'-');
            }
            if round % 2 == 0 {
                text.push(lower[next_random(&mut state) % lower.len()]);
            } else {
                text.push(either[next_random(&mut state) % either.len()]);
            }
        }
        for _ in 0..(next_random(&mut state) % 3) {
            let at = next_random(&mut state) % text.len();
            let c = alphabet[next_random(&mut state) % alphabet.len()];
            match next_random(&mut state) % 4 {
                0 => text[at] = c,
                1 => text.insert(at, c),
                2 => {
                    text.remove(at);
                },
                _ => {
                    let other = (at + 1) % text.len();
                    text.swap(at, other);
                },
            }
        }
        let mut bytes = vec![text.len() as u8];
        bytes.extend_from_slice(&text);
        let expected = match spelled(&text) {
            Some(id) => {
                accepted += 1;
                Ok((Uuid(id), bytes.len()))
            },
            None => {
                refused += 1;
                Err(Error::MalformedIdentifier)
            },
        };
        assert_eq!(Uuid::decode_at(&bytes, 0), expected, "{:?}", String::from_utf8_lossy(&text));
    }
    assert!(accepted > 10000);
    assert!(refused > 10000);
}

#[test]
fn identifier_from_an_outside_parse() {
    assert_eq!(Uuid::from_parsed(Some([7; 16])), Ok(Uuid([7; 16])));
    assert_eq!(Uuid::from_parsed(None), Err(Error::MalformedIdentifier));
}

#[test]
fn raw_identifier_is_a_big_endian_integer_on_the_wire() {
    let id = Uuidi128(0x0011_2233_4455_6677_8899_aabb_ccdd_eeff);
    let mut ser = MCProtoSerializer::new(Vec::new());
    id.serialize(&mut ser).unwrap();
    let bytes = ser.into_inner();
    assert_eq!(
        bytes,
        vec![0x00, 0x11, 0x22, 0x33, 0x44, 0x55, 0x66, 0x77, 0x88, 0x99, 0xaa, 0xbb, 0xcc, 0xdd, 0xee, 0xff]
    );
    let mut de = MCProtoDeserializer::new(bytes.clone());
    assert_eq!(Uuidi128::deserialize(&mut de), Ok(id));
    assert_eq!(from_bytes(&bytes, &Shape::Uuidi128), Ok(Value::Uuidi128(id)));
    assert_eq!(to_bytes(&Value::Uuidi128(id), &Shape::Uuidi128), Ok(bytes));
    assert_eq!(from_bytes(&[0; 15], &Shape::Uuidi128), Err(Error::TruncatedInput));
}

#[test]
fn raw_identifier_bytes_follow_the_machine_order() {
    let bytes: [u8; 16] = [1, 2, 3, 4, 5, 6, 7, 8, 9, 10, 11, 12, 13, 14, 15, 16];
    let big = u128::from_be_bytes(bytes);
    let little = u128::from_le_bytes(bytes);
    assert_ne!(big, little);
    assert_eq!(Uuidi128::from_bytes(&bytes, Endian::Big).0, big);
    assert_eq!(Uuidi128::from_bytes(&bytes, Endian::Little).0, little);
    assert_eq!(Uuidi128(big).to_bytes(Endian::Big), bytes);
    assert_eq!(Uuidi128(little).to_bytes(Endian::Little), bytes);
    assert_eq!(Uuidi128::order_of(1), Endian::Big);
    assert_eq!(Uuidi128::order_of(1 << 120), Endian::Little);
    let order = Uuidi128::native_order();
    if u16::from_ne_bytes([1, 0]) == 1 {
        assert_eq!(order, Endian::Little);
    } else {
        assert_eq!(order, Endian::Big);
    }
    let id = Uuidi128::from_bytes(&bytes, order);
    assert_eq!(id.0, u128::from_ne_bytes(bytes));
    assert_eq!(id.to_bytes(order), bytes);
}

#[test]
fn spans_are_length_prefixed() {
    let mut out: Vec<u8> = Vec::new();
    assert_eq!(write_span(&[9, 8, 7], &mut out), Ok(()));
    assert_eq!(out, vec![0, 3, 9, 8, 7]);
    assert_eq!(parse_span(&out, 0), Ok((vec![9, 8, 7], 5)));
    assert_eq!(parse_span(&[0, 3, 9, 8], 0), Err(Error::TruncatedInput));
    assert_eq!(parse_span(&[0], 0), Err(Error::TruncatedInput));
    assert_eq!(parse_span(&[0, 0, 1], 0), Ok((vec![], 2)));
    let big = vec![0u8; 65536];
    let mut out: Vec<u8> = vec![1];
    assert_eq!(write_span(&big, &mut out), Err(Error::LengthOverflow));
    assert_eq!(out, vec![1]);
    let mut out: Vec<u8> = Vec::new();
    assert_eq!(write_span(&big[..65535], &mut out), Ok(()));
    assert_eq!(&out[0..2], &[0xff, 0xff]);
}

#[test]
fn outside_results_map_to_the_document_error() {
    assert_eq!(document_read(None), Err(Error::EmbeddedDocumentError));
    assert_eq!(document_read(Some(sample_blob())), Ok(sample_blob()));
    assert_eq!(bytes_produced(None), Err(Error::EmbeddedDocumentError));
    assert_eq!(bytes_produced(Some(vec![1, 2])), Ok(vec![1, 2]));
}

#[test]
fn plain_document_round_trips() {
    let doc = NBT(sample_blob());
    let mut ser = MCProtoSerializer::new(Vec::new());
    doc.serialize(&mut ser).unwrap();
    let bytes = ser.into_inner();
    let span_len = ((bytes[0] as usize) << 8) | bytes[1] as usize;
    assert_eq!(span_len, bytes.len() - 2);
    assert_eq!(bytes[2], 0x0a);
    assert_eq!(*bytes.last().unwrap(), 0x00);
    let mut raw: Vec<u8> = Vec::new();
    sample_blob().to_writer(&mut raw).unwrap();
    assert_eq!(&bytes[2..], &raw[..]);
    let mut de = MCProtoDeserializer::new(bytes.clone());
    assert_eq!(NBT::deserialize(&mut de), Ok(NBT(sample_blob())));
    assert_eq!(de.remaining(), 0);
    assert_eq!(from_bytes(&bytes, &Shape::Nbt), Ok(Value::Nbt(NBT(sample_blob()))));
    assert_eq!(to_bytes(&Value::Nbt(NBT(sample_blob())), &Shape::Nbt), Ok(bytes));
}

#[test]
fn document_keeps_the_order_of_its_entries() {
    let doc = NBT(sample_blob());
    let mut ser = MCProtoSerializer::new(Vec::new());
    doc.serialize(&mut ser).unwrap();
    let first = ser.into_inner();
    for _ in 0..5 {
        let mut de = MCProtoDeserializer::new(first.clone());
        let back = NBT::deserialize(&mut de).unwrap();
        let mut ser = MCProtoSerializer::new(Vec::new());
        back.serialize(&mut ser).unwrap();
        assert_eq!(ser.into_inner(), first);
    }
}

#[test]
fn compressed_document_round_trips() {
    let doc = GZIPNBT(sample_blob());
    let mut ser = MCProtoSerializer::new(Vec::new());
    doc.serialize(&mut ser).unwrap();
    let bytes = ser.into_inner();
    let span_len = ((bytes[0] as usize) << 8) | bytes[1] as usize;
    assert_eq!(span_len, bytes.len() - 2);
    assert_eq!(&bytes[2..4], &[0x1f, 0x8b]);
    let mut de = MCProtoDeserializer::new(bytes.clone());
    assert_eq!(GZIPNBT::deserialize(&mut de), Ok(GZIPNBT(sample_blob())));
    assert_eq!(de.remaining(), 0);
    assert_eq!(from_bytes(&bytes, &Shape::GzipNbt), Ok(Value::GzipNbt(GZIPNBT(sample_blob()))));
    assert_eq!(from_bytes(&bytes, &Shape::Nbt), Err(Error::EmbeddedDocumentError));
}

#[test]
fn documents_that_do_not_parse_are_document_errors() {
    assert_eq!(from_bytes(&[0, 3, 1, 2, 3], &Shape::Nbt), Err(Error::EmbeddedDocumentError));
    assert_eq!(from_bytes(&[0, 0], &Shape::Nbt), Err(Error::EmbeddedDocumentError));
    assert_eq!(from_bytes(&[0, 3, 1, 2, 3], &Shape::GzipNbt), Err(Error::EmbeddedDocumentError));
    assert_eq!(from_bytes(&[0, 3, 1, 2], &Shape::Nbt), Err(Error::TruncatedInput));
    assert_eq!(from_bytes(&[0], &Shape::GzipNbt), Err(Error::TruncatedInput));
    let mut de = MCProtoDeserializer::new(vec![0, 1, 9, 7]);
    assert_eq!(NBT::deserialize(&mut de), Err(Error::EmbeddedDocumentError));
    assert_eq!(de.remaining(), 4);
}

#[test]
fn plain_document_in_a_compressed_span_is_a_document_error() {
    let plain = to_bytes(&Value::Nbt(NBT(sample_blob())), &Shape::Nbt).unwrap();
    assert_eq!(from_bytes(&plain, &Shape::GzipNbt), Err(Error::EmbeddedDocumentError));
}

#[test]
fn item_stack_without_a_document() {
    let slot = Slot { id: 276, count: 1, damage: 3, tag: None };
    let mut ser = MCProtoSerializer::new(Vec::new());
    slot.serialize(&mut ser).unwrap();
    let bytes = ser.into_inner();
    assert_eq!(bytes, vec![0x01, 0x14, 1, 0, 3, 0xff, 0xff]);
    assert_eq!(Slot::decode_at(&bytes, 0), Ok((Slot { id: 276, count: 1, damage: 3, tag: None }, 7)));
    let mut de = MCProtoDeserializer::new(bytes);
    assert_eq!(Slot::deserialize(&mut de), Ok(slot));
}

#[test]
fn item_stack_with_a_document() {
    let slot = Slot { id: 1, count: 64, damage: 0, tag: Some(GZIPNBT(sample_blob())) };
    let bytes = to_bytes(&Value::Slot(slot), &Shape::Slot).unwrap();
    assert_eq!(&bytes[0..5], &[0, 1, 64, 0, 0]);
    assert_eq!(&bytes[7..9], &[0x1f, 0x8b]);
    let back = from_bytes(&bytes, &Shape::Slot).unwrap();
    assert_eq!(
        back,
        Value::Slot(Slot { id: 1, count: 64, damage: 0, tag: Some(GZIPNBT(sample_blob())) })
    );
    assert_eq!(from_bytes(&bytes[..bytes.len() - 1], &Shape::Slot), Err(Error::TruncatedInput));
    assert_eq!(from_bytes(&bytes[..6], &Shape::Slot), Err(Error::TruncatedInput));
    assert_eq!(from_bytes(&bytes[..4], &Shape::Slot), Err(Error::TruncatedInput));
}

#[test]
fn optional_item_stack_is_absent_when_its_id_is_minus_one() {
    let shape = Shape::Optional(Box::new(Shape::Slot));
    assert_eq!(from_bytes(&[0xff, 0xff, 9], &shape), Ok(Value::Optional(None)));
    let bytes = vec![0x00, 0x05, 2, 0, 0, 0xff, 0xff];
    assert_eq!(
        from_bytes(&bytes, &shape),
        Ok(Value::Optional(Some(Box::new(Value::Slot(Slot { id: 5, count: 2, damage: 0, tag: None })))))
    );
}

#[test]
fn attribute_list_with_one_byte_entry() {
    let (meta, used) = EntityMetadata::decode_at(&[0x40, 0x05, 0x7f], 0).unwrap();
    assert_eq!(used, 3);
    assert_eq!(meta.get(2), Some(&Entry::Byte(5)));
    for key in [0u8, 1, 3, 4, 5, 6, 7, 8, 255] {
        assert_eq!(meta.get(key), None);
    }
    let mut expected = EntityMetadata::new();
    assert!(expected.insert(2, Entry::Byte(5)));
    assert_eq!(meta, expected);
}

#[test]
fn attribute_list_that_is_only_the_terminator_is_empty() {
    let (meta, used) = EntityMetadata::decode_at(&[0x7f, 0x01], 0).unwrap();
    assert_eq!(used, 1);
    assert_eq!(meta, EntityMetadata::new());
    for key in 0..=255u8 {
        assert_eq!(meta.get(key), None);
    }
}

#[test]
fn attribute_list_of_every_kind() {
    let mut bytes: Vec<u8> = Vec::new();
    bytes.extend_from_slice(&[0x00, 0xfe]);
    bytes.extend_from_slice(&[0x21, 0x01, 0x02]);
    bytes.extend_from_slice(&[0x42, 0, 0, 0, 9]);
    bytes.extend_from_slice(&[0x63, 0x3f, 0x80, 0, 0]);
    bytes.extend_from_slice(&[0x84, 2, b'o', b'k']);
    bytes.extend_from_slice(&[0xa5, 0xff, 0xff]);
    bytes.extend_from_slice(&[0xc6, 0, 0, 0, 1, 0, 0, 0, 2, 0xff, 0xff, 0xff, 0xfd]);
    bytes.extend_from_slice(&[0xe5, 0, 7, 1, 0, 0, 0xff, 0xff]);
    bytes.push(0x7f);
    let (meta, used) = EntityMetadata::decode_at(&bytes, 0).unwrap();
    assert_eq!(used, bytes.len());
    assert_eq!(meta.get(0), Some(&Entry::Byte(-2)));
    assert_eq!(meta.get(1), Some(&Entry::Short(258)));
    assert_eq!(meta.get(2), Some(&Entry::Int(9)));
    assert_eq!(meta.get(3), Some(&Entry::Float(1.0f32.to_bits())));
    assert_eq!(meta.get(4), Some(&Entry::String("ok".to_string())));
    assert_eq!(meta.get(5), Some(&Entry::Slot(None)));
    assert_eq!(meta.get(6), Some(&Entry::Rotation([1, 2, -3])));
    assert_eq!(meta.get(7), Some(&Entry::Slot(Some(Slot { id: 7, count: 1, damage: 0, tag: None }))));
    let mut out: Vec<u8> = Vec::new();
    assert_eq!(meta.encode_into(&mut out), Ok(()));
    assert_eq!(out, bytes);
    assert_eq!(from_bytes(&bytes, &Shape::Metadata).map(|v| to_bytes(&v, &Shape::Metadata)), Ok(Ok(bytes)));
}

#[test]
fn attribute_list_first_of_a_key_wins() {
    let bytes = [0x40, 0x05, 0x41, 0x00, 0x09, 0x20, 0x01, 0x40, 0x06, 0x7f];
    let (meta, used) = EntityMetadata::decode_at(&bytes, 0).unwrap();
    assert_eq!(used, bytes.len());
    assert_eq!(meta.get(2), Some(&Entry::Byte(5)));
    assert_eq!(meta.get(1), Some(&Entry::Byte(1)));
    let mut out: Vec<u8> = Vec::new();
    meta.encode_into(&mut out).unwrap();
    assert_eq!(out, vec![0x20, 0x01, 0x40, 0x05, 0x7f]);
}

#[test]
fn attribute_list_errors() {
    assert_eq!(EntityMetadata::decode_at(&[], 0).err(), Some(Error::TruncatedInput));
    assert_eq!(EntityMetadata::decode_at(&[0x40, 0x05], 0).err(), Some(Error::TruncatedInput));
    assert_eq!(EntityMetadata::decode_at(&[0x42, 0, 0], 0).err(), Some(Error::TruncatedInput));
    assert_eq!(EntityMetadata::decode_at(&[0x47, 0, 0x7f], 0).err(), Some(Error::UnsupportedShape));
    assert_eq!(EntityMetadata::decode_at(&[0x1f, 0, 0x7f], 0).err(), Some(Error::UnsupportedShape));
    assert_eq!(EntityMetadata::decode_at(&[0x84, 1, 0xff, 0x7f], 0).err(), Some(Error::InvalidUtf8));
    let mut de = MCProtoDeserializer::new(vec![0x40, 0x05]);
    assert_eq!(EntityMetadata::deserialize(&mut de).err(), Some(Error::TruncatedInput));
    assert_eq!(de.remaining(), 2);
}

#[test]
fn attribute_mapping_inserts_first_wins_and_small_keys_only() {
    let mut meta = EntityMetadata::new();
    assert!(meta.insert(7, Entry::Int(1)));
    assert!(!meta.insert(7, Entry::Int(2)));
    assert!(!meta.insert(8, Entry::Int(3)));
    assert!(!meta.insert(255, Entry::Int(3)));
    assert!(meta.insert(0, Entry::String("a".to_string())));
    assert_eq!(meta.get(7), Some(&Entry::Int(1)));
    assert_eq!(meta.get(8), None);
    let mut ser = MCProtoSerializer::new(Vec::new());
    meta.serialize(&mut ser).unwrap();
    assert_eq!(ser.into_inner(), vec![0x04, 1, b'a', 0xe2, 0, 0, 0, 1, 0x7f]);
    assert_eq!(Entry::Int(1).kind(), 2);
    assert_eq!(Entry::Rotation([0, 0, 0]).kind(), 6);
}

#[test]
fn attribute_walk_one_at_a_time() {
    let de = MCProtoDeserializer::new(vec![0x40, 0x05, 0x21, 0, 1, 0x7f, 0xee]);
    let mut walk = MetaDataSeq::new(de);
    assert_eq!(walk.next_element(), Ok(Some((2, Entry::Byte(5)))));
    assert_eq!(walk.next_element(), Ok(Some((1, Entry::Short(1)))));
    assert_eq!(walk.next_element(), Ok(None));
    let mut de = walk.into_inner();
    assert_eq!(de.remaining(), 1);
    assert_eq!(de.deserialize_u8(), Ok(0xee));
    let mut walk = MetaDataSeq::new(MCProtoDeserializer::new(vec![0x41, 0]));
    assert_eq!(walk.next_element(), Err(Error::TruncatedInput));
    assert_eq!(walk.de.remaining(), 2);
    assert_eq!(step_at(&[0x7f], 0), Ok((None, 1)));
    assert_eq!(step_at(&[], 0), Err(Error::TruncatedInput));
}

fn bulk_bytes() -> Vec<u8> {
    let mut bytes: Vec<u8> = Vec::new();
    bytes.extend_from_slice(&[0, 2]);
    bytes.extend_from_slice(&[0, 0, 0, 4]);
    bytes.extend_from_slice(&[0xde, 0xad, 0xbe, 0xef]);
    bytes.extend_from_slice(&[0, 0, 0, 1, 0xff, 0xff, 0xff, 0xff, 0x00, 0x0f, 0x00, 0x00]);
    bytes.extend_from_slice(&[0, 0, 0, 2, 0, 0, 0, 3, 0xff, 0xff, 0x00, 0x01]);
    bytes
}

#[test]
fn bulk_payload_consumes_exactly_what_its_lengths_say() {
    let mut bytes = bulk_bytes();
    let whole = bytes.len();
    assert_eq!(whole, 2 + 4 + 4 + 2 * META_BYTES);
    bytes.extend_from_slice(&[0x11, 0x22, 0x33]);
    let (bulk, used) = ChunkDataBulk::decode_at(&bytes, 0).unwrap();
    assert_eq!(used, whole);
    assert_eq!(used - 6, 4 + 2 * 12);
    assert_eq!(used - 6, 28);
    assert_eq!(bulk.chunk_column_count(), 2);
    assert_eq!(bulk.data_length(), 4);
    assert_eq!(bulk.compressed_chunk_data(), &vec![0xde, 0xad, 0xbe, 0xef]);
    assert_eq!(
        bulk.meta(),
        &vec![
            ChunkMeta { x: 1, z: -1, mask: 15, add_mask: 0 },
            ChunkMeta { x: 2, z: 3, mask: 0xffff, add_mask: 1 },
        ]
    );
    let mut de = MCProtoDeserializer::new(bytes);
    assert!(ChunkDataBulk::deserialize(&mut de).is_ok());
    assert_eq!(de.remaining(), 3);
    assert_eq!(de.peek(), &[0x11, 0x22, 0x33]);
}

#[test]
fn bulk_payload_data_starts_right_after_the_two_lengths() {
    let mut bytes: Vec<u8> = vec![0, 1, 0, 0, 0, 3];
    bytes.extend_from_slice(&[0x02, 0x00, 0x7f]);
    bytes.extend_from_slice(&[0, 0, 0, 9, 0, 0, 0, 8, 0, 7, 0, 6]);
    bytes.push(0xee);
    let (bulk, used) = ChunkDataBulk::decode_at(&bytes, 0).unwrap();
    assert_eq!(used, 6 + 3 + 12);
    assert_eq!(bulk.compressed_chunk_data(), &vec![0x02, 0x00, 0x7f]);
    assert_eq!(bulk.meta(), &vec![ChunkMeta { x: 9, z: 8, mask: 7, add_mask: 6 }]);
    let mut out: Vec<u8> = Vec::new();
    bulk.encode_into(&mut out);
    assert_eq!(out, bytes[..used].to_vec());
}

#[test]
fn bulk_payload_one_byte_short_is_truncated() {
    let bytes = bulk_bytes();
    for cut in 0..bytes.len() {
        assert_eq!(ChunkDataBulk::decode_at(&bytes[..cut], 0).err(), Some(Error::TruncatedInput), "cut {}", cut);
    }
}

#[test]
fn bulk_payload_round_trips() {
    let meta = vec![
        ChunkMeta { x: 1, z: -1, mask: 15, add_mask: 0 },
        ChunkMeta { x: 2, z: 3, mask: 0xffff, add_mask: 1 },
    ];
    let bulk = ChunkDataBulk::new(vec![0xde, 0xad, 0xbe, 0xef], meta).unwrap();
    let mut out: Vec<u8> = Vec::new();
    bulk.encode_into(&mut out);
    assert_eq!(out, bulk_bytes());
    let (back, _) = ChunkDataBulk::decode_at(&out, 0).unwrap();
    assert_eq!(back, bulk);
    let bytes = to_bytes(&Value::ChunkBulk(bulk), &Shape::ChunkBulk).unwrap();
    assert_eq!(bytes, bulk_bytes());
    assert_eq!(from_bytes(&bytes, &Shape::ChunkBulk), Ok(Value::ChunkBulk(back)));
}

#[test]
fn bulk_payload_with_nothing_in_it() {
    let bulk = ChunkDataBulk::new(vec![], vec![]).unwrap();
    let mut ser = MCProtoSerializer::new(Vec::new());
    bulk.serialize(&mut ser).unwrap();
    assert_eq!(ser.writer, vec![0, 0, 0, 0, 0, 0]);
    let (back, used) = ChunkDataBulk::decode_at(&ser.writer, 0).unwrap();
    assert_eq!(used, 6);
    assert_eq!(back, bulk);
}

#[test]
fn bulk_payload_with_negative_lengths_is_truncated() {
    assert_eq!(
        ChunkDataBulk::decode_at(&[0xff, 0xff, 0, 0, 0, 0], 0).err(),
        Some(Error::TruncatedInput)
    );
    assert_eq!(
        ChunkDataBulk::decode_at(&[0, 0, 0xff, 0xff, 0xff, 0xff], 0).err(),
        Some(Error::TruncatedInput)
    );
    assert_eq!(
        ChunkDataBulk::decode_at(&[0, 0, 0x7f, 0xff, 0xff, 0xff, 1, 2], 0).err(),
        Some(Error::TruncatedInput)
    );
}

#[test]
fn bulk_payload_with_too_many_columns_is_refused() {
    let meta = vec![ChunkMeta { x: 0, z: 0, mask: 0, add_mask: 0 }; 0x8000];
    assert_eq!(ChunkDataBulk::new(vec![], meta).err(), Some(Error::LengthOverflow));
    let meta = vec![ChunkMeta { x: 0, z: 0, mask: 0, add_mask: 0 }; 0x7fff];
    let bulk = ChunkDataBulk::new(vec![], meta).unwrap();
    assert_eq!(bulk.chunk_column_count(), 0x7fff);
}

#[test]
fn column_records_are_twelve_bytes() {
    let m = ChunkMeta { x: -2, z: 5, mask: 0x0102, add_mask: 0x0304 };
    let mut out: Vec<u8> = Vec::new();
    write_meta(&m, &mut out);
    assert_eq!(out, vec![0xff, 0xff, 0xff, 0xfe, 0, 0, 0, 5, 1, 2, 3, 4]);
    assert_eq!(parse_meta(&out, 0), Ok((m, 12)));
    assert_eq!(parse_meta(&out[..11], 0), Err(Error::TruncatedInput));
    let mut two = out.clone();
    two.extend_from_slice(&out);
    assert_eq!(parse_metas(&two, 0, 2), Ok((vec![m, m], 24)));
    assert_eq!(parse_metas(&two, 0, 0), Ok((vec![], 0)));
    assert_eq!(parse_metas(&two, 0, 3), Err(Error::TruncatedInput));
}

#[test]
fn prefixed_sequences_carry_their_count_in_their_own_width() {
    let items = || vec![Value::I16(1), Value::I16(-1)];
    let mut ser = MCProtoSerializer::new(Vec::new());
    UBytePrefix::new(items()).serialize(&Shape::I16, &mut ser).unwrap();
    BytePrefix::new(items()).serialize(&Shape::I16, &mut ser).unwrap();
    ShortPrefix::new(items()).serialize(&Shape::I16, &mut ser).unwrap();
    IntPrefix::new(items()).serialize(&Shape::I16, &mut ser).unwrap();
    VarIntPrefix::new(items()).serialize(&Shape::I16, &mut ser).unwrap();
    let body = [0u8, 1, 0xff, 0xff];
    let mut expected: Vec<u8> = Vec::new();
    for prefix in [&[2u8][..], &[2], &[0, 2], &[0, 0, 0, 2], &[2]] {
        expected.extend_from_slice(prefix);
        expected.extend_from_slice(&body);
    }
    assert_eq!(ser.writer, expected);
    let mut de = MCProtoDeserializer::new(ser.into_inner());
    assert_eq!(UBytePrefix::deserialize(&Shape::I16, &mut de).map(|s| s.into_inner()), Ok(items()));
    assert_eq!(BytePrefix::deserialize(&Shape::I16, &mut de).map(|s| s.into_inner()), Ok(items()));
    assert_eq!(ShortPrefix::deserialize(&Shape::I16, &mut de).map(|s| s.into_inner()), Ok(items()));
    assert_eq!(IntPrefix::deserialize(&Shape::I16, &mut de).map(|s| s.into_inner()), Ok(items()));
    let last = VarIntPrefix::deserialize(&Shape::I16, &mut de).unwrap();
    assert_eq!(last.elements(), &items());
    assert_eq!(de.remaining(), 0);
    assert_eq!(UBytePrefix::<Value>::prefix(), Prefix::UByte);
    assert_eq!(BytePrefix::<Value>::prefix(), Prefix::Byte);
    assert_eq!(ShortPrefix::<Value>::prefix(), Prefix::Short);
    assert_eq!(IntPrefix::<Value>::prefix(), Prefix::Int);
    assert_eq!(VarIntPrefix::<Value>::prefix(), Prefix::VarInt);
}

#[test]
fn prefixed_sequence_of_too_many_is_refused() {
    let many: Vec<Value> = (0..256).map(|_| Value::U8(0)).collect();
    let mut ser = MCProtoSerializer::new(vec![7]);
    assert_eq!(UBytePrefix::new(many).serialize(&Shape::U8, &mut ser), Err(Error::LengthOverflow));
    assert_eq!(ser.writer, vec![7]);
    let mut de = MCProtoDeserializer::new(vec![2, 1]);
    assert_eq!(UBytePrefix::deserialize(&Shape::U8, &mut de).err(), Some(Error::TruncatedInput));
    assert_eq!(de.remaining(), 2);
}

#[test]
fn errors_describe_themselves() {
    assert_eq!(Error::TruncatedInput.description(), "truncated input");
    assert_eq!(Error::MalformedVarInt.description(), "malformed variable-length integer");
    assert_eq!(Error::MalformedIdentifier.description(), "malformed identifier");
    assert_eq!(Error::UnsupportedShape.description(), "unsupported type");
    assert_eq!(Error::InvalidUtf8.description(), "invalid utf-8");
    assert_eq!(Error::LengthOverflow.description(), "length overflow");
    assert_eq!(Error::UnderlyingIoFailure.description(), "i/o failure");
    assert_eq!(Error::EmbeddedDocumentError.description(), "embedded document error");
    assert!(Error::TruncatedInput.is_recoverable());
    assert!(!Error::MalformedVarInt.is_recoverable());
    assert!(!Error::EmbeddedDocumentError.is_recoverable());
}

#[test]
fn plain_attribute_mapping_round_trips() {
    let mut meta = EntityMetadata::new();
    assert!(meta.insert(6, Entry::Rotation([1, -1, 0])));
    assert!(meta.insert(0, Entry::Slot(Some(Slot { id: 0, count: 0, damage: 0, tag: None }))));
    assert!(meta.insert(3, Entry::Float(0)));
    assert!(meta.insert(5, Entry::Slot(None)));
    assert!(meta.insert(1, Entry::String(String::new())));
    let mut out: Vec<u8> = Vec::new();
    meta.encode_into(&mut out).unwrap();
    out.extend_from_slice(&[9, 9]);
    let (back, used) = EntityMetadata::decode_at(&out, 0).unwrap();
    assert_eq!(used, out.len() - 2);
    assert_eq!(back, meta);
}

#[test]
fn an_item_stack_whose_id_is_the_marker_reads_as_absent() {
    let mut meta = EntityMetadata::new();
    assert!(meta.insert(2, Entry::Slot(Some(Slot { id: -1, count: 3, damage: 0, tag: None }))));
    let mut out: Vec<u8> = Vec::new();
    meta.encode_into(&mut out).unwrap();
    assert_eq!(out, vec![0x45, 0xff, 0xff, 3, 0, 0, 0xff, 0xff, 0x7f]);
    let (back, used) = EntityMetadata::decode_at(&out, 0).unwrap();
    assert_eq!(back.get(2), Some(&Entry::Slot(None)));
    assert_eq!(back.get(0), Some(&Entry::Float(0x0000_ffff)));
    assert_eq!(used, 9);
}
