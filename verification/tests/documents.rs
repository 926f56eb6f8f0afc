use mcproto::de::from_bytes;
use mcproto::error::Error;
use mcproto::ser::to_bytes;
use mcproto::shape::Shape;
use mcproto::types::nbt::{parse_document, write_document, NBT};
use mcproto::types::scan::{compound_at, elements_at, is_sound, numbers_at, payload_at, text_at, MAX_DEPTH};
use mcproto::value::Value;

fn span(body: &[u8]) -> Vec<u8> {
    let mut out = vec![(body.len() >> 8) as u8, (body.len() & 0xff) as u8];
    out.extend_from_slice(body);
    out
}

fn rich_blob() -> nbt::Blob {
    let mut inner = nbt::Map::new();
    inner.insert("x".to_string(), nbt::Value::Double(1.5));
    inner.insert("y".to_string(), nbt::Value::Float(-0.25));
    let mut blob = nbt::Blob::new();
    blob.insert("byte", nbt::Value::Byte(-1)).unwrap();
    blob.insert("short", nbt::Value::Short(300)).unwrap();
    blob.insert("int", nbt::Value::Int(7)).unwrap();
    blob.insert("long", nbt::Value::Long(1 << 40)).unwrap();
    blob.insert("bytes", nbt::Value::ByteArray(vec![1, -2, 3])).unwrap();
    blob.insert("ints", nbt::Value::IntArray(vec![1, 2])).unwrap();
    blob.insert("longs", nbt::Value::LongArray(vec![-1])).unwrap();
    blob.insert("text", nbt::Value::String("héllo".to_string())).unwrap();
    blob.insert("empty", nbt::Value::List(vec![])).unwrap();
    blob.insert(
        "list",
        nbt::Value::List(vec![nbt::Value::Int(1), nbt::Value::Int(2), nbt::Value::Int(3)]),
    )
    .unwrap();
    blob.insert(
        "nested",
        nbt::Value::List(vec![
            nbt::Value::List(vec![nbt::Value::Byte(1)]),
            nbt::Value::List(vec![]),
        ]),
    )
    .unwrap();
    blob.insert("compound", nbt::Value::Compound(inner)).unwrap();
    blob
}

fn raw_of(blob: &nbt::Blob) -> Vec<u8> {
    let mut raw: Vec<u8> = Vec::new();
    blob.to_writer(&mut raw).unwrap();
    raw
}

fn nested_compounds(levels: usize) -> Vec<u8> {
    let mut raw: Vec<u8> = vec![0x0a, 0, 0];
    for _ in 0..levels {
        raw.extend_from_slice(&[0x0a, 0, 0]);
    }
    for _ in 0..levels {
        raw.push(0);
    }
    raw.push(0);
    raw
}

#[test]
fn document_of_every_kind_of_value_keeps_its_kinds() {
    let blob = rich_blob();
    let raw = raw_of(&blob);
    assert!(is_sound(&raw));
    let bytes = to_bytes(&Value::Nbt(NBT(rich_blob())), &Shape::Nbt).unwrap();
    assert_eq!(bytes, span(&raw));
    assert_eq!(from_bytes(&bytes, &Shape::Nbt), Ok(Value::Nbt(NBT(blob))));
    let bytes = to_bytes(&Value::GzipNbt(mcproto::types::nbt::GZIPNBT(rich_blob())), &Shape::GzipNbt).unwrap();
    match from_bytes(&bytes, &Shape::GzipNbt) {
        Ok(Value::GzipNbt(doc)) => assert_eq!(doc.0, rich_blob()),
        other => panic!("not a document: {:?}", other),
    }
}

#[test]
fn scan_follows_a_document_to_its_end() {
    let raw = raw_of(&rich_blob());
    assert_eq!(text_at(&raw, 1), Some(2));
    assert_eq!(compound_at(&raw, 3, MAX_DEPTH), Some(raw.len() - 3));
    let mut longer = raw.clone();
    longer.extend_from_slice(&[1, 2, 3]);
    assert!(is_sound(&longer));
    assert_eq!(compound_at(&longer, 3, MAX_DEPTH), Some(raw.len() - 3));
    for cut in 0..raw.len() {
        assert!(!is_sound(&raw[..cut]), "cut at {}", cut);
    }
}

#[test]
fn scan_of_each_payload() {
    assert_eq!(payload_at(1, &[9], 0, 0), Some(1));
    assert_eq!(payload_at(2, &[9, 9], 0, 0), Some(2));
    assert_eq!(payload_at(3, &[9; 4], 0, 0), Some(4));
    assert_eq!(payload_at(4, &[9; 8], 0, 0), Some(8));
    assert_eq!(payload_at(5, &[9; 4], 0, 0), Some(4));
    assert_eq!(payload_at(6, &[9; 8], 0, 0), Some(8));
    assert_eq!(payload_at(6, &[9; 7], 0, 0), None);
    assert_eq!(payload_at(7, &[0, 0, 0, 2, 1, 2], 0, 0), Some(6));
    assert_eq!(payload_at(7, &[0, 0, 0, 3, 1, 2], 0, 0), None);
    assert_eq!(payload_at(8, &[0, 1, b'a'], 0, 0), Some(3));
    assert_eq!(payload_at(8, &[0, 2, b'a'], 0, 0), None);
    assert_eq!(payload_at(9, &[1, 0, 0, 0, 2, 5, 6], 0, 1), Some(7));
    assert_eq!(payload_at(9, &[1, 0, 0, 0, 2, 5, 6], 0, 0), None);
    assert_eq!(payload_at(9, &[0, 0, 0, 0, 0], 0, 1), Some(5));
    assert_eq!(payload_at(9, &[0, 0, 0, 0, 1, 0], 0, 1), None);
    assert_eq!(payload_at(10, &[0], 0, 1), Some(1));
    assert_eq!(payload_at(10, &[0], 0, 0), None);
    assert_eq!(payload_at(10, &[1, 0, 1, b'k', 7, 0], 0, 1), Some(6));
    assert_eq!(payload_at(11, &[0, 0, 0, 1, 0, 0, 0, 9], 0, 0), Some(8));
    assert_eq!(payload_at(11, &[0, 0, 0, 2, 0, 0, 0, 9], 0, 0), None);
    assert_eq!(payload_at(12, &[0, 0, 0, 1, 0, 0, 0, 0, 0, 0, 0, 9], 0, 0), Some(12));
    assert_eq!(payload_at(0, &[0; 8], 0, 5), None);
    assert_eq!(payload_at(13, &[0; 8], 0, 5), None);
    assert_eq!(payload_at(255, &[0; 8], 0, 5), None);
    assert_eq!(numbers_at(&[0, 0, 0, 0], 0, 8), Some(4));
    assert_eq!(numbers_at(&[0, 0, 0], 0, 1), None);
    assert_eq!(elements_at(1, 3, &[1, 2, 3, 4], 1, 0), Some(3));
    assert_eq!(elements_at(1, 4, &[1, 2, 3, 4], 1, 0), None);
    assert_eq!(elements_at(1, 0, &[], 0, 0), Some(0));
}

#[test]
fn negative_count_is_no_document() {
    let raw = [0x0a, 0, 0, 0x07, 0, 1, b'a', 0xff, 0xff, 0xff, 0xff, 0x00];
    assert!(!is_sound(&raw));
    assert_eq!(from_bytes(&span(&raw), &Shape::Nbt), Err(Error::EmbeddedDocumentError));
    let raw = [0x0a, 0, 0, 0x09, 0, 1, b'l', 0x01, 0x80, 0x00, 0x00, 0x00, 0x00];
    assert!(!is_sound(&raw));
    assert_eq!(from_bytes(&span(&raw), &Shape::Nbt), Err(Error::EmbeddedDocumentError));
    let raw = [0x0a, 0, 0, 0x0c, 0, 1, b'l', 0xff, 0xff, 0xff, 0xfe, 0x00];
    assert_eq!(parse_document(&span(&raw), 0, false), Err(Error::EmbeddedDocumentError));
}

#[test]
fn count_beyond_the_span_is_no_document() {
    let raw = [0x0a, 0, 0, 0x09, 0, 1, b'l', 0x01, 0x7f, 0xff, 0xff, 0xff, 1, 2, 0x00];
    assert!(!is_sound(&raw));
    assert_eq!(from_bytes(&span(&raw), &Shape::Nbt), Err(Error::EmbeddedDocumentError));
    let raw = [0x0a, 0, 0, 0x0b, 0, 1, b'l', 0x10, 0x00, 0x00, 0x00, 0, 0, 0, 1, 0x00];
    assert!(!is_sound(&raw));
    assert_eq!(from_bytes(&span(&raw), &Shape::Nbt), Err(Error::EmbeddedDocumentError));
}

#[test]
fn root_that_is_no_compound_is_no_document() {
    assert!(!is_sound(&[]));
    assert!(!is_sound(&[0x00]));
    assert!(!is_sound(&[0x01, 0, 0, 7]));
    assert!(!is_sound(&[0x0a, 0]));
    assert!(is_sound(&[0x0a, 0, 0, 0]));
    assert!(is_sound(&[0x0a, 0, 2, b'h', b'i', 0]));
    assert_eq!(from_bytes(&span(&[0x0a, 0, 0, 0]), &Shape::Nbt), Ok(Value::Nbt(NBT(nbt::Blob::new()))));
}

#[test]
fn nesting_is_bounded() {
    let ok = nested_compounds(MAX_DEPTH);
    assert!(is_sound(&ok));
    assert!(parse_document(&span(&ok), 0, false).is_ok());
    let deep = nested_compounds(MAX_DEPTH + 1);
    assert!(!is_sound(&deep));
    assert_eq!(from_bytes(&span(&deep), &Shape::Nbt), Err(Error::EmbeddedDocumentError));
    let very_deep = nested_compounds(20_000);
    assert!(!is_sound(&very_deep));
    assert_eq!(from_bytes(&span(&very_deep), &Shape::Nbt), Err(Error::EmbeddedDocumentError));
}

#[test]
fn document_too_long_for_its_span_is_refused() {
    let mut blob = nbt::Blob::new();
    blob.insert("big", nbt::Value::ByteArray(vec![0; 70_000])).unwrap();
    let mut out: Vec<u8> = vec![9];
    assert_eq!(write_document(&blob, false, &mut out), Err(Error::LengthOverflow));
    assert_eq!(out, vec![9]);
    assert_eq!(write_document(&blob, true, &mut out), Ok(()));
    assert!(out.len() < 1000);
    let (back, used) = parse_document(&out, 1, true).unwrap();
    assert_eq!(used, out.len() - 1);
    assert_eq!(back, blob);
}

#[test]
fn mixed_list_has_no_binary_form() {
    let mut blob = nbt::Blob::new();
    blob.insert("ok", nbt::Value::Int(1)).unwrap();
    let mut map = nbt::Map::new();
    map.insert(
        "mixed".to_string(),
        nbt::Value::List(vec![nbt::Value::Int(1), nbt::Value::Byte(2)]),
    );
    blob.insert("inner", nbt::Value::Compound(map)).unwrap();
    let mut out: Vec<u8> = vec![1, 2];
    assert_eq!(write_document(&blob, false, &mut out), Err(Error::EmbeddedDocumentError));
    assert_eq!(out, vec![1, 2]);
    assert_eq!(to_bytes(&Value::Nbt(NBT(blob)), &Shape::Nbt), Err(Error::EmbeddedDocumentError));
}

#[test]
fn long_lists_and_wide_compounds_are_walked_without_nesting() {
    let mut raw: Vec<u8> = vec![0x0a, 0, 0, 0x09, 0, 1, b'l', 0x01, 0, 0, 0xea, 0x60];
    raw.extend(std::iter::repeat(7u8).take(60_000));
    raw.push(0);
    assert!(is_sound(&raw));
    let blob = parse_document(&span(&raw), 0, false).unwrap().0;
    let mut out: Vec<u8> = Vec::new();
    assert_eq!(write_document(&blob, false, &mut out), Ok(()));
    assert_eq!(&out[2..], &raw[..]);

    let mut raw: Vec<u8> = vec![0x0a, 0, 0];
    for i in 0..12_000u32 {
        raw.extend_from_slice(&[0x01, 0, 2, (i >> 8) as u8 | 0x40, (i & 0x3f) as u8 | 0x40, 5]);
        if raw.len() > 60_000 {
            break;
        }
    }
    raw.push(0);
    assert!(is_sound(&raw));
    assert!(parse_document(&span(&raw), 0, false).is_ok());
}
