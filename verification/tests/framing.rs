use bytes::BytesMut;
use mcproto::codec::{frame_decode, frame_encode, MCProtoCodec};
use mcproto::error::Error;
use mcproto::read_varint;
use mcproto::shape::Shape;
use mcproto::transport::MCProto;
use mcproto::value::Value;

fn buffer_of(bytes: &[u8]) -> BytesMut {
    let mut b = BytesMut::new();
    b.extend_from_slice(bytes);
    b
}

#[test]
fn empty_buffer_has_no_frame() {
    let mut buf = BytesMut::new();
    assert_eq!(frame_decode(&mut buf), Ok(None));
    assert_eq!(buf.len(), 0);
}

#[test]
fn whole_frame_is_taken_exactly() {
    let mut buf = buffer_of(&[3, 10, 20, 30, 99]);
    assert_eq!(frame_decode(&mut buf), Ok(Some(vec![10, 20, 30])));
    assert_eq!(&buf[..], &[99]);
}

#[test]
fn incomplete_payload_leaves_the_buffer_untouched() {
    let mut buf = buffer_of(&[3, 10, 20]);
    assert_eq!(frame_decode(&mut buf), Ok(None));
    assert_eq!(&buf[..], &[3, 10, 20]);
    buf.extend_from_slice(&[30]);
    assert_eq!(frame_decode(&mut buf), Ok(Some(vec![10, 20, 30])));
    assert_eq!(buf.len(), 0);
}

#[test]
fn incomplete_prefix_leaves_the_buffer_untouched() {
    let mut buf = buffer_of(&[0xac]);
    assert_eq!(frame_decode(&mut buf), Ok(None));
    assert_eq!(&buf[..], &[0xac]);
}

#[test]
fn a_frame_split_at_every_point_arrives_whole() {
    let payload: Vec<u8> = (0..300).map(|i| (i % 251) as u8).collect();
    let mut whole = BytesMut::new();
    assert_eq!(frame_encode(&payload, &mut whole), Ok(()));
    let frame: Vec<u8> = whole.to_vec();
    assert_eq!(frame.len(), 302);
    assert_eq!(&frame[0..2], &[0xac, 0x02]);
    for cut in 0..frame.len() {
        let mut buf = buffer_of(&frame[..cut]);
        assert_eq!(frame_decode(&mut buf), Ok(None), "cut at {}", cut);
        assert_eq!(&buf[..], &frame[..cut]);
        buf.extend_from_slice(&frame[cut..]);
        assert_eq!(frame_decode(&mut buf), Ok(Some(payload.clone())), "cut at {}", cut);
        assert_eq!(buf.len(), 0);
        assert_eq!(frame_decode(&mut buf), Ok(None));
    }
}

#[test]
fn frames_back_to_back_come_out_one_by_one() {
    let mut buf = BytesMut::new();
    frame_encode(&[1, 2], &mut buf).unwrap();
    frame_encode(&[], &mut buf).unwrap();
    frame_encode(&[3], &mut buf).unwrap();
    assert_eq!(&buf[..], &[2, 1, 2, 0, 1, 3]);
    assert_eq!(frame_decode(&mut buf), Ok(Some(vec![1, 2])));
    assert_eq!(frame_decode(&mut buf), Ok(Some(vec![])));
    assert_eq!(frame_decode(&mut buf), Ok(Some(vec![3])));
    assert_eq!(frame_decode(&mut buf), Ok(None));
}

#[test]
fn malformed_prefix_is_an_error_and_nothing_is_taken() {
    let mut buf = buffer_of(&[0xff, 0xff, 0xff, 0xff, 0x1f, 1, 2, 3]);
    assert_eq!(frame_decode(&mut buf), Err(Error::MalformedVarInt));
    assert_eq!(buf.len(), 8);
}

#[test]
fn negative_length_never_completes() {
    let mut buf = buffer_of(&[0xff, 0xff, 0xff, 0xff, 0x0f, 1, 2, 3]);
    assert_eq!(frame_decode(&mut buf), Ok(None));
    assert_eq!(buf.len(), 8);
}

#[test]
fn varint_is_read_from_the_buffer_without_taking_it() {
    let mut buf = buffer_of(&[0xac, 0x02, 7]);
    assert_eq!(read_varint(&mut buf), Ok((300, 2)));
    assert_eq!(&buf[..], &[0xac, 0x02, 7]);
    let mut buf = buffer_of(&[0x80]);
    assert_eq!(read_varint(&mut buf), Err(Error::TruncatedInput));
    let mut buf = BytesMut::new();
    assert_eq!(read_varint(&mut buf), Err(Error::TruncatedInput));
    let mut buf = buffer_of(&[0x80, 0x80, 0x80, 0x80, 0x10]);
    assert_eq!(read_varint(&mut buf), Err(Error::MalformedVarInt));
}

#[test]
fn frame_encode_appends_to_what_is_there() {
    let mut buf = buffer_of(&[0xaa]);
    assert_eq!(frame_encode(&[5, 6, 7], &mut buf), Ok(()));
    assert_eq!(&buf[..], &[0xaa, 3, 5, 6, 7]);
}

#[test]
fn codec_reads_and_writes_messages() {
    let handshake = Shape::Record(vec![Shape::VarInt, Shape::Str, Shape::U16]);
    let pong = Shape::Record(vec![Shape::I64]);
    let mut codec = MCProtoCodec::new(handshake, pong);
    let mut out = BytesMut::new();
    let message = Value::Record(vec![
        Value::VarInt(5),
        Value::Str("host".to_string()),
        Value::U16(25565),
    ]);
    assert_eq!(codec.encode(&message, &mut out), Ok(()));
    assert_eq!(&out[..], &[8, 5, 4, b'h', b'o', b's', b't', 0x63, 0xdd]);
    assert_eq!(codec.encode(&Value::U8(0), &mut out), Err(Error::UnsupportedShape));
    assert_eq!(out.len(), 9);

    let mut incoming = buffer_of(&[8, 0, 0, 0, 0, 0, 0, 0]);
    assert_eq!(codec.decode(&mut incoming), Ok(None));
    assert_eq!(incoming.len(), 8);
    incoming.extend_from_slice(&[42, 8]);
    assert_eq!(codec.decode(&mut incoming), Ok(Some(Value::Record(vec![Value::I64(42)]))));
    assert_eq!(&incoming[..], &[8]);
}

#[test]
fn codec_takes_a_frame_even_when_its_message_does_not_read() {
    let mut codec = MCProtoCodec::new(Shape::U8, Shape::I32);
    let mut incoming = buffer_of(&[2, 0, 1, 4, 0, 0, 0, 9]);
    assert_eq!(codec.decode(&mut incoming), Err(Error::TruncatedInput));
    assert_eq!(&incoming[..], &[4, 0, 0, 0, 9]);
    assert_eq!(codec.decode(&mut incoming), Ok(Some(Value::I32(9))));
    assert_eq!(codec.decode(&mut incoming), Ok(None));
}

#[test]
fn transport_codec_reads_one_frame_of_bytes() {
    let mut proto = MCProto::new(Shape::Record(vec![Shape::Bool, Shape::VarInt]));
    let bytes = proto.serialize(&Value::Record(vec![Value::Bool(true), Value::VarInt(128)])).unwrap();
    assert_eq!(bytes, vec![1, 0x80, 0x01]);
    let buf = buffer_of(&bytes);
    assert_eq!(
        proto.deserialize(&buf),
        Ok(Value::Record(vec![Value::Bool(true), Value::VarInt(128)]))
    );
    assert_eq!(buf.len(), 3);
    assert_eq!(proto.deserialize(&buffer_of(&[1])), Err(Error::TruncatedInput));
    assert_eq!(proto.serialize(&Value::Bool(true)), Err(Error::UnsupportedShape));
}
