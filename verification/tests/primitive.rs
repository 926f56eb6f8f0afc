use mcproto::error::Error;
use mcproto::fixed::{push_be, take_be};
use mcproto::primitive::{
    parse_bool, parse_i16, parse_i32, parse_i64, parse_i8, parse_u128, parse_u16, parse_u32,
    parse_u64, parse_u8, write_bool, write_i16, write_i32, write_i64, write_i8, write_u128,
    write_u16, write_u32, write_u64, write_u8,
};
use mcproto::text::{parse_string, write_string};

#[test]
fn integers_are_big_endian() {
    let mut out: Vec<u8> = Vec::new();
    write_u8(0xab, &mut out);
    write_u16(0x0102, &mut out);
    write_u32(0x0304_0506, &mut out);
    write_u64(0x0708_090a_0b0c_0d0e, &mut out);
    assert_eq!(
        out,
        vec![0xab, 0x01, 0x02, 0x03, 0x04, 0x05, 0x06, 0x07, 0x08, 0x09, 0x0a, 0x0b, 0x0c, 0x0d, 0x0e]
    );
    assert_eq!(parse_u8(&out, 0), Ok((0xab, 1)));
    assert_eq!(parse_u16(&out, 1), Ok((0x0102, 2)));
    assert_eq!(parse_u32(&out, 3), Ok((0x0304_0506, 4)));
    assert_eq!(parse_u64(&out, 7), Ok((0x0708_090a_0b0c_0d0e, 8)));
}

#[test]
fn signed_integers_are_twos_complement() {
    let mut out: Vec<u8> = Vec::new();
    write_i8(-1, &mut out);
    write_i16(-2, &mut out);
    write_i32(-3, &mut out);
    write_i64(-4, &mut out);
    assert_eq!(
        out,
        vec![0xff, 0xff, 0xfe, 0xff, 0xff, 0xff, 0xfd, 0xff, 0xff, 0xff, 0xff, 0xff, 0xff, 0xff, 0xfc]
    );
    assert_eq!(parse_i8(&out, 0), Ok((-1, 1)));
    assert_eq!(parse_i16(&out, 1), Ok((-2, 2)));
    assert_eq!(parse_i32(&out, 3), Ok((-3, 4)));
    assert_eq!(parse_i64(&out, 7), Ok((-4, 8)));
}

#[test]
fn signed_extremes_round_trip() {
    let mut out: Vec<u8> = Vec::new();
    write_i8(i8::MIN, &mut out);
    write_i8(i8::MAX, &mut out);
    write_i16(i16::MIN, &mut out);
    write_i16(i16::MAX, &mut out);
    write_i32(i32::MIN, &mut out);
    write_i32(i32::MAX, &mut out);
    write_i64(i64::MIN, &mut out);
    write_i64(i64::MAX, &mut out);
    assert_eq!(&out[0..2], &[0x80, 0x7f]);
    assert_eq!(&out[2..6], &[0x80, 0x00, 0x7f, 0xff]);
    assert_eq!(parse_i8(&out, 0), Ok((i8::MIN, 1)));
    assert_eq!(parse_i8(&out, 1), Ok((i8::MAX, 1)));
    assert_eq!(parse_i16(&out, 2), Ok((i16::MIN, 2)));
    assert_eq!(parse_i16(&out, 4), Ok((i16::MAX, 2)));
    assert_eq!(parse_i32(&out, 6), Ok((i32::MIN, 4)));
    assert_eq!(parse_i32(&out, 10), Ok((i32::MAX, 4)));
    assert_eq!(parse_i64(&out, 14), Ok((i64::MIN, 8)));
    assert_eq!(parse_i64(&out, 22), Ok((i64::MAX, 8)));
}

#[test]
fn u128_is_sixteen_bytes() {
    let v: u128 = 0x0011_2233_4455_6677_8899_aabb_ccdd_eeff;
    let mut out: Vec<u8> = Vec::new();
    write_u128(v, &mut out);
    assert_eq!(
        out,
        vec![0x00, 0x11, 0x22, 0x33, 0x44, 0x55, 0x66, 0x77, 0x88, 0x99, 0xaa, 0xbb, 0xcc, 0xdd, 0xee, 0xff]
    );
    assert_eq!(parse_u128(&out, 0), Ok((v, 16)));
    let mut out: Vec<u8> = Vec::new();
    write_u128(u128::MAX, &mut out);
    assert_eq!(out, vec![0xff; 16]);
    assert_eq!(parse_u128(&out, 0), Ok((u128::MAX, 16)));
}

#[test]
fn float_bit_patterns_travel_as_integers() {
    let mut out: Vec<u8> = Vec::new();
    write_u32(1.5f32.to_bits(), &mut out);
    write_u64((-2.25f64).to_bits(), &mut out);
    assert_eq!(&out[0..4], &[0x3f, 0xc0, 0x00, 0x00]);
    assert_eq!(&out[4..12], &[0xc0, 0x02, 0x00, 0x00, 0x00, 0x00, 0x00, 0x00]);
    let (a, _) = parse_u32(&out, 0).unwrap();
    let (b, _) = parse_u64(&out, 4).unwrap();
    assert_eq!(f32::from_bits(a), 1.5f32);
    assert_eq!(f64::from_bits(b), -2.25f64);
}

#[test]
fn booleans_are_one_byte() {
    let mut out: Vec<u8> = Vec::new();
    write_bool(false, &mut out);
    write_bool(true, &mut out);
    assert_eq!(out, vec![0x00, 0x01]);
    assert_eq!(parse_bool(&out, 0), Ok((false, 1)));
    assert_eq!(parse_bool(&out, 1), Ok((true, 1)));
    assert_eq!(parse_bool(&out, 2), Err(Error::TruncatedInput));
}

#[test]
fn any_nonzero_byte_reads_as_true() {
    assert_eq!(parse_bool(&[0x02], 0), Ok((true, 1)));
    assert_eq!(parse_bool(&[0xff], 0), Ok((true, 1)));
}

#[test]
fn short_sources_are_truncated() {
    assert_eq!(parse_u8(&[], 0), Err(Error::TruncatedInput));
    assert_eq!(parse_u16(&[1], 0), Err(Error::TruncatedInput));
    assert_eq!(parse_i16(&[1, 2], 1), Err(Error::TruncatedInput));
    assert_eq!(parse_u32(&[1, 2, 3], 0), Err(Error::TruncatedInput));
    assert_eq!(parse_i32(&[1, 2, 3], 0), Err(Error::TruncatedInput));
    assert_eq!(parse_u64(&[0; 7], 0), Err(Error::TruncatedInput));
    assert_eq!(parse_i64(&[0; 7], 0), Err(Error::TruncatedInput));
    assert_eq!(parse_u128(&[0; 15], 0), Err(Error::TruncatedInput));
    assert_eq!(parse_i8(&[], 0), Err(Error::TruncatedInput));
}

#[test]
fn generic_big_endian_helpers() {
    let mut out: Vec<u8> = vec![0xee];
    push_be(&mut out, 0x0a0b0c, 3);
    assert_eq!(out, vec![0xee, 0x0a, 0x0b, 0x0c]);
    assert_eq!(take_be(&out, 1, 3), Ok(0x0a0b0c));
    assert_eq!(take_be(&out, 1, 0), Ok(0));
    assert_eq!(take_be(&out, 2, 3), Err(Error::TruncatedInput));
    let mut out: Vec<u8> = Vec::new();
    push_be(&mut out, 0x1234, 1);
    assert_eq!(out, vec![0x34]);
}

#[test]
fn strings_are_length_prefixed_utf8() {
    let mut out: Vec<u8> = Vec::new();
    assert_eq!(write_string("hello", &mut out), Ok(()));
    assert_eq!(out, vec![5, b'h', b'e', b'l', b'l', b'o']);
    assert_eq!(parse_string(&out, 0), Ok(("hello".to_string(), 6)));
}

#[test]
fn strings_round_trip() {
    for s in ["", "a", "héllo wörld", "日本語", "emoji \u{1f600}", "line\nbreak\0nul"] {
        let mut out: Vec<u8> = vec![0xaa];
        assert_eq!(write_string(s, &mut out), Ok(()));
        out.push(0x55);
        assert_eq!(parse_string(&out, 1), Ok((s.to_string(), out.len() - 2)));
    }
    let long: String = "x".repeat(300);
    let mut out: Vec<u8> = Vec::new();
    assert_eq!(write_string(&long, &mut out), Ok(()));
    assert_eq!(&out[0..2], &[0xac, 0x02]);
    assert_eq!(out.len(), 302);
    assert_eq!(parse_string(&out, 0), Ok((long, 302)));
}

#[test]
fn string_length_beyond_the_source_is_truncated() {
    assert_eq!(parse_string(&[5, b'h', b'e'], 0), Err(Error::TruncatedInput));
    assert_eq!(parse_string(&[1], 0), Err(Error::TruncatedInput));
    assert_eq!(parse_string(&[], 0), Err(Error::TruncatedInput));
    assert_eq!(parse_string(&[0xff, 0xff, 0xff, 0xff, 0x07, b'a'], 0), Err(Error::TruncatedInput));
}

#[test]
fn string_with_negative_length_is_truncated() {
    assert_eq!(parse_string(&[0xff, 0xff, 0xff, 0xff, 0x0f, b'a'], 0), Err(Error::TruncatedInput));
}

#[test]
fn string_with_malformed_length_is_malformed() {
    assert_eq!(parse_string(&[0xff, 0xff, 0xff, 0xff, 0x7f, b'a'], 0), Err(Error::MalformedVarInt));
}

#[test]
fn string_of_invalid_utf8_is_rejected() {
    assert_eq!(parse_string(&[2, 0xc3, 0x28], 0), Err(Error::InvalidUtf8));
    assert_eq!(parse_string(&[1, 0xff], 0), Err(Error::InvalidUtf8));
    assert_eq!(parse_string(&[3, 0xed, 0xa0, 0x80], 0), Err(Error::InvalidUtf8));
}

#[test]
fn empty_string_is_one_zero_byte() {
    let mut out: Vec<u8> = Vec::new();
    assert_eq!(write_string("", &mut out), Ok(()));
    assert_eq!(out, vec![0]);
    assert_eq!(parse_string(&out, 0), Ok((String::new(), 1)));
}
