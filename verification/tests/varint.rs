use mcproto::error::Error;
use mcproto::varint::{parse_varint, parse_varlong, write_varint, write_varlong};

fn varint_of(v: i32) -> Vec<u8> {
    let mut out: Vec<u8> = Vec::new();
    write_varint(v, &mut out);
    out
}

fn varlong_of(v: i64) -> Vec<u8> {
    let mut out: Vec<u8> = Vec::new();
    write_varlong(v, &mut out);
    out
}

#[test]
fn it_works() {
    assert_eq!(2 + 2, 4);
}

#[test]
fn varint_exact_bytes() {
    assert_eq!(varint_of(0), vec![0x00]);
    assert_eq!(varint_of(1), vec![0x01]);
    assert_eq!(varint_of(2), vec![0x02]);
    assert_eq!(varint_of(127), vec![0x7f]);
    assert_eq!(varint_of(128), vec![0x80, 0x01]);
    assert_eq!(varint_of(255), vec![0xff, 0x01]);
    assert_eq!(varint_of(300), vec![0xac, 0x02]);
    assert_eq!(varint_of(25565), vec![0xdd, 0xc7, 0x01]);
    assert_eq!(varint_of(2097151), vec![0xff, 0xff, 0x7f]);
    assert_eq!(varint_of(i32::MAX), vec![0xff, 0xff, 0xff, 0xff, 0x07]);
    assert_eq!(varint_of(-1), vec![0xff, 0xff, 0xff, 0xff, 0x0f]);
    assert_eq!(varint_of(i32::MIN), vec![0x80, 0x80, 0x80, 0x80, 0x08]);
}

#[test]
fn varint_boundaries_round_trip() {
    for v in [i32::MIN, i32::MIN + 1, -129, -128, -1, 0, 1, 127, 128, 16383, 16384, i32::MAX - 1, i32::MAX] {
        let bytes = varint_of(v);
        assert!(bytes.len() >= 1 && bytes.len() <= 5);
        assert_eq!(parse_varint(&bytes, 0), Ok((v, bytes.len())));
    }
}

#[test]
fn varint_round_trip_sweep() {
    let mut v: i64 = i32::MIN as i64;
    while v <= i32::MAX as i64 {
        let x = v as i32;
        let bytes = varint_of(x);
        assert!(bytes.len() <= 5);
        assert_eq!(parse_varint(&bytes, 0), Ok((x, bytes.len())));
        v += 7_919_113;
    }
}

#[test]
fn varint_reads_from_a_position_and_ignores_what_follows() {
    let bytes = vec![0xaa, 0xac, 0x02, 0x55];
    assert_eq!(parse_varint(&bytes, 1), Ok((300, 2)));
    assert_eq!(parse_varint(&bytes, 3), Ok((0x55, 1)));
    assert_eq!(parse_varint(&bytes, 4), Err(Error::TruncatedInput));
}

#[test]
fn varint_fifth_byte_with_high_nibble_is_malformed() {
    assert_eq!(parse_varint(&[0xff, 0xff, 0xff, 0xff, 0x1f], 0), Err(Error::MalformedVarInt));
    assert_eq!(parse_varint(&[0xff, 0xff, 0xff, 0xff, 0x10], 0), Err(Error::MalformedVarInt));
    assert_eq!(parse_varint(&[0x80, 0x80, 0x80, 0x80, 0xf0], 0), Err(Error::MalformedVarInt));
    assert_eq!(parse_varint(&[0xff, 0xff, 0xff, 0xff, 0x0f], 0), Ok((-1, 5)));
}

#[test]
fn varint_without_terminator_is_malformed() {
    assert_eq!(parse_varint(&[0x80, 0x80, 0x80, 0x80, 0x80], 0), Err(Error::MalformedVarInt));
    assert_eq!(parse_varint(&[0x80, 0x80, 0x80, 0x80, 0x80, 0x01], 0), Err(Error::MalformedVarInt));
}

#[test]
fn varint_cut_short_is_truncated() {
    assert_eq!(parse_varint(&[], 0), Err(Error::TruncatedInput));
    assert_eq!(parse_varint(&[0x80], 0), Err(Error::TruncatedInput));
    assert_eq!(parse_varint(&[0xff, 0xff, 0xff, 0xff], 0), Err(Error::TruncatedInput));
}

#[test]
fn varint_accepts_padded_zero_groups() {
    assert_eq!(parse_varint(&[0x81, 0x00], 0), Ok((1, 2)));
}

#[test]
fn varlong_exact_bytes() {
    assert_eq!(varlong_of(0), vec![0x00]);
    assert_eq!(varlong_of(127), vec![0x7f]);
    assert_eq!(varlong_of(128), vec![0x80, 0x01]);
    assert_eq!(varlong_of(2147483647), vec![0xff, 0xff, 0xff, 0xff, 0x07]);
    assert_eq!(
        varlong_of(i64::MAX),
        vec![0xff, 0xff, 0xff, 0xff, 0xff, 0xff, 0xff, 0xff, 0x7f]
    );
    assert_eq!(
        varlong_of(-1),
        vec![0xff, 0xff, 0xff, 0xff, 0xff, 0xff, 0xff, 0xff, 0xff, 0x01]
    );
    assert_eq!(
        varlong_of(i64::MIN),
        vec![0x80, 0x80, 0x80, 0x80, 0x80, 0x80, 0x80, 0x80, 0x80, 0x01]
    );
}

#[test]
fn varlong_boundaries_round_trip() {
    for v in [i64::MIN, -1, 0, 1, i32::MAX as i64, i32::MIN as i64, 1 << 35, i64::MAX] {
        let bytes = varlong_of(v);
        assert!(bytes.len() >= 1 && bytes.len() <= 10);
        assert_eq!(parse_varlong(&bytes, 0), Ok((v, bytes.len())));
    }
}

#[test]
fn varlong_tenth_byte_is_bounded() {
    let mut bytes = vec![0xff; 9];
    bytes.push(0x02);
    assert_eq!(parse_varlong(&bytes, 0), Err(Error::MalformedVarInt));
    let mut bytes = vec![0x80; 10];
    assert_eq!(parse_varlong(&bytes, 0), Err(Error::MalformedVarInt));
    bytes.truncate(9);
    assert_eq!(parse_varlong(&bytes, 0), Err(Error::TruncatedInput));
}
