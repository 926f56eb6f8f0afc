//! The calls this library makes into code that is not verified here. Each
//! function below is believed, not proved: its contract restates what the
//! called code documents.

use vstd::prelude::*;
use vstd::utf8::{decode_utf8, valid_utf8};
use byteorder::ByteOrder;
use std::io::{Read, Write};
use crate::fixed::be_value;
use crate::types::scan::document_sound;
use crate::types::uuid::{uuid_parsed, uuid_text};

verus! {

/// `String::from_utf8`: succeeds exactly on well-formed UTF-8, and the string
/// then holds the characters those bytes encode. The error, which only hands
/// the bytes back, is dropped.
#[verifier::external_body]
pub(crate) fn string_from_utf8(bytes: Vec<u8>) -> (r: Option<String>)
    ensures
        r is Some <==> valid_utf8(bytes@),
        r is Some ==> r->Some_0@ == decode_utf8(bytes@),
{
    String::from_utf8(bytes).ok()
}

/// `bytes::BytesMut`, the growable byte buffer that the transport fills and
/// the framing layer drains.
#[verifier::external_type_specification]
#[verifier::external_body]
pub struct ExBytesMut(bytes::BytesMut);

/// The bytes that a buffer holds, first to last.
pub uninterp spec fn buffered(buf: bytes::BytesMut) -> Seq<u8>;

/// `<BytesMut as AsRef<[u8]>>::as_ref`: the buffer's contents as a slice.
#[verifier::external_body]
pub(crate) fn buffer_bytes(buf: &bytes::BytesMut) -> (r: &[u8])
    ensures
        r@ == buffered(*buf),
{
    buf.as_ref()
}

/// `BytesMut::advance`: drops the first `cnt` bytes and keeps the rest. It
/// panics when asked to drop more than the buffer holds.
#[verifier::external_body]
pub(crate) fn buffer_advance(buf: &mut bytes::BytesMut, cnt: usize)
    requires
        cnt <= buffered(*old(buf)).len(),
    ensures
        buffered(*final(buf)) == buffered(*old(buf)).skip(cnt as int),
{
    buf.advance(cnt)
}

/// `BytesMut::split_to`: hands out the first `at` bytes as a buffer of their
/// own and keeps the rest. It panics when `at` is beyond the end.
#[verifier::external_body]
pub(crate) fn buffer_split_to(buf: &mut bytes::BytesMut, at: usize) -> (head: bytes::BytesMut)
    requires
        at <= buffered(*old(buf)).len(),
    ensures
        buffered(head) == buffered(*old(buf)).take(at as int),
        buffered(*final(buf)) == buffered(*old(buf)).skip(at as int),
{
    buf.split_to(at)
}

/// `BytesMut::extend_from_slice`: appends the slice, growing the buffer when
/// it has to. Growing panics when the new capacity overflows what one
/// allocation can hold.
#[verifier::external_body]
pub(crate) fn buffer_extend(buf: &mut bytes::BytesMut, extend: &[u8])
    requires
        buffered(*old(buf)).len() + extend@.len() <= isize::MAX,
    ensures
        buffered(*final(buf)) == buffered(*old(buf)) + extend@,
{
    buf.extend_from_slice(extend)
}

/// `nbt::Blob`, a tree-structured document: a map of names to values.
/// Nothing in this library looks inside one.
#[verifier::external_type_specification]
#[verifier::external_body]
pub struct ExBlob(nbt::Blob);

/// The document that `nbt::Blob::from_reader` reads from the given bytes, if
/// it reads one.
pub uninterp spec fn nbt_parsed(bytes: Seq<u8>) -> Option<nbt::Blob>;

/// The bytes that `nbt::Blob::to_writer` writes for the given document, if it
/// writes any. Documents keep their entries in the order of insertion, so the
/// bytes are a function of the document.
pub uninterp spec fn nbt_written(blob: nbt::Blob) -> Option<Seq<u8>>;

/// What `flate2::read::GzDecoder` inflates the given gzip stream to, if it is
/// one.
pub uninterp spec fn gunzipped(bytes: Seq<u8>) -> Option<Seq<u8>>;

/// The gzip stream that `flate2::write::GzEncoder` makes of the given bytes
/// at the default level. The header carries no time stamp.
pub uninterp spec fn gzipped(bytes: Seq<u8>) -> Option<Seq<u8>>;

/// `nbt::Blob::from_reader`: reads one document from the front of the
/// bytes. Why a reading failed is dropped. The reader allocates for every
/// count it meets before it reads what the count announces, and it recurses
/// into every list and compound; it is handed only bytes in which every
/// count is met by the bytes after it and the nesting is bounded.
#[verifier::external_body]
pub(crate) fn nbt_read(data: &[u8]) -> (r: Option<nbt::Blob>)
    requires
        document_sound(data@),
    ensures
        r == nbt_parsed(data@),
{
    let mut src: &[u8] = data;
    match nbt::Blob::from_reader(&mut src) {
        Ok(blob) => Some(blob),
        Err(_) => None,
    }
}

/// `nbt::Blob::to_writer`, into a fresh vector: the binary form of the
/// document. Why a writing failed is dropped.
#[verifier::external_body]
pub(crate) fn nbt_write(blob: &nbt::Blob) -> (r: Option<Vec<u8>>)
    ensures
        match nbt_written(*blob) {
            Some(bytes) => r is Some && r->Some_0@ == bytes,
            None => r is None,
        },
{
    let mut out: Vec<u8> = Vec::new();
    match blob.to_writer(&mut out) {
        Ok(()) => Some(out),
        Err(_) => None,
    }
}

/// `flate2::read::GzDecoder`, read to its end: the bytes that a gzip stream
/// inflates to. Why the inflation failed is dropped.
#[verifier::external_body]
pub(crate) fn gunzip(data: &[u8]) -> (r: Option<Vec<u8>>)
    ensures
        match gunzipped(data@) {
            Some(bytes) => r is Some && r->Some_0@ == bytes,
            None => r is None,
        },
{
    let mut out: Vec<u8> = Vec::new();
    match flate2::read::GzDecoder::new(data).read_to_end(&mut out) {
        Ok(_) => Some(out),
        Err(_) => None,
    }
}

/// `flate2::write::GzEncoder`, at the default level, written to and finished:
/// the gzip stream of the bytes.
#[verifier::external_body]
pub(crate) fn gzip(data: &[u8]) -> (r: Option<Vec<u8>>)
    ensures
        match gzipped(data@) {
            Some(bytes) => r is Some && r->Some_0@ == bytes,
            None => r is None,
        },
{
    let mut enc = flate2::write::GzEncoder::new(Vec::new(), flate2::Compression::default());
    match enc.write_all(data) {
        Ok(()) => enc.finish().ok(),
        Err(_) => None,
    }
}

/// `uuid::Uuid::parse_str`, then `as_bytes`: the sixteen bytes of the
/// identifier that the text spells. The parser takes 32 hexadecimal digits
/// of either case, or the same with hyphens after digits 8, 12, 16 and 20,
/// or that behind `urn:uuid:`, and nothing else; two digits make a byte, the
/// high half first. Why a text did not parse is dropped.
#[verifier::external_body]
pub(crate) fn uuid_parse(text: &str) -> (r: Option<[u8; 16]>)
    ensures
        match uuid_parsed(text@) {
            Some(bytes) => r is Some && r->Some_0@ == bytes,
            None => r is None,
        },
{
    match uuid::Uuid::parse_str(text) {
        Ok(id) => Some(*id.as_bytes()),
        Err(_) => None,
    }
}

/// `uuid::Uuid::from_bytes`, then `to_hyphenated` and `to_string`: the
/// canonical text of the identifier, which is 36 characters: the lower-case
/// hexadecimal digits of the sixteen bytes in their order, the high half of
/// a byte first, with a hyphen after bytes 4, 6, 8 and 10.
#[verifier::external_body]
pub(crate) fn uuid_format(bytes: &[u8; 16]) -> (r: String)
    ensures
        r@ == uuid_text(bytes@),
{
    uuid::Uuid::from_bytes(*bytes).to_hyphenated().to_string()
}

/// `byteorder::NativeEndian::read_u128`: the number that sixteen bytes spell
/// in the byte order of the machine, which is one of the two orders.
#[verifier::external_body]
pub(crate) fn native_u128(bytes: &[u8; 16]) -> (r: u128)
    ensures
        r == be_value(bytes@) || r == be_value(bytes@.reverse()),
{
    byteorder::NativeEndian::read_u128(bytes)
}

} // verus!
