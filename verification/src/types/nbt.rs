//! Embedded tree-structured documents: a length-prefixed span handed to the
//! document codec, after inflation where the document travels compressed.

use vstd::prelude::*;
use vstd::slice::{slice_subrange, slice_to_vec};
use crate::de::{took, MCProtoDeserializer};
use crate::error::Error;
use crate::foreign::{gunzip, gunzipped, gzip, gzipped, nbt_parsed, nbt_read, nbt_write, nbt_written};
use crate::primitive::{parse_u16, u16_bytes, u16_parse, write_u16};
use crate::ser::MCProtoSerializer;
use crate::types::scan::{document_sound, is_sound};
use crate::parse::Parsed;

verus! {

/// A tree-structured document that travels as a length-prefixed span of its
/// binary form.
#[derive(Debug, PartialEq)]
pub struct NBT(pub nbt::Blob);

/// A tree-structured document that travels as a length-prefixed span of its
/// binary form, gzip-compressed.
#[derive(Debug, PartialEq)]
pub struct GZIPNBT(pub nbt::Blob);

/// The largest span that the 16-bit length prefix can carry.
pub const MAX_SPAN_BYTES: usize = 0xffff;

/// Reads a span from the front of `b`: an unsigned 16-bit count, then that
/// many bytes.
pub open spec fn span_parse(b: Seq<u8>) -> Parsed<Seq<u8>> {
    match u16_parse(b) {
        Err(e) => Err(e),
        Ok((count, _)) => {
            if b.len() - 2 < count {
                Err(Error::TruncatedInput)
            } else {
                Ok((b.subrange(2, 2 + count), (2 + count) as nat))
            }
        },
    }
}

/// The wire form of a span, or the error that stands for one too long for its
/// prefix.
pub open spec fn span_bytes(body: Seq<u8>) -> Result<Seq<u8>, Error> {
    if body.len() > MAX_SPAN_BYTES {
        Err(Error::LengthOverflow)
    } else {
        Ok(u16_bytes(body.len() as u16) + body)
    }
}

/// What the bytes of a document are read as. Bytes in which a count is not
/// met by what follows it, or that nest too deep, are no document and are
/// never handed to the document codec.
pub open spec fn document_of(body: Seq<u8>) -> Result<nbt::Blob, Error> {
    if !document_sound(body) {
        Err(Error::EmbeddedDocumentError)
    } else {
        match nbt_parsed(body) {
            Some(blob) => Ok(blob),
            None => Err(Error::EmbeddedDocumentError),
        }
    }
}

/// What the gzip stream of a document is read as.
pub open spec fn gzip_document_of(body: Seq<u8>) -> Result<nbt::Blob, Error> {
    match gunzipped(body) {
        Some(raw) => document_of(raw),
        None => Err(Error::EmbeddedDocumentError),
    }
}

/// Reads a document from the front of `b`: a span, handed to the document
/// codec.
pub open spec fn nbt_parse(b: Seq<u8>) -> Parsed<nbt::Blob> {
    match span_parse(b) {
        Err(e) => Err(e),
        Ok((body, n)) => match document_of(body) {
            Ok(blob) => Ok((blob, n)),
            Err(e) => Err(e),
        },
    }
}

/// Reads a compressed document from the front of `b`: a span, inflated and
/// then handed to the document codec.
pub open spec fn gzip_nbt_parse(b: Seq<u8>) -> Parsed<nbt::Blob> {
    match span_parse(b) {
        Err(e) => Err(e),
        Ok((body, n)) => match gzip_document_of(body) {
            Ok(blob) => Ok((blob, n)),
            Err(e) => Err(e),
        },
    }
}

/// The wire form of a document: its binary form, as the document codec
/// writes it now, in a span whose length is that of those bytes.
pub open spec fn nbt_bytes(blob: nbt::Blob) -> Result<Seq<u8>, Error> {
    match nbt_written(blob) {
        Some(body) => span_bytes(body),
        None => Err(Error::EmbeddedDocumentError),
    }
}

/// The wire form of a compressed document.
pub open spec fn gzip_nbt_bytes(blob: nbt::Blob) -> Result<Seq<u8>, Error> {
    match nbt_written(blob) {
        Some(raw) => match gzipped(raw) {
            Some(body) => span_bytes(body),
            None => Err(Error::EmbeddedDocumentError),
        },
        None => Err(Error::EmbeddedDocumentError),
    }
}

/// A span survives a round trip, whatever bytes follow it.
pub proof fn lemma_span_roundtrip(body: Seq<u8>, rest: Seq<u8>)
    requires
        body.len() <= MAX_SPAN_BYTES,
    ensures
        span_bytes(body) is Ok,
        span_parse(span_bytes(body)->Ok_0 + rest) == Ok::<(Seq<u8>, nat), Error>(
            (body, span_bytes(body)->Ok_0.len()),
        ),
{
    let head = u16_bytes(body.len() as u16);
    let b = span_bytes(body)->Ok_0 + rest;
    crate::primitive::lemma_u16_roundtrip(body.len() as u16, body + rest);
    assert(b =~= head + (body + rest));
    assert(b.subrange(2, 2 + body.len() as int) =~= body);
}

/// Reads a span from `src`, starting at `start`. Returns its bytes and the
/// number of bytes it took with its prefix.
pub fn parse_span(src: &[u8], start: usize) -> (r: Result<(Vec<u8>, usize), Error>)
    requires
        start <= src@.len(),
    ensures
        match span_parse(src@.skip(start as int)) {
            Ok((body, n)) => r is Ok && r->Ok_0.0@ == body && r->Ok_0.1 == n && start + n
                <= src@.len(),
            Err(e) => r == Err::<(Vec<u8>, usize), Error>(e),
        },
{
    let (count, _) = match parse_u16(src, start) {
        Ok(pair) => pair,
        Err(e) => {
            return Err(e);
        },
    };
    let total: usize = src.len();
    if total - start - 2 < count as usize {
        return Err(Error::TruncatedInput);
    }
    let from: usize = start + 2;
    let to: usize = from + count as usize;
    let body: Vec<u8> = slice_to_vec(slice_subrange(src, from, to));
    proof {
        assert(body@ =~= src@.skip(start as int).subrange(2, 2 + count));
    }
    Ok((body, 2 + count as usize))
}

/// Appends a span to `out`. One too long for its prefix is refused and
/// nothing is written.
pub fn write_span(body: &[u8], out: &mut Vec<u8>) -> (r: Result<(), Error>)
    ensures
        match span_bytes(body@) {
            Ok(bytes) => r is Ok && final(out)@ == old(out)@ + bytes,
            Err(e) => r == Err::<(), Error>(e) && final(out)@ == old(out)@,
        },
{
    if body.len() > MAX_SPAN_BYTES {
        return Err(Error::LengthOverflow);
    }
    write_u16(body.len() as u16, out);
    out.extend_from_slice(body);
    proof {
        assert(out@ =~= old(out)@ + (u16_bytes(body@.len() as u16) + body@));
    }
    Ok(())
}

/// The document that the document codec read, or the error that stands for
/// its failure.
pub fn document_read(parsed: Option<nbt::Blob>) -> (r: Result<nbt::Blob, Error>)
    ensures
        match parsed {
            Some(blob) => r == Ok::<nbt::Blob, Error>(blob),
            None => r == Err::<nbt::Blob, Error>(Error::EmbeddedDocumentError),
        },
{
    match parsed {
        Some(blob) => Ok(blob),
        None => Err(Error::EmbeddedDocumentError),
    }
}

/// The bytes that an outside codec produced, or the error that stands for
/// its failure.
pub fn bytes_produced(produced: Option<Vec<u8>>) -> (r: Result<Vec<u8>, Error>)
    ensures
        match produced {
            Some(bytes) => r == Ok::<Vec<u8>, Error>(bytes),
            None => r == Err::<Vec<u8>, Error>(Error::EmbeddedDocumentError),
        },
{
    match produced {
        Some(bytes) => Ok(bytes),
        None => Err(Error::EmbeddedDocumentError),
    }
}

/// Reads a document from `src`, starting at `start`; `compressed` says
/// whether its span is inflated first.
pub fn parse_document(src: &[u8], start: usize, compressed: bool) -> (r: Result<
    (nbt::Blob, usize),
    Error,
>)
    requires
        start <= src@.len(),
    ensures
        match (if compressed {
            gzip_nbt_parse(src@.skip(start as int))
        } else {
            nbt_parse(src@.skip(start as int))
        }) {
            Ok((blob, n)) => r == Ok::<(nbt::Blob, usize), Error>((blob, n as usize)) && start + n
                <= src@.len(),
            Err(e) => r == Err::<(nbt::Blob, usize), Error>(e),
        },
{
    let (body, n) = match parse_span(src, start) {
        Ok(pair) => pair,
        Err(e) => {
            return Err(e);
        },
    };
    let raw: Vec<u8> = if compressed {
        match bytes_produced(gunzip(body.as_slice())) {
            Ok(raw) => raw,
            Err(e) => {
                return Err(e);
            },
        }
    } else {
        body
    };
    if !is_sound(raw.as_slice()) {
        return Err(Error::EmbeddedDocumentError);
    }
    match document_read(nbt_read(raw.as_slice())) {
        Ok(blob) => Ok((blob, n)),
        Err(e) => Err(e),
    }
}

/// Appends a document to `out`, compressed or not. The document is written
/// anew by the document codec, and the length in front is that of the bytes
/// it gave. On an error nothing is written.
pub fn write_document(blob: &nbt::Blob, compressed: bool, out: &mut Vec<u8>) -> (r: Result<
    (),
    Error,
>)
    ensures
        match (if compressed {
            gzip_nbt_bytes(*blob)
        } else {
            nbt_bytes(*blob)
        }) {
            Ok(bytes) => r is Ok && final(out)@ == old(out)@ + bytes,
            Err(e) => r == Err::<(), Error>(e) && final(out)@ == old(out)@,
        },
{
    let raw: Vec<u8> = match bytes_produced(nbt_write(blob)) {
        Ok(raw) => raw,
        Err(e) => {
            return Err(e);
        },
    };
    let body: Vec<u8> = if compressed {
        match bytes_produced(gzip(raw.as_slice())) {
            Ok(body) => body,
            Err(e) => {
                return Err(e);
            },
        }
    } else {
        raw
    };
    write_span(body.as_slice(), out)
}

impl NBT {
    /// Writes the document as a length-prefixed span.
    pub fn serialize(&self, serializer: &mut MCProtoSerializer) -> (r: Result<(), Error>)
        ensures
            match nbt_bytes(self.0) {
                Ok(bytes) => r is Ok && final(serializer)@ == old(serializer)@ + bytes,
                Err(e) => r == Err::<(), Error>(e) && final(serializer)@ == old(serializer)@,
            },
    {
        write_document(&self.0, false, &mut serializer.writer)
    }

    /// Reads a document from a length-prefixed span.
    pub fn deserialize(deserializer: &mut MCProtoDeserializer) -> (r: Result<NBT, Error>)
        ensures
            took(
                old(deserializer)@,
                final(deserializer)@,
                nbt_parse(old(deserializer)@),
                match r {
                    Ok(v) => Ok(v.0),
                    Err(e) => Err(e),
                },
            ),
    {
        proof {
            assert(deserializer@.skip(0) =~= deserializer@);
        }
        match parse_document(deserializer.peek(), 0, false) {
            Ok((blob, n)) => {
                deserializer.advance(n);
                Ok(NBT(blob))
            },
            Err(e) => Err(e),
        }
    }
}

impl GZIPNBT {
    /// Writes the document as a length-prefixed span of its gzip stream.
    pub fn serialize(&self, serializer: &mut MCProtoSerializer) -> (r: Result<(), Error>)
        ensures
            match gzip_nbt_bytes(self.0) {
                Ok(bytes) => r is Ok && final(serializer)@ == old(serializer)@ + bytes,
                Err(e) => r == Err::<(), Error>(e) && final(serializer)@ == old(serializer)@,
            },
    {
        write_document(&self.0, true, &mut serializer.writer)
    }

    /// Reads a document from a length-prefixed span of its gzip stream.
    pub fn deserialize(deserializer: &mut MCProtoDeserializer) -> (r: Result<GZIPNBT, Error>)
        ensures
            took(
                old(deserializer)@,
                final(deserializer)@,
                gzip_nbt_parse(old(deserializer)@),
                match r {
                    Ok(v) => Ok(v.0),
                    Err(e) => Err(e),
                },
            ),
    {
        proof {
            assert(deserializer@.skip(0) =~= deserializer@);
        }
        match parse_document(deserializer.peek(), 0, true) {
            Ok((blob, n)) => {
                deserializer.advance(n);
                Ok(GZIPNBT(blob))
            },
            Err(e) => Err(e),
        }
    }
}

} // verus!
