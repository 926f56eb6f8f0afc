//! Stacks of items.

use vstd::prelude::*;
use crate::de::{took, MCProtoDeserializer};
use crate::error::Error;
use crate::optional::{absent_bytes, optional_parse, peek_absent, write_absent};
use crate::primitive::{i16_bytes, i16_parse, parse_i16, parse_u8, u8_bytes, u8_parse};
use crate::primitive::{write_i16, write_u8};
use crate::ser::MCProtoSerializer;
use crate::types::nbt::{gzip_nbt_bytes, gzip_nbt_parse, parse_document, write_document, GZIPNBT};
use crate::parse::Parsed;

verus! {

/// A stack of items: what it is, how many, how worn, and an optional
/// compressed document of further data.
#[derive(Debug, PartialEq)]
pub struct Slot {
    pub id: i16,
    pub count: u8,
    pub damage: i16,
    pub tag: Option<GZIPNBT>,
}

/// Reads an item stack from the front of `b`: its three numbers, then the
/// optional document.
pub open spec fn slot_parse(b: Seq<u8>) -> Parsed<Slot> {
    match i16_parse(b) {
        Err(e) => Err(e),
        Ok((id, _)) => match u8_parse(b.skip(2)) {
            Err(e) => Err(e),
            Ok((count, _)) => match i16_parse(b.skip(3)) {
                Err(e) => Err(e),
                Ok((damage, _)) => match optional_parse(b.skip(5), gzip_nbt_parse(b.skip(5))) {
                    Err(e) => Err(e),
                    Ok((tag, n)) => Ok(
                        (
                            Slot {
                                id,
                                count,
                                damage,
                                tag: match tag {
                                    Some(blob) => Some(GZIPNBT(blob)),
                                    None => None,
                                },
                            },
                            5 + n,
                        ),
                    ),
                },
            },
        },
    }
}

/// The wire form of an item stack.
pub open spec fn slot_bytes(slot: Slot) -> Result<Seq<u8>, Error> {
    let head = i16_bytes(slot.id) + u8_bytes(slot.count) + i16_bytes(slot.damage);
    match slot.tag {
        None => Ok(head + absent_bytes()),
        Some(doc) => match gzip_nbt_bytes(doc.0) {
            Ok(tail) => Ok(head + tail),
            Err(e) => Err(e),
        },
    }
}

/// An item stack without a document survives a round trip, whatever bytes
/// follow it. With a document it passes through the document codec, of which
/// no round trip is known here.
pub proof fn lemma_slot_roundtrip(slot: Slot, rest: Seq<u8>)
    requires
        slot.tag is None,
    ensures
        slot_bytes(slot) is Ok,
        slot_bytes(slot)->Ok_0.len() == 7,
        slot_parse(slot_bytes(slot)->Ok_0 + rest) == Ok::<(Slot, nat), Error>((slot, 7)),
{
    let b = slot_bytes(slot)->Ok_0 + rest;
    let t1 = u8_bytes(slot.count) + i16_bytes(slot.damage) + absent_bytes() + rest;
    let t2 = i16_bytes(slot.damage) + absent_bytes() + rest;
    let t3 = absent_bytes() + rest;
    crate::primitive::lemma_i16_roundtrip(slot.id, t1);
    crate::primitive::lemma_u8_roundtrip(slot.count, t2);
    crate::primitive::lemma_i16_roundtrip(slot.damage, t3);
    assert(b =~= i16_bytes(slot.id) + t1);
    assert(b.skip(2) =~= u8_bytes(slot.count) + t2);
    assert(b.skip(3) =~= i16_bytes(slot.damage) + t3);
    assert(b.skip(5) =~= absent_bytes() + rest);
    crate::optional::lemma_absent_roundtrip(rest, gzip_nbt_parse(b.skip(5)));
}

/// An item stack that was read took no more bytes than there were.
pub proof fn lemma_slot_within(b: Seq<u8>)
    requires
        slot_parse(b) is Ok,
    ensures
        slot_parse(b)->Ok_0.1 <= b.len(),
{
    let tail = b.skip(5);
    crate::optional::lemma_optional_within(tail, gzip_nbt_parse(tail));
}

impl Slot {
    /// Reads an item stack from `src`, starting at `start`.
    pub fn decode_at(src: &[u8], start: usize) -> (r: Result<(Slot, usize), Error>)
        requires
            start <= src@.len(),
        ensures
            match slot_parse(src@.skip(start as int)) {
                Ok((slot, n)) => r == Ok::<(Slot, usize), Error>((slot, n as usize)) && start + n
                    <= src@.len(),
                Err(e) => r == Err::<(Slot, usize), Error>(e),
            },
    {
        let ghost b = src@.skip(start as int);
        let total: usize = src.len();
        let (id, _) = match parse_i16(src, start) {
            Ok(pair) => pair,
            Err(e) => {
                return Err(e);
            },
        };
        proof {
            assert(b.skip(2) =~= src@.skip(start + 2));
        }
        let (count, _) = match parse_u8(src, start + 2) {
            Ok(pair) => pair,
            Err(e) => {
                return Err(e);
            },
        };
        proof {
            assert(b.skip(3) =~= src@.skip(start + 3));
        }
        let (damage, _) = match parse_i16(src, start + 3) {
            Ok(pair) => pair,
            Err(e) => {
                return Err(e);
            },
        };
        proof {
            assert(b.skip(5) =~= src@.skip(start + 5));
        }
        match peek_absent(src, start + 5) {
            Err(e) => Err(e),
            Ok(true) => Ok((Slot { id, count, damage, tag: None }, 7)),
            Ok(false) => match parse_document(src, start + 5, true) {
                Ok((blob, n)) => Ok((Slot { id, count, damage, tag: Some(GZIPNBT(blob)) }, 5 + n)),
                Err(e) => Err(e),
            },
        }
    }

    /// Appends the wire form of the item stack to `out`. On an error nothing
    /// is written.
    pub fn encode_into(&self, out: &mut Vec<u8>) -> (r: Result<(), Error>)
        ensures
            match slot_bytes(*self) {
                Ok(bytes) => r is Ok && final(out)@ == old(out)@ + bytes,
                Err(e) => r == Err::<(), Error>(e) && final(out)@ == old(out)@,
            },
    {
        let base: usize = out.len();
        write_i16(self.id, out);
        write_u8(self.count, out);
        write_i16(self.damage, out);
        let ghost head = i16_bytes(self.id) + u8_bytes(self.count) + i16_bytes(self.damage);
        proof {
            assert(out@ =~= old(out)@ + head);
        }
        match &self.tag {
            None => {
                write_absent(out);
                proof {
                    assert(out@ =~= old(out)@ + (head + absent_bytes()));
                }
                Ok(())
            },
            Some(doc) => match write_document(&doc.0, true, out) {
                Ok(()) => {
                    proof {
                        let tail = gzip_nbt_bytes(doc.0)->Ok_0;
                        assert(out@ =~= old(out)@ + (head + tail));
                    }
                    Ok(())
                },
                Err(e) => {
                    out.truncate(base);
                    proof {
                        assert(out@ =~= old(out)@);
                    }
                    Err(e)
                },
            },
        }
    }

    /// Writes the item stack.
    pub fn serialize(&self, serializer: &mut MCProtoSerializer) -> (r: Result<(), Error>)
        ensures
            match slot_bytes(*self) {
                Ok(bytes) => r is Ok && final(serializer)@ == old(serializer)@ + bytes,
                Err(e) => r == Err::<(), Error>(e) && final(serializer)@ == old(serializer)@,
            },
    {
        self.encode_into(&mut serializer.writer)
    }

    /// Reads an item stack.
    pub fn deserialize(deserializer: &mut MCProtoDeserializer) -> (r: Result<Slot, Error>)
        ensures
            took(old(deserializer)@, final(deserializer)@, slot_parse(old(deserializer)@), r),
    {
        proof {
            assert(deserializer@.skip(0) =~= deserializer@);
        }
        match Slot::decode_at(deserializer.peek(), 0) {
            Ok((slot, n)) => {
                deserializer.advance(n);
                Ok(slot)
            },
            Err(e) => Err(e),
        }
    }
}

} // verus!
