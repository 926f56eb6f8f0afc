//! The bulk chunk payload, whose lengths are fields of its own.

use vstd::prelude::*;
use vstd::slice::{slice_subrange, slice_to_vec};
use crate::de::{took_view, MCProtoDeserializer};
use crate::error::Error;
use crate::primitive::{i16_bytes, i16_parse, parse_i16, write_i16};
use crate::primitive::{i32_bytes, i32_parse, parse_i32, write_i32};
use crate::primitive::{lemma_i16_roundtrip, lemma_i32_roundtrip};
use crate::primitive::{lemma_u16_roundtrip, parse_u16, u16_bytes, u16_parse, write_u16};
use crate::ser::MCProtoSerializer;
use crate::parse::Parsed;

verus! {

/// The fixed-size record that describes one chunk column of a bulk payload.
#[derive(Debug, Clone, Copy, PartialEq, Eq, Structural)]
pub struct ChunkMeta {
    pub x: i32,
    pub z: i32,
    pub mask: u16,
    pub add_mask: u16,
}

/// The number of bytes of one column record on the wire.
pub const META_BYTES: usize = 12;

/// The most column records that the count in front can announce.
pub const MAX_COLUMNS: usize = 0x7fff;

/// The most data bytes that the length in front can announce.
pub const MAX_DATA_BYTES: usize = 0x7fff_ffff;

/// A bulk chunk payload: a count and a byte length come first, and they, not
/// prefixes of their own, say how many data bytes and how many column records
/// follow. The two numbers are kept equal to the sizes of what they announce.
#[derive(Debug, PartialEq, Eq)]
pub struct ChunkDataBulk {
    chunk_column_count: i16,
    data_length: i32,
    compressed_chunk_data: Vec<u8>,
    meta: Vec<ChunkMeta>,
}

/// What a bulk chunk payload holds; the count and the length are the sizes of
/// `meta` and `data`.
pub struct ChunkBulkView {
    pub data: Seq<u8>,
    pub meta: Seq<ChunkMeta>,
}

impl View for ChunkDataBulk {
    type V = ChunkBulkView;

    closed spec fn view(&self) -> ChunkBulkView {
        ChunkBulkView { data: self.compressed_chunk_data@, meta: self.meta@ }
    }
}

/// Reads one column record from the front of `b`.
pub open spec fn meta_parse(b: Seq<u8>) -> Parsed<ChunkMeta> {
    match i32_parse(b) {
        Err(e) => Err(e),
        Ok((x, _)) => match i32_parse(b.skip(4)) {
            Err(e) => Err(e),
            Ok((z, _)) => match u16_parse(b.skip(8)) {
                Err(e) => Err(e),
                Ok((mask, _)) => match u16_parse(b.skip(10)) {
                    Err(e) => Err(e),
                    Ok((add_mask, _)) => Ok((ChunkMeta { x, z, mask, add_mask }, 12)),
                },
            },
        },
    }
}

/// The wire form of one column record: twelve bytes.
pub open spec fn meta_bytes(m: ChunkMeta) -> Seq<u8> {
    i32_bytes(m.x) + i32_bytes(m.z) + u16_bytes(m.mask) + u16_bytes(m.add_mask)
}

/// Reads `count` column records from the front of `b`, one after another.
pub open spec fn metas_parse(b: Seq<u8>, count: nat) -> Parsed<Seq<ChunkMeta>>
    decreases count,
{
    if count == 0 {
        Ok((Seq::empty(), 0))
    } else {
        match meta_parse(b) {
            Err(e) => Err(e),
            Ok((m, _)) => match metas_parse(b.skip(12), (count - 1) as nat) {
                Err(e) => Err(e),
                Ok((ms, n)) => Ok((seq![m] + ms, 12 + n)),
            },
        }
    }
}

/// The wire forms of the column records from `i` on, one after another.
pub open spec fn metas_bytes(ms: Seq<ChunkMeta>, i: nat) -> Seq<u8>
    decreases ms.len() - i,
{
    if i >= ms.len() {
        Seq::empty()
    } else {
        meta_bytes(ms[i as int]) + metas_bytes(ms, i + 1)
    }
}

/// Reads a bulk chunk payload from the front of `b`: the column count and the
/// data length, then at once as many data bytes as the length says, then as
/// many column records as the count says. Neither run has a prefix of its
/// own. A negative count or length demands what no input holds.
pub open spec fn chunk_parse(b: Seq<u8>) -> Parsed<ChunkBulkView> {
    match i16_parse(b) {
        Err(e) => Err(e),
        Ok((count, _)) => match i32_parse(b.skip(2)) {
            Err(e) => Err(e),
            Ok((length, _)) => {
                if count < 0 || length < 0 || b.len() - 6 < length {
                    Err(Error::TruncatedInput)
                } else {
                    match metas_parse(b.skip(6 + length), count as nat) {
                        Err(e) => Err(e),
                        Ok((meta, n)) => Ok(
                            (
                                ChunkBulkView { data: b.subrange(6, 6 + length), meta },
                                (6 + length + n) as nat,
                            ),
                        ),
                    }
                }
            },
        },
    }
}

/// The wire form of a bulk chunk payload. The count and the length are
/// written from the sizes of what follows them; sizes that they cannot
/// announce have no wire form.
pub open spec fn chunk_bytes(v: ChunkBulkView) -> Result<Seq<u8>, Error> {
    if v.meta.len() > MAX_COLUMNS || v.data.len() > MAX_DATA_BYTES {
        Err(Error::LengthOverflow)
    } else {
        Ok(
            i16_bytes(v.meta.len() as i16) + i32_bytes(v.data.len() as i32) + v.data + metas_bytes(
                v.meta,
                0,
            ),
        )
    }
}

/// A column record survives a round trip and takes twelve bytes.
pub proof fn lemma_meta_roundtrip(m: ChunkMeta, rest: Seq<u8>)
    ensures
        meta_parse(meta_bytes(m) + rest) == Ok::<(ChunkMeta, nat), Error>((m, 12)),
        meta_bytes(m).len() == 12,
{
    let b = meta_bytes(m) + rest;
    let t1 = i32_bytes(m.z) + u16_bytes(m.mask) + u16_bytes(m.add_mask) + rest;
    let t2 = u16_bytes(m.mask) + u16_bytes(m.add_mask) + rest;
    let t3 = u16_bytes(m.add_mask) + rest;
    lemma_i32_roundtrip(m.x, t1);
    lemma_i32_roundtrip(m.z, t2);
    lemma_u16_roundtrip(m.mask, t3);
    lemma_u16_roundtrip(m.add_mask, rest);
    assert(b =~= i32_bytes(m.x) + t1);
    assert(b.skip(4) =~= i32_bytes(m.z) + t2);
    assert(b.skip(8) =~= u16_bytes(m.mask) + t3);
    assert(b.skip(10) =~= u16_bytes(m.add_mask) + rest);
}

/// Column records read successfully are as many as were asked for, and take
/// twelve bytes each.
pub proof fn lemma_metas_size(b: Seq<u8>, count: nat)
    requires
        metas_parse(b, count) is Ok,
    ensures
        metas_parse(b, count)->Ok_0.0.len() == count,
        metas_parse(b, count)->Ok_0.1 == 12 * count,
    decreases count,
{
    if count > 0 {
        lemma_metas_size(b.skip(12), (count - 1) as nat);
    }
}

/// Column records survive a round trip.
pub proof fn lemma_metas_roundtrip(ms: Seq<ChunkMeta>, i: nat, rest: Seq<u8>)
    requires
        i <= ms.len(),
    ensures
        metas_parse(metas_bytes(ms, i) + rest, (ms.len() - i) as nat) == Ok::<
            (Seq<ChunkMeta>, nat),
            Error,
        >((ms.skip(i as int), metas_bytes(ms, i).len())),
    decreases ms.len() - i,
{
    if i >= ms.len() {
        assert(ms.skip(i as int) =~= Seq::<ChunkMeta>::empty());
    } else {
        let head = meta_bytes(ms[i as int]);
        let tail = metas_bytes(ms, i + 1);
        lemma_meta_roundtrip(ms[i as int], tail + rest);
        assert((head + tail) + rest =~= head + (tail + rest));
        assert((head + (tail + rest)).skip(12) =~= tail + rest);
        lemma_metas_roundtrip(ms, i + 1, rest);
        assert(seq![ms[i as int]] + ms.skip(i as int + 1) =~= ms.skip(i as int));
    }
}

/// Column records that were read took no more bytes than there were.
pub proof fn lemma_metas_within(b: Seq<u8>, count: nat)
    requires
        metas_parse(b, count) is Ok,
    ensures
        metas_parse(b, count)->Ok_0.1 <= b.len(),
    decreases count,
{
    if count > 0 {
        lemma_metas_within(b.skip(12), (count - 1) as nat);
    }
}

/// A bulk chunk payload that was read took no more bytes than there were.
pub proof fn lemma_chunk_within(b: Seq<u8>)
    requires
        chunk_parse(b) is Ok,
    ensures
        chunk_parse(b)->Ok_0.1 <= b.len(),
{
    let count = i16_parse(b)->Ok_0.0;
    let length = i32_parse(b.skip(2))->Ok_0.0;
    lemma_metas_within(b.skip(6 + length), count as nat);
}

/// After the six bytes of the count and the length, a bulk chunk payload
/// takes exactly as many bytes as the length says, and twelve more for each
/// column that the count says: never more, never fewer.
pub proof fn lemma_chunk_consumed(b: Seq<u8>)
    requires
        chunk_parse(b) is Ok,
    ensures
        chunk_parse(b)->Ok_0.1 == 6 + chunk_parse(b)->Ok_0.0.data.len() + 12 * chunk_parse(
            b,
        )->Ok_0.0.meta.len(),
        i16_parse(b) is Ok && chunk_parse(b)->Ok_0.0.meta.len() == i16_parse(b)->Ok_0.0,
        i32_parse(b.skip(2)) is Ok && chunk_parse(b)->Ok_0.0.data.len() == i32_parse(
            b.skip(2),
        )->Ok_0.0,
{
    let count = i16_parse(b)->Ok_0.0;
    let length = i32_parse(b.skip(2))->Ok_0.0;
    lemma_metas_size(b.skip(6 + length), count as nat);
}

/// A bulk chunk payload survives a round trip, whatever bytes follow it.
pub proof fn lemma_chunk_roundtrip(v: ChunkBulkView, rest: Seq<u8>)
    requires
        chunk_bytes(v) is Ok,
    ensures
        chunk_parse(chunk_bytes(v)->Ok_0 + rest) == Ok::<(ChunkBulkView, nat), Error>(
            (v, chunk_bytes(v)->Ok_0.len()),
        ),
{
    let count = v.meta.len() as i16;
    let length = v.data.len() as i32;
    let tail = metas_bytes(v.meta, 0);
    let b = chunk_bytes(v)->Ok_0 + rest;
    let t1 = i32_bytes(length) + v.data + tail + rest;
    let t2 = v.data + tail + rest;
    lemma_i16_roundtrip(count, t1);
    lemma_i32_roundtrip(length, t2);
    assert(b =~= i16_bytes(count) + t1);
    assert(b.skip(2) =~= i32_bytes(length) + t2);
    assert(b.skip(6 + length) =~= tail + rest);
    assert(b.subrange(6, 6 + length) =~= v.data);
    lemma_metas_roundtrip(v.meta, 0, rest);
    assert(v.meta.skip(0) =~= v.meta);
    let got = chunk_parse(b)->Ok_0.0;
    assert(got.data == v.data);
    assert(got.meta == v.meta);
}

/// Reads one column record from `src`, starting at `start`.
pub fn parse_meta(src: &[u8], start: usize) -> (r: Result<(ChunkMeta, usize), Error>)
    requires
        start <= src@.len(),
    ensures
        match meta_parse(src@.skip(start as int)) {
            Ok((m, n)) => r == Ok::<(ChunkMeta, usize), Error>((m, n as usize)) && start + n
                <= src@.len(),
            Err(e) => r == Err::<(ChunkMeta, usize), Error>(e),
        },
{
    let ghost b = src@.skip(start as int);
    let total: usize = src.len();
    let (x, _) = match parse_i32(src, start) {
        Ok(pair) => pair,
        Err(e) => {
            return Err(e);
        },
    };
    proof {
        assert(b.skip(4) =~= src@.skip(start + 4));
    }
    let (z, _) = match parse_i32(src, start + 4) {
        Ok(pair) => pair,
        Err(e) => {
            return Err(e);
        },
    };
    proof {
        assert(b.skip(8) =~= src@.skip(start + 8));
    }
    let (mask, _) = match parse_u16(src, start + 8) {
        Ok(pair) => pair,
        Err(e) => {
            return Err(e);
        },
    };
    proof {
        assert(b.skip(10) =~= src@.skip(start + 10));
    }
    let (add_mask, _) = match parse_u16(src, start + 10) {
        Ok(pair) => pair,
        Err(e) => {
            return Err(e);
        },
    };
    Ok((ChunkMeta { x, z, mask, add_mask }, 12))
}

/// Appends the wire form of one column record to `out`.
pub fn write_meta(m: &ChunkMeta, out: &mut Vec<u8>)
    ensures
        final(out)@ == old(out)@ + meta_bytes(*m),
{
    write_i32(m.x, out);
    write_i32(m.z, out);
    write_u16(m.mask, out);
    write_u16(m.add_mask, out);
    proof {
        assert(out@ =~= old(out)@ + meta_bytes(*m));
    }
}

/// Reads `count` column records from `src`, starting at `start`: a sequence
/// whose length comes from a field read before it.
pub fn parse_metas(src: &[u8], start: usize, count: usize) -> (r: Result<
    (Vec<ChunkMeta>, usize),
    Error,
>)
    requires
        start <= src@.len(),
    ensures
        match metas_parse(src@.skip(start as int), count as nat) {
            Ok((ms, n)) => r is Ok && r->Ok_0.0@ == ms && r->Ok_0.1 == n && start + n
                <= src@.len() && ms.len() == count,
            Err(e) => r == Err::<(Vec<ChunkMeta>, usize), Error>(e),
        },
{
    let total: usize = src.len();
    let ghost whole = src@.skip(start as int);
    let mut out: Vec<ChunkMeta> = Vec::new();
    let mut i: usize = 0;
    let mut used: usize = 0;
    proof {
        assert(src@.skip(start + used) =~= whole);
        let first = metas_parse(whole, count as nat);
        if first is Ok {
            assert(out@ + first->Ok_0.0 =~= first->Ok_0.0);
        }
    }
    while i < count
        invariant
            total == src@.len(),
            whole == src@.skip(start as int),
            i <= count,
            start + used <= src@.len(),
            out@.len() == i,
            match metas_parse(src@.skip(start + used), (count - i) as nat) {
                Ok((ms, m)) => metas_parse(whole, count as nat) == Ok::<
                    (Seq<ChunkMeta>, nat),
                    Error,
                >((out@ + ms, (used + m) as nat)),
                Err(e) => metas_parse(whole, count as nat) == Err::<(Seq<ChunkMeta>, nat), Error>(
                    e,
                ),
            },
        decreases count - i,
    {
        match parse_meta(src, start + used) {
            Err(e) => {
                return Err(e);
            },
            Ok((m, n)) => {
                proof {
                    assert(src@.skip(start + used).skip(12) =~= src@.skip(start + used + 12));
                    let tail = metas_parse(src@.skip(start + used + 12), (count - i - 1) as nat);
                    if tail is Ok {
                        assert(out@ + (seq![m] + tail->Ok_0.0) =~= out@.push(m) + tail->Ok_0.0);
                    }
                }
                out.push(m);
                used = used + n;
                i = i + 1;
            },
        }
    }
    proof {
        assert(out@ + Seq::<ChunkMeta>::empty() =~= out@);
    }
    Ok((out, used))
}

impl ChunkDataBulk {
    #[verifier::type_invariant]
    spec fn sizes_agree(self) -> bool {
        &&& self.chunk_column_count == self.meta@.len()
        &&& self.data_length == self.compressed_chunk_data@.len()
    }

    /// A payload of the given data and column records. Sizes that the count
    /// and the length cannot announce are refused.
    pub fn new(compressed_chunk_data: Vec<u8>, meta: Vec<ChunkMeta>) -> (r: Result<
        ChunkDataBulk,
        Error,
    >)
        ensures
            meta@.len() <= MAX_COLUMNS && compressed_chunk_data@.len() <= MAX_DATA_BYTES ==> r is Ok
                && r->Ok_0@ == (ChunkBulkView { data: compressed_chunk_data@, meta: meta@ }),
            meta@.len() > MAX_COLUMNS || compressed_chunk_data@.len() > MAX_DATA_BYTES ==> r
                == Err::<ChunkDataBulk, Error>(Error::LengthOverflow),
    {
        if meta.len() > MAX_COLUMNS || compressed_chunk_data.len() > MAX_DATA_BYTES {
            return Err(Error::LengthOverflow);
        }
        Ok(
            ChunkDataBulk {
                chunk_column_count: meta.len() as i16,
                data_length: compressed_chunk_data.len() as i32,
                compressed_chunk_data,
                meta,
            },
        )
    }

    /// The number of column records.
    pub fn chunk_column_count(&self) -> (r: i16)
        ensures
            r == self@.meta.len(),
    {
        proof {
            use_type_invariant(self);
        }
        self.chunk_column_count
    }

    /// The number of data bytes.
    pub fn data_length(&self) -> (r: i32)
        ensures
            r == self@.data.len(),
    {
        proof {
            use_type_invariant(self);
        }
        self.data_length
    }

    /// The data bytes.
    pub fn compressed_chunk_data(&self) -> (r: &Vec<u8>)
        ensures
            r@ == self@.data,
    {
        &self.compressed_chunk_data
    }

    /// The column records.
    pub fn meta(&self) -> (r: &Vec<ChunkMeta>)
        ensures
            r@ == self@.meta,
    {
        &self.meta
    }

    /// Reads a bulk chunk payload from `src`, starting at `start`. The data
    /// and the column records are read under the length and the count that
    /// were read before them.
    pub fn decode_at(src: &[u8], start: usize) -> (r: Result<(ChunkDataBulk, usize), Error>)
        requires
            start <= src@.len(),
        ensures
            match chunk_parse(src@.skip(start as int)) {
                Ok((v, n)) => r is Ok && r->Ok_0.0@ == v && r->Ok_0.1 == n && start + n
                    <= src@.len() && n == 6 + v.data.len() + 12 * v.meta.len(),
                Err(e) => r == Err::<(ChunkDataBulk, usize), Error>(e),
            },
    {
        let ghost b = src@.skip(start as int);
        let total: usize = src.len();
        let (count, _) = match parse_i16(src, start) {
            Ok(pair) => pair,
            Err(e) => {
                return Err(e);
            },
        };
        proof {
            assert(b.skip(2) =~= src@.skip(start + 2));
        }
        let (length, _) = match parse_i32(src, start + 2) {
            Ok(pair) => pair,
            Err(e) => {
                return Err(e);
            },
        };
        if count < 0 || length < 0 || total - start - 6 < length as usize {
            return Err(Error::TruncatedInput);
        }
        let from: usize = start + 6;
        let to: usize = from + length as usize;
        let data: Vec<u8> = slice_to_vec(slice_subrange(src, from, to));
        proof {
            assert(data@ =~= b.subrange(6, 6 + length));
            assert(b.skip(6 + length) =~= src@.skip(to as int));
            if chunk_parse(b) is Ok {
                lemma_chunk_consumed(b);
            }
        }
        match parse_metas(src, to, count as usize) {
            Err(e) => Err(e),
            Ok((meta, n)) => Ok(
                (
                    ChunkDataBulk {
                        chunk_column_count: count,
                        data_length: length,
                        compressed_chunk_data: data,
                        meta,
                    },
                    6 + length as usize + n,
                ),
            ),
        }
    }

    /// Appends the wire form of the payload to `out`; the count and the
    /// length in front are the sizes of what follows them.
    pub fn encode_into(&self, out: &mut Vec<u8>)
        ensures
            chunk_bytes(self@) is Ok,
            final(out)@ == old(out)@ + chunk_bytes(self@)->Ok_0,
    {
        proof {
            use_type_invariant(self);
        }
        write_i16(self.chunk_column_count, out);
        write_i32(self.data_length, out);
        out.extend_from_slice(self.compressed_chunk_data.as_slice());
        let ghost head = out@;
        let ghost ms = self.meta@;
        let mut i: usize = 0;
        proof {
            assert(head =~= old(out)@ + (i16_bytes(self.chunk_column_count) + i32_bytes(
                self.data_length,
            ) + self.compressed_chunk_data@));
        }
        let ghost mut acc: Seq<u8> = Seq::empty();
        proof {
            assert(out@ =~= head + acc);
            assert(acc + metas_bytes(ms, 0) =~= metas_bytes(ms, 0));
        }
        while i < self.meta.len()
            invariant
                ms == self.meta@,
                i <= ms.len(),
                out@ == head + acc,
                acc + metas_bytes(ms, i as nat) == metas_bytes(ms, 0),
            decreases ms.len() - i,
        {
            write_meta(&self.meta[i], out);
            proof {
                let one = meta_bytes(ms[i as int]);
                assert(out@ =~= head + (acc + one));
                assert((acc + one) + metas_bytes(ms, (i + 1) as nat) =~= acc + metas_bytes(
                    ms,
                    i as nat,
                ));
                acc = acc + one;
            }
            i = i + 1;
        }
        proof {
            assert(acc + Seq::<u8>::empty() =~= acc);
            assert(out@ =~= old(out)@ + chunk_bytes(self@)->Ok_0);
        }
    }

    /// Writes the payload.
    pub fn serialize(&self, serializer: &mut MCProtoSerializer) -> (r: Result<(), Error>)
        ensures
            r is Ok,
            chunk_bytes(self@) is Ok,
            final(serializer)@ == old(serializer)@ + chunk_bytes(self@)->Ok_0,
    {
        self.encode_into(&mut serializer.writer);
        Ok(())
    }

    /// Reads a payload.
    pub fn deserialize(deserializer: &mut MCProtoDeserializer) -> (r: Result<ChunkDataBulk, Error>)
        ensures
            took_view(old(deserializer)@, final(deserializer)@, chunk_parse(old(deserializer)@), r),
    {
        proof {
            assert(deserializer@.skip(0) =~= deserializer@);
        }
        match ChunkDataBulk::decode_at(deserializer.peek(), 0) {
            Ok((v, n)) => {
                deserializer.advance(n);
                Ok(v)
            },
            Err(e) => Err(e),
        }
    }
}

} // verus!
