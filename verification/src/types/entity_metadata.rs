//! The attributes of an entity: a terminated list of keyed values, each
//! behind a byte that packs its key and its kind.

use vstd::prelude::*;
use std::collections::HashMap;
use crate::de::{took_view, MCProtoDeserializer};
use crate::error::Error;
use crate::optional::{absent_bytes, optional_parse, peek_absent, write_absent};
use crate::primitive::{i16_bytes, i16_parse, parse_i16, write_i16};
use crate::primitive::{i32_bytes, i32_parse, parse_i32, write_i32};
use crate::primitive::{i8_bytes, i8_parse, parse_i8, write_i8};
use crate::primitive::{parse_u32, u32_bytes, u32_parse, u8_bytes, write_u32};
use crate::ser::MCProtoSerializer;
use crate::text::{parse_string, string_bytes, string_parse, write_string, MAX_STRING_BYTES};
use crate::types::slot::{slot_bytes, slot_parse, Slot};
use crate::parse::{lift, Parsed};
use vstd::utf8::encode_utf8;

verus! {

/// The byte that ends an attribute list.
pub const TERMINATOR: u8 = 0x7f;

/// One attribute of an entity: a value of one of seven kinds.
#[derive(Debug, PartialEq)]
pub enum Entry {
    Byte(i8),
    Short(i16),
    Int(i32),
    /// The bit pattern of a 32-bit float.
    Float(u32),
    String(String),
    Slot(Option<Slot>),
    Rotation([i32; 3]),
}

/// The mathematical form of an `Entry`.
pub enum EntryView {
    Byte(i8),
    Short(i16),
    Int(i32),
    Float(u32),
    String(Seq<char>),
    Slot(Option<Slot>),
    Rotation(i32, i32, i32),
}

impl View for Entry {
    type V = EntryView;

    open spec fn view(&self) -> EntryView {
        match self {
            Entry::Byte(v) => EntryView::Byte(*v),
            Entry::Short(v) => EntryView::Short(*v),
            Entry::Int(v) => EntryView::Int(*v),
            Entry::Float(v) => EntryView::Float(*v),
            Entry::String(s) => EntryView::String(s@),
            Entry::Slot(s) => EntryView::Slot(*s),
            Entry::Rotation(r) => EntryView::Rotation(r@[0], r@[1], r@[2]),
        }
    }
}

/// The kind tag of an attribute: the low five bits of the byte in front of
/// it.
pub open spec fn entry_kind(e: EntryView) -> u8 {
    match e {
        EntryView::Byte(_) => 0,
        EntryView::Short(_) => 1,
        EntryView::Int(_) => 2,
        EntryView::Float(_) => 3,
        EntryView::String(_) => 4,
        EntryView::Slot(_) => 5,
        EntryView::Rotation(_, _, _) => 6,
    }
}

/// Reads three signed 32-bit integers from the front of `b`.
pub open spec fn rotation_parse(b: Seq<u8>) -> Parsed<EntryView> {
    match i32_parse(b) {
        Err(e) => Err(e),
        Ok((x, _)) => match i32_parse(b.skip(4)) {
            Err(e) => Err(e),
            Ok((y, _)) => match i32_parse(b.skip(8)) {
                Err(e) => Err(e),
                Ok((z, _)) => Ok((EntryView::Rotation(x, y, z), 12)),
            },
        },
    }
}

/// Reads an attribute of the given kind from the front of `b`, in that
/// kind's own encoding. A kind tag that names none of the seven kinds is an
/// error.
pub open spec fn entry_parse(kind: u8, b: Seq<u8>) -> Parsed<EntryView> {
    if kind == 0 {
        lift(i8_parse(b), |v: i8| EntryView::Byte(v))
    } else if kind == 1 {
        lift(i16_parse(b), |v: i16| EntryView::Short(v))
    } else if kind == 2 {
        lift(i32_parse(b), |v: i32| EntryView::Int(v))
    } else if kind == 3 {
        lift(u32_parse(b), |v: u32| EntryView::Float(v))
    } else if kind == 4 {
        lift(string_parse(b), |v: Seq<char>| EntryView::String(v))
    } else if kind == 5 {
        lift(optional_parse(b, slot_parse(b)), |v: Option<Slot>| EntryView::Slot(v))
    } else if kind == 6 {
        rotation_parse(b)
    } else {
        Err(Error::UnsupportedShape)
    }
}

/// The wire form of an attribute, without the byte in front of it.
pub open spec fn entry_bytes(e: EntryView) -> Result<Seq<u8>, Error> {
    match e {
        EntryView::Byte(v) => Ok(i8_bytes(v)),
        EntryView::Short(v) => Ok(i16_bytes(v)),
        EntryView::Int(v) => Ok(i32_bytes(v)),
        EntryView::Float(v) => Ok(u32_bytes(v)),
        EntryView::String(s) => {
            if encode_utf8(s).len() > MAX_STRING_BYTES {
                Err(Error::LengthOverflow)
            } else {
                Ok(string_bytes(s))
            }
        },
        EntryView::Slot(None) => Ok(absent_bytes()),
        EntryView::Slot(Some(slot)) => slot_bytes(slot),
        EntryView::Rotation(x, y, z) => Ok(i32_bytes(x) + i32_bytes(y) + i32_bytes(z)),
    }
}

/// Reads one step of an attribute list from the front of `b`: the terminator,
/// which ends the list, or a byte whose top three bits are the key and whose
/// low five bits are the kind of the attribute that follows it.
pub open spec fn entry_step(b: Seq<u8>) -> Parsed<Option<(u8, EntryView)>> {
    if b.len() == 0 {
        Err(Error::TruncatedInput)
    } else if b[0] == TERMINATOR {
        Ok((None, 1))
    } else {
        match entry_parse(b[0] % 32, b.skip(1)) {
            Err(e) => Err(e),
            Ok((entry, n)) => Ok((Some((b[0] / 32, entry)), 1 + n)),
        }
    }
}

/// Reads the attributes of a list from the front of `b`, in the order of the
/// wire, up to and with the terminator.
#[verifier::opaque]
pub open spec fn entries_parse(b: Seq<u8>) -> Parsed<Seq<(u8, EntryView)>>
    decreases b.len(),
{
    match entry_step(b) {
        Err(e) => Err(e),
        Ok((None, n)) => Ok((Seq::empty(), n)),
        Ok((Some(one), n)) => {
            if n < 1 || n > b.len() {
                Err(Error::TruncatedInput)
            } else {
                match entries_parse(b.skip(n as int)) {
                    Err(e) => Err(e),
                    Ok((more, m)) => Ok((seq![one] + more, n + m)),
                }
            }
        },
    }
}

/// The mapping that a run of attributes makes: taken in order, each goes in
/// under its key unless the key is taken, so the first of a key wins.
pub open spec fn first_wins(es: Seq<(u8, EntryView)>) -> Map<u8, EntryView>
    decreases es.len(),
{
    if es.len() == 0 {
        Map::empty()
    } else {
        let before = first_wins(es.drop_last());
        if before.contains_key(es.last().0) {
            before
        } else {
            before.insert(es.last().0, es.last().1)
        }
    }
}

/// Reads an attribute list from the front of `b`.
pub open spec fn metadata_parse(b: Seq<u8>) -> Parsed<Map<u8, EntryView>> {
    lift(entries_parse(b), |es: Seq<(u8, EntryView)>| first_wins(es))
}

/// The views of the entries of a map.
pub open spec fn entries_of(m: Map<u8, Entry>) -> Map<u8, EntryView> {
    Map::new(|k: u8| m.contains_key(k), |k: u8| m[k]@)
}

/// The wire form of the attributes under the keys from `k` on, in the order
/// of their keys, and the terminator after them.
pub open spec fn keys_bytes(m: Map<u8, EntryView>, k: nat) -> Result<Seq<u8>, Error>
    decreases 8 - k,
{
    if k >= 8 {
        Ok(seq![TERMINATOR])
    } else if !m.contains_key(k as u8) {
        keys_bytes(m, k + 1)
    } else {
        match entry_bytes(m[k as u8]) {
            Err(e) => Err(e),
            Ok(body) => match keys_bytes(m, k + 1) {
                Err(e) => Err(e),
                Ok(tail) => Ok(seq![(k * 32 + entry_kind(m[k as u8])) as u8] + body + tail),
            },
        }
    }
}

/// The wire form of an attribute list: its attributes in the order of their
/// keys, then the terminator. A key that three bits cannot spell has no wire
/// form.
pub open spec fn metadata_bytes(m: Map<u8, EntryView>) -> Result<Seq<u8>, Error> {
    if exists|k: u8| m.contains_key(k) && k >= 8 {
        Err(Error::UnsupportedShape)
    } else {
        keys_bytes(m, 0)
    }
}

/// A mapping from small integer keys to attributes. No key is above seven.
#[derive(Debug, PartialEq)]
pub struct EntityMetadata {
    map: HashMap<u8, Entry>,
}

impl View for EntityMetadata {
    type V = Map<u8, EntryView>;

    closed spec fn view(&self) -> Map<u8, EntryView> {
        entries_of(self.map@)
    }
}

/// Reads three signed 32-bit integers from `src`, starting at `start`.
fn parse_rotation(src: &[u8], start: usize) -> (r: Result<(Entry, usize), Error>)
    requires
        start <= src@.len(),
    ensures
        match rotation_parse(src@.skip(start as int)) {
            Ok((e, n)) => r is Ok && r->Ok_0.0@ == e && r->Ok_0.1 == n && start + n
                <= src@.len(),
            Err(e) => r == Err::<(Entry, usize), Error>(e),
        },
{
    let ghost b = src@.skip(start as int);
    let total: usize = src.len();
    let (x, _) = match parse_i32(src, start) {
        Ok(pair) => pair,
        Err(e) => {
            return Err(e);
        },
    };
    proof {
        assert(b.skip(4) =~= src@.skip(start + 4));
    }
    let (y, _) = match parse_i32(src, start + 4) {
        Ok(pair) => pair,
        Err(e) => {
            return Err(e);
        },
    };
    proof {
        assert(b.skip(8) =~= src@.skip(start + 8));
    }
    let (z, _) = match parse_i32(src, start + 8) {
        Ok(pair) => pair,
        Err(e) => {
            return Err(e);
        },
    };
    Ok((Entry::Rotation([x, y, z]), 12))
}

/// Reads an optional item stack from `src`, starting at `start`.
fn parse_optional_slot(src: &[u8], start: usize) -> (r: Result<(Entry, usize), Error>)
    requires
        start <= src@.len(),
    ensures
        match optional_parse(src@.skip(start as int), slot_parse(src@.skip(start as int))) {
            Ok((slot, n)) => r == Ok::<(Entry, usize), Error>((Entry::Slot(slot), n as usize))
                && start + n <= src@.len(),
            Err(e) => r == Err::<(Entry, usize), Error>(e),
        },
{
    match peek_absent(src, start) {
        Err(e) => Err(e),
        Ok(true) => Ok((Entry::Slot(None), 2)),
        Ok(false) => match Slot::decode_at(src, start) {
            Ok((slot, n)) => Ok((Entry::Slot(Some(slot)), n)),
            Err(e) => Err(e),
        },
    }
}

impl Entry {
    /// The kind tag of the attribute.
    pub fn kind(&self) -> (r: u8)
        ensures
            r == entry_kind(self@),
            r <= 6,
    {
        match self {
            Entry::Byte(_) => 0,
            Entry::Short(_) => 1,
            Entry::Int(_) => 2,
            Entry::Float(_) => 3,
            Entry::String(_) => 4,
            Entry::Slot(_) => 5,
            Entry::Rotation(_) => 6,
        }
    }

    /// Reads an attribute of the given kind from `src`, starting at `start`.
    pub fn decode_at(kind: u8, src: &[u8], start: usize) -> (r: Result<(Entry, usize), Error>)
        requires
            start <= src@.len(),
        ensures
            match entry_parse(kind, src@.skip(start as int)) {
                Ok((e, n)) => r is Ok && r->Ok_0.0@ == e && r->Ok_0.1 == n && start + n
                    <= src@.len(),
                Err(e) => r == Err::<(Entry, usize), Error>(e),
            },
    {
        if kind == 0 {
            match parse_i8(src, start) {
                Ok((v, n)) => Ok((Entry::Byte(v), n)),
                Err(e) => Err(e),
            }
        } else if kind == 1 {
            match parse_i16(src, start) {
                Ok((v, n)) => Ok((Entry::Short(v), n)),
                Err(e) => Err(e),
            }
        } else if kind == 2 {
            match parse_i32(src, start) {
                Ok((v, n)) => Ok((Entry::Int(v), n)),
                Err(e) => Err(e),
            }
        } else if kind == 3 {
            match parse_u32(src, start) {
                Ok((v, n)) => Ok((Entry::Float(v), n)),
                Err(e) => Err(e),
            }
        } else if kind == 4 {
            match parse_string(src, start) {
                Ok((v, n)) => Ok((Entry::String(v), n)),
                Err(e) => Err(e),
            }
        } else if kind == 5 {
            parse_optional_slot(src, start)
        } else if kind == 6 {
            parse_rotation(src, start)
        } else {
            Err(Error::UnsupportedShape)
        }
    }

    /// Appends the attribute, without the byte in front of it, to `out`. On
    /// an error nothing is written.
    pub fn encode_into(&self, out: &mut Vec<u8>) -> (r: Result<(), Error>)
        ensures
            match entry_bytes(self@) {
                Ok(bytes) => r is Ok && final(out)@ == old(out)@ + bytes,
                Err(e) => r == Err::<(), Error>(e) && final(out)@ == old(out)@,
            },
    {
        match self {
            Entry::Byte(v) => {
                write_i8(*v, out);
                Ok(())
            },
            Entry::Short(v) => {
                write_i16(*v, out);
                Ok(())
            },
            Entry::Int(v) => {
                write_i32(*v, out);
                Ok(())
            },
            Entry::Float(v) => {
                write_u32(*v, out);
                Ok(())
            },
            Entry::String(s) => write_string(s.as_str(), out),
            Entry::Slot(None) => {
                write_absent(out);
                Ok(())
            },
            Entry::Slot(Some(slot)) => slot.encode_into(out),
            Entry::Rotation(r) => {
                write_i32(r[0], out);
                write_i32(r[1], out);
                write_i32(r[2], out);
                proof {
                    assert(out@ =~= old(out)@ + (i32_bytes(r@[0]) + i32_bytes(r@[1]) + i32_bytes(
                        r@[2],
                    )));
                }
                Ok(())
            },
        }
    }
}

/// Whether an attribute is one that is known to read back as written: any
/// but an item stack with a document, and an item stack only if its first
/// number is not the marker of absence.
pub open spec fn entry_plain(e: EntryView) -> bool {
    match e {
        EntryView::Slot(Some(slot)) => slot.tag is None && slot.id != -1,
        _ => true,
    }
}

/// An attribute that is plain survives a round trip under its kind,
/// whatever bytes follow it.
pub proof fn lemma_entry_roundtrip(e: EntryView, rest: Seq<u8>)
    requires
        entry_plain(e),
        entry_bytes(e) is Ok,
    ensures
        entry_kind(e) <= 6,
        entry_parse(entry_kind(e), entry_bytes(e)->Ok_0 + rest) == Ok::<(EntryView, nat), Error>(
            (e, entry_bytes(e)->Ok_0.len()),
        ),
{
    let b = entry_bytes(e)->Ok_0 + rest;
    match e {
        EntryView::Byte(v) => crate::primitive::lemma_i8_roundtrip(v, rest),
        EntryView::Short(v) => crate::primitive::lemma_i16_roundtrip(v, rest),
        EntryView::Int(v) => crate::primitive::lemma_i32_roundtrip(v, rest),
        EntryView::Float(v) => crate::primitive::lemma_u32_roundtrip(v, rest),
        EntryView::String(s) => crate::text::lemma_string_roundtrip(s, rest),
        EntryView::Slot(None) => {
            crate::optional::lemma_absent_roundtrip(rest, slot_parse(b));
        },
        EntryView::Slot(Some(slot)) => {
            crate::types::slot::lemma_slot_roundtrip(slot, rest);
            let tail = u8_bytes(slot.count) + i16_bytes(slot.damage) + absent_bytes() + rest;
            crate::primitive::lemma_i16_roundtrip(slot.id, tail);
            assert(b =~= i16_bytes(slot.id) + tail);
        },
        EntryView::Rotation(x, y, z) => {
            let t1 = i32_bytes(y) + i32_bytes(z) + rest;
            let t2 = i32_bytes(z) + rest;
            crate::primitive::lemma_i32_roundtrip(x, t1);
            crate::primitive::lemma_i32_roundtrip(y, t2);
            crate::primitive::lemma_i32_roundtrip(z, rest);
            assert(b =~= i32_bytes(x) + t1);
            assert(b.skip(4) =~= i32_bytes(y) + t2);
            assert(b.skip(8) =~= i32_bytes(z) + rest);
        },
    }
}

/// Whether a mapping is one that is known to read back as written: its keys
/// are those that three bits spell, and its attributes are plain.
pub open spec fn metadata_plain(m: Map<u8, EntryView>) -> bool {
    forall|k: u8| m.contains_key(k) ==> k < 8 && entry_plain(#[trigger] m[k])
}

/// The attributes of a mapping under the keys from `k` on, in the order of
/// their keys.
pub open spec fn listed(m: Map<u8, EntryView>, k: nat) -> Seq<(u8, EntryView)>
    decreases 8 - k,
{
    if k >= 8 {
        Seq::empty()
    } else if m.contains_key(k as u8) {
        seq![(k as u8, m[k as u8])] + listed(m, k + 1)
    } else {
        listed(m, k + 1)
    }
}

/// The part of a mapping under the keys from `k` on.
pub open spec fn from_key(m: Map<u8, EntryView>, k: nat) -> Map<u8, EntryView> {
    Map::new(|key: u8| m.contains_key(key) && k <= key < 8, |key: u8| m[key])
}

/// What is listed from `k` on lies under keys from `k` on.
pub proof fn lemma_listed_keys(m: Map<u8, EntryView>, k: nat)
    ensures
        forall|i: int| 0 <= i < listed(m, k).len() ==> k <= (#[trigger] listed(m, k)[i]).0 < 8,
    decreases 8 - k,
{
    if k < 8 {
        lemma_listed_keys(m, k + 1);
        let tail = listed(m, k + 1);
        assert forall|i: int| 0 <= i < listed(m, k).len() implies k <= (#[trigger] listed(
            m,
            k,
        )[i]).0 < 8 by {
            if m.contains_key(k as u8) {
                if i > 0 {
                    assert(listed(m, k)[i] == tail[i - 1]);
                }
            } else {
                assert(listed(m, k)[i] == tail[i]);
            }
        }
    }
}

/// An attribute in front of a run that does not hold its key goes into the
/// mapping of the run.
pub proof fn lemma_first_wins_front(x: (u8, EntryView), es: Seq<(u8, EntryView)>)
    requires
        forall|i: int| 0 <= i < es.len() ==> (#[trigger] es[i]).0 != x.0,
    ensures
        first_wins(seq![x] + es) == first_wins(es).insert(x.0, x.1),
    decreases es.len(),
{
    let all = seq![x] + es;
    if es.len() == 0 {
        assert(all.drop_last() =~= Seq::<(u8, EntryView)>::empty());
        assert(first_wins(all.drop_last()) =~= Map::<u8, EntryView>::empty());
    } else {
        let shorter = es.drop_last();
        assert(all.drop_last() =~= seq![x] + shorter);
        assert(all.last() == es.last());
        assert(es.last() == es[es.len() - 1]);
        assert forall|i: int| 0 <= i < shorter.len() implies (#[trigger] shorter[i]).0 != x.0 by {
            assert(shorter[i] == es[i]);
        }
        lemma_first_wins_front(x, shorter);
        let below = first_wins(shorter);
        let last = es.last();
        if below.contains_key(last.0) {
        } else {
            assert(below.insert(x.0, x.1).insert(last.0, last.1) =~= below.insert(
                last.0,
                last.1,
            ).insert(x.0, x.1));
        }
    }
}

/// The attributes listed from `k` on make the part of the mapping from `k`
/// on.
pub proof fn lemma_first_wins_listed(m: Map<u8, EntryView>, k: nat)
    ensures
        first_wins(listed(m, k)) == from_key(m, k),
    decreases 8 - k,
{
    if k >= 8 {
        assert(first_wins(listed(m, k)) =~= from_key(m, k));
    } else {
        lemma_first_wins_listed(m, k + 1);
        lemma_listed_keys(m, k + 1);
        if m.contains_key(k as u8) {
            lemma_first_wins_front((k as u8, m[k as u8]), listed(m, k + 1));
            assert(from_key(m, k + 1).insert(k as u8, m[k as u8]) =~= from_key(m, k));
        } else {
            assert(from_key(m, k + 1) =~= from_key(m, k));
        }
    }
}

/// A plain attribute written under a key reads back as one step of a list:
/// the key and the attribute.
pub proof fn lemma_step_roundtrip(key: u8, e: EntryView, after: Seq<u8>)
    requires
        key < 8,
        entry_plain(e),
        entry_bytes(e) is Ok,
    ensures
        entry_step(seq![(key * 32 + entry_kind(e)) as u8] + (entry_bytes(e)->Ok_0 + after)) == Ok::<
            (Option<(u8, EntryView)>, nat),
            Error,
        >((Some((key, e)), 1 + entry_bytes(e)->Ok_0.len())),
{
    let tag = (key * 32 + entry_kind(e)) as u8;
    let body = entry_bytes(e)->Ok_0;
    let b = seq![tag] + (body + after);
    lemma_entry_roundtrip(e, after);
    assert(tag % 32 == entry_kind(e) && tag / 32 == key && tag != TERMINATOR);
    assert(b[0] == tag);
    assert(b.skip(1) =~= body + after);
}

/// The bytes written for the keys from `k` on read back as the attributes
/// listed from `k` on.
pub proof fn lemma_keys_roundtrip(m: Map<u8, EntryView>, k: nat, rest: Seq<u8>)
    requires
        metadata_plain(m),
        keys_bytes(m, k) is Ok,
    ensures
        entries_parse(keys_bytes(m, k)->Ok_0 + rest) == Ok::<(Seq<(u8, EntryView)>, nat), Error>(
            (listed(m, k), keys_bytes(m, k)->Ok_0.len()),
        ),
    decreases 8 - k,
{
    let b = keys_bytes(m, k)->Ok_0 + rest;
    if k >= 8 {
        assert(b[0] == TERMINATOR);
        lemma_entries_step(b, entry_step(b));
    } else if !m.contains_key(k as u8) {
        lemma_keys_roundtrip(m, k + 1, rest);
    } else {
        let e = m[k as u8];
        let body = entry_bytes(e)->Ok_0;
        let tail = keys_bytes(m, k + 1)->Ok_0;
        let tag = (k * 32 + entry_kind(e)) as u8;
        lemma_step_roundtrip(k as u8, e, tail + rest);
        assert(b =~= seq![tag] + (body + (tail + rest)));
        lemma_entries_step(b, entry_step(b));
        assert(b.skip(1 + body.len() as int) =~= tail + rest);
        lemma_keys_roundtrip(m, k + 1, rest);
    }
}

/// A plain mapping survives a round trip, whatever bytes follow it.
pub proof fn lemma_metadata_roundtrip(m: Map<u8, EntryView>, rest: Seq<u8>)
    requires
        metadata_plain(m),
        metadata_bytes(m) is Ok,
    ensures
        metadata_parse(metadata_bytes(m)->Ok_0 + rest) == Ok::<(Map<u8, EntryView>, nat), Error>(
            (m, metadata_bytes(m)->Ok_0.len()),
        ),
{
    lemma_keys_roundtrip(m, 0, rest);
    lemma_first_wins_listed(m, 0);
    assert(from_key(m, 0) =~= m);
}

/// An attribute list that was read took no more bytes than there were.
pub proof fn lemma_entries_within(b: Seq<u8>)
    requires
        entries_parse(b) is Ok,
    ensures
        entries_parse(b)->Ok_0.1 <= b.len(),
    decreases b.len(),
{
    reveal(entries_parse);
    let step = entry_step(b);
    if step->Ok_0.0 is Some {
        lemma_entries_within(b.skip(step->Ok_0.1 as int));
    }
}

/// What one more attribute does to the mapping of a run: it goes in under
/// its key unless the key is taken.
pub proof fn lemma_first_wins_push(es: Seq<(u8, EntryView)>, one: (u8, EntryView))
    ensures
        first_wins(es.push(one)) == (if first_wins(es).contains_key(one.0) {
            first_wins(es)
        } else {
            first_wins(es).insert(one.0, one.1)
        }),
{
    assert(es.push(one).drop_last() =~= es);
}

/// A list that goes on after one attribute is that attribute and then the
/// rest of the list; one that fails at its first step fails; one whose first
/// step is the terminator is empty.
pub proof fn lemma_entries_step(b: Seq<u8>, step: Parsed<Option<(u8, EntryView)>>)
    requires
        step == entry_step(b),
        step is Ok ==> 1 <= step->Ok_0.1 <= b.len(),
    ensures
        step is Err ==> entries_parse(b) == Err::<(Seq<(u8, EntryView)>, nat), Error>(
            step->Err_0,
        ),
        step is Ok && step->Ok_0.0 is None ==> entries_parse(b) == Ok::<
            (Seq<(u8, EntryView)>, nat),
            Error,
        >((Seq::empty(), step->Ok_0.1)),
        step is Ok && step->Ok_0.0 is Some ==> entries_parse(b) == (match entries_parse(
            b.skip(step->Ok_0.1 as int),
        ) {
            Err(e) => Err::<(Seq<(u8, EntryView)>, nat), Error>(e),
            Ok((more, m)) => Ok((seq![step->Ok_0.0->Some_0] + more, step->Ok_0.1 + m)),
        }),
{
    reveal(entries_parse);
}

/// Splits the byte in front of an attribute: the key in its top three bits
/// and the kind in its low five.
pub fn split_mask(mask: u8) -> (r: (u8, u8))
    ensures
        r.0 == mask / 32,
        r.1 == mask % 32,
        r.0 < 8,
        r.1 < 32,
{
    (mask / 32, mask % 32)
}

/// Whether an executable step result stands for the given parsed one.
pub open spec fn step_matches(got: Option<(u8, Entry)>, want: Option<(u8, EntryView)>) -> bool {
    match want {
        None => got is None,
        Some((key, entry)) => got is Some && got->Some_0.0 == key && got->Some_0.1@ == entry,
    }
}

/// Reads one step of an attribute list from `src`, starting at `start`: the
/// terminator, or a key and its attribute.
pub fn step_at(src: &[u8], start: usize) -> (r: Result<(Option<(u8, Entry)>, usize), Error>)
    requires
        start <= src@.len(),
    ensures
        match entry_step(src@.skip(start as int)) {
            Ok((one, n)) => r is Ok && step_matches(r->Ok_0.0, one) && r->Ok_0.1 == n && 1 <= n
                && start + n <= src@.len(),
            Err(e) => r == Err::<(Option<(u8, Entry)>, usize), Error>(e),
        },
{
    let total: usize = src.len();
    if start >= total {
        return Err(Error::TruncatedInput);
    }
    let mask: u8 = src[start];
    if mask == TERMINATOR {
        return Ok((None, 1));
    }
    proof {
        assert(src@.skip(start as int).skip(1) =~= src@.skip(start + 1));
    }
    let (key, kind) = split_mask(mask);
    match Entry::decode_at(kind, src, start + 1) {
        Ok((entry, n)) => Ok((Some((key, entry)), 1 + n)),
        Err(e) => Err(e),
    }
}

impl EntityMetadata {
    #[verifier::type_invariant]
    spec fn small_keys(self) -> bool {
        forall|k: u8| self.map@.contains_key(k) ==> k < 8
    }

    /// The empty mapping.
    pub fn new() -> (r: EntityMetadata)
        ensures
            r@ == Map::<u8, EntryView>::empty(),
    {
        broadcast use vstd::std_specs::hash::group_hash_axioms;

        let map: HashMap<u8, Entry> = HashMap::new();
        proof {
            assert(entries_of(map@) =~= Map::<u8, EntryView>::empty());
        }
        EntityMetadata { map }
    }

    /// Puts an attribute in under a key, unless the key is taken or is above
    /// seven. Says whether the attribute went in.
    pub fn insert(&mut self, key: u8, entry: Entry) -> (r: bool)
        ensures
            r == (key < 8 && !old(self)@.contains_key(key)),
            r ==> final(self)@ == old(self)@.insert(key, entry@),
            !r ==> final(self)@ == old(self)@,
    {
        broadcast use vstd::std_specs::hash::group_hash_axioms;

        proof {
            use_type_invariant(&*self);
        }
        if key >= 8 || self.map.contains_key(&key) {
            return false;
        }
        let mut map: HashMap<u8, Entry> = HashMap::new();
        core::mem::swap(&mut self.map, &mut map);
        map.insert(key, entry);
        core::mem::swap(&mut self.map, &mut map);
        proof {
            assert(entries_of(self.map@) =~= entries_of(old(self).map@).insert(key, entry@));
        }
        true
    }

    /// The attribute under a key.
    pub fn get(&self, key: u8) -> (r: Option<&Entry>)
        ensures
            match r {
                Some(entry) => self@.contains_key(key) && self@[key] == entry@,
                None => !self@.contains_key(key),
            },
    {
        broadcast use vstd::std_specs::hash::group_hash_axioms;

        self.map.get(&key)
    }

    /// Reads an attribute list from `src`, starting at `start`: attributes
    /// until the terminator. Of two attributes under one key the first
    /// stays.
    pub fn decode_at(src: &[u8], start: usize) -> (r: Result<(EntityMetadata, usize), Error>)
        requires
            start <= src@.len(),
        ensures
            match metadata_parse(src@.skip(start as int)) {
                Ok((m, n)) => r is Ok && r->Ok_0.0@ == m && r->Ok_0.1 == n && start + n
                    <= src@.len(),
                Err(e) => r == Err::<(EntityMetadata, usize), Error>(e),
            },
    {
        broadcast use vstd::std_specs::hash::group_hash_axioms;

        let total: usize = src.len();
        let ghost whole = src@.skip(start as int);
        let mut map: HashMap<u8, Entry> = HashMap::new();
        let ghost mut seen: Seq<(u8, EntryView)> = Seq::empty();
        let mut used: usize = 0;
        proof {
            assert(entries_of(map@) =~= first_wins(seen));
            assert(src@.skip(start + used) =~= whole);
            let first = entries_parse(whole);
            if first is Ok {
                assert(seen + first->Ok_0.0 =~= first->Ok_0.0);
            }
        }
        loop
            invariant
                total == src@.len(),
                whole == src@.skip(start as int),
                start + used <= total,
                forall|k: u8| map@.contains_key(k) ==> k < 8,
                entries_of(map@) == first_wins(seen),
                match entries_parse(src@.skip(start + used)) {
                    Ok((more, m)) => entries_parse(whole) == Ok::<
                        (Seq<(u8, EntryView)>, nat),
                        Error,
                    >((seen + more, (used + m) as nat)),
                    Err(e) => entries_parse(whole) == Err::<(Seq<(u8, EntryView)>, nat), Error>(
                        e,
                    ),
                },
            decreases total - start - used,
        {
            let ghost here = src@.skip(start + used);
            proof {
                lemma_entries_step(here, entry_step(here));
            }
            match step_at(src, start + used) {
                Err(e) => {
                    return Err(e);
                },
                Ok((None, n)) => {
                    proof {
                        assert(seen + Seq::<(u8, EntryView)>::empty() =~= seen);
                    }
                    return Ok((EntityMetadata { map }, used + n));
                },
                Ok((Some((key, entry)), n)) => {
                    let ghost one = (key, entry@);
                    let ghost before = map@;
                    proof {
                        assert(key < 8) by {
                            assert(key == here[0] / 32);
                        }
                        assert(here.skip(n as int) =~= src@.skip(start + used + n));
                        let tail = entries_parse(src@.skip(start + used + n));
                        if tail is Ok {
                            assert(seen + (seq![one] + tail->Ok_0.0) =~= seen.push(one)
                                + tail->Ok_0.0);
                        }
                        lemma_first_wins_push(seen, one);
                    }
                    if !map.contains_key(&key) {
                        map.insert(key, entry);
                        proof {
                            assert(entries_of(map@) =~= entries_of(before).insert(key, one.1));
                        }
                    }
                    proof {
                        seen = seen.push(one);
                    }
                    used = used + n;
                },
            }
        }
    }

    /// Appends the attribute list to `out`: the attributes in the order of
    /// their keys, then the terminator. On an error nothing is written.
    pub fn encode_into(&self, out: &mut Vec<u8>) -> (r: Result<(), Error>)
        ensures
            match metadata_bytes(self@) {
                Ok(bytes) => r is Ok && final(out)@ == old(out)@ + bytes,
                Err(e) => r == Err::<(), Error>(e) && final(out)@ == old(out)@,
            },
    {
        broadcast use vstd::std_specs::hash::group_hash_axioms;

        proof {
            use_type_invariant(self);
        }
        let base: usize = out.len();
        let ghost m = self@;
        let ghost mut acc: Seq<u8> = Seq::empty();
        let mut k: u8 = 0;
        proof {
            assert(forall|j: u8| m.contains_key(j) ==> j < 8);
            assert(metadata_bytes(m) == keys_bytes(m, 0));
            assert(out@ =~= old(out)@ + acc);
            let first = keys_bytes(m, 0);
            if first is Ok {
                assert(acc + first->Ok_0 =~= first->Ok_0);
            }
        }
        while k < 8
            invariant
                m == self@,
                metadata_bytes(m) == keys_bytes(m, 0),
                base == old(out)@.len(),
                k <= 8,
                out@ == old(out)@ + acc,
                match keys_bytes(m, k as nat) {
                    Ok(tail) => keys_bytes(m, 0) == Ok::<Seq<u8>, Error>(acc + tail),
                    Err(e) => keys_bytes(m, 0) == Err::<Seq<u8>, Error>(e),
                },
            decreases 8 - k,
        {
            match self.map.get(&k) {
                None => {
                    proof {
                        assert(!m.contains_key(k));
                    }
                },
                Some(entry) => {
                    proof {
                        assert(m.contains_key(k) && m[k] == entry@);
                    }
                    let tag: u8 = k * 32 + entry.kind();
                    out.push(tag);
                    match entry.encode_into(out) {
                        Err(e) => {
                            out.truncate(base);
                            proof {
                                assert(out@ =~= old(out)@);
                            }
                            return Err(e);
                        },
                        Ok(()) => {
                            proof {
                                let body = entry_bytes(entry@)->Ok_0;
                                let tail = keys_bytes(m, (k + 1) as nat);
                                assert(out@ =~= old(out)@ + (acc + seq![tag] + body));
                                if tail is Ok {
                                    assert(acc + (seq![tag] + body + tail->Ok_0) =~= (acc
                                        + seq![tag] + body) + tail->Ok_0);
                                }
                                acc = acc + seq![tag] + body;
                            }
                        },
                    }
                },
            }
            k = k + 1;
        }
        out.push(TERMINATOR);
        proof {
            assert(out@ =~= old(out)@ + (acc + seq![TERMINATOR]));
        }
        Ok(())
    }

    /// Writes the attribute list.
    pub fn serialize(&self, serializer: &mut MCProtoSerializer) -> (r: Result<(), Error>)
        ensures
            match metadata_bytes(self@) {
                Ok(bytes) => r is Ok && final(serializer)@ == old(serializer)@ + bytes,
                Err(e) => r == Err::<(), Error>(e) && final(serializer)@ == old(serializer)@,
            },
    {
        self.encode_into(&mut serializer.writer)
    }

    /// Reads an attribute list.
    pub fn deserialize(deserializer: &mut MCProtoDeserializer) -> (r: Result<EntityMetadata, Error>)
        ensures
            took_view(
                old(deserializer)@,
                final(deserializer)@,
                metadata_parse(old(deserializer)@),
                r,
            ),
    {
        proof {
            assert(deserializer@.skip(0) =~= deserializer@);
        }
        match EntityMetadata::decode_at(deserializer.peek(), 0) {
            Ok((v, n)) => {
                deserializer.advance(n);
                Ok(v)
            },
            Err(e) => Err(e),
        }
    }
}

/// A walk over an attribute list, one attribute at a time. Its view is what
/// is still to be read.
pub struct MetaDataSeq {
    pub de: MCProtoDeserializer,
}

impl View for MetaDataSeq {
    type V = Seq<u8>;

    open spec fn view(&self) -> Seq<u8> {
        self.de@
    }
}

impl MetaDataSeq {
    /// A walk that reads from the given cursor.
    pub fn new(de: MCProtoDeserializer) -> (r: MetaDataSeq)
        ensures
            r@ == de@,
    {
        MetaDataSeq { de }
    }

    /// Hands the cursor back.
    pub fn into_inner(self) -> (r: MCProtoDeserializer)
        ensures
            r@ == self@,
    {
        self.de
    }

    /// Reads the next attribute with its key, or the terminator, after which
    /// there is none. On an error the cursor stays where it was.
    pub fn next_element(&mut self) -> (r: Result<Option<(u8, Entry)>, Error>)
        ensures
            match entry_step(old(self)@) {
                Ok((one, n)) => r is Ok && step_matches(r->Ok_0, one) && n <= old(self)@.len()
                    && final(self)@ == old(self)@.skip(n as int),
                Err(e) => r == Err::<Option<(u8, Entry)>, Error>(e) && final(self)@ == old(self)@,
            },
    {
        proof {
            assert(self.de@.skip(0) =~= self.de@);
        }
        match step_at(self.de.peek(), 0) {
            Ok((one, n)) => {
                self.de.advance(n);
                Ok(one)
            },
            Err(e) => Err(e),
        }
    }
}

} // verus!
