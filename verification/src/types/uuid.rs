//! The 128-bit identifier in its two wire forms: text, and a raw integer.

use vstd::prelude::*;
use crate::de::{took, took_view, MCProtoDeserializer};
use crate::error::Error;
use crate::foreign::{native_u128, uuid_format, uuid_parse};
use crate::fixed::{be_bytes, be_value, lemma_be_bytes_len, lemma_be_bytes_of_value};
use crate::fixed::{lemma_be_value_bound, lemma_pow256_values};
use crate::primitive::{parse_u128, u128_bytes, u128_parse, write_u128};
use crate::ser::MCProtoSerializer;
use crate::text::{lemma_string_roundtrip, lemma_utf8_size, parse_string, string_bytes};
use crate::text::{string_parse, write_string};
use crate::parse::Parsed;

verus! {

/// A 128-bit identifier that travels as its canonical hyphenated text. Its
/// view is its sixteen bytes.
#[derive(Debug, Clone, Copy, PartialEq, Eq)]
pub struct Uuid(pub [u8; 16]);

impl View for Uuid {
    type V = Seq<u8>;

    open spec fn view(&self) -> Seq<u8> {
        self.0@
    }
}

/// A 128-bit identifier that travels as a raw 128-bit integer: the number
/// that its sixteen bytes spell in the byte order of the machine that built
/// it. The two forms are never told apart by content; the shape says which
/// one applies.
#[derive(Debug, Clone, Copy, PartialEq, Eq, Structural)]
pub struct Uuidi128(pub u128);

/// The lower-case hexadecimal digit for a number below sixteen.
pub open spec fn hex_digit(n: int) -> char {
    if n == 0 {
        '0'
    } else if n == 1 {
        '1'
    } else if n == 2 {
        '2'
    } else if n == 3 {
        '3'
    } else if n == 4 {
        '4'
    } else if n == 5 {
        '5'
    } else if n == 6 {
        '6'
    } else if n == 7 {
        '7'
    } else if n == 8 {
        '8'
    } else if n == 9 {
        '9'
    } else if n == 10 {
        'a'
    } else if n == 11 {
        'b'
    } else if n == 12 {
        'c'
    } else if n == 13 {
        'd'
    } else if n == 14 {
        'e'
    } else {
        'f'
    }
}

/// The number that a hexadecimal digit stands for, in either case of its
/// letters.
pub open spec fn hex_value(c: char) -> Option<int> {
    if c == '0' {
        Some(0)
    } else if c == '1' {
        Some(1)
    } else if c == '2' {
        Some(2)
    } else if c == '3' {
        Some(3)
    } else if c == '4' {
        Some(4)
    } else if c == '5' {
        Some(5)
    } else if c == '6' {
        Some(6)
    } else if c == '7' {
        Some(7)
    } else if c == '8' {
        Some(8)
    } else if c == '9' {
        Some(9)
    } else if c == 'a' || c == 'A' {
        Some(10)
    } else if c == 'b' || c == 'B' {
        Some(11)
    } else if c == 'c' || c == 'C' {
        Some(12)
    } else if c == 'd' || c == 'D' {
        Some(13)
    } else if c == 'e' || c == 'E' {
        Some(14)
    } else if c == 'f' || c == 'F' {
        Some(15)
    } else {
        None
    }
}

/// The `k`-th half byte of `bytes`: the high half of a byte comes before its
/// low half.
pub open spec fn half_byte(bytes: Seq<u8>, k: int) -> int {
    if k % 2 == 0 {
        bytes[k / 2] as int / 16
    } else {
        bytes[k / 2] as int % 16
    }
}

/// The digits of the half bytes of `bytes` from `from` up to `to`.
pub open spec fn hex_run(bytes: Seq<u8>, from: int, to: int) -> Seq<char> {
    Seq::new((to - from) as nat, |k: int| hex_digit(half_byte(bytes, from + k)))
}

/// The canonical text of an identifier of sixteen bytes: their 32 lower-case
/// hexadecimal digits in groups of 8, 4, 4, 4 and 12, with a hyphen between
/// two groups.
pub open spec fn uuid_text(bytes: Seq<u8>) -> Seq<char> {
    hex_run(bytes, 0, 8) + seq!['-'] + hex_run(bytes, 8, 12) + seq!['-'] + hex_run(bytes, 12, 16)
        + seq!['-'] + hex_run(bytes, 16, 20) + seq!['-'] + hex_run(bytes, 20, 32)
}

/// Whether every character of `t` is a hexadecimal digit.
pub open spec fn all_hex(t: Seq<char>) -> bool {
    forall|k: int| 0 <= k < t.len() ==> hex_value(#[trigger] t[k]) is Some
}

/// The sixteen bytes that 32 hexadecimal digits spell, two digits to a byte.
pub open spec fn hex_bytes(t: Seq<char>) -> Seq<u8> {
    Seq::new(
        16,
        |j: int| (16 * hex_value(t[2 * j])->Some_0 + hex_value(t[2 * j + 1])->Some_0) as u8,
    )
}

/// What a text of nothing but 32 hexadecimal digits spells.
pub open spec fn simple_parsed(t: Seq<char>) -> Option<Seq<u8>> {
    if t.len() == 32 && all_hex(t) {
        Some(hex_bytes(t))
    } else {
        None
    }
}

/// What a text of 36 characters spells: hyphens after the groups of 8, 4, 4
/// and 4 digits, and nowhere else.
pub open spec fn hyphenated_parsed(t: Seq<char>) -> Option<Seq<u8>> {
    if t.len() == 36 && t[8] == '-' && t[13] == '-' && t[18] == '-' && t[23] == '-' {
        simple_parsed(
            t.subrange(0, 8) + t.subrange(9, 13) + t.subrange(14, 18) + t.subrange(19, 23)
                + t.subrange(24, 36),
        )
    } else {
        None
    }
}

/// The nine characters that may stand before a hyphenated text.
pub open spec fn urn_prefix() -> Seq<char> {
    seq!['u', 'r', 'n', ':', 'u', 'u', 'i', 'd', ':']
}

/// The sixteen bytes that a text spells, if it spells an identifier. Three
/// forms do: 32 digits, the hyphenated 36 characters, and the hyphenated
/// form behind `urn:uuid:`. Letters may be of either case.
pub open spec fn uuid_parsed(t: Seq<char>) -> Option<Seq<u8>> {
    if t.len() == 45 && t.subrange(0, 9) == urn_prefix() {
        hyphenated_parsed(t.skip(9))
    } else if t.len() == 36 {
        hyphenated_parsed(t)
    } else {
        simple_parsed(t)
    }
}

/// Reads an identifier in its text form from the front of `b`: a text, then
/// what the text spells.
pub open spec fn uuid_parse_text(b: Seq<u8>) -> Parsed<Seq<u8>> {
    match string_parse(b) {
        Err(e) => Err(e),
        Ok((text, n)) => match uuid_parsed(text) {
            Some(id) => Ok((id, n)),
            None => Err(Error::MalformedIdentifier),
        },
    }
}

/// The wire form of an identifier in its text form: its canonical text as a
/// string.
pub open spec fn uuid_bytes(id: Seq<u8>) -> Seq<u8> {
    string_bytes(uuid_text(id))
}

/// A digit stands for the number it was written for.
pub proof fn lemma_hex_digit_value(n: int)
    requires
        0 <= n < 16,
    ensures
        hex_value(hex_digit(n)) == Some(n),
{
}

/// The canonical text has 36 characters, and it spells the sixteen bytes it
/// was written for.
pub proof fn lemma_text_roundtrip(id: Seq<u8>)
    requires
        id.len() == 16,
    ensures
        uuid_text(id).len() == 36,
        uuid_parsed(uuid_text(id)) == Some(id),
{
    let t = uuid_text(id);
    let d = t.subrange(0, 8) + t.subrange(9, 13) + t.subrange(14, 18) + t.subrange(19, 23)
        + t.subrange(24, 36);
    assert(d =~= hex_run(id, 0, 32));
    assert forall|k: int| 0 <= k < 32 implies hex_value(#[trigger] d[k]) == Some(
        half_byte(id, k),
    ) by {
        lemma_hex_digit_value(half_byte(id, k));
    }
    assert(hex_bytes(d) =~= id) by {
        assert forall|j: int| 0 <= j < 16 implies hex_bytes(d)[j] == id[j] by {
            assert(hex_value(d[2 * j]) == Some(half_byte(id, 2 * j)));
            assert(hex_value(d[2 * j + 1]) == Some(half_byte(id, 2 * j + 1)));
        }
    }
}

/// An identifier in its text form survives a round trip, whatever bytes
/// follow it.
pub proof fn lemma_uuid_roundtrip(id: Seq<u8>, rest: Seq<u8>)
    requires
        id.len() == 16,
    ensures
        uuid_parse_text(uuid_bytes(id) + rest) == Ok::<(Seq<u8>, nat), Error>(
            (id, uuid_bytes(id).len()),
        ),
{
    lemma_text_roundtrip(id);
    lemma_utf8_size(uuid_text(id));
    lemma_string_roundtrip(uuid_text(id), rest);
}

impl Uuid {
    /// The identifier that a parsed text gave, or the error that stands for
    /// a text that did not parse.
    pub fn from_parsed(parsed: Option<[u8; 16]>) -> (r: Result<Uuid, Error>)
        ensures
            match parsed {
                Some(bytes) => r == Ok::<Uuid, Error>(Uuid(bytes)),
                None => r == Err::<Uuid, Error>(Error::MalformedIdentifier),
            },
    {
        match parsed {
            Some(bytes) => Ok(Uuid(bytes)),
            None => Err(Error::MalformedIdentifier),
        }
    }

    /// Reads an identifier in its text form from `src`, starting at `start`.
    pub fn decode_at(src: &[u8], start: usize) -> (r: Result<(Uuid, usize), Error>)
        requires
            start <= src@.len(),
        ensures
            match uuid_parse_text(src@.skip(start as int)) {
                Ok((id, n)) => r is Ok && r->Ok_0.0@ == id && r->Ok_0.1 == n && start + n
                    <= src@.len(),
                Err(e) => r == Err::<(Uuid, usize), Error>(e),
            },
    {
        match parse_string(src, start) {
            Err(e) => Err(e),
            Ok((text, n)) => match Uuid::from_parsed(uuid_parse(text.as_str())) {
                Ok(id) => Ok((id, n)),
                Err(e) => Err(e),
            },
        }
    }

    /// Appends the text form of the identifier to `out`. Its 36 characters
    /// always fit a string.
    pub fn encode_into(&self, out: &mut Vec<u8>) -> (r: Result<(), Error>)
        ensures
            r is Ok,
            final(out)@ == old(out)@ + uuid_bytes(self@),
    {
        let text: String = uuid_format(&self.0);
        proof {
            lemma_text_roundtrip(self@);
            lemma_utf8_size(text@);
        }
        write_string(text.as_str(), out)
    }

    /// Writes the identifier as its canonical hyphenated text.
    pub fn serialize(&self, serializer: &mut MCProtoSerializer) -> (r: Result<(), Error>)
        ensures
            r is Ok,
            final(serializer)@ == old(serializer)@ + uuid_bytes(self@),
    {
        self.encode_into(&mut serializer.writer)
    }

    /// Reads an identifier from its text.
    pub fn deserialize(deserializer: &mut MCProtoDeserializer) -> (r: Result<Uuid, Error>)
        ensures
            took_view(
                old(deserializer)@,
                final(deserializer)@,
                uuid_parse_text(old(deserializer)@),
                r,
            ),
    {
        proof {
            assert(deserializer@.skip(0) =~= deserializer@);
        }
        match Uuid::decode_at(deserializer.peek(), 0) {
            Ok((id, n)) => {
                deserializer.advance(n);
                Ok(id)
            },
            Err(e) => Err(e),
        }
    }
}

/// One of the two orders in which sixteen bytes spell a number.
#[derive(Debug, Clone, Copy, PartialEq, Eq, Structural)]
pub enum Endian {
    /// The most significant byte first.
    Big,
    /// The least significant byte first.
    Little,
}

/// The number that sixteen bytes spell in the given order.
pub open spec fn number_of(bytes: Seq<u8>, order: Endian) -> nat {
    match order {
        Endian::Big => be_value(bytes),
        Endian::Little => be_value(bytes.reverse()),
    }
}

/// The sixteen bytes that spell a number in the given order.
pub open spec fn bytes_of(v: u128, order: Endian) -> Seq<u8> {
    match order {
        Endian::Big => be_bytes(v as nat, 16),
        Endian::Little => be_bytes(v as nat, 16).reverse(),
    }
}

/// In either order, the bytes of the number that sixteen bytes spell are
/// those bytes: an identifier read in the order it was written in is the
/// identifier that was written.
pub proof fn lemma_number_roundtrip(bytes: Seq<u8>, order: Endian)
    requires
        bytes.len() == 16,
    ensures
        number_of(bytes, order) <= u128::MAX,
        bytes_of(number_of(bytes, order) as u128, order) == bytes,
{
    lemma_pow256_values();
    match order {
        Endian::Big => {
            lemma_be_value_bound(bytes);
            lemma_be_bytes_of_value(bytes);
        },
        Endian::Little => {
            let turned = bytes.reverse();
            lemma_be_value_bound(turned);
            lemma_be_bytes_of_value(turned);
            assert(turned.reverse() =~= bytes);
        },
    }
}

/// The bytes of a slice in reverse.
fn reversed(bytes: &[u8; 16]) -> (r: [u8; 16])
    ensures
        r@ == bytes@.reverse(),
{
    let mut out: [u8; 16] = [0u8; 16];
    let mut i: usize = 0;
    while i < 16
        invariant
            i <= 16,
            forall|j: int| 0 <= j < i ==> out@[j] == bytes@[15 - j],
        decreases 16 - i,
    {
        out[i] = bytes[15 - i];
        i = i + 1;
    }
    proof {
        assert(out@ =~= bytes@.reverse());
    }
    out
}

impl Uuidi128 {
    /// The order in which a machine reads, told from what it made of the
    /// sixteen bytes that end in a one and are zero before it: one in the one
    /// order, `2^120` in the other.
    pub fn order_of(reading: u128) -> (r: Endian)
        ensures
            r == (if reading == 1 {
                Endian::Big
            } else {
                Endian::Little
            }),
    {
        if reading == 1 {
            Endian::Big
        } else {
            Endian::Little
        }
    }

    /// The byte order of the machine, found by asking how it reads the
    /// probe. Which of the two it is depends on the machine alone.
    pub fn native_order() -> (r: Endian) {
        let probe: [u8; 16] = [0, 0, 0, 0, 0, 0, 0, 0, 0, 0, 0, 0, 0, 0, 0, 1];
        Uuidi128::order_of(native_u128(&probe))
    }

    /// The identifier of the given sixteen bytes: the number that they spell
    /// in the given order.
    pub fn from_bytes(bytes: &[u8; 16], order: Endian) -> (r: Uuidi128)
        ensures
            r.0 == number_of(bytes@, order),
    {
        let source: [u8; 16] = match order {
            Endian::Big => *bytes,
            Endian::Little => reversed(bytes),
        };
        let spelled: &[u8] = source.as_slice();
        proof {
            assert(spelled@ == source@);
            assert(spelled@.len() == 16);
            assert(spelled@.skip(0) =~= spelled@);
            assert(spelled@.take(16) =~= spelled@);
            lemma_pow256_values();
            lemma_be_value_bound(spelled@);
        }
        match parse_u128(spelled, 0) {
            Ok((v, _)) => Uuidi128(v),
            Err(_) => Uuidi128(0),
        }
    }

    /// The sixteen bytes that spell the identifier in the given order.
    pub fn to_bytes(&self, order: Endian) -> (r: [u8; 16])
        ensures
            r@ == bytes_of(self.0, order),
    {
        let mut spelled: Vec<u8> = Vec::new();
        write_u128(self.0, &mut spelled);
        proof {
            lemma_be_bytes_len(self.0 as nat, 16);
            assert(spelled@ =~= be_bytes(self.0 as nat, 16));
        }
        let mut out: [u8; 16] = [0u8; 16];
        let mut i: usize = 0;
        while i < 16
            invariant
                i <= 16,
                spelled@.len() == 16,
                forall|j: int| 0 <= j < i ==> out@[j] == spelled@[j],
            decreases 16 - i,
        {
            out[i] = spelled[i];
            i = i + 1;
        }
        proof {
            assert(out@ =~= spelled@);
        }
        match order {
            Endian::Big => out,
            Endian::Little => reversed(&out),
        }
    }

    /// Writes the identifier as a raw 128-bit integer.
    pub fn serialize(&self, serializer: &mut MCProtoSerializer) -> (r: Result<(), Error>)
        ensures
            r is Ok,
            final(serializer)@ == old(serializer)@ + u128_bytes(self.0),
    {
        serializer.serialize_u128(self.0)
    }

    /// Reads the identifier from a raw 128-bit integer.
    pub fn deserialize(deserializer: &mut MCProtoDeserializer) -> (r: Result<Uuidi128, Error>)
        ensures
            took(
                old(deserializer)@,
                final(deserializer)@,
                u128_parse(old(deserializer)@),
                match r {
                    Ok(v) => Ok(v.0),
                    Err(e) => Err(e),
                },
            ),
    {
        match deserializer.deserialize_u128() {
            Ok(v) => Ok(Uuidi128(v)),
            Err(e) => Err(e),
        }
    }
}

} // verus!
