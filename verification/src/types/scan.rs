//! A walk over the binary form of a tree-structured document that reads
//! none of its values: it only follows the lengths, to tell a span that the
//! document codec can be handed from one that it cannot.

use vstd::prelude::*;
use crate::primitive::{i32_parse, parse_i32, parse_u16, u16_parse};

verus! {

/// How deep the compounds and lists of a document may nest.
pub const MAX_DEPTH: usize = 512;

/// The bytes that a text takes: an unsigned 16-bit count and that many
/// bytes, all present.
pub open spec fn scan_text(b: Seq<u8>) -> Option<nat> {
    match u16_parse(b) {
        Ok((count, _)) => {
            if 2 + count <= b.len() {
                Some((2 + count) as nat)
            } else {
                None
            }
        },
        Err(_) => None,
    }
}

/// The bytes that an array of numbers of the given width takes: a signed
/// 32-bit count, not negative, and that many numbers, all present.
pub open spec fn scan_numbers(b: Seq<u8>, width: nat) -> Option<nat> {
    match i32_parse(b) {
        Ok((count, _)) => {
            if count >= 0 && 4 + count * width <= b.len() {
                Some((4 + count * width) as nat)
            } else {
                None
            }
        },
        Err(_) => None,
    }
}

/// The bytes that a number of the given width takes.
pub open spec fn scan_fixed(b: Seq<u8>, width: nat) -> Option<nat> {
    if width <= b.len() {
        Some(width)
    } else {
        None
    }
}

/// The bytes that the payload of a tag takes at the front of `b`, if the
/// payload is all there, every count in it is one that the bytes after it
/// can meet, and nothing in it nests deeper than `depth`.
pub open spec fn scan_payload(tag: u8, b: Seq<u8>, depth: nat) -> Option<nat>
    decreases depth, 0nat, 0nat,
{
    if tag == 1 {
        scan_fixed(b, 1)
    } else if tag == 2 {
        scan_fixed(b, 2)
    } else if tag == 3 || tag == 5 {
        scan_fixed(b, 4)
    } else if tag == 4 || tag == 6 {
        scan_fixed(b, 8)
    } else if tag == 7 {
        scan_numbers(b, 1)
    } else if tag == 8 {
        scan_text(b)
    } else if tag == 9 {
        if depth == 0 || b.len() < 5 {
            None
        } else {
            match i32_parse(b.skip(1)) {
                Ok((count, _)) => {
                    if count < 0 || count > b.len() - 5 {
                        None
                    } else {
                        match scan_elements(b[0], count as nat, b.skip(5), (depth - 1) as nat) {
                            Some(n) => Some(5 + n),
                            None => None,
                        }
                    }
                },
                Err(_) => None,
            }
        }
    } else if tag == 10 {
        if depth == 0 {
            None
        } else {
            scan_compound(b, (depth - 1) as nat)
        }
    } else if tag == 11 {
        scan_numbers(b, 4)
    } else if tag == 12 {
        scan_numbers(b, 8)
    } else {
        None
    }
}

/// The bytes that `count` payloads of one tag take, one after another.
pub open spec fn scan_elements(tag: u8, count: nat, b: Seq<u8>, depth: nat) -> Option<nat>
    decreases depth, 1nat, count,
{
    if count == 0 {
        Some(0)
    } else {
        match scan_payload(tag, b, depth) {
            None => None,
            Some(n) => {
                if n > b.len() {
                    None
                } else {
                    match scan_elements(tag, (count - 1) as nat, b.skip(n as int), depth) {
                        Some(m) => Some(n + m),
                        None => None,
                    }
                }
            },
        }
    }
}

/// The bytes that the entries of a compound take, up to and with the zero
/// byte that ends it: each entry is a tag, a name and the tag's payload.
pub open spec fn scan_compound(b: Seq<u8>, depth: nat) -> Option<nat>
    decreases depth, 2nat, b.len(),
{
    if b.len() == 0 {
        None
    } else if b[0] == 0 {
        Some(1)
    } else {
        match scan_text(b.skip(1)) {
            None => None,
            Some(k) => match scan_payload(b[0], b.skip(1 + k as int), depth) {
                None => None,
                Some(n) => {
                    if 1 + k + n > b.len() {
                        None
                    } else {
                        match scan_compound(b.skip(1 + k as int + n as int), depth) {
                            Some(m) => Some(1 + k + n + m),
                            None => None,
                        }
                    }
                },
            },
        }
    }
}

/// Whether the bytes begin with a whole document: the tag of a compound, a
/// name and the compound's entries, with every count met and nothing nested
/// deeper than `MAX_DEPTH`.
pub open spec fn document_sound(b: Seq<u8>) -> bool {
    &&& b.len() >= 1
    &&& b[0] == 10
    &&& scan_text(b.skip(1)) is Some
    &&& scan_compound(b.skip(1 + scan_text(b.skip(1))->Some_0 as int), MAX_DEPTH as nat) is Some
}

/// A scan that succeeds takes no more bytes than there are.
pub proof fn lemma_scan_within(tag: u8, b: Seq<u8>, depth: nat)
    requires
        scan_payload(tag, b, depth) is Some,
    ensures
        scan_payload(tag, b, depth)->Some_0 <= b.len(),
    decreases depth, 0nat, 0nat,
{
    if tag == 9 {
        let count = i32_parse(b.skip(1))->Ok_0.0;
        lemma_elements_within(b[0], count as nat, b.skip(5), (depth - 1) as nat);
    } else if tag == 10 {
        lemma_compound_within(b, (depth - 1) as nat);
    }
}

/// A scan of elements that succeeds takes no more bytes than there are.
pub proof fn lemma_elements_within(tag: u8, count: nat, b: Seq<u8>, depth: nat)
    requires
        scan_elements(tag, count, b, depth) is Some,
    ensures
        scan_elements(tag, count, b, depth)->Some_0 <= b.len(),
    decreases depth, 1nat, count,
{
    if count > 0 {
        let n = scan_payload(tag, b, depth)->Some_0;
        lemma_elements_within(tag, (count - 1) as nat, b.skip(n as int), depth);
    }
}

/// A scan of a compound that succeeds takes no more bytes than there are.
pub proof fn lemma_compound_within(b: Seq<u8>, depth: nat)
    requires
        scan_compound(b, depth) is Some,
    ensures
        scan_compound(b, depth)->Some_0 <= b.len(),
    decreases depth, 2nat, b.len(),
{
    if b[0] != 0 {
        let k = scan_text(b.skip(1))->Some_0;
        let n = scan_payload(b[0], b.skip(1 + k as int), depth)->Some_0;
        lemma_compound_within(b.skip(1 + k as int + n as int), depth);
    }
}

/// Scans a text in `src`, starting at `start`.
pub fn text_at(src: &[u8], start: usize) -> (r: Option<usize>)
    requires
        start <= src@.len(),
    ensures
        match scan_text(src@.skip(start as int)) {
            Some(n) => r == Some(n as usize) && start + n <= src@.len(),
            None => r is None,
        },
{
    let total: usize = src.len();
    match parse_u16(src, start) {
        Ok((count, _)) => {
            if 2 + count as usize <= total - start {
                Some(2 + count as usize)
            } else {
                None
            }
        },
        Err(_) => None,
    }
}

/// Scans an array of numbers of the given width in `src`, starting at
/// `start`.
pub fn numbers_at(src: &[u8], start: usize, width: u8) -> (r: Option<usize>)
    requires
        start <= src@.len(),
        1 <= width <= 8,
    ensures
        match scan_numbers(src@.skip(start as int), width as nat) {
            Some(n) => r == Some(n as usize) && start + n <= src@.len(),
            None => r is None,
        },
{
    let total: usize = src.len();
    match parse_i32(src, start) {
        Ok((count, _)) => {
            if count < 0 {
                return None;
            }
            assert(count as u64 * width as u64 <= 0x4_0000_0000 && count as u64 * width as u64
                == count * width) by (nonlinear_arith)
                requires
                    0 <= count <= 0x7fff_ffff,
                    1 <= width <= 8,
            {}
            let need: u64 = 4 + count as u64 * width as u64;
            if need <= (total - start) as u64 {
                Some(need as usize)
            } else {
                None
            }
        },
        Err(_) => None,
    }
}

/// Scans the payload of a tag in `src`, starting at `start`.
pub fn payload_at(tag: u8, src: &[u8], start: usize, depth: usize) -> (r: Option<usize>)
    requires
        start <= src@.len(),
        depth <= MAX_DEPTH,
    ensures
        match scan_payload(tag, src@.skip(start as int), depth as nat) {
            Some(n) => r == Some(n as usize) && start + n <= src@.len(),
            None => r is None,
        },
    decreases depth, 0nat, 0nat,
{
    let total: usize = src.len();
    let left: usize = total - start;
    let ghost b = src@.skip(start as int);
    proof {
        if scan_payload(tag, b, depth as nat) is Some {
            lemma_scan_within(tag, b, depth as nat);
        }
    }
    if tag == 1 {
        if left >= 1 {
            Some(1)
        } else {
            None
        }
    } else if tag == 2 {
        if left >= 2 {
            Some(2)
        } else {
            None
        }
    } else if tag == 3 || tag == 5 {
        if left >= 4 {
            Some(4)
        } else {
            None
        }
    } else if tag == 4 || tag == 6 {
        if left >= 8 {
            Some(8)
        } else {
            None
        }
    } else if tag == 7 {
        numbers_at(src, start, 1)
    } else if tag == 8 {
        text_at(src, start)
    } else if tag == 9 {
        if depth == 0 || left < 5 {
            return None;
        }
        let inner: u8 = src[start];
        proof {
            assert(b[0] == inner);
            assert(b.skip(1) =~= src@.skip(start + 1));
            assert(b.skip(5) =~= src@.skip(start + 5));
        }
        match parse_i32(src, start + 1) {
            Ok((count, _)) => {
                if count < 0 || count as u64 > (left - 5) as u64 {
                    return None;
                }
                match elements_at(inner, count as usize, src, start + 5, depth - 1) {
                    Some(n) => Some(5 + n),
                    None => None,
                }
            },
            Err(_) => None,
        }
    } else if tag == 10 {
        if depth == 0 {
            None
        } else {
            compound_at(src, start, depth - 1)
        }
    } else if tag == 11 {
        numbers_at(src, start, 4)
    } else if tag == 12 {
        numbers_at(src, start, 8)
    } else {
        None
    }
}

/// Scans `count` payloads of one tag in `src`, starting at `start`.
pub fn elements_at(tag: u8, count: usize, src: &[u8], start: usize, depth: usize) -> (r: Option<
    usize,
>)
    requires
        start <= src@.len(),
        depth <= MAX_DEPTH,
    ensures
        match scan_elements(tag, count as nat, src@.skip(start as int), depth as nat) {
            Some(n) => r == Some(n as usize) && start + n <= src@.len(),
            None => r is None,
        },
    decreases depth, 1nat, count,
{
    let total: usize = src.len();
    let ghost whole = src@.skip(start as int);
    let mut i: usize = 0;
    let mut used: usize = 0;
    proof {
        assert(src@.skip(start + used) =~= whole);
    }
    while i < count
        invariant
            total == src@.len(),
            whole == src@.skip(start as int),
            depth <= MAX_DEPTH,
            i <= count,
            start + used <= total,
            match scan_elements(tag, (count - i) as nat, src@.skip(start + used), depth as nat) {
                Some(m) => scan_elements(tag, count as nat, whole, depth as nat) == Some(
                    (used + m) as nat,
                ),
                None => scan_elements(tag, count as nat, whole, depth as nat) is None,
            },
        decreases count - i,
    {
        let ghost here = src@.skip(start + used);
        match payload_at(tag, src, start + used, depth) {
            None => {
                return None;
            },
            Some(n) => {
                proof {
                    assert(here.skip(n as int) =~= src@.skip(start + used + n));
                }
                used = used + n;
                i = i + 1;
            },
        }
    }
    Some(used)
}

/// Scans the entries of a compound in `src`, starting at `start`.
pub fn compound_at(src: &[u8], start: usize, depth: usize) -> (r: Option<usize>)
    requires
        start <= src@.len(),
        depth <= MAX_DEPTH,
    ensures
        match scan_compound(src@.skip(start as int), depth as nat) {
            Some(n) => r == Some(n as usize) && start + n <= src@.len(),
            None => r is None,
        },
    decreases depth, 2nat, src@.len() - start,
{
    let total: usize = src.len();
    let ghost whole = src@.skip(start as int);
    let mut used: usize = 0;
    proof {
        assert(src@.skip(start + used) =~= whole);
    }
    loop
        invariant
            total == src@.len(),
            whole == src@.skip(start as int),
            depth <= MAX_DEPTH,
            start + used <= total,
            match scan_compound(src@.skip(start + used), depth as nat) {
                Some(m) => scan_compound(whole, depth as nat) == Some((used + m) as nat),
                None => scan_compound(whole, depth as nat) is None,
            },
        decreases total - start - used,
    {
        let ghost here = src@.skip(start + used);
        if start + used >= total {
            return None;
        }
        let tag: u8 = src[start + used];
        proof {
            assert(here[0] == tag);
        }
        if tag == 0 {
            return Some(used + 1);
        }
        proof {
            assert(here.skip(1) =~= src@.skip(start + used + 1));
        }
        let k: usize = match text_at(src, start + used + 1) {
            Some(k) => k,
            None => {
                return None;
            },
        };
        proof {
            assert(here.skip(1 + k) =~= src@.skip(start + used + 1 + k));
        }
        let n: usize = match payload_at(tag, src, start + used + 1 + k, depth) {
            Some(n) => n,
            None => {
                return None;
            },
        };
        proof {
            assert(here.skip(1 + k + n) =~= src@.skip(start + used + 1 + k + n));
        }
        used = used + 1 + k + n;
    }
}

/// Whether the bytes begin with a whole document that the document codec
/// can be handed.
pub fn is_sound(src: &[u8]) -> (r: bool)
    ensures
        r == document_sound(src@),
{
    let total: usize = src.len();
    proof {
        assert(src@.skip(0) =~= src@);
    }
    if total < 1 || src[0] != 10 {
        return false;
    }
    let k: usize = match text_at(src, 1) {
        Some(k) => k,
        None => {
            return false;
        },
    };
    compound_at(src, 1 + k, MAX_DEPTH).is_some()
}

} // verus!
