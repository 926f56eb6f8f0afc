//! The primitive codec: booleans and the fixed-width integers, signed ones
//! in two's complement. A float travels as the integer of its bit pattern.

use vstd::prelude::*;
use crate::error::Error;
use crate::fixed::{be_bytes, fixed_parse, pow256, signed_of, unsigned_of};
use crate::fixed::{lemma_fixed_roundtrip, lemma_pow256_values, push_be, take_be};
use crate::parse::Parsed;

verus! {

/// The two's complement pattern of `v` in `n` bytes, for the widths in use.
fn pattern_of(v: i64, n: usize) -> (r: u128)
    requires
        n == 1 || n == 2 || n == 4 || n == 8,
        -pow256(n as nat) <= 2 * v < pow256(n as nat),
    ensures
        r == unsigned_of(v as int, n as nat),
        r < pow256(n as nat),
{
    proof {
        lemma_pow256_values();
    }
    if v >= 0 {
        v as u128
    } else if n == 1 {
        (v + 0x100) as u128
    } else if n == 2 {
        (v + 0x1_0000) as u128
    } else if n == 4 {
        (v + 0x1_0000_0000) as u128
    } else {
        (v as i128 + 0x1_0000_0000_0000_0000) as u128
    }
}

/// The signed value of an `n`-byte two's complement pattern, for the widths
/// in use.
fn value_of(u: u128, n: usize) -> (r: i64)
    requires
        n == 1 || n == 2 || n == 4 || n == 8,
        u < pow256(n as nat),
    ensures
        r == signed_of(u as nat, n as nat),
        -pow256(n as nat) <= 2 * r < pow256(n as nat),
{
    proof {
        lemma_pow256_values();
    }
    if n == 1 {
        if u >= 0x80 {
            (u as i64) - 0x100
        } else {
            u as i64
        }
    } else if n == 2 {
        if u >= 0x8000 {
            (u as i64) - 0x1_0000
        } else {
            u as i64
        }
    } else if n == 4 {
        if u >= 0x8000_0000 {
            (u as i64) - 0x1_0000_0000
        } else {
            u as i64
        }
    } else {
        if u >= 0x8000_0000_0000_0000 {
            ((u as i128) - 0x1_0000_0000_0000_0000) as i64
        } else {
            u as i64
        }
    }
}

/// The wire form of a boolean: one byte, zero for `false` and one for `true`.
pub open spec fn bool_bytes(v: bool) -> Seq<u8> {
    seq![if v { 1u8 } else { 0u8 }]
}

/// Reads a boolean from the front of `b`: one byte, `false` exactly when it
/// is zero.
pub open spec fn bool_parse(b: Seq<u8>) -> Parsed<bool> {
    if b.len() < 1 {
        Err(Error::TruncatedInput)
    } else {
        Ok((b[0] != 0, 1))
    }
}

/// A boolean survives a round trip, whatever bytes follow it.
pub proof fn lemma_bool_roundtrip(v: bool, rest: Seq<u8>)
    ensures
        bool_parse(bool_bytes(v) + rest) == Ok::<(bool, nat), Error>((v, 1)),
        bool_bytes(v).len() == 1,
{
}

/// Appends the wire form of a boolean to `out`.
pub fn write_bool(v: bool, out: &mut Vec<u8>)
    ensures
        final(out)@ == old(out)@ + bool_bytes(v),
{
    out.push(if v { 1u8 } else { 0u8 });
    proof {
        assert(out@ =~= old(out)@ + bool_bytes(v));
    }
}

/// Reads a boolean from `src`, starting at `start`.
pub fn parse_bool(src: &[u8], start: usize) -> (r: Result<(bool, usize), Error>)
    requires
        start <= src@.len(),
    ensures
        match bool_parse(src@.skip(start as int)) {
            Ok((v, n)) => r == Ok::<(bool, usize), Error>((v, n as usize)) && start + n
                <= src@.len(),
            Err(e) => r == Err::<(bool, usize), Error>(e),
        },
{
    if start >= src.len() {
        Err(Error::TruncatedInput)
    } else {
        Ok((src[start] != 0, 1))
    }
}

/// The wire form of a `u8`: 1 byte, most significant first.
pub open spec fn u8_bytes(v: u8) -> Seq<u8> {
    be_bytes(v as nat, 1)
}

/// Reads a `u8` from the front of `b`.
pub open spec fn u8_parse(b: Seq<u8>) -> Parsed<u8> {
    match fixed_parse(b, 1) {
        Ok((u, n)) => Ok((u as u8, n)),
        Err(e) => Err(e),
    }
}

/// A `u8` survives a round trip, whatever bytes follow it.
pub proof fn lemma_u8_roundtrip(v: u8, rest: Seq<u8>)
    ensures
        u8_parse(u8_bytes(v) + rest) == Ok::<(u8, nat), Error>((v, 1)),
        u8_bytes(v).len() == 1,
{
    lemma_pow256_values();
    lemma_fixed_roundtrip(v as nat, 1, rest);
    crate::fixed::lemma_be_bytes_len(v as nat, 1);
}

/// Appends the wire form of a `u8` to `out`.
pub fn write_u8(v: u8, out: &mut Vec<u8>)
    ensures
        final(out)@ == old(out)@ + u8_bytes(v),
{
    push_be(out, v as u128, 1);
}

/// Reads a `u8` from `src`, starting at `start`.
pub fn parse_u8(src: &[u8], start: usize) -> (r: Result<(u8, usize), Error>)
    requires
        start <= src@.len(),
    ensures
        match u8_parse(src@.skip(start as int)) {
            Ok((v, n)) => r == Ok::<(u8, usize), Error>((v, n as usize)) && start + n
                <= src@.len(),
            Err(e) => r == Err::<(u8, usize), Error>(e),
        },
{
    proof {
        lemma_pow256_values();
    }
    match take_be(src, start, 1) {
        Ok(u) => Ok((u as u8, 1)),
        Err(e) => Err(e),
    }
}

/// The wire form of a `u16`: 2 bytes, most significant first.
pub open spec fn u16_bytes(v: u16) -> Seq<u8> {
    be_bytes(v as nat, 2)
}

/// Reads a `u16` from the front of `b`.
pub open spec fn u16_parse(b: Seq<u8>) -> Parsed<u16> {
    match fixed_parse(b, 2) {
        Ok((u, n)) => Ok((u as u16, n)),
        Err(e) => Err(e),
    }
}

/// A `u16` survives a round trip, whatever bytes follow it.
pub proof fn lemma_u16_roundtrip(v: u16, rest: Seq<u8>)
    ensures
        u16_parse(u16_bytes(v) + rest) == Ok::<(u16, nat), Error>((v, 2)),
        u16_bytes(v).len() == 2,
{
    lemma_pow256_values();
    lemma_fixed_roundtrip(v as nat, 2, rest);
    crate::fixed::lemma_be_bytes_len(v as nat, 2);
}

/// Appends the wire form of a `u16` to `out`.
pub fn write_u16(v: u16, out: &mut Vec<u8>)
    ensures
        final(out)@ == old(out)@ + u16_bytes(v),
{
    push_be(out, v as u128, 2);
}

/// Reads a `u16` from `src`, starting at `start`.
pub fn parse_u16(src: &[u8], start: usize) -> (r: Result<(u16, usize), Error>)
    requires
        start <= src@.len(),
    ensures
        match u16_parse(src@.skip(start as int)) {
            Ok((v, n)) => r == Ok::<(u16, usize), Error>((v, n as usize)) && start + n
                <= src@.len(),
            Err(e) => r == Err::<(u16, usize), Error>(e),
        },
{
    proof {
        lemma_pow256_values();
    }
    match take_be(src, start, 2) {
        Ok(u) => Ok((u as u16, 2)),
        Err(e) => Err(e),
    }
}

/// The wire form of a `u32`: 4 bytes, most significant first.
pub open spec fn u32_bytes(v: u32) -> Seq<u8> {
    be_bytes(v as nat, 4)
}

/// Reads a `u32` from the front of `b`.
pub open spec fn u32_parse(b: Seq<u8>) -> Parsed<u32> {
    match fixed_parse(b, 4) {
        Ok((u, n)) => Ok((u as u32, n)),
        Err(e) => Err(e),
    }
}

/// A `u32` survives a round trip, whatever bytes follow it.
pub proof fn lemma_u32_roundtrip(v: u32, rest: Seq<u8>)
    ensures
        u32_parse(u32_bytes(v) + rest) == Ok::<(u32, nat), Error>((v, 4)),
        u32_bytes(v).len() == 4,
{
    lemma_pow256_values();
    lemma_fixed_roundtrip(v as nat, 4, rest);
    crate::fixed::lemma_be_bytes_len(v as nat, 4);
}

/// Appends the wire form of a `u32` to `out`.
pub fn write_u32(v: u32, out: &mut Vec<u8>)
    ensures
        final(out)@ == old(out)@ + u32_bytes(v),
{
    push_be(out, v as u128, 4);
}

/// Reads a `u32` from `src`, starting at `start`.
pub fn parse_u32(src: &[u8], start: usize) -> (r: Result<(u32, usize), Error>)
    requires
        start <= src@.len(),
    ensures
        match u32_parse(src@.skip(start as int)) {
            Ok((v, n)) => r == Ok::<(u32, usize), Error>((v, n as usize)) && start + n
                <= src@.len(),
            Err(e) => r == Err::<(u32, usize), Error>(e),
        },
{
    proof {
        lemma_pow256_values();
    }
    match take_be(src, start, 4) {
        Ok(u) => Ok((u as u32, 4)),
        Err(e) => Err(e),
    }
}

/// The wire form of a `u64`: 8 bytes, most significant first.
pub open spec fn u64_bytes(v: u64) -> Seq<u8> {
    be_bytes(v as nat, 8)
}

/// Reads a `u64` from the front of `b`.
pub open spec fn u64_parse(b: Seq<u8>) -> Parsed<u64> {
    match fixed_parse(b, 8) {
        Ok((u, n)) => Ok((u as u64, n)),
        Err(e) => Err(e),
    }
}

/// A `u64` survives a round trip, whatever bytes follow it.
pub proof fn lemma_u64_roundtrip(v: u64, rest: Seq<u8>)
    ensures
        u64_parse(u64_bytes(v) + rest) == Ok::<(u64, nat), Error>((v, 8)),
        u64_bytes(v).len() == 8,
{
    lemma_pow256_values();
    lemma_fixed_roundtrip(v as nat, 8, rest);
    crate::fixed::lemma_be_bytes_len(v as nat, 8);
}

/// Appends the wire form of a `u64` to `out`.
pub fn write_u64(v: u64, out: &mut Vec<u8>)
    ensures
        final(out)@ == old(out)@ + u64_bytes(v),
{
    push_be(out, v as u128, 8);
}

/// Reads a `u64` from `src`, starting at `start`.
pub fn parse_u64(src: &[u8], start: usize) -> (r: Result<(u64, usize), Error>)
    requires
        start <= src@.len(),
    ensures
        match u64_parse(src@.skip(start as int)) {
            Ok((v, n)) => r == Ok::<(u64, usize), Error>((v, n as usize)) && start + n
                <= src@.len(),
            Err(e) => r == Err::<(u64, usize), Error>(e),
        },
{
    proof {
        lemma_pow256_values();
    }
    match take_be(src, start, 8) {
        Ok(u) => Ok((u as u64, 8)),
        Err(e) => Err(e),
    }
}

/// The wire form of a `u128`: 16 bytes, most significant first.
pub open spec fn u128_bytes(v: u128) -> Seq<u8> {
    be_bytes(v as nat, 16)
}

/// Reads a `u128` from the front of `b`.
pub open spec fn u128_parse(b: Seq<u8>) -> Parsed<u128> {
    match fixed_parse(b, 16) {
        Ok((u, n)) => Ok((u as u128, n)),
        Err(e) => Err(e),
    }
}

/// A `u128` survives a round trip, whatever bytes follow it.
pub proof fn lemma_u128_roundtrip(v: u128, rest: Seq<u8>)
    ensures
        u128_parse(u128_bytes(v) + rest) == Ok::<(u128, nat), Error>((v, 16)),
        u128_bytes(v).len() == 16,
{
    lemma_pow256_values();
    lemma_fixed_roundtrip(v as nat, 16, rest);
    crate::fixed::lemma_be_bytes_len(v as nat, 16);
}

/// Appends the wire form of a `u128` to `out`.
pub fn write_u128(v: u128, out: &mut Vec<u8>)
    ensures
        final(out)@ == old(out)@ + u128_bytes(v),
{
    push_be(out, v as u128, 16);
}

/// Reads a `u128` from `src`, starting at `start`.
pub fn parse_u128(src: &[u8], start: usize) -> (r: Result<(u128, usize), Error>)
    requires
        start <= src@.len(),
    ensures
        match u128_parse(src@.skip(start as int)) {
            Ok((v, n)) => r == Ok::<(u128, usize), Error>((v, n as usize)) && start + n
                <= src@.len(),
            Err(e) => r == Err::<(u128, usize), Error>(e),
        },
{
    proof {
        lemma_pow256_values();
    }
    match take_be(src, start, 16) {
        Ok(u) => Ok((u as u128, 16)),
        Err(e) => Err(e),
    }
}

/// The wire form of an `i8`: 1 byte of two's complement, most
/// significant first.
pub open spec fn i8_bytes(v: i8) -> Seq<u8> {
    be_bytes(unsigned_of(v as int, 1), 1)
}

/// Reads an `i8` from the front of `b`.
pub open spec fn i8_parse(b: Seq<u8>) -> Parsed<i8> {
    match fixed_parse(b, 1) {
        Ok((u, n)) => Ok((signed_of(u, 1) as i8, n)),
        Err(e) => Err(e),
    }
}

/// An `i8` survives a round trip, whatever bytes follow it.
pub proof fn lemma_i8_roundtrip(v: i8, rest: Seq<u8>)
    ensures
        i8_parse(i8_bytes(v) + rest) == Ok::<(i8, nat), Error>((v, 1)),
        i8_bytes(v).len() == 1,
{
    lemma_pow256_values();
    crate::fixed::lemma_signed_roundtrip(v as int, 1);
    lemma_fixed_roundtrip(unsigned_of(v as int, 1), 1, rest);
    crate::fixed::lemma_be_bytes_len(unsigned_of(v as int, 1), 1);
}

/// Appends the wire form of an `i8` to `out`.
pub fn write_i8(v: i8, out: &mut Vec<u8>)
    ensures
        final(out)@ == old(out)@ + i8_bytes(v),
{
    proof {
        lemma_pow256_values();
    }
    push_be(out, pattern_of(v as i64, 1), 1);
}

/// Reads an `i8` from `src`, starting at `start`.
pub fn parse_i8(src: &[u8], start: usize) -> (r: Result<(i8, usize), Error>)
    requires
        start <= src@.len(),
    ensures
        match i8_parse(src@.skip(start as int)) {
            Ok((v, n)) => r == Ok::<(i8, usize), Error>((v, n as usize)) && start + n
                <= src@.len(),
            Err(e) => r == Err::<(i8, usize), Error>(e),
        },
{
    proof {
        lemma_pow256_values();
    }
    match take_be(src, start, 1) {
        Ok(u) => Ok((value_of(u, 1) as i8, 1)),
        Err(e) => Err(e),
    }
}

/// The wire form of an `i16`: 2 bytes of two's complement, most
/// significant first.
pub open spec fn i16_bytes(v: i16) -> Seq<u8> {
    be_bytes(unsigned_of(v as int, 2), 2)
}

/// Reads an `i16` from the front of `b`.
pub open spec fn i16_parse(b: Seq<u8>) -> Parsed<i16> {
    match fixed_parse(b, 2) {
        Ok((u, n)) => Ok((signed_of(u, 2) as i16, n)),
        Err(e) => Err(e),
    }
}

/// An `i16` survives a round trip, whatever bytes follow it.
pub proof fn lemma_i16_roundtrip(v: i16, rest: Seq<u8>)
    ensures
        i16_parse(i16_bytes(v) + rest) == Ok::<(i16, nat), Error>((v, 2)),
        i16_bytes(v).len() == 2,
{
    lemma_pow256_values();
    crate::fixed::lemma_signed_roundtrip(v as int, 2);
    lemma_fixed_roundtrip(unsigned_of(v as int, 2), 2, rest);
    crate::fixed::lemma_be_bytes_len(unsigned_of(v as int, 2), 2);
}

/// Appends the wire form of an `i16` to `out`.
pub fn write_i16(v: i16, out: &mut Vec<u8>)
    ensures
        final(out)@ == old(out)@ + i16_bytes(v),
{
    proof {
        lemma_pow256_values();
    }
    push_be(out, pattern_of(v as i64, 2), 2);
}

/// Reads an `i16` from `src`, starting at `start`.
pub fn parse_i16(src: &[u8], start: usize) -> (r: Result<(i16, usize), Error>)
    requires
        start <= src@.len(),
    ensures
        match i16_parse(src@.skip(start as int)) {
            Ok((v, n)) => r == Ok::<(i16, usize), Error>((v, n as usize)) && start + n
                <= src@.len(),
            Err(e) => r == Err::<(i16, usize), Error>(e),
        },
{
    proof {
        lemma_pow256_values();
    }
    match take_be(src, start, 2) {
        Ok(u) => Ok((value_of(u, 2) as i16, 2)),
        Err(e) => Err(e),
    }
}

/// The wire form of an `i32`: 4 bytes of two's complement, most
/// significant first.
pub open spec fn i32_bytes(v: i32) -> Seq<u8> {
    be_bytes(unsigned_of(v as int, 4), 4)
}

/// Reads an `i32` from the front of `b`.
pub open spec fn i32_parse(b: Seq<u8>) -> Parsed<i32> {
    match fixed_parse(b, 4) {
        Ok((u, n)) => Ok((signed_of(u, 4) as i32, n)),
        Err(e) => Err(e),
    }
}

/// An `i32` survives a round trip, whatever bytes follow it.
pub proof fn lemma_i32_roundtrip(v: i32, rest: Seq<u8>)
    ensures
        i32_parse(i32_bytes(v) + rest) == Ok::<(i32, nat), Error>((v, 4)),
        i32_bytes(v).len() == 4,
{
    lemma_pow256_values();
    crate::fixed::lemma_signed_roundtrip(v as int, 4);
    lemma_fixed_roundtrip(unsigned_of(v as int, 4), 4, rest);
    crate::fixed::lemma_be_bytes_len(unsigned_of(v as int, 4), 4);
}

/// Appends the wire form of an `i32` to `out`.
pub fn write_i32(v: i32, out: &mut Vec<u8>)
    ensures
        final(out)@ == old(out)@ + i32_bytes(v),
{
    proof {
        lemma_pow256_values();
    }
    push_be(out, pattern_of(v as i64, 4), 4);
}

/// Reads an `i32` from `src`, starting at `start`.
pub fn parse_i32(src: &[u8], start: usize) -> (r: Result<(i32, usize), Error>)
    requires
        start <= src@.len(),
    ensures
        match i32_parse(src@.skip(start as int)) {
            Ok((v, n)) => r == Ok::<(i32, usize), Error>((v, n as usize)) && start + n
                <= src@.len(),
            Err(e) => r == Err::<(i32, usize), Error>(e),
        },
{
    proof {
        lemma_pow256_values();
    }
    match take_be(src, start, 4) {
        Ok(u) => Ok((value_of(u, 4) as i32, 4)),
        Err(e) => Err(e),
    }
}

/// The wire form of an `i64`: 8 bytes of two's complement, most
/// significant first.
pub open spec fn i64_bytes(v: i64) -> Seq<u8> {
    be_bytes(unsigned_of(v as int, 8), 8)
}

/// Reads an `i64` from the front of `b`.
pub open spec fn i64_parse(b: Seq<u8>) -> Parsed<i64> {
    match fixed_parse(b, 8) {
        Ok((u, n)) => Ok((signed_of(u, 8) as i64, n)),
        Err(e) => Err(e),
    }
}

/// An `i64` survives a round trip, whatever bytes follow it.
pub proof fn lemma_i64_roundtrip(v: i64, rest: Seq<u8>)
    ensures
        i64_parse(i64_bytes(v) + rest) == Ok::<(i64, nat), Error>((v, 8)),
        i64_bytes(v).len() == 8,
{
    lemma_pow256_values();
    crate::fixed::lemma_signed_roundtrip(v as int, 8);
    lemma_fixed_roundtrip(unsigned_of(v as int, 8), 8, rest);
    crate::fixed::lemma_be_bytes_len(unsigned_of(v as int, 8), 8);
}

/// Appends the wire form of an `i64` to `out`.
pub fn write_i64(v: i64, out: &mut Vec<u8>)
    ensures
        final(out)@ == old(out)@ + i64_bytes(v),
{
    proof {
        lemma_pow256_values();
    }
    push_be(out, pattern_of(v as i64, 8), 8);
}

/// Reads an `i64` from `src`, starting at `start`.
pub fn parse_i64(src: &[u8], start: usize) -> (r: Result<(i64, usize), Error>)
    requires
        start <= src@.len(),
    ensures
        match i64_parse(src@.skip(start as int)) {
            Ok((v, n)) => r == Ok::<(i64, usize), Error>((v, n as usize)) && start + n
                <= src@.len(),
            Err(e) => r == Err::<(i64, usize), Error>(e),
        },
{
    proof {
        lemma_pow256_values();
    }
    match take_be(src, start, 8) {
        Ok(u) => Ok((value_of(u, 8) as i64, 8)),
        Err(e) => Err(e),
    }
}

} // verus!
