//! Variable-length integers: seven bits of the value to a byte, least
//! significant group first, the high bit of a byte saying that more follow.

use vstd::prelude::*;
use crate::error::Error;
use crate::parse::Parsed;

verus! {

/// `128` to the power `k`.
pub open spec fn pow128(k: nat) -> nat
    decreases k,
{
    if k == 0 {
        1
    } else {
        128 * pow128((k - 1) as nat)
    }
}

/// The groups of seven bits of `v`, least significant first, one per byte;
/// every byte but the last has its high bit set.
pub open spec fn var_bytes(v: nat) -> Seq<u8>
    decreases v,
{
    if v < 128 {
        seq![v as u8]
    } else {
        seq![(v % 128 + 128) as u8] + var_bytes(v / 128)
    }
}

/// Reads groups of seven bits from the front of `b` until a byte has its high
/// bit clear. At most `left` bytes are read; the last of them must be below
/// `cap`, which both forbids a continuation there and keeps the value in range.
pub open spec fn var_parse(b: Seq<u8>, left: nat, cap: nat) -> Parsed<nat>
    decreases left,
{
    if left == 0 {
        Err(Error::MalformedVarInt)
    } else if b.len() == 0 {
        Err(Error::TruncatedInput)
    } else if left == 1 && b[0] >= cap {
        Err(Error::MalformedVarInt)
    } else if b[0] < 128 {
        Ok((b[0] as nat, 1))
    } else {
        match var_parse(b.skip(1), (left - 1) as nat, cap) {
            Ok((v, n)) => Ok(((b[0] - 128 + 128 * v) as nat, n + 1)),
            Err(e) => Err(e),
        }
    }
}


/// The unsigned 32-bit pattern of `v` in two's complement.
pub open spec fn bits_of_i32(v: i32) -> nat {
    if v < 0 {
        (v + 0x1_0000_0000) as nat
    } else {
        v as nat
    }
}

/// The signed value of a 32-bit pattern.
pub open spec fn i32_of_bits(u: nat) -> i32
    recommends
        u < 0x1_0000_0000,
{
    if u >= 0x8000_0000 {
        (u - 0x1_0000_0000) as i32
    } else {
        u as i32
    }
}

/// The unsigned 64-bit pattern of `v` in two's complement.
pub open spec fn bits_of_i64(v: i64) -> nat {
    if v < 0 {
        (v + 0x1_0000_0000_0000_0000) as nat
    } else {
        v as nat
    }
}

/// The signed value of a 64-bit pattern.
pub open spec fn i64_of_bits(u: nat) -> i64
    recommends
        u < 0x1_0000_0000_0000_0000,
{
    if u >= 0x8000_0000_0000_0000 {
        (u - 0x1_0000_0000_0000_0000) as i64
    } else {
        u as i64
    }
}

/// The wire form of a 32-bit variable-length integer: one to five bytes.
pub open spec fn varint_bytes(v: i32) -> Seq<u8> {
    var_bytes(bits_of_i32(v))
}

/// The wire form of a 64-bit variable-length integer: one to ten bytes.
pub open spec fn varlong_bytes(v: i64) -> Seq<u8> {
    var_bytes(bits_of_i64(v))
}

/// Reads a 32-bit variable-length integer from the front of `b`. A fifth byte
/// may carry only its low four bits.
pub open spec fn varint_parse(b: Seq<u8>) -> Parsed<i32> {
    match var_parse(b, 5, 16) {
        Ok((u, n)) => Ok((i32_of_bits(u), n)),
        Err(e) => Err(e),
    }
}

/// Reads a 64-bit variable-length integer from the front of `b`. A tenth byte
/// may carry only its lowest bit.
pub open spec fn varlong_parse(b: Seq<u8>) -> Parsed<i64> {
    match var_parse(b, 10, 2) {
        Ok((u, n)) => Ok((i64_of_bits(u), n)),
        Err(e) => Err(e),
    }
}

/// `pow128` on the exponents the two widths use.
pub proof fn lemma_pow128_values()
    ensures
        pow128(0) == 1,
        pow128(1) == 0x80,
        pow128(2) == 0x4000,
        pow128(3) == 0x20_0000,
        pow128(4) == 0x1000_0000,
        pow128(5) == 0x8_0000_0000,
        pow128(6) == 0x400_0000_0000,
        pow128(7) == 0x2_0000_0000_0000,
        pow128(8) == 0x100_0000_0000_0000,
        pow128(9) == 0x8000_0000_0000_0000,
        pow128(10) == 0x40_0000_0000_0000_0000,
{
    reveal_with_fuel(pow128, 11);
}

/// `pow128` grows with its exponent.
pub proof fn lemma_pow128_monotonic(i: nat, j: nat)
    requires
        i <= j,
    ensures
        1 <= pow128(i) <= pow128(j),
    decreases j,
{
    if j == 0 {
    } else if i == j {
        lemma_pow128_monotonic(0, (j - 1) as nat);
    } else {
        lemma_pow128_monotonic(i, (j - 1) as nat);
    }
}

/// A value below `128^k` takes between one and `k` bytes.
pub proof fn lemma_var_bytes_len(v: nat, k: nat)
    requires
        k >= 1,
        v < pow128(k),
    ensures
        1 <= var_bytes(v).len() <= k,
    decreases v,
{
    if v < 128 {
    } else {
        if k == 1 {
            assert(pow128(1) == 128) by {
                reveal_with_fuel(pow128, 2);
            }
        }
        assert(v / 128 < pow128((k - 1) as nat)) by {
            assert(pow128(k) == 128 * pow128((k - 1) as nat));
        }
        lemma_var_bytes_len(v / 128, (k - 1) as nat);
    }
}

/// What a successful parse yields: between one and `left` bytes were taken,
/// all of them present, and the value is below `128^(left-1) * cap`.
pub proof fn lemma_var_parse_bounds(b: Seq<u8>, left: nat, cap: nat)
    requires
        1 <= cap <= 128,
        var_parse(b, left, cap) is Ok,
    ensures
        left >= 1,
        1 <= var_parse(b, left, cap)->Ok_0.1 <= left,
        var_parse(b, left, cap)->Ok_0.1 <= b.len(),
        var_parse(b, left, cap)->Ok_0.0 < pow128((left - 1) as nat) * cap,
        b[var_parse(b, left, cap)->Ok_0.1 - 1] < 128,
    decreases left,
{
    let top = pow128((left - 1) as nat);
    if left == 1 {
        assert(top == 1);
        assert(top * cap == cap) by (nonlinear_arith)
            requires
                top == 1,
        {}
    } else if b[0] < 128 {
        assert(top >= 128) by {
            lemma_pow128_monotonic(1, (left - 1) as nat);
            reveal_with_fuel(pow128, 2);
        }
        assert(b[0] < top * cap) by (nonlinear_arith)
            requires
                b[0] < 128,
                top >= 128,
                cap >= 1,
        {}
    } else {
        let rest = b.skip(1);
        lemma_var_parse_bounds(rest, (left - 1) as nat, cap);
        let v = var_parse(rest, (left - 1) as nat, cap)->Ok_0.0;
        let n = var_parse(rest, (left - 1) as nat, cap)->Ok_0.1;
        let low = pow128((left - 2) as nat);
        assert(top == 128 * low);
        assert(b[0] - 128 + 128 * v < top * cap) by (nonlinear_arith)
            requires
                v < low * cap,
                top == 128 * low,
                b[0] < 256,
        {}
        assert(rest[n - 1] == b[n as int]);
    }
}

/// With one byte left the bound on the value is `cap` itself.
proof fn lemma_cap_alone(left: nat, cap: nat)
    requires
        left == 1,
    ensures
        pow128((left - 1) as nat) * cap == cap,
{
    let top = pow128((left - 1) as nat);
    assert(top == 1);
    assert(top * cap == cap) by (nonlinear_arith)
        requires
            top == 1,
    {}
}

/// Parsing what `var_bytes` wrote gives the value back and takes exactly the
/// bytes written, whatever follows them.
pub proof fn lemma_var_roundtrip(v: nat, rest: Seq<u8>, left: nat, cap: nat)
    requires
        left >= 1,
        1 <= cap <= 128,
        v < pow128((left - 1) as nat) * cap,
    ensures
        var_parse(var_bytes(v) + rest, left, cap) == Ok::<(nat, nat), Error>(
            (v, var_bytes(v).len()),
        ),
    decreases v,
{
    let b = var_bytes(v) + rest;
    if v < 128 {
        assert(b[0] == v as u8);
        if left == 1 {
            lemma_cap_alone(left, cap);
        }
    } else {
        assert(b[0] == (v % 128 + 128) as u8);
        if left == 1 {
            lemma_cap_alone(left, cap);
        }
        let p = pow128((left - 2) as nat);
        assert(pow128((left - 1) as nat) == 128 * p);
        assert(v / 128 < p * cap) by (nonlinear_arith)
            requires
                v < (128 * p) * cap,
        {}
        assert(b.skip(1) =~= var_bytes(v / 128) + rest);
        lemma_var_roundtrip(v / 128, rest, (left - 1) as nat, cap);
    }
}

/// Cut short, the bytes of a value parse as a truncation: a reader that has
/// only part of them is told to wait, never handed a wrong value.
pub proof fn lemma_var_prefix_truncated(v: nat, k: nat, left: nat, cap: nat)
    requires
        left >= 1,
        1 <= cap <= 128,
        v < pow128((left - 1) as nat) * cap,
        k < var_bytes(v).len(),
    ensures
        var_parse(var_bytes(v).take(k as int), left, cap) == Err::<(nat, nat), Error>(
            Error::TruncatedInput,
        ),
    decreases v,
{
    let b = var_bytes(v).take(k as int);
    if k == 0 {
    } else {
        assert(v >= 128);
        assert(b[0] == (v % 128 + 128) as u8);
        if left == 1 {
            lemma_cap_alone(left, cap);
        }
        let p = pow128((left - 2) as nat);
        assert(pow128((left - 1) as nat) == 128 * p);
        assert(v / 128 < p * cap) by (nonlinear_arith)
            requires
                v < (128 * p) * cap,
        {}
        assert(b.skip(1) =~= var_bytes(v / 128).take(k - 1));
        lemma_var_prefix_truncated(v / 128, (k - 1) as nat, (left - 1) as nat, cap);
    }
}

/// A 32-bit variable-length integer survives a round trip, whatever bytes
/// follow it, and is written in one to five bytes.
pub proof fn lemma_varint_roundtrip(v: i32, rest: Seq<u8>)
    ensures
        varint_parse(varint_bytes(v) + rest) == Ok::<(i32, nat), Error>(
            (v, varint_bytes(v).len()),
        ),
        1 <= varint_bytes(v).len() <= 5,
{
    lemma_pow128_values();
    lemma_var_roundtrip(bits_of_i32(v), rest, 5, 16);
    lemma_var_bytes_len(bits_of_i32(v), 5);
}

/// A 64-bit variable-length integer survives a round trip, whatever bytes
/// follow it, and is written in one to ten bytes.
pub proof fn lemma_varlong_roundtrip(v: i64, rest: Seq<u8>)
    ensures
        varlong_parse(varlong_bytes(v) + rest) == Ok::<(i64, nat), Error>(
            (v, varlong_bytes(v).len()),
        ),
        1 <= varlong_bytes(v).len() <= 10,
{
    lemma_pow128_values();
    lemma_var_roundtrip(bits_of_i64(v), rest, 10, 2);
    lemma_var_bytes_len(bits_of_i64(v), 10);
}

/// A 32-bit variable-length integer of which only the first `k` bytes have
/// arrived parses as a truncation.
pub proof fn lemma_varint_prefix_truncated(v: i32, k: nat)
    requires
        k < varint_bytes(v).len(),
    ensures
        varint_parse(varint_bytes(v).take(k as int)) == Err::<(i32, nat), Error>(
            Error::TruncatedInput,
        ),
{
    lemma_pow128_values();
    lemma_var_prefix_truncated(bits_of_i32(v), k, 5, 16);
}

/// A five-byte sequence whose last byte has any of its top four bits set is
/// no 32-bit variable-length integer.
pub proof fn lemma_varint_fifth_byte(b: Seq<u8>)
    requires
        b.len() >= 5,
        b[0] >= 128,
        b[1] >= 128,
        b[2] >= 128,
        b[3] >= 128,
        b[4] >= 16,
    ensures
        varint_parse(b) == Err::<(i32, nat), Error>(Error::MalformedVarInt),
{
    reveal_with_fuel(var_parse, 6);
    assert(b.skip(1)[0] == b[1]);
    assert(b.skip(1).skip(1)[0] == b[2]);
    assert(b.skip(1).skip(1).skip(1)[0] == b[3]);
    assert(b.skip(1).skip(1).skip(1).skip(1)[0] == b[4]);
}

/// A parse that went on after `i` bytes had given `acc`: what the whole
/// parse yields, from what the rest of it yields.
pub open spec fn var_resume(acc: nat, i: nat, tail: Parsed<nat>) -> Parsed<nat> {
    match tail {
        Ok((v, n)) => Ok((acc + pow128(i) * v, n + i)),
        Err(e) => Err(e),
    }
}

/// Appends the groups of seven bits of `v` to `out`.
fn write_var(v: u64, out: &mut Vec<u8>)
    ensures
        final(out)@ == old(out)@ + var_bytes(v as nat),
{
    let mut x: u64 = v;
    while x >= 128
        invariant
            out@ + var_bytes(x as nat) == old(out)@ + var_bytes(v as nat),
        decreases x,
    {
        let ghost before = out@;
        let byte: u8 = (x % 128 + 128) as u8;
        out.push(byte);
        proof {
            assert(out@ + var_bytes((x / 128) as nat) =~= before + var_bytes(x as nat));
        }
        x = x / 128;
    }
    out.push(x as u8);
    proof {
        assert(out@ =~= old(out)@ + var_bytes(v as nat));
    }
}

/// Reads groups of seven bits from `src`, starting at `start`: at most `max`
/// bytes, the last of them below `cap`. Returns the value and the number of
/// bytes read.
fn read_var(src: &[u8], start: usize, max: usize, cap: u8) -> (r: Result<(u64, usize), Error>)
    requires
        start <= src@.len(),
        1 <= max <= 10,
        1 <= cap <= 128,
        pow128((max - 1) as nat) * cap <= 0x1_0000_0000_0000_0000,
    ensures
        match var_parse(src@.skip(start as int), max as nat, cap as nat) {
            Ok((v, n)) => r == Ok::<(u64, usize), Error>((v as u64, n as usize)) && v
                <= u64::MAX && 1 <= n <= max && start + n <= src@.len(),
            Err(e) => r == Err::<(u64, usize), Error>(e),
        },
{
    let ghost whole = src@.skip(start as int);
    let mut acc: u64 = 0;
    let mut mult: u64 = 1;
    let mut i: usize = 0;
    let len: usize = src.len();
    proof {
        lemma_pow128_values();
        assert(pow128(0) * 0 == 0) by (nonlinear_arith);
    }
    loop
        invariant
            start <= src@.len(),
            1 <= max <= 10,
            1 <= cap <= 128,
            pow128((max - 1) as nat) * cap <= 0x1_0000_0000_0000_0000,
            whole == src@.skip(start as int),
            len == src@.len(),
            i < max,
            start + i <= src@.len(),
            mult == pow128(i as nat),
            acc < pow128(i as nat),
            var_parse(whole, max as nat, cap as nat) == var_resume(
                acc as nat,
                i as nat,
                var_parse(src@.skip(start + i), (max - i) as nat, cap as nat),
            ),
        decreases max - i,
    {
        let ghost here = src@.skip(start + i);
        let ghost left = (max - i) as nat;
        if start + i >= len {
            return Err(Error::TruncatedInput);
        }
        let byte: u8 = src[start + i];
        proof {
            assert(here[0] == byte);
            lemma_pow128_values();
            lemma_pow128_monotonic(i as nat, (max - 1) as nat);
            lemma_pow128_monotonic((max - 1) as nat, 9);
        }
        if i == max - 1 && byte >= cap {
            return Err(Error::MalformedVarInt);
        }
        if byte < 128 {
            proof {
                let p = pow128(i as nat);
                let top = pow128((max - 1) as nat);
                if i == max - 1 {
                    assert(acc + p * byte < top * cap) by (nonlinear_arith)
                        requires
                            acc < p,
                            p == top,
                            byte < cap,
                    {}
                } else {
                    lemma_pow128_monotonic((i + 1) as nat, (max - 1) as nat);
                    assert(pow128((i + 1) as nat) == 128 * p);
                    assert(acc + p * byte < 128 * p) by (nonlinear_arith)
                        requires
                            acc < p,
                            byte < 128,
                    {}
                }
                assert(p * byte <= acc + p * byte) by (nonlinear_arith)
                    requires
                        acc >= 0,
                {}
            }
            return Ok((acc + mult * (byte as u64), i + 1));
        }
        proof {
            let p = pow128(i as nat);
            let d = (byte - 128) as nat;
            lemma_pow128_monotonic((i + 1) as nat, (max - 1) as nat);
            assert(pow128((i + 1) as nat) == 128 * p);
            assert(acc + p * d < 128 * p && p * d <= acc + p * d) by (nonlinear_arith)
                requires
                    acc < p,
                    d < 128,
                    acc >= 0,
            {}
            assert(here.skip(1) =~= src@.skip(start + i + 1));
            let tail = var_parse(src@.skip(start + i + 1), (left - 1) as nat, cap as nat);
            if tail is Ok {
                let v = tail->Ok_0.0;
                assert(acc + p * (d + 128 * v) == (acc + p * d) + (128 * p) * v)
                    by (nonlinear_arith);
            }
        }
        acc = acc + mult * ((byte - 128) as u64);
        mult = mult * 128;
        i = i + 1;
    }
}

/// Appends the wire form of a 32-bit variable-length integer to `out`.
pub fn write_varint(v: i32, out: &mut Vec<u8>)
    ensures
        final(out)@ == old(out)@ + varint_bytes(v),
{
    let bits: u64 = if v < 0 {
        (v as i64 + 0x1_0000_0000) as u64
    } else {
        v as u64
    };
    write_var(bits, out);
}

/// The tag under which the index of a union's alternative travels: the
/// signed reading of its 32-bit pattern, so that every index has one.
pub open spec fn tag_of(k: u32) -> i32 {
    i32_of_bits(k as nat)
}

/// The tag of an index reads back as the index.
pub proof fn lemma_tag_roundtrip(k: u32)
    ensures
        bits_of_i32(tag_of(k)) == k,
{
}

/// Appends the tag of an index to `out`.
pub fn write_tag(k: u32, out: &mut Vec<u8>)
    ensures
        final(out)@ == old(out)@ + varint_bytes(tag_of(k)),
{
    let tag: i32 = if k >= 0x8000_0000 {
        (k as i64 - 0x1_0000_0000) as i32
    } else {
        k as i32
    };
    write_varint(tag, out);
}

/// Appends the wire form of a 64-bit variable-length integer to `out`.
pub fn write_varlong(v: i64, out: &mut Vec<u8>)
    ensures
        final(out)@ == old(out)@ + varlong_bytes(v),
{
    let bits: u64 = if v < 0 {
        (v as i128 + 0x1_0000_0000_0000_0000) as u64
    } else {
        v as u64
    };
    write_var(bits, out);
}

/// Reads a 32-bit variable-length integer from `src`, starting at `start`.
/// Returns the value and the number of bytes it took.
pub fn parse_varint(src: &[u8], start: usize) -> (r: Result<(i32, usize), Error>)
    requires
        start <= src@.len(),
    ensures
        match varint_parse(src@.skip(start as int)) {
            Ok((v, n)) => r == Ok::<(i32, usize), Error>((v, n as usize)) && 1 <= n <= 5
                && start + n <= src@.len(),
            Err(e) => r == Err::<(i32, usize), Error>(e),
        },
{
    proof {
        lemma_pow128_values();
        if var_parse(src@.skip(start as int), 5, 16) is Ok {
            lemma_var_parse_bounds(src@.skip(start as int), 5, 16);
        }
    }
    match read_var(src, start, 5, 16) {
        Ok((bits, n)) => {
            let v: i32 = if bits >= 0x8000_0000 {
                (bits as i64 - 0x1_0000_0000) as i32
            } else {
                bits as i32
            };
            Ok((v, n))
        },
        Err(e) => Err(e),
    }
}

/// Reads a 64-bit variable-length integer from `src`, starting at `start`.
/// Returns the value and the number of bytes it took.
pub fn parse_varlong(src: &[u8], start: usize) -> (r: Result<(i64, usize), Error>)
    requires
        start <= src@.len(),
    ensures
        match varlong_parse(src@.skip(start as int)) {
            Ok((v, n)) => r == Ok::<(i64, usize), Error>((v, n as usize)) && 1 <= n <= 10
                && start + n <= src@.len(),
            Err(e) => r == Err::<(i64, usize), Error>(e),
        },
{
    proof {
        lemma_pow128_values();
        if var_parse(src@.skip(start as int), 10, 2) is Ok {
            lemma_var_parse_bounds(src@.skip(start as int), 10, 2);
        }
    }
    match read_var(src, start, 10, 2) {
        Ok((bits, n)) => {
            let v: i64 = if bits >= 0x8000_0000_0000_0000 {
                (bits as i128 - 0x1_0000_0000_0000_0000) as i64
            } else {
                bits as i64
            };
            Ok((v, n))
        },
        Err(e) => Err(e),
    }
}

} // verus!
