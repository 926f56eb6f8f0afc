//! Fixed-width numbers, most significant byte first.

use vstd::prelude::*;
use crate::error::Error;
use crate::parse::Parsed;

verus! {

/// `256` to the power `k`.
pub open spec fn pow256(k: nat) -> nat
    decreases k,
{
    if k == 0 {
        1
    } else {
        256 * pow256((k - 1) as nat)
    }
}

/// The low `n` bytes of `v`, most significant first.
pub open spec fn be_bytes(v: nat, n: nat) -> Seq<u8>
    decreases n,
{
    if n == 0 {
        Seq::empty()
    } else {
        be_bytes(v / 256, (n - 1) as nat).push((v % 256) as u8)
    }
}

/// The number that the bytes of `b` spell, most significant first.
pub open spec fn be_value(b: Seq<u8>) -> nat
    decreases b.len(),
{
    if b.len() == 0 {
        0
    } else {
        be_value(b.drop_last()) * 256 + b.last() as nat
    }
}

/// The `n`-byte two's complement pattern of `v`.
pub open spec fn unsigned_of(v: int, n: nat) -> nat {
    if v < 0 {
        (v + pow256(n)) as nat
    } else {
        v as nat
    }
}

/// The signed value of an `n`-byte two's complement pattern.
pub open spec fn signed_of(u: nat, n: nat) -> int {
    if 2 * u >= pow256(n) {
        u - pow256(n)
    } else {
        u as int
    }
}

/// Reads an `n`-byte big-endian number from the front of `b`.
pub open spec fn fixed_parse(b: Seq<u8>, n: nat) -> Parsed<nat> {
    if b.len() < n {
        Err(Error::TruncatedInput)
    } else {
        Ok((be_value(b.take(n as int)), n))
    }
}

/// `pow256` on the widths in use.
pub proof fn lemma_pow256_values()
    ensures
        pow256(0) == 1,
        pow256(1) == 0x100,
        pow256(2) == 0x1_0000,
        pow256(4) == 0x1_0000_0000,
        pow256(8) == 0x1_0000_0000_0000_0000,
        pow256(16) == 0x1_0000_0000_0000_0000_0000_0000_0000_0000,
{
    reveal_with_fuel(pow256, 17);
}

/// `pow256` grows with its exponent.
pub proof fn lemma_pow256_monotonic(i: nat, j: nat)
    requires
        i <= j,
    ensures
        1 <= pow256(i) <= pow256(j),
    decreases j,
{
    if j == 0 {
    } else if i == j {
        lemma_pow256_monotonic(0, (j - 1) as nat);
    } else {
        lemma_pow256_monotonic(i, (j - 1) as nat);
    }
}

/// `be_bytes(v, n)` has `n` bytes.
pub proof fn lemma_be_bytes_len(v: nat, n: nat)
    ensures
        be_bytes(v, n).len() == n,
    decreases n,
{
    if n > 0 {
        lemma_be_bytes_len(v / 256, (n - 1) as nat);
    }
}

/// The bytes of `b` spell a number below `256^len`.
pub proof fn lemma_be_value_bound(b: Seq<u8>)
    ensures
        be_value(b) < pow256(b.len()),
    decreases b.len(),
{
    if b.len() > 0 {
        lemma_be_value_bound(b.drop_last());
    }
}

/// A number below `256^n` is what its `n` bytes spell.
pub proof fn lemma_be_roundtrip(v: nat, n: nat)
    requires
        v < pow256(n),
    ensures
        be_value(be_bytes(v, n)) == v,
    decreases n,
{
    if n > 0 {
        let head = be_bytes(v / 256, (n - 1) as nat);
        assert(be_bytes(v, n).drop_last() =~= head);
        lemma_be_roundtrip(v / 256, (n - 1) as nat);
    }
}

/// Bytes are the big-endian form of the number they spell.
pub proof fn lemma_be_bytes_of_value(b: Seq<u8>)
    ensures
        be_bytes(be_value(b), b.len()) == b,
    decreases b.len(),
{
    if b.len() > 0 {
        lemma_be_bytes_of_value(b.drop_last());
        let v = be_value(b);
        assert(v / 256 == be_value(b.drop_last()));
        assert(v % 256 == b.last());
        assert(be_bytes(v, b.len()) =~= b);
    } else {
        assert(be_bytes(be_value(b), 0) =~= b);
    }
}

/// A signed value within the range of `n` bytes is the signed reading of its
/// own pattern, and the pattern is below `256^n`.
pub proof fn lemma_signed_roundtrip(v: int, n: nat)
    requires
        -pow256(n) <= 2 * v < pow256(n),
    ensures
        unsigned_of(v, n) < pow256(n),
        signed_of(unsigned_of(v, n), n) == v,
{
}

/// Parsing the `n` big-endian bytes of a number below `256^n` gives the number
/// back and takes exactly those bytes, whatever follows them.
pub proof fn lemma_fixed_roundtrip(v: nat, n: nat, rest: Seq<u8>)
    requires
        v < pow256(n),
    ensures
        fixed_parse(be_bytes(v, n) + rest, n) == Ok::<(nat, nat), Error>((v, n)),
{
    lemma_be_bytes_len(v, n);
    lemma_be_roundtrip(v, n);
    assert((be_bytes(v, n) + rest).take(n as int) =~= be_bytes(v, n));
}

/// Appends the low `n` bytes of `v` to `out`, most significant first.
pub fn push_be(out: &mut Vec<u8>, v: u128, n: usize)
    requires
        n <= 16,
    ensures
        final(out)@ == old(out)@ + be_bytes(v as nat, n as nat),
    decreases n,
{
    if n > 0 {
        push_be(out, v / 256, n - 1);
        out.push((v % 256) as u8);
        proof {
            assert(out@ =~= old(out)@ + be_bytes(v as nat, n as nat));
        }
    } else {
        proof {
            assert(out@ =~= old(out)@ + be_bytes(v as nat, n as nat));
        }
    }
}

/// Reads an `n`-byte big-endian number from `src`, starting at `start`.
pub fn take_be(src: &[u8], start: usize, n: usize) -> (r: Result<u128, Error>)
    requires
        start <= src@.len(),
        n <= 16,
    ensures
        match fixed_parse(src@.skip(start as int), n as nat) {
            Ok((v, k)) => r == Ok::<u128, Error>(v as u128) && v < pow256(n as nat) && start + n
                <= src@.len(),
            Err(e) => r == Err::<u128, Error>(e),
        },
{
    let len: usize = src.len();
    if len - start < n {
        return Err(Error::TruncatedInput);
    }
    let ghost body = src@.skip(start as int).take(n as int);
    let mut acc: u128 = 0;
    let mut i: usize = 0;
    while i < n
        invariant
            i <= n <= 16,
            start + n <= src@.len(),
            len == src@.len(),
            body == src@.skip(start as int).take(n as int),
            acc == be_value(body.take(i as int)),
        decreases n - i,
    {
        let byte: u8 = src[start + i];
        proof {
            let next = body.take(i + 1);
            assert(next.drop_last() =~= body.take(i as int));
            assert(next.last() == byte);
            lemma_be_value_bound(next);
            lemma_pow256_monotonic((i + 1) as nat, 16);
            lemma_pow256_values();
        }
        acc = acc * 256 + byte as u128;
        i = i + 1;
    }
    proof {
        assert(body.take(n as int) =~= body);
        lemma_be_value_bound(body);
    }
    Ok(acc)
}

} // verus!
