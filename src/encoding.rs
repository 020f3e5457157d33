//! Little-endian encoding of unsigned values into bytes, and back.
use vstd::prelude::*;
use vstd::arithmetic::div_mod::{lemma_div_denominator, lemma_mod_breakdown};

verus! {

/// `256` to the power `n`: the number of values that `n` bytes can hold.
pub open spec fn pow256(n: nat) -> nat
    decreases n,
{
    if n == 0 {
        1
    } else {
        256 * pow256((n - 1) as nat)
    }
}

/// Byte `i` of the little-endian encoding of `v`.
pub open spec fn byte_of(v: nat, i: nat) -> u8 {
    ((v / pow256(i)) % 256) as u8
}

/// The low `n` bytes of `v`, least significant first.
pub open spec fn le_bytes(v: nat, n: nat) -> Seq<u8> {
    Seq::new(n, |i: int| byte_of(v, i as nat))
}

/// The unsigned value of a little-endian byte sequence.
pub open spec fn le_value(s: Seq<u8>) -> nat
    decreases s.len(),
{
    if s.len() == 0 {
        0
    } else {
        s[0] as nat + 256 * le_value(s.drop_first())
    }
}

/// `s` followed by zero bytes up to `width` bytes in all.
pub open spec fn zero_fill(s: Seq<u8>, width: nat) -> Seq<u8> {
    s + Seq::new((width - s.len()) as nat, |i: int| 0u8)
}

pub proof fn lemma_pow256_positive(n: nat)
    ensures
        pow256(n) > 0,
    decreases n,
{
    if n > 0 {
        lemma_pow256_positive((n - 1) as nat);
    }
}

pub proof fn lemma_pow256_monotone(a: nat, b: nat)
    requires
        a <= b,
    ensures
        pow256(a) <= pow256(b),
    decreases b,
{
    if a < b {
        lemma_pow256_monotone(a, (b - 1) as nat);
        lemma_pow256_positive((b - 1) as nat);
    }
}

pub proof fn lemma_pow256_values()
    ensures
        pow256(1) == 0x100,
        pow256(2) == 0x1_0000,
        pow256(4) == 0x1_0000_0000,
        pow256(7) == 0x100_0000_0000_0000,
        pow256(8) == 0x1_0000_0000_0000_0000,
{
    reveal_with_fuel(pow256, 9);
}

/// The value of `s` is below `256` to the power of its length.
pub proof fn lemma_le_value_bound(s: Seq<u8>)
    ensures
        le_value(s) < pow256(s.len()),
    decreases s.len(),
{
    if s.len() > 0 {
        lemma_le_value_bound(s.drop_first());
    }
}

/// Decoding the `n`-byte encoding of `v` gives `v` reduced modulo `256^n`.
pub proof fn lemma_decode_encode(v: nat, n: nat)
    ensures
        le_value(le_bytes(v, n)) == v % pow256(n),
    decreases n,
{
    if n == 0 {
        assert(le_bytes(v, n).len() == 0);
    } else {
        let m = (n - 1) as nat;
        lemma_pow256_positive(m);
        lemma_decode_encode(v / 256, m);
        assert forall|i: int| 0 <= i < m implies #[trigger] le_bytes(v, n).drop_first()[i] == le_bytes(
            v / 256,
            m,
        )[i] by {
            lemma_pow256_positive(i as nat);
            lemma_div_denominator(v as int, 256, pow256(i as nat) as int);
        }
        assert(le_bytes(v, n).drop_first() =~= le_bytes(v / 256, m));
        lemma_mod_breakdown(v as int, 256, pow256(m) as int);
    }
}

/// The `n` low bytes of `value`, least significant first, then zeros up to
/// `width` bytes.
pub fn encode_le(value: u64, n: usize, width: usize) -> (r: Vec<u8>)
    requires
        n <= width,
    ensures
        r@ == zero_fill(le_bytes(value as nat, n as nat), width as nat),
{
    let mut r: Vec<u8> = Vec::new();
    let mut cur: u64 = value;
    let mut i: usize = 0;
    assert(pow256(0) == 1);
    while i < n
        invariant
            i <= n,
            r@ =~= le_bytes(value as nat, i as nat),
            cur as nat == value as nat / pow256(i as nat),
        decreases n - i,
    {
        r.push((cur % 256) as u8);
        proof {
            lemma_pow256_positive(i as nat);
            lemma_div_denominator(value as int, pow256(i as nat) as int, 256);
        }
        cur = cur / 256;
        i = i + 1;
        assert(r@ =~= le_bytes(value as nat, i as nat));
    }
    while i < width
        invariant
            n <= i <= width,
            r@ =~= zero_fill(le_bytes(value as nat, n as nat), i as nat),
        decreases width - i,
    {
        r.push(0u8);
        i = i + 1;
    }
    r
}

/// `bytes` followed by zeros up to `width` bytes in all.
pub fn widen(bytes: Vec<u8>, width: usize) -> (r: Vec<u8>)
    requires
        bytes@.len() <= width,
    ensures
        r@ == zero_fill(bytes@, width as nat),
{
    let mut r = bytes;
    let mut i: usize = r.len();
    while i < width
        invariant
            bytes@.len() <= i <= width,
            r@ =~= zero_fill(bytes@, i as nat),
        decreases width - i,
    {
        r.push(0u8);
        i = i + 1;
    }
    r
}

/// The unsigned value of the first `n` bytes of `bytes`, read little-endian.
pub fn decode_le(bytes: &[u8], n: usize) -> (r: u64)
    requires
        n <= 8,
        n <= bytes@.len(),
    ensures
        r as nat == le_value(bytes@.subrange(0, n as int)),
{
    let mut acc: u64 = 0;
    let mut i: usize = n;
    while i > 0
        invariant
            i <= n,
            n <= 8,
            n <= bytes@.len(),
            acc as nat == le_value(bytes@.subrange(i as int, n as int)),
        decreases i,
    {
        proof {
            lemma_le_value_bound(bytes@.subrange(i as int, n as int));
            lemma_pow256_monotone((n - i) as nat, 7);
            lemma_pow256_values();
        }
        let b = bytes[i - 1];
        acc = acc * 256 + b as u64;
        i = i - 1;
        assert(bytes@.subrange(i as int, n as int).drop_first() =~= bytes@.subrange(
            i + 1,
            n as int,
        ));
    }
    acc
}

} // verus!
