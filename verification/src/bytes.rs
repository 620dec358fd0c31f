//! Byte sequences: integers in little- and big-endian order, fixed-size
//! arrays cut out of longer buffers.

use vstd::arithmetic::div_mod::lemma_div_denominator;
use vstd::arithmetic::power::{lemma_pow_positive, pow};
use vstd::prelude::*;

verus! {

/// The `width` low-order bytes of `v`, least significant first.
pub open spec fn le_bytes(v: nat, width: nat) -> Seq<u8>
    decreases width,
{
    if width == 0 {
        Seq::empty()
    } else {
        seq![(v % 256) as u8] + le_bytes(v / 256, (width - 1) as nat)
    }
}

/// The number that `s` spells, least significant byte first.
pub open spec fn le_value(s: Seq<u8>) -> nat
    decreases s.len(),
{
    if s.len() == 0 {
        0
    } else {
        s[0] as nat + 256 * le_value(s.drop_first())
    }
}

/// The `width` low-order bytes of `v`, most significant first.
pub open spec fn be_bytes(v: nat, width: nat) -> Seq<u8>
    decreases width,
{
    if width == 0 {
        Seq::empty()
    } else {
        be_bytes(v / 256, (width - 1) as nat).push((v % 256) as u8)
    }
}

/// 256 to the power `n`: how many values `n` bytes can take.
pub open spec fn pow256(n: nat) -> nat
    decreases n,
{
    if n == 0 {
        1
    } else {
        256 * pow256((n - 1) as nat)
    }
}

pub proof fn lemma_le_bytes_len(v: nat, width: nat)
    ensures
        le_bytes(v, width).len() == width,
    decreases width,
{
    if width > 0 {
        lemma_le_bytes_len(v / 256, (width - 1) as nat);
    }
}

pub proof fn lemma_be_bytes_len(v: nat, width: nat)
    ensures
        be_bytes(v, width).len() == width,
    decreases width,
{
    if width > 0 {
        lemma_be_bytes_len(v / 256, (width - 1) as nat);
    }
}

pub proof fn lemma_le_value_bound(s: Seq<u8>)
    ensures
        le_value(s) < pow256(s.len()),
    decreases s.len(),
{
    if s.len() > 0 {
        lemma_le_value_bound(s.drop_first());
    }
}

pub proof fn lemma_pow256_values()
    ensures
        pow256(1) == 0x100,
        pow256(2) == 0x1_0000,
        pow256(4) == 0x1_0000_0000,
        pow256(8) == 0x1_0000_0000_0000_0000,
        pow256(15) == 0x1_0000_0000_0000_0000_0000_0000_0000_00,
        pow256(16) == 0x1_0000_0000_0000_0000_0000_0000_0000_0000,
{
    reveal_with_fuel(pow256, 17);
}

/// Reading back what `le_bytes` wrote gives the number, as long as it fits.
pub proof fn lemma_le_round_trip(v: nat, width: nat)
    requires
        v < pow256(width),
    ensures
        le_value(le_bytes(v, width)) == v,
    decreases width,
{
    if width > 0 {
        lemma_le_bytes_len(v, width);
        assert(v / 256 < pow256((width - 1) as nat));
        lemma_le_round_trip(v / 256, (width - 1) as nat);
        assert(le_bytes(v, width).drop_first() =~= le_bytes(v / 256, (width - 1) as nat));
    }
}

/// The number that two byte strings spell one after the other.
pub proof fn lemma_le_value_concat(a: Seq<u8>, b: Seq<u8>)
    ensures
        le_value(a + b) == le_value(a) + pow256(a.len()) * le_value(b),
    decreases a.len(),
{
    if a.len() == 0 {
        assert(a + b =~= b);
        let v = le_value(b);
        assert(1 * v == v) by (nonlinear_arith);
        assert(pow256(0) == 1);
    } else {
        lemma_le_value_concat(a.drop_first(), b);
        assert((a + b).drop_first() =~= a.drop_first() + b);
        let p = pow256((a.len() - 1) as nat);
        let v = le_value(b);
        let tail = le_value(a.drop_first());
        assert(256 * (tail + p * v) == 256 * tail + (256 * p) * v) by (nonlinear_arith);
        assert((a + b)[0] == a[0]);
        assert(pow256(a.len()) == 256 * p);
    }
}

/// Big-endian bytes determine the number, as long as it fits.
pub proof fn lemma_be_injective(a: nat, b: nat, width: nat)
    requires
        a < pow256(width),
        b < pow256(width),
        be_bytes(a, width) == be_bytes(b, width),
    ensures
        a == b,
    decreases width,
{
    if width > 0 {
        let w = (width - 1) as nat;
        lemma_be_bytes_len(a / 256, w);
        lemma_be_bytes_len(b / 256, w);
        assert(be_bytes(a, width).drop_last() =~= be_bytes(a / 256, w));
        assert(be_bytes(b, width).drop_last() =~= be_bytes(b / 256, w));
        assert(be_bytes(a, width).last() == (a % 256) as u8);
        assert(be_bytes(b, width).last() == (b % 256) as u8);
        lemma_be_injective(a / 256, b / 256, w);
    }
}

/// The `N` bytes of `s` that begin at `at`, as an array.
pub fn array_at<const N: usize>(s: &[u8], at: usize) -> (out: [u8; N])
    requires
        at + N <= s@.len(),
    ensures
        out@ == s@.subrange(at as int, at + N),
{
    let mut out: [u8; N] = [0u8; N];
    let mut i: usize = 0;
    let len: usize = s.len();
    while i < N
        invariant
            0 <= i <= N,
            at + N <= len == s@.len(),
            forall|j: int| 0 <= j < i ==> out@[j] == s@[at + j],
        decreases N - i,
    {
        out[i] = s[at + i];
        i += 1;
    }
    assert(out@ =~= s@.subrange(at as int, at + N));
    out
}

/// Appends `tail` to `buf`.
pub fn extend_bytes(buf: &mut Vec<u8>, tail: &[u8])
    ensures
        final(buf)@ == old(buf)@ + tail@,
{
    let ghost before = buf@;
    let mut i: usize = 0;
    while i < tail.len()
        invariant
            0 <= i <= tail@.len(),
            buf@ == before + tail@.take(i as int),
        decreases tail@.len() - i,
    {
        buf.push(tail[i]);
        assert(tail@.take(i + 1) =~= tail@.take(i as int).push(tail@[i as int]));
        i += 1;
    }
    assert(tail@.take(tail@.len() as int) =~= tail@);
}

/// A copy of `s`.
pub fn copy_bytes(s: &[u8]) -> (out: Vec<u8>)
    ensures
        out@ == s@,
{
    let mut out: Vec<u8> = Vec::new();
    extend_bytes(&mut out, s);
    assert(Seq::<u8>::empty() + s@ =~= s@);
    out
}

/// The number that the bytes of `s` spell, least significant byte first.
pub fn u128_from_le(s: &[u8]) -> (v: u128)
    requires
        s@.len() <= 16,
    ensures
        v as nat == le_value(s@),
{
    let mut v: u128 = 0;
    let mut i: usize = s.len();
    assert(s@.skip(i as int) =~= Seq::<u8>::empty());
    while i > 0
        invariant
            0 <= i <= s@.len() <= 16,
            v as nat == le_value(s@.skip(i as int)),
        decreases i,
    {
        i -= 1;
        let ghost tail = s@.skip(i + 1);
        proof {
            lemma_le_value_bound(tail);
            lemma_pow256_values();
            lemma_pow256_monotonic(tail.len(), 15);
            assert(s@.skip(i as int).drop_first() =~= tail);
            assert(s@.skip(i as int)[0] == s@[i as int]);
        }
        v = s[i] as u128 + 256 * v;
    }
    assert(s@.skip(0) =~= s@);
    v
}

pub proof fn lemma_pow256_monotonic(a: nat, b: nat)
    requires
        a <= b,
    ensures
        pow256(a) <= pow256(b),
    decreases b,
{
    if a < b {
        lemma_pow256_monotonic(a, (b - 1) as nat);
    }
}

/// The four low-order bytes of `v`, least significant first.
pub fn le_array4(v: u64) -> (out: [u8; 4])
    ensures
        out@ == le_bytes(v as nat, 4),
{
    let out: [u8; 4] = [
        (v % 256) as u8,
        ((v / 256) % 256) as u8,
        ((v / 65536) % 256) as u8,
        ((v / 16777216) % 256) as u8,
    ];
    proof {
        reveal_with_fuel(le_bytes, 5);
        assert(v as nat / 256 / 256 == v as nat / 65536);
        assert(v as nat / 256 / 256 / 256 == v as nat / 16777216);
        assert(out@ =~= le_bytes(v as nat, 4));
    }
    out
}

/// An id as the sixteen bytes under which the server files it.
pub fn u128_to_bytes(v: u128) -> (out: [u8; 16])
    ensures
        out@ == be_bytes(v as nat, 16),
{
    let mut out: [u8; 16] = [0u8; 16];
    let mut rest: u128 = v;
    let mut i: usize = 16;
    assert(be_bytes(v as nat, 16) =~= be_bytes(rest as nat, 16) + out@.skip(16));
    while i > 0
        invariant
            0 <= i <= 16,
            be_bytes(v as nat, 16) == be_bytes(rest as nat, i as nat) + out@.skip(i as int),
        decreases i,
    {
        let ghost before = out@;
        i -= 1;
        out[i] = (rest % 256) as u8;
        proof {
            lemma_be_bytes_len(rest as nat / 256, i as nat);
            assert(out@.skip(i as int) =~= seq![(rest % 256) as u8] + before.skip(i + 1));
            assert(be_bytes(rest as nat, (i + 1) as nat) + before.skip(i + 1) =~= be_bytes(
                rest as nat / 256,
                i as nat,
            ) + out@.skip(i as int));
        }
        rest = rest / 256;
    }
    assert(out@.skip(0) =~= out@);
    assert(be_bytes(rest as nat, 0) + out@ =~= out@);
    out
}

/// How many values `n` bytes can take is 256 to the power `n`.
pub proof fn law_pow256(n: nat)
    ensures
        pow256(n) == pow(256, n),
    decreases n,
{
    reveal(pow);
    if n > 0 {
        law_pow256((n - 1) as nat);
    }
}

/// In little-endian order byte `i` is digit `i` of the number to the base 256,
/// counted from the lowest.
pub proof fn law_le_digits(v: nat, width: nat, i: nat)
    requires
        i < width,
    ensures
        le_bytes(v, width).len() == width,
        le_bytes(v, width)[i as int] as int == (v as int / pow(256, i)) % 256,
    decreases width,
{
    reveal(pow);
    lemma_le_bytes_len(v, width);
    if i > 0 {
        let w = (width - 1) as nat;
        law_le_digits(v / 256, w, (i - 1) as nat);
        lemma_pow_positive(256, (i - 1) as nat);
        lemma_div_denominator(v as int, 256, pow(256, (i - 1) as nat));
        assert(le_bytes(v, width)[i as int] == le_bytes(v / 256, w)[i - 1]);
    } else {
        assert(v as int / pow(256, 0) == v as int);
    }
}

/// In big-endian order the digits of the number to the base 256 stand the other
/// way round.
pub proof fn law_be_digits(v: nat, width: nat, i: nat)
    requires
        i < width,
    ensures
        be_bytes(v, width).len() == width,
        be_bytes(v, width)[width - 1 - i] as int == (v as int / pow(256, i)) % 256,
    decreases width,
{
    reveal(pow);
    lemma_be_bytes_len(v, width);
    if i > 0 {
        let w = (width - 1) as nat;
        law_be_digits(v / 256, w, (i - 1) as nat);
        lemma_be_bytes_len(v / 256, w);
        lemma_pow_positive(256, (i - 1) as nat);
        lemma_div_denominator(v as int, 256, pow(256, (i - 1) as nat));
        assert(be_bytes(v, width)[width - 1 - i] == be_bytes(v / 256, w)[w - 1 - (i - 1)]);
    } else {
        lemma_be_bytes_len(v / 256, (width - 1) as nat);
        assert(v as int / pow(256, 0) == v as int);
    }
}

/// A number that was read from bytes is written in the same bytes.
pub proof fn law_le_value_writes_back(s: Seq<u8>)
    ensures
        le_bytes(le_value(s), s.len()) == s,
    decreases s.len(),
{
    if s.len() > 0 {
        law_le_value_writes_back(s.drop_first());
        let v = le_value(s);
        assert(v % 256 == s[0] as nat);
        assert(v / 256 == le_value(s.drop_first()));
        assert(le_bytes(v, s.len()) =~= s);
    } else {
        assert(s =~= Seq::<u8>::empty());
    }
}

} // verus!
