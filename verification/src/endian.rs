//! Big-endian numbers in byte sequences.

use vstd::arithmetic::div_mod::{lemma_breakdown, lemma_div_denominator};
use vstd::prelude::*;

verus! {

/// 256 to the power `n`.
pub open spec fn pow256(n: nat) -> nat
    decreases n,
{
    if n == 0 {
        1
    } else {
        256 * pow256((n - 1) as nat)
    }
}

/// The number that a byte sequence denotes when read most significant byte first.
pub open spec fn be_value(s: Seq<u8>) -> nat
    decreases s.len(),
{
    if s.len() == 0 {
        0
    } else {
        be_value(s.drop_last()) * 256 + s.last() as nat
    }
}

/// The `n` least significant bytes of `v`, most significant byte first.
pub open spec fn be_bytes(v: nat, n: nat) -> Seq<u8>
    decreases n,
{
    if n == 0 {
        Seq::empty()
    } else {
        be_bytes(v / 256, (n - 1) as nat).push((v % 256) as u8)
    }
}

pub proof fn lemma_pow256_values()
    ensures
        pow256(0) == 1,
        pow256(1) == 0x100,
        pow256(2) == 0x1_0000,
        pow256(3) == 0x100_0000,
        pow256(4) == 0x1_0000_0000,
        pow256(5) == 0x100_0000_0000,
        pow256(6) == 0x1_0000_0000_0000,
        pow256(7) == 0x100_0000_0000_0000,
        pow256(8) == 0x1_0000_0000_0000_0000,
{
    reveal_with_fuel(pow256, 10);
}

pub proof fn lemma_pow256_positive(n: nat)
    ensures
        pow256(n) > 0,
    decreases n,
{
    if n > 0 {
        lemma_pow256_positive((n - 1) as nat);
    }
}

pub proof fn lemma_be_bytes_len(v: nat, n: nat)
    ensures
        be_bytes(v, n).len() == n,
    decreases n,
{
    if n > 0 {
        lemma_be_bytes_len(v / 256, (n - 1) as nat);
    }
}

/// A sequence of `n` bytes denotes a number below 256 to the `n`.
pub proof fn lemma_be_value_bound(s: Seq<u8>)
    ensures
        be_value(s) < pow256(s.len()),
    decreases s.len(),
{
    if s.len() > 0 {
        lemma_be_value_bound(s.drop_last());
    }
}

/// Reading back the `n` low bytes of `v` gives `v` modulo 256 to the `n`.
pub proof fn lemma_be_value_of_bytes(v: nat, n: nat)
    ensures
        be_value(be_bytes(v, n)) == v % pow256(n),
    decreases n,
{
    lemma_pow256_positive(n);
    if n > 0 {
        let m = (n - 1) as nat;
        let inner = be_bytes(v / 256, m);
        lemma_be_value_of_bytes(v / 256, m);
        lemma_pow256_positive(m);
        assert(be_bytes(v, n).drop_last() =~= inner);
        assert(be_bytes(v, n).last() == (v % 256) as u8);
        let p = pow256(m);
        let q = v / 256;
        assert(be_value(be_bytes(v, n)) == (q % p) * 256 + v % 256);
        lemma_breakdown(v as int, 256, p as int);
    }
}

/// Writing out the number that `s` denotes, on as many bytes, gives `s` back.
pub proof fn lemma_be_bytes_of_value(s: Seq<u8>)
    ensures
        be_bytes(be_value(s), s.len()) == s,
    decreases s.len(),
{
    if s.len() > 0 {
        let head = s.drop_last();
        lemma_be_bytes_of_value(head);
        let v = be_value(s);
        assert(v / 256 == be_value(head) && v % 256 == s.last() as nat) by (nonlinear_arith)
            requires
                v == be_value(head) * 256 + s.last() as nat,
                (s.last() as nat) < 256,
        ;
        assert(be_bytes(v, s.len()) =~= s);
    }
}

/// Reads `len` bytes of `src` from `start` as one big-endian number.
pub fn read_be(src: &[u8], start: usize, len: usize) -> (r: u64)
    requires
        len <= 8,
        start + len <= src.len(),
    ensures
        r as nat == be_value(src@.subrange(start as int, start + len)),
{
    let mut acc: u64 = 0;
    let mut i: usize = 0;
    proof {
        lemma_pow256_values();
    }
    while i < len
        invariant
            i <= len <= 8,
            start + len <= src.len(),
            acc as nat == be_value(src@.subrange(start as int, start + i)),
            acc < pow256(i as nat),
        decreases len - i,
    {
        let b = src[start + i];
        proof {
            let prev = src@.subrange(start as int, start + i);
            let next = src@.subrange(start as int, start + i + 1);
            assert(next.drop_last() =~= prev);
            assert(next.last() == b);
            lemma_pow256_values();
            lemma_pow256_step_bound(i as nat);
        }
        acc = acc * 256 + b as u64;
        i = i + 1;
    }
    acc
}

proof fn lemma_pow256_step_bound(i: nat)
    requires
        i < 8,
    ensures
        pow256(i) <= 0x100_0000_0000_0000,
        pow256(i + 1) == 256 * pow256(i),
{
    lemma_pow256_values();
    reveal_with_fuel(pow256, 10);
}

/// Appends the `len` least significant bytes of `v`, most significant byte first.
pub fn push_be(out: &mut Vec<u8>, v: u64, len: usize)
    requires
        len <= 8,
    ensures
        final(out)@ == old(out)@ + be_bytes(v as nat, len as nat),
{
    let mut digits: Vec<u8> = Vec::new();
    let mut rest: u64 = v;
    let mut k: usize = 0;
    proof {
        lemma_pow256_values();
    }
    // `digits` holds the low bytes, least significant first.
    while k < len
        invariant
            k <= len <= 8,
            digits@.len() == k,
            rest as nat == v as nat / pow256(k as nat),
            be_bytes(v as nat, k as nat) =~= digits@.reverse(),
        decreases len - k,
    {
        proof {
            lemma_be_bytes_prepend(v as nat, k as nat);
            lemma_pow256_positive(k as nat);
            let p = pow256(k as nat);
            lemma_div_denominator(v as int, p as int, 256);
            assert(p * 256 == 256 * p) by (nonlinear_arith);
        }
        digits.push((rest % 256) as u8);
        rest = rest / 256;
        k = k + 1;
        proof {
            let d = digits@;
            assert(d.reverse() =~= seq![d.last()] + d.drop_last().reverse());
        }
    }
    let ghost start = out@;
    let mut j: usize = len;
    while j > 0
        invariant
            j <= len,
            digits@.len() == len,
            out@ =~= start + digits@.reverse().subrange(0, len - j),
        decreases j,
    {
        j = j - 1;
        out.push(digits[j]);
    }
    proof {
        assert(digits@.reverse().subrange(0, len as int) =~= digits@.reverse());
    }
}

/// The `len` least significant bytes of `v`, most significant byte first.
pub fn to_be_vec(v: u64, len: usize) -> (bytes: Vec<u8>)
    requires
        len <= 8,
    ensures
        bytes@ == be_bytes(v as nat, len as nat),
{
    let mut bytes: Vec<u8> = Vec::new();
    push_be(&mut bytes, v, len);
    assert(Seq::<u8>::empty() + be_bytes(v as nat, len as nat) =~= be_bytes(v as nat, len as nat));
    bytes
}

/// The low `n + 1` bytes of `v` are byte `n` of `v` followed by its low `n` bytes.
pub proof fn lemma_be_bytes_prepend(v: nat, n: nat)
    ensures
        be_bytes(v, n + 1) == seq![((v / pow256(n)) % 256) as u8] + be_bytes(v, n),
    decreases n,
{
    if n == 0 {
        lemma_pow256_values();
        assert(be_bytes(v / 256, 0) =~= Seq::<u8>::empty());
        assert(be_bytes(v, 1) =~= seq![(v % 256) as u8]);
        assert(be_bytes(v, 1) =~= seq![((v / pow256(0)) % 256) as u8] + be_bytes(v, 0));
    } else {
        let m = (n - 1) as nat;
        lemma_be_bytes_prepend(v / 256, m);
        lemma_pow256_positive(m);
        let p = pow256(m);
        lemma_div_denominator(v as int, 256, p as int);
        assert(be_bytes(v, n + 1) =~= be_bytes(v / 256, n).push((v % 256) as u8));
        assert(be_bytes(v, n) =~= be_bytes(v / 256, m).push((v % 256) as u8));
        assert(be_bytes(v, n + 1) =~= seq![((v / pow256(n)) % 256) as u8] + be_bytes(v, n));
    }
}

/// The low `n` bytes of `v` are the last `n` of its low `m` bytes, for `n <= m`.
pub proof fn lemma_be_bytes_trailing(v: nat, n: nat, m: nat)
    requires
        n <= m,
    ensures
        be_bytes(v, m).len() == m,
        be_bytes(v, m).skip(m - n) == be_bytes(v, n),
    decreases m - n,
{
    lemma_be_bytes_len(v, m);
    if n == m {
        assert(be_bytes(v, m).skip(0) =~= be_bytes(v, m));
    } else {
        lemma_be_bytes_trailing(v, n + 1, m);
        lemma_be_bytes_prepend(v, n);
        lemma_be_bytes_len(v, n);
        let wide = be_bytes(v, m);
        assert(wide.skip(m - n) =~= wide.skip(m - (n + 1)).skip(1));
        assert((seq![((v / pow256(n)) % 256) as u8] + be_bytes(v, n)).skip(1) =~= be_bytes(v, n));
    }
}

/// The low `n` bytes of a number are those of its remainder modulo 256 to the `n`.
pub proof fn lemma_be_bytes_of_remainder(v: nat, n: nat)
    ensures
        be_bytes(v % pow256(n), n) == be_bytes(v, n),
{
    lemma_pow256_positive(n);
    let r = v % pow256(n);
    lemma_be_value_of_bytes(v, n);
    lemma_be_bytes_len(v, n);
    lemma_be_bytes_of_value(be_bytes(v, n));
}

} // verus!
