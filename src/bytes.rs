//! Big-endian reading and writing of words in byte sequences.
use vstd::prelude::*;
use crate::word::{U256, half_base};

verus! {

/// 256^n.
pub open spec fn pow256(n: nat) -> nat
    decreases n,
{
    if n == 0 {
        1
    } else {
        256 * pow256((n - 1) as nat)
    }
}

/// The number that the bytes spell, most significant first.
pub open spec fn be_value(s: Seq<u8>) -> nat
    decreases s.len(),
{
    if s.len() == 0 {
        0
    } else {
        be_value(s.drop_last()) * 256 + s.last() as nat
    }
}

pub proof fn lemma_pow256_positive(n: nat)
    ensures
        pow256(n) >= 1,
    decreases n,
{
    if n > 0 {
        lemma_pow256_positive((n - 1) as nat);
    }
}

pub proof fn lemma_pow256_16()
    ensures
        pow256(16) == half_base(),
{
    reveal_with_fuel(pow256, 17);
}

pub proof fn lemma_be_value_bound(s: Seq<u8>)
    ensures
        be_value(s) < pow256(s.len()),
    decreases s.len(),
{
    if s.len() > 0 {
        lemma_be_value_bound(s.drop_last());
        let a = be_value(s.drop_last());
        let p = pow256((s.len() - 1) as nat);
        assert(a * 256 + (s.last() as nat) < p * 256) by (nonlinear_arith)
            requires
                a < p,
                s.last() < 256,
        ;
    }
}

/// The value of a concatenation.
pub proof fn lemma_be_value_append(a: Seq<u8>, b: Seq<u8>)
    ensures
        be_value(a + b) == be_value(a) * pow256(b.len()) + be_value(b),
    decreases b.len(),
{
    if b.len() == 0 {
        assert(a + b =~= a);
        assert(be_value(b) == 0);
        assert(pow256(0) == 1);
    } else {
        let ab = a + b;
        assert(ab.drop_last() =~= a + b.drop_last());
        assert(ab.last() == b.last());
        lemma_be_value_append(a, b.drop_last());
        let x = be_value(a);
        let p = pow256((b.len() - 1) as nat);
        let y = be_value(b.drop_last());
        assert(be_value(ab) == be_value(ab.drop_last()) * 256 + ab.last() as nat);
        assert(be_value(b) == y * 256 + b.last() as nat);
        assert(pow256(b.len()) == 256 * p);
        assert((x * p + y) * 256 == x * (256 * p) + y * 256) by (nonlinear_arith);
    }
}

/// The value of a byte prepended to a sequence.
pub proof fn lemma_be_value_prepend(b: u8, s: Seq<u8>)
    ensures
        be_value(seq![b] + s) == b as nat * pow256(s.len()) + be_value(s),
{
    lemma_be_value_append(seq![b], s);
    assert(seq![b].drop_last() =~= Seq::<u8>::empty());
    assert(be_value(Seq::<u8>::empty()) == 0);
    assert(be_value(seq![b]) == be_value(seq![b].drop_last()) * 256 + b as nat);
}

/// Two sequences of one length that spell one number are equal.
pub proof fn lemma_be_value_injective(a: Seq<u8>, b: Seq<u8>)
    requires
        a.len() == b.len(),
        be_value(a) == be_value(b),
    ensures
        a == b,
    decreases a.len(),
{
    if a.len() > 0 {
        let x = be_value(a.drop_last());
        let y = be_value(b.drop_last());
        let u = a.last() as nat;
        let v = b.last() as nat;
        assert(x * 256 + u == y * 256 + v);
        assert(x == y && u == v) by (nonlinear_arith)
            requires
                x * 256 + u == y * 256 + v,
                u < 256,
                v < 256,
        ;
        lemma_be_value_injective(a.drop_last(), b.drop_last());
        assert(a =~= a.drop_last().push(a.last()));
        assert(b =~= b.drop_last().push(b.last()));
    } else {
        assert(a =~= b);
    }
}

/// The 32 bytes of a word, most significant first.
pub open spec fn word_be_bytes(w: U256) -> Seq<u8> {
    choose|b: Seq<u8>| b.len() == 32 && be_value(b) == w@
}

/// `data` written over `m` at `offset`.
pub open spec fn overwrite(m: Seq<u8>, offset: nat, data: Seq<u8>) -> Seq<u8> {
    Seq::new(
        m.len(),
        |i: int|
            if offset <= i < offset + data.len() {
                data[i - offset]
            } else {
                m[i]
            },
    )
}

/// Copies `len` bytes of `mem` from `offset`.
pub fn copy_out(mem: &Vec<u8>, offset: usize, len: usize) -> (r: Vec<u8>)
    requires
        offset + len <= mem.len(),
    ensures
        r@ == mem@.subrange(offset as int, offset + len),
{
    let mut out: Vec<u8> = Vec::new();
    let mut k: usize = 0;
    while k < len
        invariant
            k <= len,
            offset + len <= mem.len(),
            out@ == mem@.subrange(offset as int, offset + k),
        decreases len - k,
    {
        out.push(mem[offset + k]);
        k = k + 1;
        proof {
            assert(out@ =~= mem@.subrange(offset as int, offset + k));
        }
    }
    out
}

/// Writes `data` over `mem` at `offset`.
pub fn copy_in(mem: &mut Vec<u8>, offset: usize, data: &Vec<u8>)
    requires
        offset + data.len() <= old(mem).len(),
    ensures
        final(mem)@ == overwrite(old(mem)@, offset as nat, data@),
{
    let mut k: usize = 0;
    while k < data.len()
        invariant
            k <= data.len(),
            offset + data.len() <= mem.len(),
            mem@ == overwrite(old(mem)@, offset as nat, data@.subrange(0, k as int)),
        decreases data.len() - k,
    {
        mem.set(offset + k, data[k]);
        k = k + 1;
        proof {
            assert(mem@ =~= overwrite(old(mem)@, offset as nat, data@.subrange(0, k as int)));
        }
    }
    proof {
        assert(data@.subrange(0, data.len() as int) =~= data@);
    }
}

/// Reads 16 bytes from `mem` at `start`, most significant first.
pub fn read_u128(mem: &Vec<u8>, start: usize) -> (r: u128)
    requires
        start + 16 <= mem.len(),
    ensures
        r as nat == be_value(mem@.subrange(start as int, start + 16)),
{
    let mut acc: u128 = 0;
    let mut k: usize = 0;
    while k < 16
        invariant
            k <= 16,
            start + 16 <= mem.len(),
            acc as nat == be_value(mem@.subrange(start as int, start + k)),
        decreases 16 - k,
    {
        let ghost prev = mem@.subrange(start as int, start + k);
        let ghost next = mem@.subrange(start as int, start + k + 1);
        proof {
            assert(next.drop_last() =~= prev);
            lemma_be_value_bound(prev);
            assert(pow256(k as nat) <= pow256(15)) by {
                lemma_pow_monotone(k as nat, 15);
            }
            reveal_with_fuel(pow256, 16);
            assert(acc as nat * 256 + 255 <= u128::MAX) by (nonlinear_arith)
                requires
                    acc as nat <= pow256(15) - 1,
                    pow256(15) == 0x1000000000000000000000000000000nat,
            ;
        }
        acc = acc * 256 + mem[start + k] as u128;
        k = k + 1;
    }
    acc
}

pub proof fn lemma_pow_monotone(a: nat, b: nat)
    requires
        a <= b,
    ensures
        pow256(a) <= pow256(b),
    decreases b,
{
    if a < b {
        lemma_pow_monotone(a, (b - 1) as nat);
        lemma_pow256_positive((b - 1) as nat);
    }
}

/// The 16 bytes of `x`, most significant first.
pub fn u128_bytes(x: u128) -> (r: Vec<u8>)
    ensures
        r@.len() == 16,
        be_value(r@) == x as nat,
{
    let mut out: Vec<u8> = vec![0u8; 16];
    let mut rest: u128 = x;
    let mut k: usize = 0;
    proof {
        assert(out@.subrange(16, 16) =~= Seq::<u8>::empty());
        assert(be_value(Seq::<u8>::empty()) == 0);
        assert(pow256(0) == 1);
    }
    while k < 16
        invariant
            k <= 16,
            out@.len() == 16,
            x as nat == rest as nat * pow256(k as nat) + be_value(out@.subrange(16 - k, 16)),
        decreases 16 - k,
    {
        let b = (rest % 256) as u8;
        let ghost suf = out@.subrange(16 - k, 16);
        out.set(15 - k, b);
        proof {
            assert(out@.subrange(16 - k, 16) =~= suf);
            assert(out@.subrange(15 - k, 16) =~= seq![b] + suf);
            lemma_be_value_prepend(b, suf);
            let q = rest as nat / 256;
            assert(rest as nat == q * 256 + b as nat);
            let p = pow256(k as nat);
            assert(rest as nat * p == q * (256 * p) + b as nat * p) by (nonlinear_arith)
                requires
                    rest as nat == q * 256 + b as nat,
            ;
        }
        rest = rest / 256;
        k = k + 1;
    }
    proof {
        assert(out@.subrange(0, 16) =~= out@);
        lemma_be_value_bound(out@);
        lemma_pow256_16();
        if rest > 0 {
            assert(rest as nat * pow256(16) >= pow256(16)) by (nonlinear_arith)
                requires
                    rest >= 1,
            ;
        }
    }
    out
}

/// The word spelt by 32 bytes of `mem` at `start`.
pub fn read_word(mem: &Vec<u8>, start: usize) -> (r: U256)
    requires
        start + 32 <= mem.len(),
    ensures
        r@ == be_value(mem@.subrange(start as int, start + 32)),
{
    let hi = read_u128(mem, start);
    let lo = read_u128(mem, start + 16);
    proof {
        let s = mem@.subrange(start as int, start + 32);
        assert(s =~= mem@.subrange(start as int, start + 16) + mem@.subrange(
            start + 16,
            start + 32,
        ));
        lemma_be_value_append(
            mem@.subrange(start as int, start + 16),
            mem@.subrange(start + 16, start + 32),
        );
        lemma_pow256_16();
    }
    U256 { hi, lo }
}

/// The 32 bytes of a word, most significant first.
pub fn word_bytes(w: &U256) -> (r: Vec<u8>)
    ensures
        r@ == word_be_bytes(*w),
        r@.len() == 32,
{
    let mut h = u128_bytes(w.hi);
    let l = u128_bytes(w.lo);
    let ghost hs = h@;
    let mut k: usize = 0;
    while k < 16
        invariant
            k <= 16,
            l@.len() == 16,
            h@ == hs + l@.subrange(0, k as int),
        decreases 16 - k,
    {
        h.push(l[k]);
        k = k + 1;
        proof {
            assert(h@ =~= hs + l@.subrange(0, k as int));
        }
    }
    proof {
        assert(l@.subrange(0, 16) =~= l@);
        lemma_be_value_append(hs, l@);
        lemma_pow256_16();
        let b = word_be_bytes(*w);
        assert(h@.len() == 32 && be_value(h@) == w@);
        lemma_be_value_injective(h@, b);
    }
    h
}

} // verus!
