use vstd::arithmetic::div_mod::{lemma_div_denominator, lemma_mod_breakdown};
use vstd::prelude::*;

verus! {

/// `256^n`.
pub open spec fn pow256(n: nat) -> nat
    decreases n,
{
    if n == 0 {
        1
    } else {
        256 * pow256((n - 1) as nat)
    }
}

/// The unsigned integer whose big-endian encoding is `s`.
pub open spec fn be_uint(s: Seq<u8>) -> nat
    decreases s.len(),
{
    if s.len() == 0 {
        0
    } else {
        (be_uint(s.drop_last()) * 256 + s.last()) as nat
    }
}

pub proof fn lemma_be_uint_bound(s: Seq<u8>)
    ensures
        be_uint(s) < pow256(s.len()),
    decreases s.len(),
{
    if s.len() > 0 {
        lemma_be_uint_bound(s.drop_last());
        let v = be_uint(s.drop_last());
        let p = pow256(s.drop_last().len());
        let b = s.last() as int;
        assert(v * 256 + b < p * 256) by (nonlinear_arith)
            requires
                v < p,
                0 <= b < 256,
        ;
    }
}

/// Prepending a byte adds its value scaled past the rest.
pub proof fn lemma_be_uint_prepend(b: u8, s: Seq<u8>)
    ensures
        be_uint(seq![b] + s) == b * pow256(s.len()) + be_uint(s),
    decreases s.len(),
{
    let t = seq![b] + s;
    if s.len() == 0 {
        assert(t.drop_last() =~= Seq::<u8>::empty());
        assert(be_uint(t) == be_uint(t.drop_last()) * 256 + t.last());
        assert(pow256(0) == 1);
    } else {
        assert(t.drop_last() =~= seq![b] + s.drop_last());
        assert(t.last() == s.last());
        assert(pow256(s.len()) == 256 * pow256(s.drop_last().len()));
        lemma_be_uint_prepend(b, s.drop_last());
        let p = pow256(s.drop_last().len());
        assert((b * p + be_uint(s.drop_last())) * 256 + s.last() == b * (256 * p) + (be_uint(
            s.drop_last(),
        ) * 256 + s.last())) by (nonlinear_arith);
    }
}

/// Writes `val` as `n` big-endian bytes into `s` from `start` on.
pub fn write_be(s: &mut [u8], start: usize, n: usize, val: u64)
    requires
        n <= 8,
        start + n <= old(s)@.len(),
        val < pow256(n as nat),
    ensures
        final(s)@.len() == old(s)@.len(),
        be_uint(final(s)@.subrange(start as int, start + n)) == val,
        forall|i: int|
            0 <= i < old(s)@.len() && !(start <= i < start + n) ==> #[trigger] final(s)@[i]
                == old(s)@[i],
{
    proof {
        lemma_slice_len_fits(s);
    }
    let ghost orig = s@;
    assert(pow256(0) == 1);
    assert(s@.subrange(start + n as int, start + n as int).len() == 0);
    let mut w: u64 = val;
    let mut j: usize = 0;
    while j < n
        invariant
            j <= n <= 8,
            start + n <= orig.len() <= usize::MAX,
            s@.len() == orig.len(),
            val < pow256(n as nat),
            w == val as int / pow256(j as nat) as int,
            be_uint(s@.subrange(start + n - j, start + n)) == val as int % pow256(j as nat) as int,
            forall|i: int|
                0 <= i < orig.len() && !(start + n - j <= i < start + n) ==> #[trigger] s@[i]
                    == orig[i],
        decreases n - j,
    {
        let k: usize = start + n - 1 - j;
        let b: u8 = (w % 256) as u8;
        let ghost before = s@;
        s[k] = b;
        proof {
            let p = pow256(j as nat) as int;
            assert(p > 0) by {
                lemma_pow256_positive(j as nat);
            }
            assert(s@.subrange(k as int, start + n) =~= seq![b] + before.subrange(
                start + n - j,
                start + n,
            ));
            let old_suffix = before.subrange(start + n - j, start + n);
            assert(old_suffix.len() == j);
            lemma_be_uint_prepend(b, old_suffix);
            assert(b as int == (val as int / p) % 256);
            lemma_mod_breakdown(val as int, p, 256);
            lemma_div_denominator(val as int, p, 256);
            assert(p * 256 == pow256((j + 1) as nat));
            assert(b * p == p * b) by (nonlinear_arith);
            assert(be_uint(s@.subrange(k as int, start + n)) == val as int % (pow256(
                (j + 1) as nat,
            ) as int));
        }
        w = w / 256;
        j = j + 1;
    }
    proof {
        let p = pow256(n as nat) as int;
        assert(val as int % p == val as int) by {
            vstd::arithmetic::div_mod::lemma_small_mod(val as nat, p as nat);
        }
    }
}

proof fn lemma_pow256_positive(n: nat)
    ensures
        pow256(n) > 0,
    decreases n,
{
    if n > 0 {
        lemma_pow256_positive((n - 1) as nat);
    }
}

/// A slice never holds more than `usize::MAX` elements.
pub proof fn lemma_slice_len_fits<T>(s: &[T])
    ensures
        s@.len() <= usize::MAX,
{
    assert(s.len() == s@.len());
}

/// Reads the `n` bytes of `s` from `start` on as one big-endian integer.
pub fn read_be(s: &[u8], start: usize, n: usize) -> (r: u64)
    requires
        n <= 8,
        start + n <= s@.len(),
    ensures
        r == be_uint(s@.subrange(start as int, start + n)),
        r < pow256(n as nat),
{
    proof {
        lemma_slice_len_fits(s);
    }
    let mut v: u64 = 0;
    let mut i: usize = 0;
    while i < n
        invariant
            i <= n <= 8,
            start + n <= s@.len() <= usize::MAX,
            v == be_uint(s@.subrange(start as int, start + i)),
            v < pow256(i as nat),
        decreases n - i,
    {
        proof {
            let next = s@.subrange(start as int, start + i + 1);
            assert(next.drop_last() =~= s@.subrange(start as int, start + i));
            lemma_be_uint_bound(next);
            lemma_pow256_monotone((i + 1) as nat, 8);
            lemma_pow256_eight();
        }
        v = v * 256 + s[start + i] as u64;
        i = i + 1;
    }
    v
}

pub proof fn lemma_pow256_eight()
    ensures
        pow256(1) == 0x100,
        pow256(2) == 0x1_0000,
        pow256(4) == 0x1_0000_0000,
        pow256(8) == 0x1_0000_0000_0000_0000,
{
    reveal_with_fuel(pow256, 9);
}

proof fn lemma_pow256_monotone(a: nat, b: nat)
    requires
        a <= b,
    ensures
        pow256(a) <= pow256(b),
    decreases b,
{
    if a < b {
        lemma_pow256_monotone(a, (b - 1) as nat);
    }
}

} // verus!
