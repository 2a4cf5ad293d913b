use crate::endian::lemma_slice_len_fits;
use vstd::prelude::*;

verus! {

/// The big-endian 16-bit word number `i` of `s`; a last odd byte is padded
/// with a zero low byte.
pub open spec fn word_at(s: Seq<u8>, i: int) -> int {
    if 2 * i + 1 < s.len() {
        s[2 * i] * 256 + s[2 * i + 1]
    } else {
        s[2 * i] * 256
    }
}

/// The number of 16-bit words that cover `s`.
pub open spec fn word_count(s: Seq<u8>) -> nat {
    ((s.len() + 1) / 2) as nat
}

/// Ones'-complement addition of a word to a 16-bit running sum: a carry out
/// of the low 16 bits is added back in.
pub open spec fn add_carry(acc: int, w: int) -> int {
    if acc + w > 0xFFFF {
        acc + w - 0xFFFF
    } else {
        acc + w
    }
}

/// The ones'-complement sum of the first `n` words of `s`, folded from the
/// first word on.
pub open spec fn ones_sum_words(s: Seq<u8>, n: nat) -> int
    decreases n,
{
    if n == 0 {
        0
    } else {
        add_carry(ones_sum_words(s, (n - 1) as nat), word_at(s, n - 1))
    }
}

/// The ones'-complement sum of all the words of `s`.
pub open spec fn ones_sum(s: Seq<u8>) -> int {
    ones_sum_words(s, word_count(s))
}

/// The Internet checksum of `s`: the ones' complement of its ones'-complement sum.
pub open spec fn checksum_of(s: Seq<u8>) -> int {
    0xFFFF - ones_sum(s)
}

/// The plain (unfolded) sum of the first `n` words of `s`.
pub open spec fn word_total(s: Seq<u8>, n: nat) -> int
    decreases n,
{
    if n == 0 {
        0
    } else {
        word_total(s, (n - 1) as nat) + word_at(s, n - 1)
    }
}

/// How many times the fold of the first `n` words wrapped around.
pub open spec fn carries(s: Seq<u8>, n: nat) -> int
    decreases n,
{
    if n == 0 {
        0
    } else {
        let acc = ones_sum_words(s, (n - 1) as nat);
        carries(s, (n - 1) as nat) + if acc + word_at(s, n - 1) > 0xFFFF {
            1int
        } else {
            0int
        }
    }
}

proof fn lemma_word_range(s: Seq<u8>, i: int)
    requires
        0 <= i,
        2 * i < s.len(),
    ensures
        0 <= word_at(s, i) <= 0xFFFF,
{
}

/// The fold stays a 16-bit value and differs from the plain word total by
/// a whole number of `0xFFFF`s.
pub proof fn lemma_ones_sum_words(s: Seq<u8>, n: nat)
    requires
        n <= word_count(s),
    ensures
        0 <= ones_sum_words(s, n) <= 0xFFFF,
        ones_sum_words(s, n) == word_total(s, n) - 0xFFFF * carries(s, n),
    decreases n,
{
    if n > 0 {
        lemma_ones_sum_words(s, (n - 1) as nat);
        lemma_word_range(s, n - 1);
    }
}

/// Once a non-zero word has been added the fold never returns to zero.
pub proof fn lemma_ones_sum_positive(s: Seq<u8>, n: nat, j: int)
    requires
        n <= word_count(s),
        0 <= j < n,
        word_at(s, j) > 0,
    ensures
        ones_sum_words(s, n) > 0,
    decreases n,
{
    lemma_ones_sum_words(s, n);
    lemma_ones_sum_words(s, (n - 1) as nat);
    lemma_word_range(s, n - 1);
    if j < n - 1 {
        lemma_ones_sum_positive(s, (n - 1) as nat, j);
    }
}

/// Two buffers whose words agree except for word `j` have word totals that
/// differ by the difference of that word.
pub proof fn lemma_word_total_differs_at(a: Seq<u8>, b: Seq<u8>, n: nat, j: int)
    requires
        0 <= j < n,
        forall|i: int| 0 <= i < n && i != j ==> word_at(a, i) == word_at(b, i),
    ensures
        word_total(b, n) == word_total(a, n) + word_at(b, j) - word_at(a, j),
    decreases n,
{
    if n - 1 > j {
        lemma_word_total_differs_at(a, b, (n - 1) as nat, j);
    } else {
        lemma_word_total_same(a, b, (n - 1) as nat);
    }
}

proof fn lemma_word_total_same(a: Seq<u8>, b: Seq<u8>, n: nat)
    requires
        forall|i: int| 0 <= i < n ==> word_at(a, i) == word_at(b, i),
    ensures
        word_total(b, n) == word_total(a, n),
    decreases n,
{
    if n > 0 {
        lemma_word_total_same(a, b, (n - 1) as nat);
    }
}

/// The ones'-complement sum of `bytes`, as the Internet checksum computes it.
pub fn ones_complement_sum(bytes: &[u8]) -> (r: u16)
    ensures
        r == ones_sum(bytes@),
{
    proof {
        lemma_slice_len_fits(bytes);
    }
    let len = bytes.len();
    let words: usize = len / 2 + len % 2;
    let mut sum: u32 = 0;
    let mut k: usize = 0;
    while k < words
        invariant
            len == bytes@.len() <= usize::MAX,
            words == word_count(bytes@),
            k <= words,
            sum == ones_sum_words(bytes@, k as nat),
            sum <= 0xFFFF,
        decreases words - k,
    {
        let i: usize = 2 * k;
        let word: u32 = if i + 1 < len {
            bytes[i] as u32 * 256 + bytes[i + 1] as u32
        } else {
            bytes[i] as u32 * 256
        };
        proof {
            lemma_word_range(bytes@, k as int);
            lemma_ones_sum_words(bytes@, (k + 1) as nat);
        }
        sum = sum + word;
        assert((sum & 0xFFFF) <= 0xFFFF && (sum >> 16) <= 1) by (bit_vector)
            requires
                sum <= 0x1FFFE,
        ;
        let folded: u32 = (sum & 0xFFFF) + (sum >> 16);
        assert(folded == if sum > 0xFFFF { sum - 0xFFFF } else { sum as int }) by (bit_vector)
            requires
                sum <= 0x1FFFE,
                folded == (sum & 0xFFFF) + (sum >> 16),
        ;
        sum = folded;
        k = k + 1;
    }
    sum as u16
}

} // verus!
