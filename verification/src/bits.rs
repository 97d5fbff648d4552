//! Fixed-length boolean-per-document views: match-all, match-none, a
//! packed 64-bit-word bitmap, and a lazily read byte-backed bitmap.
//!
//! A quirk inherited by design: `is_empty` means "no bits are asserted",
//! not "zero length". Both the match-all and the match-none variants
//! report `is_empty() == true` by convention; callers may depend on it, so
//! it is preserved here exactly.

use vstd::prelude::*;
use vstd::string::StringExecFns;
use std::sync::Arc;
use crate::errors::Error;

verus! {

/// One bit of a packed word: bit `j` of `w`.
pub open spec fn word_bit(w: u64, j: u64) -> bool {
    ((w >> j) & 1) == 1
}

/// Number of set bits among the low `n` bit positions of `w`.
pub open spec fn count_bits(w: u64, n: int) -> int
    decreases n,
{
    if n <= 0 {
        0
    } else {
        count_bits(w, n - 1) + if word_bit(w, (n - 1) as u64) {
            1int
        } else {
            0int
        }
    }
}

/// Sum of the full 64-bit population counts of the first `k` words.
pub open spec fn card_words(words: Seq<u64>, k: int) -> int
    decreases k,
{
    if k <= 0 {
        0
    } else {
        card_words(words, k - 1) + count_bits(words[k - 1], 64)
    }
}

/// The bit of index `i` in a word-packed bitmap.
pub open spec fn packed_bit(words: Seq<u64>, i: int) -> bool {
    word_bit(words[i / 64], (i % 64) as u64)
}

/// Number of set bits among indices `[0, n)` of a word-packed bitmap.
pub open spec fn count_up(words: Seq<u64>, n: int) -> int
    decreases n,
{
    if n <= 0 {
        0
    } else {
        count_up(words, n - 1) + if packed_bit(words, n - 1) {
            1int
        } else {
            0int
        }
    }
}

/// Population count of one word: the number of set bits among all 64
/// positions.
pub fn popcount(w: u64) -> (r: u32)
    ensures
        r == count_bits(w, 64),
{
    let mut c: u32 = 0;
    let mut j: u64 = 0;
    while j < 64
        invariant
            j <= 64,
            c == count_bits(w, j as int),
            c <= j,
        decreases 64 - j,
    {
        if ((w >> j) & 1) == 1 {
            c = c + 1;
        }
        j = j + 1;
    }
    c
}

/// Boolean sequence where every bit is asserted.
#[derive(Clone)]
pub struct MatchAllBits {
    /// Length of the sequence.
    pub len: usize,
}

impl MatchAllBits {
    /// A sequence of `len` asserted bits.
    pub fn new(len: usize) -> (r: MatchAllBits)
        ensures
            r.len == len,
    {
        MatchAllBits { len }
    }

    /// Every index holds an asserted bit.
    pub fn get(&self, index: usize) -> (r: bool)
        requires
            index < self.len,
        ensures
            r == true,
    {
        true
    }

    /// Identifier distinguishing this variant.
    pub fn id(&self) -> (r: i32)
        ensures
            r == 1,
    {
        1
    }

    /// Exact length of the sequence.
    pub fn len(&self) -> (r: usize)
        ensures
            r == self.len,
    {
        self.len
    }

    /// By convention this reports `true`: "empty" means "no set bits is
    /// guaranteed", not "zero length", and the match-all variant keeps the
    /// convention of its sibling variants.
    pub fn is_empty(&self) -> (r: bool)
        ensures
            r == true,
    {
        true
    }
}

/// Boolean sequence where no bit is asserted.
#[derive(Clone)]
pub struct MatchNoBits {
    /// Length of the sequence.
    pub len: usize,
}

impl MatchNoBits {
    /// A sequence of `len` clear bits.
    pub fn new(len: usize) -> (r: MatchNoBits)
        ensures
            r.len == len,
    {
        MatchNoBits { len }
    }

    /// No index holds an asserted bit.
    pub fn get(&self, index: usize) -> (r: bool)
        requires
            index < self.len,
        ensures
            r == false,
    {
        false
    }

    /// Exact length of the sequence.
    pub fn len(&self) -> (r: usize)
        ensures
            r == self.len,
    {
        self.len
    }

    /// `true`: no bits are asserted.
    pub fn is_empty(&self) -> (r: bool)
        ensures
            r == true,
    {
        true
    }
}

/// Byte-backed bitmap over the live documents of a segment, reading one
/// byte per lookup instead of materializing whole words. The bytes are
/// handed in by whatever input the deployment reads them from.
pub struct LiveBits {
    /// The backing bytes, `ceil(count / 8)` of them.
    pub bytes: Vec<u8>,
    /// Number of bits.
    pub count: usize,
}

impl LiveBits {
    /// The bit of index `i`: bit `i % 8` of byte `i / 8`.
    pub open spec fn spec_bit(&self, i: int) -> bool {
        ((self.bytes@[i / 8] >> ((i % 8) as u8)) & 1) == 1
    }

    /// Well-formed: one byte per eight bits.
    pub open spec fn wf(&self) -> bool {
        self.bytes@.len() == (self.count + 7) / 8
    }

    /// A bitmap of `count` bits over its backing bytes.
    pub fn new(bytes: Vec<u8>, count: usize) -> (r: Result<LiveBits, Error>)
        ensures
            r is Ok <==> bytes@.len() == (count + 7) / 8,
            r matches Ok(b) ==> b.wf() && b.bytes@ == bytes@ && b.count == count,
    {
        let expected = count / 8 + (if count % 8 != 0 {
            1
        } else {
            0
        });
        proof {
            assert((count + 7) / 8 == count / 8 + (if count % 8 != 0 {
                1int
            } else {
                0int
            })) by (nonlinear_arith);
        }
        if bytes.len() != expected {
            return Err(Error::IllegalArgument(String::from_str("backing length does not cover the bit count")));
        }
        Ok(LiveBits { bytes, count })
    }

    /// The bit at `index`, read from a single backing byte.
    pub fn get(&self, index: usize) -> (r: bool)
        requires
            self.wf(),
            index < self.count,
        ensures
            r == self.spec_bit(index as int),
    {
        proof {
            assert(index / 8 < self.bytes@.len() && index % 8 < 8) by (nonlinear_arith)
                requires
                    index < self.count,
                    self.bytes@.len() == (self.count + 7) / 8,
            ;
        }
        let byte = self.bytes[index / 8];
        let bit_in_byte = (index % 8) as u8;
        ((byte >> bit_in_byte) & 1) == 1
    }

    /// Exact length of the sequence.
    pub fn len(&self) -> (r: usize)
        ensures
            r == self.count,
    {
        self.count
    }
}

/// Packed bitmap of 64-bit words, shared by reference count so many
/// readers observe one backing allocation without copying.
pub struct FixedBits {
    /// Number of valid bits.
    pub num_bits: usize,
    /// Number of backing words, `ceil(num_bits / 64)`.
    pub num_words: usize,
    /// The backing words, shared.
    pub bits: Arc<Vec<u64>>,
}

impl FixedBits {
    /// Well-formed bitmap: exactly the words the bit count needs, and no
    /// stray bits beyond `num_bits` in the last word.
    pub open spec fn wf(&self) -> bool {
        &&& self.num_words == spec_bits_to_words(self.num_bits as int)
        &&& self.bits@.len() == self.num_words
        &&& self.num_bits <= self.num_words * 64
        &&& self.num_words * 64 <= usize::MAX
        &&& forall|i: int|
            self.num_bits <= i < self.num_words * 64 ==> !packed_bit(self.bits@, i)
    }

    /// The bit of index `i`.
    pub open spec fn spec_bit(&self, i: int) -> bool {
        packed_bit(self.bits@, i)
    }

    /// A bitmap of `num_bits` bits over a shared word array holding
    /// exactly the words the bit count needs, with no stray bits set
    /// beyond `num_bits` in the last word.
    pub fn new(bits: Arc<Vec<u64>>, num_bits: usize) -> (r: FixedBits)
        requires
            num_bits <= usize::MAX - 63,
            bits@.len() == spec_bits_to_words(num_bits as int),
            forall|i: int|
                num_bits <= i < spec_bits_to_words(num_bits as int) * 64 ==> !packed_bit(bits@, i),
        ensures
            r.wf(),
            r.num_bits == num_bits,
            r.num_words == spec_bits_to_words(num_bits as int),
            r.bits == bits,
    {
        let num_words = FixedBits::bits_2_words(num_bits);
        proof {
            if num_bits > 0 {
                vstd::arithmetic::div_mod::lemma_fundamental_div_mod(num_bits - 1, 64);
            }
        }
        FixedBits { num_bits, num_words, bits }
    }

    /// Number of 64-bit words needed for `num_bits` bits.
    pub fn bits_2_words(num_bits: usize) -> (r: usize)
        ensures
            r == spec_bits_to_words(num_bits as int),
    {
        if num_bits == 0 {
            0
        } else {
            proof {
                assert((((num_bits - 1) as u64) >> 6u64) == ((num_bits - 1) as u64 / 64))
                    by (bit_vector);
            }
            ((num_bits - 1) >> 6) + 1
        }
    }

    /// The bit at `index`.
    pub fn get(&self, index: usize) -> (r: bool)
        requires
            self.wf(),
            index < self.num_bits,
        ensures
            r == self.spec_bit(index as int),
    {
        proof {
            lemma_bit_index_in_words(self.num_bits as int, index as int);
        }
        let i = index / 64;
        let shift = (index % 64) as u64;
        let bit_mask = 1u64 << shift;
        let word = self.bits[i];
        let r = (word & bit_mask) != 0;
        proof {
            let ghost w: u64 = self.bits@[index as int / 64];
            assert(w == word);
            assert(shift < 64);
            assert(((w & (1u64 << shift)) != 0) == (((w >> shift) & 1) == 1)) by (bit_vector)
                requires
                    shift < 64,
            ;
            assert(shift == ((index as int % 64) as u64));
        }
        r
    }

    /// Number of asserted bits: the sum of per-word population counts.
    pub fn cardinality(&self) -> (r: usize)
        requires
            self.wf(),
        ensures
            r == card_words(self.bits@, self.num_words as int),
    {
        let mut set_bits: usize = 0;
        let mut i: usize = 0;
        while i < self.num_words
            invariant
                i <= self.num_words,
                self.wf(),
                set_bits == card_words(self.bits@, i as int),
                set_bits <= i * 64,
            decreases self.num_words - i,
        {
            proof {
                lemma_count_bits_bound(self.bits@[i as int], 64);
                assert((i + 1) * 64 == i * 64 + 64 && (i + 1) * 64 <= self.num_words * 64)
                    by (nonlinear_arith)
                    requires
                        i + 1 <= self.num_words,
                ;
                assert(card_words(self.bits@, i + 1) == card_words(self.bits@, i as int)
                    + count_bits(self.bits@[i as int], 64));
            }
            set_bits = set_bits + popcount(self.bits[i]) as usize;
            i = i + 1;
        }
        set_bits
    }

    /// Exact length of the sequence.
    pub fn length(&self) -> (r: usize)
        ensures
            r == self.num_bits,
    {
        self.num_bits
    }

    /// Exact length of the sequence.
    pub fn len(&self) -> (r: usize)
        ensures
            r == self.num_bits,
    {
        self.num_bits
    }

    /// "Empty" by the inherited convention of length zero, as the packed
    /// variant does not track whether any bit is set.
    pub fn is_empty(&self) -> (r: bool)
        ensures
            r == (self.num_bits == 0),
    {
        self.num_bits == 0
    }
}

/// Number of 64-bit words needed for `num_bits` bits.
pub open spec fn spec_bits_to_words(num_bits: int) -> int {
    if num_bits == 0 {
        0
    } else {
        (num_bits - 1) / 64 + 1
    }
}

/// A valid bit index addresses a valid word.
proof fn lemma_bit_index_in_words(num_bits: int, i: int)
    requires
        0 <= i < num_bits,
    ensures
        0 <= i / 64 < spec_bits_to_words(num_bits),
        0 <= i % 64 < 64,
{
    assert(0 <= i / 64 && i / 64 <= (num_bits - 1) / 64 && 0 <= i % 64 < 64) by (nonlinear_arith)
        requires
            0 <= i < num_bits,
    ;
}

/// A word's partial population count never exceeds the positions counted.
proof fn lemma_count_bits_bound(w: u64, n: int)
    requires
        n >= 0,
    ensures
        count_bits(w, n) <= n,
        count_bits(w, n) >= 0,
    decreases n,
{
    if n > 0 {
        lemma_count_bits_bound(w, n - 1);
    }
}

/// Counting bit by bit over the whole bitmap agrees with summing per-word
/// population counts, as long as the partial word boundary is respected:
/// for any prefix of `n` bits, the pointwise count equals the full count
/// of the words before `n`'s word plus the partial count within it.
proof fn lemma_count_up_vs_words(words: Seq<u64>, n: int)
    requires
        0 <= n <= words.len() * 64,
    ensures
        count_up(words, n) == card_words(words, n / 64) + count_bits(words[n / 64], n % 64),
    decreases n,
{
    if n == 0 {
        assert(count_bits(words[0], 0) == 0);
    } else {
        lemma_count_up_vs_words(words, n - 1);
        assert((n - 1) / 64 == if n % 64 == 0 {
            n / 64 - 1
        } else {
            n / 64
        } && (n - 1) % 64 == if n % 64 == 0 {
            63int
        } else {
            n % 64 - 1
        } && n / 64 * 64 <= n) by (nonlinear_arith)
            requires
                n >= 1,
        ;
        if n % 64 == 0 {
            assert(count_bits(words[n / 64 - 1], 64) == count_bits(words[n / 64 - 1], 63) + if
                word_bit(words[n / 64 - 1], 63) {
                1int
            } else {
                0int
            });
            assert(packed_bit(words, n - 1) == word_bit(words[n / 64 - 1], 63));
            assert(count_bits(words[n / 64], 0) == 0);
        } else {
            assert(packed_bit(words, n - 1) == word_bit(words[n / 64], (n % 64 - 1) as u64));
        }
    }
}

/// Stray-free tail: when every bit at or beyond `m` in a word is clear,
/// the full population count equals the count of the low `m` bits.
proof fn lemma_count_bits_stray_free(w: u64, m: int, n: int)
    requires
        0 <= m <= n <= 64,
        forall|j: u64| m <= j < 64 ==> !word_bit(w, j),
    ensures
        count_bits(w, n) == count_bits(w, m),
    decreases n,
{
    if n > m {
        lemma_count_bits_stray_free(w, m, n - 1);
        assert(!word_bit(w, (n - 1) as u64));
    }
}

/// The word-summed cardinality of a well-formed `FixedBits` equals the
/// pointwise count of its asserted bits: what `cardinality` returns is
/// exactly the number of indices below `num_bits` whose `get` is true.
pub proof fn lemma_cardinality_matches_get(b: &FixedBits)
    requires
        b.wf(),
    ensures
        card_words(b.bits@, b.num_words as int) == count_up(b.bits@, b.num_bits as int),
{
    let n = b.num_bits as int;
    let k = b.num_words as int;
    lemma_count_up_vs_words(b.bits@, n);
    if n == 0 {
        assert(k == 0);
    } else {
        assert(n / 64 <= (n - 1) / 64 + 1 && n / 64 * 64 <= n && (n / 64 == k || (n / 64 == k - 1
            && n % 64 > 0) || n % 64 == 0)) by (nonlinear_arith)
            requires
                n >= 1,
                k == (n - 1) / 64 + 1,
        ;
        if n / 64 == k {
            assert(n % 64 == 0) by (nonlinear_arith)
                requires
                    n >= 1,
                    k == (n - 1) / 64 + 1,
                    n / 64 == k,
            ;
            assert(count_bits(b.bits@[n / 64], n % 64) == 0);
            assert(card_words(b.bits@, k) == count_up(b.bits@, n));
        } else {
            assert(n / 64 == k - 1 && n % 64 > 0) by (nonlinear_arith)
                requires
                    n >= 1,
                    k == (n - 1) / 64 + 1,
                    n / 64 != k,
            ;
            assert forall|j: u64| n % 64 <= j < 64 implies !(#[trigger] word_bit(b.bits@[k - 1], j)) by {
                let idx = (k - 1) * 64 + (j as int);
                vstd::arithmetic::div_mod::lemma_fundamental_div_mod_converse(
                    idx,
                    64,
                    k - 1,
                    j as int,
                );
                vstd::arithmetic::div_mod::lemma_fundamental_div_mod(n, 64);
                assert(idx >= n);
                assert(idx < k * 64);
                assert(!packed_bit(b.bits@, idx));
            }
            lemma_count_bits_stray_free(b.bits@[k - 1], n % 64, 64);
            assert(card_words(b.bits@, k) == card_words(b.bits@, k - 1) + count_bits(
                b.bits@[k - 1],
                64,
            ));
        }
    }
}

} // verus!
