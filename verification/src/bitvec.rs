use vstd::prelude::*;

use crate::error::VpiError;
use crate::text::{decimal, push_bit_char, push_decimal};
use vstd::string::StringExecFns;
use crate::bits::{
    get_word_bit, lemma_word_bit_masked, lemma_word_bit_or, lemma_word_bit_shl, lemma_word_bit_shr, lemma_word_bit_zero, low_mask, word_bit, set_word_bit, word_count,
    words_bit, words_for,
};

verus! {

/// The characters `'1'` and `'0'` of the bits, most significant first.
pub open spec fn binary_digits(bits: Seq<bool>) -> Seq<char> {
    Seq::new(
        bits.len(),
        |k: int|
            if bits[bits.len() - 1 - k] {
                '1'
            } else {
                '0'
            },
    )
}

/// The Verilog literal of a vector of `n` bits: the width in decimal, `'b`
/// and the bits, most significant first.
pub open spec fn verilog_literal(n: nat, bits: Seq<bool>) -> Seq<char> {
    decimal(n) + seq!['\'', 'b'] + binary_digits(bits)
}

/// The words of `data` up to word `w`, missing ones taken as zero.
pub open spec fn raw_words(data: Seq<u32>, w: nat) -> Seq<u32> {
    Seq::new(w, |i: int| if i < data.len() { data[i] } else { 0u32 })
}

/// The literal of `n` bits has the decimal of `n`, `'b`, then exactly one
/// digit per bit: `n` digits, digit `k` being bit `n - 1 - k`.
pub proof fn law_literal_digits(n: nat, bits: Seq<bool>, text: Seq<char>)
    requires
        bits.len() == n,
        text == verilog_literal(n, bits),
    ensures
        text.len() == decimal(n).len() + 2 + n,
        text.subrange(0, decimal(n).len() as int) == decimal(n),
        text[decimal(n).len() as int] == '\'',
        text[decimal(n).len() as int + 1] == 'b',
        forall|k: int|
            0 <= k < n ==> #[trigger] text[decimal(n).len() + 2 + k] == (if bits[n - 1 - k] {
                '1'
            } else {
                '0'
            }),
{
    let d = decimal(n);
    assert(text.subrange(0, d.len() as int) =~= d);
    assert forall|k: int| 0 <= k < n implies #[trigger] text[d.len() + 2 + k] == (if bits[n - 1
        - k] {
        '1'
    } else {
        '0'
    }) by {
        assert(text[d.len() + 2 + k] == binary_digits(bits)[k]);
    }
}

/// Verilog bit vector of `N` bits.
///
/// The bits are kept in little-endian 32-bit words: bit `i` is bit `i % 32`
/// of word `i / 32`. The last word may hold more bits than the vector has;
/// those are kept as they were given and are not part of the vector.
pub struct BitVector<const N: usize> {
    words: Vec<u32>,
}

/// The bits of `ws` from bit 0 up to (not including) bit `n`.
pub open spec fn bits_of(ws: Seq<u32>, n: nat) -> Seq<bool> {
    Seq::new(n, |i: int| words_bit(ws, i))
}

impl<const N: usize> View for BitVector<N> {
    type V = Seq<bool>;

    /// The `N` bits of the vector, least significant first.
    closed spec fn view(&self) -> Seq<bool> {
        bits_of(self.words@, N as nat)
    }
}

impl<const N: usize> BitVector<N> {
    #[verifier::type_invariant]
    spec fn inv(self) -> bool {
        self.words.len() == word_count(N as nat)
    }

    /// The words of the vector, least significant first.
    pub closed spec fn spec_words(self) -> Seq<u32> {
        self.words@
    }

    proof fn lemma_view(self)
        requires
            self.inv(),
        ensures
            self@.len() == N,
            forall|i: int| 0 <= i < N ==> self@[i] == #[trigger] words_bit(self.words@, i),
            self.words@.len() == word_count(N as nat),
    {
    }

    /// A vector has `N` bits.
    pub proof fn lemma_view_len(self)
        ensures
            self@.len() == N,
    {
    }

    /// Builds a vector from words that hold its bits.
    fn from_words(words: Vec<u32>) -> (r: Self)
        requires
            words.len() == word_count(N as nat),
        ensures
            r@ == bits_of(words@, N as nat),
            r.spec_words() == words@,
    {
        BitVector { words }
    }

    /// The words of the vector, least significant first, as they are
    /// stored.
    pub fn words(&self) -> (r: Vec<u32>)
        ensures
            r.len() == word_count(N as nat),
            r@ == self.spec_words(),
            forall|i: int| 0 <= i < N ==> #[trigger] words_bit(r@, i) == self@[i],
    {
        proof {
            use_type_invariant(self);
        }
        let mut r: Vec<u32> = Vec::new();
        let mut k: usize = 0;
        while k < self.words.len()
            invariant
                k <= self.words.len(),
                r@ == self.words@.subrange(0, k as int),
            decreases self.words.len() - k,
        {
            r.push(self.words[k]);
            k = k + 1;
        }
        proof {
            assert(r@ == self.words@);
        }
        r
    }

    /// Converts raw `u32` data, least significant word first, into a vector
    /// of `N` bits. The vector keeps the words it needs as they are given;
    /// missing words are taken as zero and words beyond are dropped.
    pub fn from_raw(data: &[u32]) -> (r: Self)
        ensures
            r.spec_words() == raw_words(data@, word_count(N as nat)),
            r@ == bits_of(data@, N as nat),
    {
        let n = words_for(N);
        let mut words: Vec<u32> = Vec::new();
        let mut k: usize = 0;
        while k < n
            invariant
                k <= n,
                n == word_count(N as nat),
                words.len() == k,
                forall|t: int|
                    0 <= t < k ==> #[trigger] words@[t] == (if t < data@.len() {
                        data@[t]
                    } else {
                        0u32
                    }),
            decreases n - k,
        {
            let w = if k < data.len() {
                data[k]
            } else {
                0u32
            };
            words.push(w);
            k = k + 1;
        }
        proof {
            assert(words@ =~= raw_words(data@, word_count(N as nat)));
            assert forall|i: int| 0 <= i < N implies #[trigger] words_bit(words@, i) == words_bit(
                data@,
                i,
            ) by {
                if i / 32 >= data@.len() {
                    lemma_word_bit_zero((i % 32) as u32);
                }
            }
            assert(bits_of(words@, N as nat) =~= bits_of(data@, N as nat));
        }
        Self::from_words(words)
    }

    /// Concatenates two vectors, as Verilog's `{self, b}`: the bits of `b`
    /// become the low `M` bits of the result and the bits of `self` the high
    /// `N` bits. The words of the result hold no other bits.
    pub fn concat<const M: usize, const R: usize>(self, b: BitVector<M>) -> (r: BitVector<R>)
        requires
            R == N + M,
        ensures
            r@ == b@ + self@,
            forall|i: int| R <= i ==> !#[trigger] words_bit(r.spec_words(), i),
    {
        proof {
            use_type_invariant(&self);
            use_type_invariant(&b);
            self.lemma_view();
            b.lemma_view();
        }
        let wr = words_for(R);
        let mut words = zero_words(wr);
        let q = M / 32;
        let s: u32 = (M % 32) as u32;
        let mut k: usize = 0;
        while k < q
            invariant
                k <= q,
                q == M / 32,
                R == N + M,
                wr == word_count(R as nat),
                words.len() == wr,
                b.words@.len() == word_count(M as nat),
                forall|t: int| 0 <= t < M ==> b@[t] == #[trigger] words_bit(b.words@, t),
                forall|i: int| #[trigger] words_bit(words@, i) == (0 <= i < 32 * k && b@[i]),
            decreases q - k,
        {
            let w = b.words[k];
            let ghost before = words@;
            words.set(k, w);
            proof {
                assert forall|i: int| #[trigger]
                    words_bit(words@, i) == (0 <= i < 32 * (k + 1) && b@[i]) by {
                    if 0 <= i < 32 * wr && i / 32 != k as int {
                        assert(words@[i / 32] == before[i / 32]);
                        assert(words_bit(words@, i) == words_bit(before, i));
                    }
                    if 0 <= i && i / 32 == k as int {
                        assert(words_bit(words@, i) == words_bit(b.words@, i));
                    }
                }
            }
            k = k + 1;
        }
        if s != 0 {
            let w = b.words[q] & low_mask(s);
            let ghost before = words@;
            words.set(q, w);
            proof {
                assert forall|i: int| #[trigger] words_bit(words@, i) == (0 <= i < M && b@[i]) by {
                    if 0 <= i < 32 * wr && i / 32 != q as int {
                        assert(words@[i / 32] == before[i / 32]);
                        assert(words_bit(words@, i) == words_bit(before, i));
                    }
                    if 0 <= i && i / 32 == q as int {
                        lemma_word_bit_masked(b.words@[q as int], s, (i % 32) as u32);
                        assert(words_bit(words@, i) == (i < M && words_bit(b.words@, i)));
                    }
                }
            }
        } else {
            proof {
                assert forall|i: int| #[trigger] words_bit(words@, i) == (0 <= i < M && b@[i]) by {
                }
            }
        }
        let wn = words_for(N);
        let rem: u32 = (N % 32) as u32;
        let mut k: usize = 0;
        while k < wn
            invariant
                k <= wn,
                wn == word_count(N as nat),
                rem == N % 32,
                q == M / 32,
                s == M % 32,
                R == N + M,
                wr == word_count(R as nat),
                words.len() == wr,
                self.words@.len() == wn,
                self@.len() == N,
                forall|t: int| 0 <= t < N ==> self@[t] == #[trigger] words_bit(self.words@, t),
                forall|i: int| #[trigger]
                    words_bit(words@, i) == ((0 <= i < M && b@[i]) || (M <= i < M + 32 * k && i - M
                        < N && self@[i - M])),
            decreases wn - k,
        {
            let mut w = self.words[k];
            if rem != 0 && k == wn - 1 {
                w = w & low_mask(rem);
                proof {
                    assert forall|j: u32| j < 32 implies #[trigger] word_bit(w, j) == (32 * k + j < N
                        && self@[32 * k + j]) by {
                        lemma_word_bit_masked(self.words@[k as int], rem, j);
                        assert(words_bit(self.words@, 32 * k + j) == word_bit(
                            self.words@[k as int],
                            j,
                        ));
                    }
                }
            } else {
                proof {
                    assert forall|j: u32| j < 32 implies #[trigger] word_bit(w, j) == (32 * k + j < N
                        && self@[32 * k + j]) by {
                        assert(words_bit(self.words@, 32 * k + j) == word_bit(
                            self.words@[k as int],
                            j,
                        ));
                    }
                }
            }
            let lo_index = q + k;
            let lo = words[lo_index] | (w << s);
            let ghost before = words@;
            words.set(lo_index, lo);
            proof {
                assert forall|i: int| #[trigger]
                    words_bit(words@, i) == ((0 <= i < M && b@[i]) || (M <= i < M + 32 * k && i - M
                        < N && self@[i - M]) || (32 * lo_index <= i < 32 * lo_index + 32 && i
                        >= M + 32 * k && i - M < N && self@[i - M])) by {
                    if 0 <= i < 32 * wr && i / 32 != lo_index as int {
                        assert(words@[i / 32] == before[i / 32]);
                        assert(words_bit(words@, i) == words_bit(before, i));
                    }
                    if 0 <= i && i / 32 == lo_index as int {
                        let j = (i % 32) as u32;
                        assert(M == 32 * q + s);
                        assert(i == 32 * lo_index + j);
                        assert(words@[lo_index as int] == lo);
                        assert(words_bit(words@, i) == word_bit(lo, j));
                        assert(words_bit(before, i) == word_bit(before[lo_index as int], j));
                        lemma_word_bit_or(before[lo_index as int], w << s, j);
                        lemma_word_bit_shl(w, s, j);
                        if j >= s {
                            assert(i - M == 32 * k + (j - s));
                            assert(word_bit(w, (j - s) as u32) == (32 * k + (j - s) < N && self@[32
                                * k + (j - s)]));
                        }
                    }
                }
            }
            if s != 0 && lo_index + 1 < wr {
                let hi_index = lo_index + 1;
                let hi = words[hi_index] | (w >> (32 - s));
                let ghost before2 = words@;
                words.set(hi_index, hi);
                proof {
                    assert forall|i: int| #[trigger]
                        words_bit(words@, i) == ((0 <= i < M && b@[i]) || (M <= i < M + 32 * (k
                            + 1) && i - M < N && self@[i - M])) by {
                        if 0 <= i < 32 * wr && i / 32 != hi_index as int {
                            assert(words@[i / 32] == before2[i / 32]);
                            assert(words_bit(words@, i) == words_bit(before2, i));
                        }
                        if 0 <= i && i / 32 == hi_index as int {
                            let j = (i % 32) as u32;
                            assert(M == 32 * q + s);
                            assert(i == 32 * hi_index + j);
                            assert(words@[hi_index as int] == hi);
                            assert(words_bit(words@, i) == word_bit(hi, j));
                            assert(words_bit(before2, i) == word_bit(before2[hi_index as int], j));
                            lemma_word_bit_or(before2[hi_index as int], w >> ((32 - s) as u32), j);
                            lemma_word_bit_shr(w, s, j);
                            if j < s {
                                assert(i - M == 32 * k + (j + 32 - s));
                                assert(word_bit(w, (j + 32 - s) as u32) == (32 * k + (j + 32 - s)
                                    < N && self@[32 * k + (j + 32 - s)]));
                            }
                        }
                    }
                }
            } else {
                proof {
                    assert forall|i: int| #[trigger]
                        words_bit(words@, i) == ((0 <= i < M && b@[i]) || (M <= i < M + 32 * (k
                            + 1) && i - M < N && self@[i - M])) by {
                        if M + 32 * k <= i < M + 32 * (k + 1) && i - M < N && i >= 32 * lo_index
                            + 32 {
                            if s == 0 {
                                assert(false);
                            } else {
                                let j = (i - M - 32 * k) as u32;
                                assert(word_bit(w, j) == (32 * k + j < N && self@[32 * k + j]));
                                assert(i >= 32 * wr);
                                assert(false);
                            }
                        }
                    }
                }
            }
            k = k + 1;
        }
        proof {
            assert forall|i: int| #[trigger]
                words_bit(words@, i) == ((0 <= i < M && b@[i]) || (M <= i < R && self@[i - M])) by {
            }
            assert(bits_of(words@, R as nat) =~= b@ + self@);
        }
        BitVector::<R>::from_words(words)
    }
}

/// `n` words of zero.
fn zero_words(n: usize) -> (r: Vec<u32>)
    ensures
        r@ == Seq::new(n as nat, |i: int| 0u32),
        forall|k: int| !#[trigger] words_bit(r@, k),
{
    let mut words: Vec<u32> = Vec::new();
    let mut k: usize = 0;
    while k < n
        invariant
            k <= n,
            words@ == Seq::new(k as nat, |i: int| 0u32),
        decreases n - k,
    {
        words.push(0u32);
        proof {
            assert(words@ =~= Seq::new((k + 1) as nat, |i: int| 0u32));
        }
        k = k + 1;
    }
    proof {
        assert forall|t: int| !#[trigger] words_bit(words@, t) by {
            if 0 <= t < 32 * n {
                lemma_word_bit_zero((t % 32) as u32);
            }
        }
    }
    words
}

impl<const N: usize> BitVector<N> {
    /// The vector written as a Verilog literal, such as `4'b0110` for the
    /// 4-bit vector whose bits 1 and 2 are set.
    pub fn debug_string(&self) -> (r: String)
        ensures
            r@ == verilog_literal(N as nat, self@),
            r@.len() == decimal(N as nat).len() + 2 + N,
            r@.subrange(0, decimal(N as nat).len() as int) == decimal(N as nat),
            r@[decimal(N as nat).len() as int] == '\'',
            r@[decimal(N as nat).len() as int + 1] == 'b',
            forall|k: int|
                0 <= k < N ==> #[trigger] r@[decimal(N as nat).len() + 2 + k] == (if self@[N - 1
                    - k] {
                    '1'
                } else {
                    '0'
                }),
    {
        proof {
            use_type_invariant(self);
            self.lemma_view();
        }
        let mut s = String::new();
        push_decimal(&mut s, N);
        proof {
            reveal_strlit("'b");
        }
        s.append("'b");
        let ghost prefix = s@;
        let mut k: usize = 0;
        while k < N
            invariant
                k <= N,
                self@.len() == N,
                forall|t: int| 0 <= t < N ==> self@[t] == #[trigger] words_bit(self.words@, t),
                self.words@.len() == word_count(N as nat),
                s@ == prefix + binary_digits(self@).subrange(0, k as int),
            decreases N - k,
        {
            let bit = get_word_bit(&self.words, N - 1 - k);
            push_bit_char(&mut s, bit);
            proof {
                assert(binary_digits(self@).subrange(0, k + 1) =~= binary_digits(self@).subrange(
                    0,
                    k as int,
                ).push(if bit { '1' } else { '0' }));
            }
            k = k + 1;
        }
        proof {
            assert(binary_digits(self@).subrange(0, N as int) =~= binary_digits(self@));
            assert(s@ =~= verilog_literal(N as nat, self@));
            law_literal_digits(N as nat, self@, s@);
        }
        s
    }
}

impl<const N: usize> BitVector<N> {
    /// Reads a vector from a net of `size` bits whose value the simulator
    /// gives as the words `avals`, least significant first. The net must be
    /// `N` bits wide.
    pub fn from_vpi_vector(size: usize, avals: &[u32]) -> (r: Result<Self, VpiError>)
        ensures
            r is Ok <==> size == N,
            r matches Ok(v) ==> v.spec_words() == raw_words(avals@, word_count(N as nat)),
            r matches Ok(v) ==> v@ == bits_of(avals@, N as nat),
            r matches Err(e) ==> e == (VpiError::BitVectorLengthMissMatch {
                expected: N,
                actual: size,
            }),
    {
        if size != N {
            return Err(VpiError::BitVectorLengthMissMatch { expected: N, actual: size });
        }
        Ok(Self::from_raw(avals))
    }
}

impl From<u32> for BitVector<32> {
    /// The 32-bit vector of the bits of `value`.
    fn from(value: u32) -> (r: Self)
        ensures
            r.spec_words() == seq![value],
            r@ == bits_of(seq![value], 32),
    {
        let mut words: Vec<u32> = Vec::new();
        words.push(value);
        proof {
            assert(words@ =~= seq![value]);
        }
        Self::from_words(words)
    }
}

/// Building a vector from the words of another vector of the same width,
/// as `words` gives them, gives a vector with the same words and the same
/// bits.
pub proof fn law_from_raw_of_words<const N: usize>(v: BitVector<N>, ws: Seq<u32>, r: BitVector<N>)
    requires
        ws == v.spec_words(),
        ws.len() == word_count(N as nat),
        r.spec_words() == raw_words(ws, word_count(N as nat)),
        r@ == bits_of(ws, N as nat),
    ensures
        r.spec_words() == v.spec_words(),
        r@ == v@,
{
    assert(r.spec_words() =~= v.spec_words());
}

/// The bits of a concatenation: the low `M` bits are those of the second
/// vector, the next `N` those of the first; the width is `N + M`.
pub proof fn law_concat_bits<const N: usize, const M: usize, const R: usize>(
    a: BitVector<N>,
    b: BitVector<M>,
    r: BitVector<R>,
)
    requires
        R == N + M,
        r@ == b@ + a@,
    ensures
        r@.len() == N + M,
        forall|i: int| 0 <= i < M ==> r@[i] == b@[i],
        forall|i: int| 0 <= i < N ==> r@[M + i] == a@[i],
{
    a.lemma_view_len();
    b.lemma_view_len();
}

impl<const N: usize> Clone for BitVector<N> {
    /// A vector with the same words.
    fn clone(&self) -> (r: Self)
        ensures
            r.spec_words() == self.spec_words(),
            r@ == self@,
    {
        proof {
            use_type_invariant(self);
        }
        Self::from_words(self.words())
    }
}

impl vstd::std_specs::convert::FromSpecImpl<u32> for BitVector<32> {
    /// `from` is described by the bits of its result (see its `ensures`),
    /// not by equality with a spec value.
    open spec fn obeys_from_spec() -> bool {
        false
    }

    open spec fn from_spec(v: u32) -> Self {
        choose|b: Self| b@ == bits_of(seq![v], 32)
    }
}

impl<const N: usize> Default for BitVector<N> {
    /// The vector with every word zero.
    fn default() -> (r: Self)
        ensures
            r.spec_words() == Seq::new(word_count(N as nat), |i: int| 0u32),
            r@ == Seq::new(N as nat, |i: int| false),
    {
        let words = zero_words(words_for(N));
        proof {
            assert(bits_of(words@, N as nat) =~= Seq::new(N as nat, |i: int| false));
        }
        Self::from_words(words)
    }
}

} // verus!
