use vstd::prelude::*;

verus! {

/// Bit `j` (counted from the least significant bit) of the word `w`.
pub open spec fn word_bit(w: u32, j: u32) -> bool {
    (w >> j) & 1u32 == 1u32
}

/// Bit `i` of a little-endian sequence of 32-bit words: word `i / 32`
/// holds bits `32 * (i / 32)` to `32 * (i / 32) + 31`. Bits outside the
/// words are clear.
pub open spec fn words_bit(ws: Seq<u32>, i: int) -> bool {
    0 <= i < 32 * ws.len() && word_bit(ws[i / 32], (i % 32) as u32)
}

/// Number of 32-bit words that hold `n` bits.
pub open spec fn word_count(n: nat) -> nat {
    (n + 31) / 32
}

pub proof fn lemma_word_bit_zero(j: u32)
    requires
        j < 32,
    ensures
        !word_bit(0u32, j),
{
    assert((0u32 >> j) & 1u32 == 0u32) by (bit_vector)
        requires
            j < 32u32,
    ;
}

pub proof fn lemma_word_bit_or_single(w: u32, s: u32, j: u32)
    requires
        s < 32,
        j < 32,
    ensures
        word_bit(w | (1u32 << s), j) == (word_bit(w, j) || j == s),
{
    assert((((w | (1u32 << s)) >> j) & 1u32 == 1u32) == (((w >> j) & 1u32 == 1u32) || j == s))
        by (bit_vector)
        requires
            s < 32u32,
            j < 32u32,
    ;
}

pub proof fn lemma_word_bit_or(x: u32, y: u32, j: u32)
    requires
        j < 32,
    ensures
        word_bit(x | y, j) == (word_bit(x, j) || word_bit(y, j)),
{
    assert((((x | y) >> j) & 1u32 == 1u32) == (((x >> j) & 1u32 == 1u32) || ((y >> j) & 1u32
        == 1u32))) by (bit_vector)
        requires
            j < 32u32,
    ;
}

pub proof fn lemma_word_bit_shl(w: u32, s: u32, j: u32)
    requires
        s < 32,
        j < 32,
    ensures
        word_bit(w << s, j) == (j >= s && word_bit(w, (j - s) as u32)),
{
    assert((((w << s) >> j) & 1u32 == 1u32) == (j >= s && ((w >> ((j - s) as u32)) & 1u32
        == 1u32))) by (bit_vector)
        requires
            s < 32u32,
            j < 32u32,
    ;
}

pub proof fn lemma_word_bit_shr(w: u32, s: u32, j: u32)
    requires
        0 < s < 32,
        j < 32,
    ensures
        word_bit(w >> ((32 - s) as u32), j) == (j < s && word_bit(w, (j + 32 - s) as u32)),
{
    assert((((w >> ((32u32 - s) as u32)) >> j) & 1u32 == 1u32) == (j < s && ((w >> ((j + 32u32
        - s) as u32)) & 1u32 == 1u32))) by (bit_vector)
        requires
            0u32 < s < 32u32,
            j < 32u32,
    ;
}

pub proof fn lemma_word_bit_masked(w: u32, k: u32, j: u32)
    requires
        0 < k < 32,
        j < 32,
    ensures
        word_bit(w & (((1u32 << k) - 1u32) as u32), j) == (j < k && word_bit(w, j)),
{
    assert((((w & (((1u32 << k) - 1u32) as u32)) >> j) & 1u32 == 1u32) == (j < k && ((w >> j)
        & 1u32 == 1u32))) by (bit_vector)
        requires
            0u32 < k < 32u32,
            j < 32u32,
    ;
}

/// The mask of the low `k` bits of a word.
pub fn low_mask(k: u32) -> (r: u32)
    requires
        0 < k < 32,
    ensures
        r == (((1u32 << k) - 1u32) as u32),
{
    assert(1u32 << k >= 1u32) by (bit_vector)
        requires
            k < 32u32,
    ;
    (1u32 << k) - 1
}

/// Number of words that hold `n` bits, computed without overflow.
pub fn words_for(n: usize) -> (r: usize)
    ensures
        r == word_count(n as nat),
{
    n / 32 + if n % 32 != 0 {
        1
    } else {
        0
    }
}

/// Reads bit `i` of a little-endian word sequence.
pub(crate) fn get_word_bit(ws: &Vec<u32>, i: usize) -> (r: bool)
    requires
        i < 32 * ws.len(),
    ensures
        r == words_bit(ws@, i as int),
{
    let w = ws[i / 32];
    let j: u32 = (i % 32) as u32;
    (w >> j) & 1 == 1
}

/// Sets bit `i` of a little-endian word sequence.
pub(crate) fn set_word_bit(ws: &mut Vec<u32>, i: usize)
    requires
        i < 32 * old(ws).len(),
    ensures
        final(ws).len() == old(ws).len(),
        forall|k: int| #[trigger]
            words_bit(final(ws)@, k) == (words_bit(old(ws)@, k) || k == i),
{
    let k = i / 32;
    let s: u32 = (i % 32) as u32;
    let w = ws[k];
    let nw = w | (1u32 << s);
    ws.set(k, nw);
    proof {
        assert forall|t: int| #[trigger]
            words_bit(ws@, t) == (words_bit(old(ws)@, t) || t == i) by {
            if 0 <= t < 32 * ws.len() {
                if t / 32 == k as int {
                    lemma_word_bit_or_single(w, s, (t % 32) as u32);
                }
            }
        }
    }
}

} // verus!
