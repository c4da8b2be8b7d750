use vstd::prelude::*;

use crate::bits::{lemma_word_bit_zero, set_word_bit, word_count, words_bit, words_for};
use crate::bitvec::{binary_digits, bits_of, verilog_literal, BitVector};
use crate::text::{decimal, digit_char};
use crate::unicode::{is_decimal_number, is_decimal_number_exec};

verus! {

broadcast use vstd::string::group_string_axioms;

/// Why a text is not a Verilog vector literal that can be built.
#[derive(Debug, Clone, Copy, PartialEq, Eq)]
pub enum LiteralError {
    /// The text does not have the shape `<width>'<encoding><digits>`.
    NotAVector,
    /// A binary literal holds a digit other than `0` and `1`.
    InvalidBinaryDigit,
    /// The encoding is not the binary `b` (`d`, `o`, `h` and `|` are not
    /// handled).
    UnsupportedEncoding,
}

/// A parsed Verilog vector literal: its width in bits and its value in
/// little-endian 32-bit words, ready for `BitVector::from_raw`.
pub struct VectorLiteral {
    pub width: usize,
    pub words: Vec<u32>,
}

pub open spec fn is_dec_digit(c: char) -> bool {
    '0' <= c <= '9'
}

pub open spec fn digit_value(c: char) -> int {
    c as int - '0' as int
}

/// The encodings that the literal grammar accepts after `'`.
pub open spec fn is_encoding_char(c: char) -> bool {
    c == 'b' || c == '|' || c == 'd' || c == 'o' || c == 'h'
}

/// The characters that the literal grammar accepts as digits of the value.
pub open spec fn is_value_char(c: char) -> bool {
    is_dec_digit(c) || c == '|' || ('a' <= c <= 'f')
}

/// The value of a string of decimal digits (0 for the empty string).
pub open spec fn decimal_value(ds: Seq<char>) -> nat
    decreases ds.len(),
{
    if ds.len() == 0 {
        0
    } else {
        (decimal_value(ds.drop_last()) * 10 + digit_value(ds.last())) as nat
    }
}

/// The text `s` has the shape `<width>'<encoding><digits>` with the quote at
/// position `q`: Unicode decimal digits before it, one encoding character
/// after it, then value characters up to the end.
pub open spec fn literal_matches_at(s: Seq<char>, q: int) -> bool {
    &&& 0 <= q
    &&& q + 2 <= s.len()
    &&& forall|i: int| 0 <= i < q ==> is_decimal_number(#[trigger] s[i])
    &&& s[q] == '\''
    &&& is_encoding_char(s[q + 1])
    &&& forall|i: int| q + 2 <= i < s.len() ==> is_value_char(#[trigger] s[i])
}

/// The digits of the value of a literal whose quote is at `q`.
pub open spec fn literal_digits(s: Seq<char>, q: int) -> Seq<char> {
    s.subrange(q + 2, s.len() as int)
}

/// The digits before the quote are all ASCII digits.
pub open spec fn ascii_width(s: Seq<char>, q: int) -> bool {
    forall|i: int| 0 <= i < q ==> is_dec_digit(#[trigger] s[i])
}

/// The width of a literal whose quote is at `q`: the number that the digits
/// before the quote write, where they are ASCII digits and that number fits
/// in `usize`; else the number of digits of the value.
pub open spec fn literal_width(s: Seq<char>, q: int) -> nat {
    let w = decimal_value(s.subrange(0, q));
    if q > 0 && ascii_width(s, q) && w <= usize::MAX {
        w
    } else {
        literal_digits(s, q).len()
    }
}

pub open spec fn is_binary(ds: Seq<char>) -> bool {
    forall|i: int| 0 <= i < ds.len() ==> (#[trigger] ds[i] == '0' || ds[i] == '1')
}

/// Bit `j` of the value of binary digits written most significant first.
pub open spec fn binary_bit(ds: Seq<char>, j: int) -> bool {
    0 <= j < ds.len() && ds[ds.len() - 1 - j] == '1'
}

/// What parsing `s` gives, where `s` has the literal shape with its quote
/// at `q`.
pub open spec fn literal_outcome(s: Seq<char>, q: int, r: Result<VectorLiteral, LiteralError>) -> bool {
    let ds = literal_digits(s, q);
    if s[q + 1] != 'b' {
        r matches Err(LiteralError::UnsupportedEncoding)
    } else if !is_binary(ds) {
        r matches Err(LiteralError::InvalidBinaryDigit)
    } else {
        &&& r is Ok
        &&& r->Ok_0.width == literal_width(s, q)
        &&& r->Ok_0.words@.len() == word_count(ds.len())
        &&& forall|j: int| #[trigger] words_bit(r->Ok_0.words@, j) == binary_bit(ds, j)
    }
}

fn chars_of(s: &str) -> (r: Vec<char>)
    ensures
        r@ == s@,
{
    let mut r: Vec<char> = Vec::new();
    for c in it: s.chars()
        invariant
            r@ == it.seq().take(it.index()),
            it.seq() == s@,
    {
        r.push(c);
    }
    r
}

fn is_dec_digit_exec(c: char) -> (r: bool)
    ensures
        r == is_dec_digit(c),
{
    let v = c as u32;
    48 <= v && v <= 57
}

fn is_value_char_exec(c: char) -> (r: bool)
    ensures
        r == is_value_char(c),
{
    let v = c as u32;
    (48 <= v && v <= 57) || v == 124 || (97 <= v && v <= 102)
}

fn is_encoding_char_exec(c: char) -> (r: bool)
    ensures
        r == is_encoding_char(c),
{
    c == 'b' || c == '|' || c == 'd' || c == 'o' || c == 'h'
}

/// Parses the characters `cs[0..end]` as a decimal `usize`; `None` where
/// there are none, one is not an ASCII digit, or their value does not fit.
fn parse_width(cs: &Vec<char>, end: usize) -> (r: Option<usize>)
    requires
        end <= cs.len(),
    ensures
        r is Some <==> (end > 0 && ascii_width(cs@, end as int) && decimal_value(
            cs@.subrange(0, end as int),
        ) <= usize::MAX),
        r matches Some(v) ==> v == decimal_value(cs@.subrange(0, end as int)),
{
    if end == 0 {
        return None;
    }
    let mut k: usize = 0;
    while k < end
        invariant
            k <= end,
            end <= cs.len(),
            forall|i: int| 0 <= i < k ==> is_dec_digit(#[trigger] cs@[i]),
        decreases end - k,
    {
        if !is_dec_digit_exec(cs[k]) {
            return None;
        }
        k = k + 1;
    }
    let mut acc: Option<usize> = Some(0);
    let mut i: usize = 0;
    proof {
        assert(cs@.subrange(0, 0) =~= Seq::<char>::empty());
    }
    while i < end
        invariant
            i <= end,
            end <= cs.len(),
            forall|t: int| 0 <= t < end ==> is_dec_digit(#[trigger] cs@[t]),
            match acc {
                Some(v) => v == decimal_value(cs@.subrange(0, i as int)),
                None => decimal_value(cs@.subrange(0, i as int)) > usize::MAX,
            },
        decreases end - i,
    {
        let d: usize = ((cs[i] as u32) - 48) as usize;
        proof {
            assert(is_dec_digit(cs@[i as int]));
            assert(cs@.subrange(0, i + 1).drop_last() =~= cs@.subrange(0, i as int));
            assert(cs@.subrange(0, i + 1).last() == cs@[i as int]);
        }
        acc = match acc {
            Some(v) => match v.checked_mul(10) {
                Some(t) => t.checked_add(d),
                None => None,
            },
            None => None,
        };
        i = i + 1;
    }
    acc
}

/// Parses a Verilog vector literal such as `30'b001` or `'b10`.
///
/// The text must have the shape `<width>'<encoding><digits>`, the width
/// being made of Unicode decimal digits; only the binary encoding `b` is
/// handled. The width is the number that the digits before the quote write,
/// or the number of digits of the value where there is none, where it is
/// not written in ASCII digits, or where it does not fit in `usize`. The
/// value has the digits most significant first.
#[verifier::loop_isolation(false)]
pub fn parse_vector_literal(s: &str) -> (r: Result<VectorLiteral, LiteralError>)
    ensures
        (r matches Err(LiteralError::NotAVector)) <==> !exists|q: int|
            #[trigger] literal_matches_at(s@, q),
        forall|q: int| #[trigger] literal_matches_at(s@, q) ==> literal_outcome(s@, q, r),
        forall|q: int, j: int|
            #![trigger literal_matches_at(s@, q), words_bit(r->Ok_0.words@, j)]
            literal_matches_at(s@, q) && r is Ok ==> (words_bit(r->Ok_0.words@, j) <==> (0 <= j
                < s@.len() - q - 2 && s@[s@.len() - 1 - j] == '1')),
{
    let cs = chars_of(s);
    let len = cs.len();
    let mut q: usize = 0;
    while q < len && is_decimal_number_exec(cs[q])
        invariant
            q <= len,
            len == cs.len(),
            forall|i: int| 0 <= i < q ==> is_decimal_number(#[trigger] cs@[i]),
        decreases len - q,
    {
        q = q + 1;
    }
    proof {
        assert forall|q2: int| literal_matches_at(cs@, q2) implies q2 == q by {
            if q2 < q {
                assert(is_decimal_number(cs@[q2]));
            } else if q2 > q {
                assert(is_decimal_number(cs@[q as int]));
            }
        }
    }
    if len - q < 2 || cs[q] != '\'' || !is_encoding_char_exec(cs[q + 1]) {
        return Err(LiteralError::NotAVector);
    }
    let mut k: usize = q + 2;
    while k < len
        invariant
            q + 2 <= k <= len,
            len == cs.len(),
            forall|i: int| q + 2 <= i < k ==> is_value_char(#[trigger] cs@[i]),
        decreases len - k,
    {
        if !is_value_char_exec(cs[k]) {
            proof {
                assert forall|q2: int| !literal_matches_at(cs@, q2) by {
                    if literal_matches_at(cs@, q2) {
                        assert(is_value_char(cs@[k as int]));
                    }
                }
            }
            return Err(LiteralError::NotAVector);
        }
        k = k + 1;
    }
    assert(literal_matches_at(s@, q as int));
    let ghost ds = literal_digits(cs@, q as int);
    if cs[q + 1] != 'b' {
        return Err(LiteralError::UnsupportedEncoding);
    }
    let filled: usize = len - (q + 2);
    let mut p: usize = 0;
    while p < filled
        invariant
            p <= filled,
            filled == len - (q + 2),
            len == cs.len(),
            ds == literal_digits(cs@, q as int),
            forall|i: int| 0 <= i < p ==> (#[trigger] ds[i] == '0' || ds[i] == '1'),
        decreases filled - p,
    {
        let c = cs[q + 2 + p];
        if c != '0' && c != '1' {
            proof {
                assert(ds[p as int] == c);
                assert(!is_binary(ds));
            }
            return Err(LiteralError::InvalidBinaryDigit);
        }
        p = p + 1;
    }
    let width = match parse_width(&cs, q) {
        Some(w) => w,
        None => filled,
    };
    let n = words_for(filled);
    let mut words: Vec<u32> = Vec::new();
    let mut t: usize = 0;
    while t < n
        invariant
            t <= n,
            words.len() == t,
            forall|i: int| 0 <= i < t ==> #[trigger] words@[i] == 0u32,
        decreases n - t,
    {
        words.push(0u32);
        t = t + 1;
    }
    proof {
        assert forall|j: int| #[trigger] words_bit(words@, j) == false by {
            if 0 <= j < 32 * n {
                lemma_word_bit_zero((j % 32) as u32);
            }
        }
    }
    let mut p: usize = 0;
    while p < filled
        invariant
            p <= filled,
            filled == len - (q + 2),
            len == cs.len(),
            words.len() == n,
            n == word_count(filled as nat),
            ds == literal_digits(cs@, q as int),
            ds.len() == filled,
            forall|j: int| #[trigger]
                words_bit(words@, j) == (filled - p <= j < filled && binary_bit(ds, j)),
        decreases filled - p,
    {
        if cs[q + 2 + p] == '1' {
            set_word_bit(&mut words, filled - 1 - p);
        }
        p = p + 1;
    }
    proof {
        assert forall|q2: int, j: int|
            #![trigger literal_matches_at(s@, q2), words_bit(words@, j)]
            literal_matches_at(s@, q2) implies (words_bit(words@, j) <==> (0 <= j < s@.len() - q2
            - 2 && s@[s@.len() - 1 - j] == '1')) by {
            assert(q2 == q);
            if 0 <= j < filled {
                assert(ds[filled - 1 - j] == s@[s@.len() - 1 - j]);
            }
        }
    }
    Ok(VectorLiteral { width, words })
}

proof fn lemma_digit_char(d: nat)
    requires
        d < 10,
    ensures
        is_dec_digit(digit_char(d)),
        digit_value(digit_char(d)) == d,
{
}

/// The words of a parsed binary literal hold exactly its digits, whatever
/// its width: bit `j` is set if and only if `j` is below the number of
/// digits and the `j`-th digit from the right is `1`; every bit at or above
/// the number of digits is clear. The width does not enter.
pub proof fn law_binary_literal_zero_extended(
    s: Seq<char>,
    q: int,
    r: Result<VectorLiteral, LiteralError>,
)
    requires
        literal_matches_at(s, q),
        literal_outcome(s, q, r),
        r is Ok,
    ensures
        forall|j: int| #[trigger]
            words_bit(r->Ok_0.words@, j) == (0 <= j < s.len() - q - 2 && s[s.len() - 1 - j]
                == '1'),
        forall|j: int| s.len() - q - 2 <= j ==> !#[trigger] words_bit(r->Ok_0.words@, j),
        r->Ok_0.width == literal_width(s, q),
{
    let ds = literal_digits(s, q);
    assert forall|j: int| #[trigger]
        words_bit(r->Ok_0.words@, j) == (0 <= j < s.len() - q - 2 && s[s.len() - 1 - j] == '1') by {
        if 0 <= j < ds.len() {
            assert(ds[ds.len() - 1 - j] == s[s.len() - 1 - j]);
        }
    }
}

/// The decimal text of a number is made of decimal digits and reads back
/// as the number.
pub proof fn law_decimal_round_trip(n: nat)
    ensures
        decimal(n).len() >= 1,
        forall|i: int| 0 <= i < decimal(n).len() ==> is_dec_digit(#[trigger] decimal(n)[i]),
        decimal_value(decimal(n)) == n,
{
    lemma_decimal_digits(n);
}

proof fn lemma_decimal_digits(n: nat)
    ensures
        decimal(n).len() >= 1,
        forall|i: int| 0 <= i < decimal(n).len() ==> is_dec_digit(#[trigger] decimal(n)[i]),
        decimal_value(decimal(n)) == n,
    decreases n,
{
    lemma_digit_char(n % 10);
    if n < 10 {
        assert(decimal(n).drop_last() =~= Seq::<char>::empty());
        assert(decimal_value(Seq::<char>::empty()) == 0);
        assert(decimal(n).last() == digit_char(n));
        assert(decimal_value(decimal(n)) == 0 * 10 + digit_value(digit_char(n)));
    } else {
        lemma_decimal_digits(n / 10);
        assert(decimal(n).drop_last() =~= decimal(n / 10));
        assert(decimal(n).last() == digit_char(n % 10));
        assert(decimal_value(decimal(n)) == decimal_value(decimal(n / 10)) * 10 + digit_value(
            digit_char(n % 10),
        ));
    }
}

/// What a vector writes as its Verilog literal parses back to the vector:
/// the result of parsing `v.debug_string()` is a literal of width `N` whose
/// words hold the bits of `v`.
pub proof fn law_debug_string_parses_back<const N: usize>(
    v: BitVector<N>,
    r: Result<VectorLiteral, LiteralError>,
)
    requires
        forall|q: int|
            #[trigger] literal_matches_at(verilog_literal(N as nat, v@), q) ==> literal_outcome(
                verilog_literal(N as nat, v@),
                q,
                r,
            ),
    ensures
        r is Ok,
        r->Ok_0.width == N,
        bits_of(r->Ok_0.words@, N as nat) == v@,
{
    let s = verilog_literal(N as nat, v@);
    let d = decimal(N as nat);
    let q = d.len() as int;
    lemma_decimal_digits(N as nat);
    assert(v@.len() == N) by {
        v.lemma_view_len();
    }
    let ds = binary_digits(v@);
    assert(s.subrange(0, q) =~= d);
    assert(literal_digits(s, q) =~= ds);
    assert forall|i: int| 0 <= i < q implies is_dec_digit(#[trigger] s[i]) by {
        assert(s[i] == d[i]);
    }
    assert(ascii_width(s, q));
    assert forall|i: int| q + 2 <= i < s.len() implies is_value_char(#[trigger] s[i]) by {
        assert(s[i] == ds[i - q - 2]);
    }
    assert(literal_matches_at(s, q));
    assert(is_binary(ds));
    let lit = r->Ok_0;
    assert(bits_of(lit.words@, N as nat) =~= v@) by {
        assert forall|j: int| 0 <= j < N implies #[trigger] words_bit(lit.words@, j) == v@[j] by {
            assert(binary_bit(ds, j) == (ds[N - 1 - j] == '1'));
        }
    }
}

} // verus!
