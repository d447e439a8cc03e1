//! The RFC 1071 Internet checksum: a 16-bit ones'-complement sum of a byte
//! buffer read as big-endian 16-bit words.
//!
//! Both entry points return the *uncomplemented* running sum; callers apply
//! the bitwise complement themselves when producing a checksum field value.

use crate::wire::{read_u16, word_of};
use vstd::arithmetic::div_mod::{
    lemma_add_mod_noop, lemma_fundamental_div_mod, lemma_mod_multiples_vanish,
};
use vstd::prelude::*;
use vstd::slice::slice_subrange;

verus! {

/// Largest buffer length the 32-bit accumulator can sum without overflow:
/// at most 65537 words of at most 0xFFFF each fit in a `u32`.
pub const MAX_SUM_LEN: usize = 131074;

/// Plain integer sum of the buffer read as big-endian 16-bit words; an odd
/// trailing byte counts as the high byte of a final word whose low byte is
/// zero.
pub open spec fn sum_words(s: Seq<u8>) -> int
    decreases s.len(),
{
    if s.len() >= 2 {
        word_of(s[0], s[1]) + sum_words(s.skip(2))
    } else if s.len() == 1 {
        (s[0] as int) * 256
    } else {
        0
    }
}

/// Ones'-complement carry propagation: fold the high 16 bits into the low
/// 16 bits until the value fits in 16 bits.
pub open spec fn fold_carries(x: int) -> int
    recommends
        x >= 0,
    decreases x,
    when x >= 0
{
    if x < 0x10000 {
        x
    } else {
        fold_carries(x / 0x10000 + x % 0x10000)
    }
}

/// The RFC 1071 checksum of a buffer, before the final complement.
pub open spec fn checksum_of(s: Seq<u8>) -> int {
    fold_carries(sum_words(s))
}

/// The word sum of a buffer is never negative.
pub proof fn lemma_sum_words_nonneg(s: Seq<u8>)
    ensures
        sum_words(s) >= 0,
    decreases s.len(),
{
    if s.len() >= 2 {
        lemma_sum_words_nonneg(s.skip(2));
    }
}

/// The word sum of a buffer is bounded by one maximal word per byte pair.
pub proof fn lemma_sum_words_bound(s: Seq<u8>)
    ensures
        sum_words(s) <= 0xFFFF * ((s.len() + 1) / 2),
    decreases s.len(),
{
    if s.len() >= 2 {
        lemma_sum_words_bound(s.skip(2));
    }
}

/// What carry propagation produces: a value in `[0, 0xFFFF]`, congruent to
/// the input modulo 0xFFFF, and zero exactly for the zero input.
pub proof fn lemma_fold_carries_spec(x: int)
    requires
        x >= 0,
    ensures
        0 <= fold_carries(x) <= 0xFFFF,
        fold_carries(x) % 0xFFFF == x % 0xFFFF,
        (fold_carries(x) == 0) <==> (x == 0),
    decreases x,
{
    if x < 0x10000 {
        if x == 0xFFFF {
            assert(0xFFFFint % 0xFFFFint == 0);
        }
    } else {
        let q = x / 0x10000;
        let r = x % 0x10000;
        let y = q + r;
        assert(x == 0x10000 * q + r);
        assert(q >= 1);
        assert(y < x);
        lemma_fold_carries_spec(y);
        assert(x == 0xFFFF * q + y);
        lemma_mod_multiples_vanish(q, y, 0xFFFF);
    }
}

/// Two values in range with equal residues and the same zero status fold to
/// the same result.
pub proof fn lemma_fold_carries_congruent(x: int, y: int)
    requires
        x >= 0,
        y >= 0,
        x % 0xFFFF == y % 0xFFFF,
        (x == 0) <==> (y == 0),
    ensures
        fold_carries(x) == fold_carries(y),
{
    lemma_fold_carries_spec(x);
    lemma_fold_carries_spec(y);
}

/// Fold the carries of a 32-bit accumulator back into 16 bits.
pub fn propagate_carries(word: u32) -> (r: u16)
    ensures
        r as int == fold_carries(word as int),
{
    assert(word >> 16 == word as int / 0x10000 && (word & 0xffff) == word as int % 0x10000
        && word >> 16 <= 0xFFFF && (word & 0xffff) <= 0xFFFF) by (bit_vector);
    let sum: u32 = (word >> 16) + (word & 0xffff);
    assert(((sum >> 16) as u16) as int + (sum as u16) as int == sum as int / 0x10000
        + sum as int % 0x10000 && sum as int / 0x10000 + sum as int % 0x10000 < 0x10000)
        by (bit_vector)
        requires
            sum <= 0x1FFFE,
    ;
    let r: u16 = ((sum >> 16) as u16) + (sum as u16);
    proof {
        let w = word as int;
        let sm = sum as int;
        if w < 0x10000 {
            assert(fold_carries(w) == w);
            assert(sm == w);
            assert(r as int == w);
        } else {
            assert(fold_carries(w) == fold_carries(sm));
            if sm < 0x10000 {
                assert(fold_carries(sm) == sm);
            } else {
                assert(fold_carries(sm) == fold_carries(sm / 0x10000 + sm % 0x10000));
                assert(fold_carries(sm / 0x10000 + sm % 0x10000) == sm / 0x10000 + sm
                    % 0x10000);
            }
        }
    }
    r
}

/// Compute the RFC 1071 checksum of a buffer (without the final complement).
pub fn data(bytes: &[u8]) -> (r: u16)
    requires
        bytes@.len() <= MAX_SUM_LEN,
    ensures
        r as int == checksum_of(bytes@),
{
    let ghost s = bytes@;
    let mut accum: u32 = 0;
    let mut i: usize = 0;
    proof {
        assert(s.skip(0) =~= s);
    }
    while i + 2 <= bytes.len()
        invariant
            i % 2 == 0,
            i <= bytes@.len() <= MAX_SUM_LEN,
            s == bytes@,
            accum as int + sum_words(s.skip(i as int)) == sum_words(s),
            accum <= 0xFFFF * (i as int / 2),
        decreases bytes@.len() - i,
    {
        let word = read_u16(slice_subrange(bytes, i, i + 2));
        proof {
            assert(s.skip(i as int).skip(2) =~= s.skip(i as int + 2));
            lemma_sum_words_bound(s);
            lemma_sum_words_nonneg(s.skip(i as int + 2));
        }
        accum = accum + word as u32;
        i = i + 2;
    }
    if i < bytes.len() {
        proof {
            lemma_sum_words_bound(s);
        }
        let last: u8 = bytes[i];
        accum = accum + (last as u32) * 256;
    }
    propagate_carries(accum)
}

/// Splitting a buffer at a word boundary splits its word sum.
pub proof fn lemma_sum_words_concat(a: Seq<u8>, b: Seq<u8>)
    requires
        a.len() % 2 == 0,
    ensures
        sum_words(a + b) == sum_words(a) + sum_words(b),
    decreases a.len(),
{
    if a.len() == 0 {
        assert(a + b =~= b);
    } else {
        assert((a + b).skip(2) =~= a.skip(2) + b);
        lemma_sum_words_concat(a.skip(2), b);
    }
}

/// Combining the checksums of two regions, the first ending at a word
/// boundary, with one more accumulate-and-fold step is the same as
/// concatenating the regions and summing once.
pub proof fn lemma_combine_concat(a: Seq<u8>, b: Seq<u8>)
    requires
        a.len() % 2 == 0,
    ensures
        checksum_of(a + b) == fold_carries(checksum_of(a) + checksum_of(b)),
{
    let x = sum_words(a);
    let y = sum_words(b);
    lemma_sum_words_concat(a, b);
    lemma_sum_words_nonneg(a);
    lemma_sum_words_nonneg(b);
    lemma_fold_carries_spec(x);
    lemma_fold_carries_spec(y);
    lemma_add_mod_noop(x, y, 0xFFFF);
    lemma_add_mod_noop(fold_carries(x), fold_carries(y), 0xFFFF);
    lemma_fold_carries_congruent(x + y, fold_carries(x) + fold_carries(y));
}

/// The byte `b` with its `k`-th bit inverted.
pub open spec fn flip_bit(b: u8, k: u8) -> u8
    recommends
        k < 8,
{
    b ^ (1u8 << k)
}

/// What carry propagation also guarantees: the result never exceeds the
/// input.
pub proof fn lemma_fold_carries_le(x: int)
    requires
        x >= 0,
    ensures
        fold_carries(x) <= x,
    decreases x,
{
    if x >= 0x10000 {
        let y = x / 0x10000 + x % 0x10000;
        assert(x == 0x10000 * (x / 0x10000) + x % 0x10000);
        lemma_fold_carries_le(y);
    }
}

/// Sums whose residues modulo 0xFFFF differ fold to different checksums.
pub proof fn lemma_fold_carries_differs(a: int, b: int)
    requires
        a >= 0,
        b >= 0,
        a % 0xFFFF != b % 0xFFFF,
    ensures
        fold_carries(a) != fold_carries(b),
{
    lemma_fold_carries_spec(a);
    lemma_fold_carries_spec(b);
}

/// Shifting a sum by a nonzero amount smaller than 0xFFFF changes its
/// residue modulo 0xFFFF.
proof fn lemma_mod_shift_nonzero(a: int, e: int)
    requires
        a >= 0,
        a + e >= 0,
        e != 0,
        -0xFFFF < e < 0xFFFF,
    ensures
        (a + e) % 0xFFFF != a % 0xFFFF,
{
    let m = 0xFFFFint;
    lemma_fundamental_div_mod(a, m);
    lemma_fundamental_div_mod(a + e, m);
    let q1 = a / m;
    let q2 = (a + e) / m;
    if (a + e) % m == a % m {
        assert(e == m * (q2 - q1));
        assert(q2 - q1 != 0 ==> (e >= m || e <= -m)) by (nonlinear_arith)
            requires
                e == m * (q2 - q1),
                m == 0xFFFF,
        ;
    }
}

/// Replacing one byte shifts the word sum by the byte difference, weighted
/// by the byte's position inside its big-endian word.
pub proof fn lemma_sum_words_update(s: Seq<u8>, i: int, b: u8)
    requires
        0 <= i < s.len(),
    ensures
        sum_words(s.update(i, b)) == sum_words(s) + ((b as int) - (s[i] as int)) * (
        if i % 2 == 0 {
            256int
        } else {
            1int
        }),
    decreases s.len(),
{
    let t = s.update(i, b);
    if s.len() == 1 {
        assert(t =~= seq![b]);
    } else if i < 2 {
        assert(t.skip(2) =~= s.skip(2));
    } else {
        assert(t.skip(2) =~= s.skip(2).update(i - 2, b));
        lemma_sum_words_update(s.skip(2), i - 2, b);
    }
}

/// Inverting any single bit of any byte changes the checksum of the buffer:
/// the ones'-complement sum is sensitive to every bit.
pub proof fn lemma_checksum_bit_flip(s: Seq<u8>, i: int, k: u8)
    requires
        0 <= i < s.len(),
        k < 8,
    ensures
        checksum_of(s.update(i, flip_bit(s[i], k))) != checksum_of(s),
{
    let b = s[i];
    let b2 = flip_bit(b, k);
    assert((b ^ (1u8 << k)) != b && 1 <= (1u8 << k) <= 128 && ((b ^ (1u8 << k)) as int - b as int
        == (1u8 << k) as int || b as int - (b ^ (1u8 << k)) as int == (1u8 << k) as int))
        by (bit_vector)
        requires
            k < 8,
    ;
    let d = b2 as int - b as int;
    let w: int = if i % 2 == 0 {
        256
    } else {
        1
    };
    lemma_sum_words_update(s, i, b2);
    lemma_sum_words_nonneg(s);
    lemma_sum_words_nonneg(s.update(i, b2));
    assert(d * w != 0 && -0xFFFF < d * w < 0xFFFF) by (nonlinear_arith)
        requires
            (d != 0 && -128 <= d <= 128) && (w == 1 || w == 256),
    ;
    lemma_mod_shift_nonzero(sum_words(s), d * w);
    lemma_fold_carries_differs(sum_words(s) + d * w, sum_words(s));
}

/// Adding the complement of a folded sum back into the sum makes the whole
/// fold to all-ones: why filling a checksum field always satisfies the
/// all-ones verification identity.
pub proof fn lemma_complement_folds_all_ones(a: int)
    requires
        a >= 0,
    ensures
        fold_carries(a + 0xFFFF - fold_carries(a)) == 0xFFFF,
{
    let c = fold_carries(a);
    lemma_fold_carries_spec(a);
    lemma_fold_carries_le(a);
    if c == 0xFFFF {
        assert(a + 0xFFFF - c == a);
    } else {
        let m = 0xFFFFint;
        lemma_fundamental_div_mod(a, m);
        let q = a / m;
        assert(a % m == c % m);
        assert(c % m == c);
        assert(a + m - c == m * (q + 1));
        lemma_mod_multiples_vanish(q + 1, 0, m);
        assert((m * (q + 1)) % m == 0);
        assert(m % m == 0) by {
            lemma_mod_multiples_vanish(1, 0, m);
        }
        lemma_fold_carries_congruent(a + m - c, m);
        assert(fold_carries(m) == m);
    }
}

/// The bitwise complement of a 16-bit value is its distance from all-ones.
pub proof fn lemma_complement(value: u16)
    by (bit_vector)
    ensures
        (!value) as int == 0xFFFF - value as int,
{
}

/// Plain integer sum of a list of 16-bit partial checksums.
pub open spec fn sum_list(s: Seq<u16>) -> int
    decreases s.len(),
{
    if s.len() == 0 {
        0
    } else {
        (s[0] as int) + sum_list(s.skip(1))
    }
}

/// The sum of a list of 16-bit values is never negative.
pub proof fn lemma_sum_list_nonneg(s: Seq<u16>)
    ensures
        sum_list(s) >= 0,
    decreases s.len(),
{
    if s.len() > 0 {
        lemma_sum_list_nonneg(s.skip(1));
    }
}

/// The sum of a list of 16-bit values is at most one maximal word each.
pub proof fn lemma_sum_list_bound(s: Seq<u16>)
    ensures
        sum_list(s) <= 0xFFFF * s.len(),
    decreases s.len(),
{
    if s.len() > 0 {
        lemma_sum_list_bound(s.skip(1));
    }
}

/// Combine several RFC 1071 partial checksums with the same
/// accumulate-and-fold rule as a single pass over the data.
pub fn combine(checksums: &[u16]) -> (r: u16)
    requires
        checksums@.len() <= 65537,
    ensures
        r as int == fold_carries(sum_list(checksums@)),
{
    let ghost s = checksums@;
    let mut accum: u32 = 0;
    let mut i: usize = 0;
    proof {
        assert(s.skip(0) =~= s);
    }
    while i < checksums.len()
        invariant
            i <= s.len() <= 65537,
            s == checksums@,
            accum as int + sum_list(s.skip(i as int)) == sum_list(s),
            accum <= 0xFFFF * (i as int),
        decreases s.len() - i,
    {
        proof {
            assert(s.skip(i as int).skip(1) =~= s.skip(i as int + 1));
            lemma_sum_list_nonneg(s.skip(i as int + 1));
        }
        accum = accum + checksums[i] as u32;
        i = i + 1;
    }
    propagate_carries(accum)
}

} // verus!
