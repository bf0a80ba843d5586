//! The one's-complement 16-bit checksum shared by the IPv4 and ICMP headers.
//!
//! A buffer is read as consecutive big-endian 16-bit words; a trailing odd
//! byte is the high byte of a word whose low byte is zero. The words are
//! summed, the carries above the low 16 bits are folded back in until none
//! remain, and the result is the one's complement of the folded sum.

use vstd::prelude::*;

verus! {

use vstd::arithmetic::div_mod::{
    lemma_fundamental_div_mod,
    lemma_mod_add_multiples_vanish,
    lemma_mod_multiples_vanish,
    lemma_mod_sub_multiples_vanish,
    lemma_small_mod,
    lemma_sub_mod_noop,
};

/// Sum of the big-endian 16-bit words of `b`; a trailing odd byte counts as
/// the high byte of a word whose low byte is zero.
pub open spec fn sum_words(b: Seq<u8>) -> int
    decreases b.len(),
{
    if b.len() == 0 {
        0
    } else if b.len() == 1 {
        b[0] * 256
    } else {
        b[0] * 256 + b[1] + sum_words(b.skip(2))
    }
}

/// Add the bits above the low 16 back into the low 16 until none are left.
pub open spec fn fold_carries(s: nat) -> nat
    decreases s,
{
    if s < 0x10000 {
        s
    } else {
        fold_carries((s / 0x10000 + s % 0x10000) as nat)
    }
}

/// The checksum of a byte sequence: the one's complement of the folded word
/// sum, in 16 bits.
pub open spec fn checksum_spec(b: Seq<u8>) -> u16 {
    (0xffff - fold_carries(sum_words(b) as nat)) as u16
}

pub proof fn lemma_sum_words_nonneg(b: Seq<u8>)
    ensures
        sum_words(b) >= 0,
    decreases b.len(),
{
    if b.len() >= 2 {
        lemma_sum_words_nonneg(b.skip(2));
    }
}

/// Folding never leaves more than 16 bits, keeps the residue modulo 0xffff,
/// and sends a positive sum to a positive result.
pub proof fn lemma_fold_carries_value(s: nat)
    ensures
        fold_carries(s) <= 0xffff,
        fold_carries(s) <= s,
        fold_carries(s) % 0xffff == s % 0xffff,
        s > 0 ==> fold_carries(s) > 0,
    decreases s,
{
    if s >= 0x10000 {
        let q = s as int / 0x10000;
        let r = s as int % 0x10000;
        lemma_fundamental_div_mod(s as int, 0x10000);
        assert(s as int == 0xffff * q + (q + r));
        lemma_mod_multiples_vanish(q, q + r, 0xffff);
        lemma_fold_carries_value((q + r) as nat);
    }
}

/// Adding the one's complement of a sum's folded value back into the sum
/// gives a total that folds to exactly 0xffff: the self-consistency behind
/// storing `0xffff - fold_carries(s)` in a checksum field.
pub proof fn lemma_complement_folds(s0: int)
    requires
        s0 >= 0,
    ensures
        fold_carries((s0 + 0xffff - fold_carries(s0 as nat)) as nat) == 0xffff,
{
    let f = fold_carries(s0 as nat);
    lemma_fold_carries_value(s0 as nat);
    let s1 = s0 + 0xffff - f;
    lemma_sub_mod_noop(s0, f as int, 0xffff);
    lemma_mod_add_multiples_vanish(s0 - f, 0xffff);
    assert(s1 % 0xffff == 0);
    lemma_fold_carries_value(s1 as nat);
    let f1 = fold_carries(s1 as nat);
    if f1 < 0xffff {
        lemma_small_mod(f1, 0xffff);
    }
}

/// The word sum splits across a concatenation at any even boundary.
pub proof fn lemma_sum_words_append(a: Seq<u8>, b: Seq<u8>)
    requires
        a.len() % 2 == 0,
    ensures
        sum_words(a + b) == sum_words(a) + sum_words(b),
    decreases a.len(),
{
    if a.len() == 0 {
        assert(a + b =~= b);
    } else {
        assert((a + b).skip(2) =~= a.skip(2) + b);
        lemma_sum_words_append(a.skip(2), b);
    }
}

/// Appending the explicit zero pad to an odd-length buffer leaves the word
/// sum unchanged.
pub proof fn lemma_sum_words_zero_pad(b: Seq<u8>)
    requires
        b.len() % 2 == 1,
    ensures
        sum_words(b.push(0)) == sum_words(b),
    decreases b.len(),
{
    assert(b.push(0)[0] == b[0]);
    if b.len() == 1 {
        assert(b.push(0)[1] == 0);
        assert(b.push(0).skip(2) =~= Seq::<u8>::empty());
        assert(sum_words(Seq::<u8>::empty()) == 0);
        assert(sum_words(b.push(0)) == b[0] * 256);
    } else {
        assert(b.push(0)[1] == b[1]);
        assert(b.push(0).skip(2) =~= b.skip(2).push(0));
        lemma_sum_words_zero_pad(b.skip(2));
    }
}

/// A buffer of odd length checksums exactly as its zero-padded even
/// extension does: the pad rule is explicit, not an accident of reading
/// past the end.
pub proof fn lemma_checksum_zero_pad(b: Seq<u8>)
    requires
        b.len() % 2 == 1,
    ensures
        checksum_spec(b.push(0)) == checksum_spec(b),
{
    lemma_sum_words_zero_pad(b);
}

proof fn lemma_sum_words_skip_step(b: Seq<u8>, i: int)
    requires
        0 <= i,
        i + 2 <= b.len(),
    ensures
        sum_words(b.skip(i)) == b[i] * 256 + b[i + 1] + sum_words(b.skip(i + 2)),
{
    assert(b.skip(i).skip(2) =~= b.skip(i + 2));
}

/// Compute the one's-complement checksum of `data`, folding carries as the
/// words are summed; a trailing odd byte is padded with a zero low byte.
pub fn checksum(data: &[u8]) -> (r: u16)
    ensures
        r == checksum_spec(data@),
{
    let n: usize = data.len();
    let mut i: usize = 0;
    let mut acc: u32 = 0;
    proof {
        lemma_sum_words_nonneg(data@);
        assert(data@.skip(0) =~= data@);
    }
    while i < n && i + 1 < n
        invariant
            i <= n,
            n == data@.len(),
            acc <= 0xffff,
            sum_words(data@.skip(i as int)) >= 0,
            (acc + sum_words(data@.skip(i as int))) % 0xffff == sum_words(data@) % 0xffff,
            (acc + sum_words(data@.skip(i as int)) == 0) <==> (sum_words(data@) == 0),
        decreases n - i,
    {
        let w: u32 = (data[i] as u32) * 256 + (data[i + 1] as u32);
        proof {
            lemma_sum_words_skip_step(data@, i as int);
            lemma_sum_words_nonneg(data@.skip(i as int + 2));
            lemma_mod_sub_multiples_vanish(
                acc + w + sum_words(data@.skip(i as int + 2)),
                0xffff,
            );
        }
        acc = acc + w;
        if acc >= 0x10000 {
            acc = acc - 0xffff;
        }
        i = i + 2;
    }
    if i < n {
        proof {
            assert(data@.skip(i as int).len() == 1);
            assert(sum_words(data@.skip(i as int)) == data@[i as int] * 256);
            lemma_mod_sub_multiples_vanish(acc + (data@[i as int] * 256), 0xffff);
        }
        let w: u32 = (data[i] as u32) * 256;
        acc = acc + w;
        if acc >= 0x10000 {
            acc = acc - 0xffff;
        }
        i = i + 1;
    }
    proof {
        assert(data@.skip(i as int) =~= Seq::<u8>::empty());
        let s = sum_words(data@);
        lemma_fold_carries_value(s as nat);
        let f = fold_carries(s as nat);
        assert(acc % 0xffff == s % 0xffff);
        if s == 0 {
            assert(acc == 0);
        } else {
            assert(acc > 0);
            assert(f > 0);
            assert(acc as int % 0xffff == f % 0xffff);
            assert(acc == f);
        }
    }
    0xffff - (acc as u16)
}

} // verus!
