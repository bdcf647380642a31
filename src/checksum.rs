use vstd::prelude::*;
use vstd::arithmetic::div_mod::{lemma_fundamental_div_mod, lemma_mod_multiples_vanish};

verus! {

/// The plain sum of the words.
pub open spec fn sum_words(ws: Seq<u16>) -> nat
    decreases ws.len(),
{
    if ws.len() == 0 {
        0
    } else {
        sum_words(ws.drop_last()) + ws.last() as nat
    }
}

proof fn lemma_fold_step(x: nat)
    requires
        x >= 0x10000,
    ensures
        x / 0x10000 + x % 0x10000 < x,
        (x / 0x10000 + x % 0x10000) % 0xffff == x % 0xffff,
{
    let q = x as int / 0x10000;
    let r = x as int % 0x10000;
    lemma_fundamental_div_mod(x as int, 0x10000);
    assert(x == 0xffff * q + (q + r));
    lemma_mod_multiples_vanish(q, q + r, 0xffff);
}

/// Adds the carries above bit 15 back into the low 16 bits until there are none.
pub open spec fn fold_carries(x: nat) -> nat
    decreases x,
{
    if x < 0x10000 {
        x
    } else {
        fold_carries(x / 0x10000 + x % 0x10000)
    }
}

/// The one's-complement checksum of a sequence of 16-bit words.
pub open spec fn checksum_of(ws: Seq<u16>) -> u16 {
    (0xffff - fold_carries(sum_words(ws))) as u16
}

/// Folding carries keeps the value modulo `0xffff` and ends below `0x10000`.
pub proof fn lemma_fold_carries(x: nat)
    ensures
        fold_carries(x) < 0x10000,
        fold_carries(x) % 0xffff == x % 0xffff,
    decreases x,
{
    if x >= 0x10000 {
        lemma_fold_step(x);
        lemma_fold_carries(x / 0x10000 + x % 0x10000);
    }
}

/// Replacing one word changes the sum by the difference of the two words.
pub proof fn lemma_sum_words_update(ws: Seq<u16>, i: int, v: u16)
    requires
        0 <= i < ws.len(),
    ensures
        sum_words(ws.update(i, v)) == sum_words(ws) - ws[i] + v,
    decreases ws.len(),
{
    let us = ws.update(i, v);
    if i == ws.len() - 1 {
        assert(us.drop_last() =~= ws.drop_last());
    } else {
        lemma_sum_words_update(ws.drop_last(), i, v);
        assert(us.drop_last() =~= ws.drop_last().update(i, v));
    }
}

/// Each word adds at most `0xffff` to the sum.
pub proof fn lemma_sum_words_bound(ws: Seq<u16>)
    ensures
        sum_words(ws) <= 0xffff * ws.len(),
    decreases ws.len(),
{
    if ws.len() > 0 {
        lemma_sum_words_bound(ws.drop_last());
    }
}

/// Flipping a single bit of a single word changes the checksum.
pub proof fn lemma_checksum_detects_bit_flip(ws: Seq<u16>, i: int, b: u16)
    requires
        0 <= i < ws.len(),
        b < 16,
    ensures
        checksum_of(ws.update(i, ws[i] ^ (1u16 << b))) != checksum_of(ws),
{
    let w = ws[i];
    let m = 1u16 << b;
    let v = w ^ m;
    assert(1 <= m <= 0x8000) by (bit_vector)
        requires
            m == 1u16 << b,
            b < 16,
    ;
    assert((w & m) == 0 ==> v == w + m) by (bit_vector)
        requires
            v == w ^ m,
    ;
    assert((w & m) != 0 ==> v + m == w) by (bit_vector)
        requires
            v == w ^ m,
            m == 1u16 << b,
            b < 16,
    ;
    let us = ws.update(i, v);
    lemma_sum_words_update(ws, i, v);
    let a = sum_words(ws) as int;
    let c = sum_words(us) as int;
    lemma_fold_carries(a as nat);
    lemma_fold_carries(c as nat);
    if fold_carries(a as nat) == fold_carries(c as nat) {
        assert(a % 0xffff == c % 0xffff);
        let d = if c > a {
            c - a
        } else {
            a - c
        };
        let (hi, lo) = if c > a {
            (c, a)
        } else {
            (a, c)
        };
        assert(0 < d < 0xffff);
        lemma_fundamental_div_mod(hi, 0xffff);
        lemma_fundamental_div_mod(lo, 0xffff);
        let k = hi / 0xffff - lo / 0xffff;
        assert(d == 0xffff * k);
        assert(false) by (nonlinear_arith)
            requires
                d == 0xffff * k,
                0 < d < 0xffff,
        ;
    }
}

/// Computes the one's-complement checksum of `words`.
pub fn internet_checksum(words: &Vec<u16>) -> (r: u16)
    requires
        words@.len() <= 0x10000,
    ensures
        r == checksum_of(words@),
{
    let mut sum: u32 = 0;
    let mut k: usize = 0;
    while k < words.len()
        invariant
            k <= words@.len() <= 0x10000,
            sum as nat == sum_words(words@.subrange(0, k as int)),
        decreases words@.len() - k,
    {
        proof {
            let pre = words@.subrange(0, k as int);
            lemma_sum_words_bound(pre);
            assert(words@.subrange(0, k + 1).drop_last() =~= pre);
        }
        sum = sum + words[k] as u32;
        k = k + 1;
    }
    assert(words@.subrange(0, words@.len() as int) =~= words@);
    let ghost total = sum as nat;
    while sum > 0xffff
        invariant
            fold_carries(sum as nat) == fold_carries(total),
        decreases sum,
    {
        proof {
            lemma_fold_step(sum as nat);
            assert(sum >> 16 == sum / 0x10000) by (bit_vector);
            assert(sum & 0xffff == sum % 0x10000) by (bit_vector);
        }
        sum = (sum >> 16) + (sum & 0xffff);
    }
    proof {
        lemma_fold_carries(total);
    }
    let low: u16 = sum as u16;
    assert(!low == 0xffff - low) by (bit_vector);
    !low
}

} // verus!
