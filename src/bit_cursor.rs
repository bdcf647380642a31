use vstd::prelude::*;
use vstd::arithmetic::power2::{pow2, lemma2_to64, lemma_pow2_unfold};
use vstd::slice::slice_subrange;

use crate::error::DecodeError;

verus! {

/// Bit `i` of `s`, counting from the most significant bit of the first byte.
pub open spec fn bit_at(s: Seq<u8>, i: int) -> u8 {
    (s[i / 8] >> ((7 - i % 8) as u8)) & 1u8
}

/// The `width` bits of `s` starting at bit `start`, read as a big-endian unsigned number.
pub open spec fn bits_value(s: Seq<u8>, start: int, width: nat) -> nat
    decreases width,
{
    if width == 0 {
        0
    } else {
        2 * bits_value(s, start, (width - 1) as nat) + bit_at(s, start + width - 1) as nat
    }
}

proof fn lemma_bit_at_le_one(s: Seq<u8>, i: int)
    ensures
        bit_at(s, i) <= 1,
{
    let b = s[i / 8];
    let k = (7 - i % 8) as u8;
    assert((b >> k) & 1u8 <= 1u8) by (bit_vector);
}

/// A value read from `width` bits is below `2^width`.
pub proof fn lemma_bits_value_bound(s: Seq<u8>, start: int, width: nat)
    ensures
        bits_value(s, start, width) < pow2(width),
    decreases width,
{
    if width > 0 {
        lemma_bits_value_bound(s, start, (width - 1) as nat);
        lemma_bit_at_le_one(s, start + width - 1);
        lemma_pow2_unfold(width);
    } else {
        lemma2_to64();
    }
}

/// Reading from a prefix of `s` that covers the bits read gives what reading from `s` gives.
pub proof fn lemma_bits_value_prefix(s: Seq<u8>, n: int, start: int, width: nat)
    requires
        0 <= start,
        start + width <= 8 * n,
        n <= s.len(),
    ensures
        bits_value(s.subrange(0, n), start, width) == bits_value(s, start, width),
    decreases width,
{
    if width > 0 {
        lemma_bits_value_prefix(s, n, start, (width - 1) as nat);
        let i = start + width - 1;
        assert(i / 8 < n);
        assert(s.subrange(0, n)[i / 8] == s[i / 8]);
    }
}

/// The big-endian 16-bit number in bytes `k` and `k + 1` of `s`.
pub open spec fn u16_at(s: Seq<u8>, k: int) -> nat {
    s[k] as nat * 256 + s[k + 1] as nat
}

/// Reading `a + b` bits is reading `a` bits, shifting them up by `b`, and adding the next `b`.
pub proof fn lemma_bits_value_split(s: Seq<u8>, start: int, a: nat, b: nat)
    ensures
        bits_value(s, start, a + b) == bits_value(s, start, a) * pow2(b) + bits_value(
            s,
            start + a,
            b,
        ),
    decreases b,
{
    if b == 0 {
        lemma2_to64();
        assert(bits_value(s, start, a + b) == bits_value(s, start, a));
    } else {
        lemma_bits_value_split(s, start, a, (b - 1) as nat);
        lemma_pow2_unfold(b);
        let x = bits_value(s, start, a) as int;
        let p = pow2((b - 1) as nat) as int;
        assert(2 * (x * p) == x * (2 * p)) by (nonlinear_arith);
        assert((a + b - 1) as nat == a + (b - 1) as nat);
    }
}

/// The fields of one byte, read through bits.
pub proof fn lemma_bits_of_byte(s: Seq<u8>, k: int)
    requires
        0 <= k < s.len(),
    ensures
        bits_value(s, 8 * k, 8) == s[k] as nat,
        bits_value(s, 8 * k, 4) == (s[k] >> 4u8) as nat,
        bits_value(s, 8 * k + 4, 4) == (s[k] & 0xfu8) as nat,
        bits_value(s, 8 * k, 6) == (s[k] >> 2u8) as nat,
        bits_value(s, 8 * k + 6, 2) == (s[k] & 3u8) as nat,
{
    let b = s[k];
    assert forall|j: int| 0 <= j < 8 implies #[trigger] bit_at(s, 8 * k + j) == (b >> ((7
        - j) as u8)) & 1u8 by {
        assert((8 * k + j) / 8 == k);
        assert((8 * k + j) % 8 == j);
    }
    let b0 = bit_at(s, 8 * k);
    let b1 = bit_at(s, 8 * k + 1);
    let b2 = bit_at(s, 8 * k + 2);
    let b3 = bit_at(s, 8 * k + 3);
    let b4 = bit_at(s, 8 * k + 4);
    let b5 = bit_at(s, 8 * k + 5);
    let b6 = bit_at(s, 8 * k + 6);
    let b7 = bit_at(s, 8 * k + 7);
    reveal_with_fuel(bits_value, 9);
    assert(b as nat == 128 * b0 as nat + 64 * b1 as nat + 32 * b2 as nat + 16 * b3 as nat + 8
        * b4 as nat + 4 * b5 as nat + 2 * b6 as nat + b7 as nat) by (bit_vector)
        requires
            b0 == (b >> 7u8) & 1u8,
            b1 == (b >> 6u8) & 1u8,
            b2 == (b >> 5u8) & 1u8,
            b3 == (b >> 4u8) & 1u8,
            b4 == (b >> 3u8) & 1u8,
            b5 == (b >> 2u8) & 1u8,
            b6 == (b >> 1u8) & 1u8,
            b7 == (b >> 0u8) & 1u8,
    ;
    assert((b >> 4u8) as nat == 8 * b0 as nat + 4 * b1 as nat + 2 * b2 as nat + b3 as nat
        && (b & 0xfu8) as nat == 8 * b4 as nat + 4 * b5 as nat + 2 * b6 as nat + b7 as nat
        && (b >> 2u8) as nat == 32 * b0 as nat + 16 * b1 as nat + 8 * b2 as nat + 4
        * b3 as nat + 2 * b4 as nat + b5 as nat && (b & 3u8) as nat == 2 * b6 as nat
        + b7 as nat) by (bit_vector)
        requires
            b0 == (b >> 7u8) & 1u8,
            b1 == (b >> 6u8) & 1u8,
            b2 == (b >> 5u8) & 1u8,
            b3 == (b >> 4u8) & 1u8,
            b4 == (b >> 3u8) & 1u8,
            b5 == (b >> 2u8) & 1u8,
            b6 == (b >> 1u8) & 1u8,
            b7 == (b >> 0u8) & 1u8,
    ;
}

/// Sixteen bits from a byte boundary are two bytes, most significant first.
pub proof fn lemma_bits_of_two_bytes(s: Seq<u8>, k: int)
    requires
        0 <= k,
        k + 1 < s.len(),
    ensures
        bits_value(s, 8 * k, 16) == u16_at(s, k),
{
    lemma_bits_value_split(s, 8 * k, 8, 8);
    lemma_bits_of_byte(s, k);
    lemma_bits_of_byte(s, k + 1);
    lemma2_to64();
    assert(8 * k + 8 == 8 * (k + 1));
}

/// A read-only view of a byte buffer together with a position counted in bits.
#[derive(Debug, Clone, Copy)]
pub struct BitCursor<'a> {
    buf: &'a [u8],
    pos: usize,
}

impl<'a> BitCursor<'a> {
    /// The bytes under the cursor.
    pub closed spec fn bytes(self) -> Seq<u8> {
        self.buf@
    }

    /// How many bits have been consumed.
    pub closed spec fn position(self) -> nat {
        self.pos as nat
    }

    pub open spec fn wf(self) -> bool {
        self.position() <= 8 * self.bytes().len()
    }

    pub open spec fn bits_left(self) -> int {
        8 * self.bytes().len() - self.position()
    }

    pub open spec fn is_aligned(self) -> bool {
        self.position() % 8 == 0
    }

    pub fn new(buf: &'a [u8]) -> (r: BitCursor<'a>)
        requires
            8 * buf@.len() <= usize::MAX,
        ensures
            r.bytes() == buf@,
            r.position() == 0,
            r.wf(),
    {
        BitCursor { buf, pos: 0 }
    }

    /// Reads the next `width` bits (at most 16) as a big-endian unsigned number.
    pub fn take_bits(self, width: usize) -> (r: Result<(u16, BitCursor<'a>), DecodeError>)
        requires
            self.wf(),
            8 * self.bytes().len() <= usize::MAX,
            1 <= width <= 16,
        ensures
            r is Err <==> self.bits_left() < width,
            r is Err ==> r == Err::<(u16, BitCursor<'a>), DecodeError>(
                DecodeError::InsufficientInput,
            ),
            r matches Ok((v, c)) ==> {
                &&& v as nat == bits_value(self.bytes(), self.position() as int, width as nat)
                &&& (v as nat) < pow2(width as nat)
                &&& c.bytes() == self.bytes()
                &&& c.position() == self.position() + width
                &&& c.wf()
            },
    {
        let len = self.buf.len();
        if len * 8 - self.pos < width {
            return Err(DecodeError::InsufficientInput);
        }
        let mut v: u32 = 0;
        let mut k: usize = 0;
        while k < width
            invariant
                k <= width <= 16,
                self.pos + width <= 8 * len,
                8 * len <= usize::MAX,
                len == self.buf@.len(),
                v as nat == bits_value(self.buf@, self.pos as int, k as nat),
            decreases width - k,
        {
            proof {
                lemma_bits_value_bound(self.buf@, self.pos as int, k as nat);
                lemma_bit_at_le_one(self.buf@, self.pos + k);
                lemma_pow2_unfold((k + 1) as nat);
                vstd::arithmetic::power2::lemma_pow2_strictly_increases((k + 1) as nat, 17);
                lemma2_to64();
            }
            let i: usize = self.pos + k;
            let shift: u8 = (7 - i % 8) as u8;
            let bit: u8 = (self.buf[i / 8] >> shift) & 1u8;
            assert(bit == bit_at(self.buf@, i as int));
            v = v * 2 + bit as u32;
            k = k + 1;
        }
        proof {
            lemma_bits_value_bound(self.buf@, self.pos as int, width as nat);
            if width < 16 {
                vstd::arithmetic::power2::lemma_pow2_strictly_increases(width as nat, 16);
            }
            lemma2_to64();
        }
        Ok((v as u16, BitCursor { buf: self.buf, pos: self.pos + width }))
    }

    /// Reads the next `n` whole bytes; the cursor must stand on a byte boundary.
    pub fn take_bytes(self, n: usize) -> (r: Result<(&'a [u8], BitCursor<'a>), DecodeError>)
        requires
            self.wf(),
            self.is_aligned(),
            8 * self.bytes().len() <= usize::MAX,
        ensures
            r is Err <==> self.bits_left() < 8 * n,
            r is Err ==> r == Err::<(&'a [u8], BitCursor<'a>), DecodeError>(
                DecodeError::InsufficientInput,
            ),
            r matches Ok((b, c)) ==> {
                &&& b@ == self.bytes().subrange(
                    (self.position() / 8) as int,
                    (self.position() / 8 + n) as int,
                )
                &&& c.bytes() == self.bytes()
                &&& c.position() == self.position() + 8 * n
                &&& c.wf()
                &&& c.is_aligned()
            },
    {
        let start: usize = self.pos / 8;
        if self.buf.len() - start < n {
            return Err(DecodeError::InsufficientInput);
        }
        let b = slice_subrange(self.buf, start, start + n);
        Ok((b, BitCursor { buf: self.buf, pos: self.pos + 8 * n }))
    }

    /// The bytes not yet consumed; the cursor must stand on a byte boundary.
    pub fn rest(self) -> (r: &'a [u8])
        requires
            self.wf(),
            self.is_aligned(),
        ensures
            r@ == self.bytes().subrange((self.position() / 8) as int, self.bytes().len() as int),
    {
        slice_subrange(self.buf, self.pos / 8, self.buf.len())
    }
}

} // verus!
