use vstd::prelude::*;
use vstd::slice::slice_subrange;

use crate::bit_cursor::{lemma_bits_of_two_bytes, lemma_bits_value_prefix, u16_at, BitCursor};
use crate::error::DecodeError;

verus! {

/// Where a fragment sits: whether more follow, and its offset in units of 8 bytes.
/// Only the low 13 bits of `offset` are meaningful.
#[derive(Debug, Clone, Copy, PartialEq, Eq, Structural)]
pub struct FragmentInfo {
    pub more_fragments: bool,
    pub offset: u16,
}

/// The flags and offset field of an IPv4 header.
#[derive(Debug, Clone, Copy, PartialEq, Eq, Structural)]
pub enum Fragmentation {
    NoFragmentation,
    Fragmented(FragmentInfo),
}

pub const DONT_FRAGMENT_BIT: u16 = 0x4000;

pub const MORE_FRAGMENTS_BIT: u16 = 0x2000;

pub const OFFSET_MASK: u16 = 0x1fff;

impl Fragmentation {
    /// The offset fits in its 13 bits.
    pub open spec fn wf(self) -> bool {
        match self {
            Fragmentation::NoFragmentation => true,
            Fragmentation::Fragmented(info) => info.offset <= OFFSET_MASK,
        }
    }

    /// Wire form: reserved bit 0, don't-fragment bit 1, more-fragments bit 2, then the offset.
    /// The reserved bit is always written as zero.
    pub open spec fn encode_spec(self) -> u16 {
        match self {
            Fragmentation::NoFragmentation => DONT_FRAGMENT_BIT,
            Fragmentation::Fragmented(info) => (if info.more_fragments {
                MORE_FRAGMENTS_BIT
            } else {
                0u16
            }) | info.offset,
        }
    }

    /// A set don't-fragment bit decides alone; the reserved bit is ignored.
    pub open spec fn decode_spec(bits: u16) -> Fragmentation {
        if bits & DONT_FRAGMENT_BIT != 0 {
            Fragmentation::NoFragmentation
        } else {
            Fragmentation::Fragmented(
                FragmentInfo {
                    more_fragments: bits & MORE_FRAGMENTS_BIT != 0,
                    offset: bits & OFFSET_MASK,
                },
            )
        }
    }

    /// Decodes the 16-bit flags and offset field.
    pub fn from_u16(bits: u16) -> (r: Fragmentation)
        ensures
            r == Fragmentation::decode_spec(bits),
            r.wf(),
    {
        if bits & DONT_FRAGMENT_BIT != 0 {
            Fragmentation::NoFragmentation
        } else {
            assert(bits & 0x1fffu16 <= 0x1fffu16) by (bit_vector);
            Fragmentation::Fragmented(
                FragmentInfo {
                    more_fragments: bits & MORE_FRAGMENTS_BIT != 0,
                    offset: bits & OFFSET_MASK,
                },
            )
        }
    }

    /// Encodes back to the 16-bit field, as the header checksum sums it.
    pub fn to_u16(&self) -> (r: u16)
        ensures
            r == self.encode_spec(),
    {
        match self {
            Fragmentation::NoFragmentation => DONT_FRAGMENT_BIT,
            Fragmentation::Fragmented(info) => {
                let flag: u16 = if info.more_fragments {
                    MORE_FRAGMENTS_BIT
                } else {
                    0u16
                };
                flag | info.offset
            },
        }
    }
}

impl From<Fragmentation> for u16 {
    /// The wire form of the field, as `Fragmentation::to_u16` gives it.
    fn from(f: Fragmentation) -> (r: u16) {
        f.to_u16()
    }
}

impl vstd::std_specs::convert::FromSpecImpl<Fragmentation> for u16 {
    open spec fn obeys_from_spec() -> bool {
        true
    }

    open spec fn from_spec(f: Fragmentation) -> u16 {
        f.encode_spec()
    }
}

/// Decoding what was encoded gives back the same value.
pub proof fn lemma_fragmentation_round_trip(f: Fragmentation)
    requires
        f.wf(),
    ensures
        Fragmentation::decode_spec(f.encode_spec()) == f,
{
    match f {
        Fragmentation::NoFragmentation => {
            assert(0x4000u16 & 0x4000u16 != 0) by (bit_vector);
        },
        Fragmentation::Fragmented(info) => {
            let o = info.offset;
            if info.more_fragments {
                assert(((0x2000u16 | o) & 0x4000u16 == 0) && ((0x2000u16 | o) & 0x2000u16 != 0)
                    && ((0x2000u16 | o) & 0x1fffu16 == o)) by (bit_vector)
                    requires
                        o <= 0x1fffu16,
                ;
            } else {
                assert(((0u16 | o) & 0x4000u16 == 0) && ((0u16 | o) & 0x2000u16 == 0) && ((0u16
                    | o) & 0x1fffu16 == o)) by (bit_vector)
                    requires
                        o <= 0x1fffu16,
                ;
            }
        },
    }
}

/// Reads the flags and offset field from the first two bytes of `input`.
pub fn fragmentation(input: &[u8]) -> (r: Result<(&[u8], Fragmentation), DecodeError>)
    ensures
        r is Err <==> input@.len() < 2,
        r is Err ==> r == Err::<(&[u8], Fragmentation), DecodeError>(
            DecodeError::InsufficientInput,
        ),
        r matches Ok((rest, f)) ==> {
            &&& rest@ == input@.subrange(2, input@.len() as int)
            &&& f == Fragmentation::decode_spec(u16_at(input@, 0) as u16)
            &&& f.wf()
        },
{
    if input.len() < 2 {
        return Err(DecodeError::InsufficientInput);
    }
    let head = slice_subrange(input, 0, 2);
    let cursor = BitCursor::new(head);
    let (bits, _) = match cursor.take_bits(16) {
        Ok(p) => p,
        Err(e) => return Err(e),
    };
    proof {
        lemma_bits_value_prefix(input@, 2, 0, 16);
        lemma_bits_of_two_bytes(input@, 0);
    }
    Ok((slice_subrange(input, 2, input.len()), Fragmentation::from_u16(bits)))
}

} // verus!
