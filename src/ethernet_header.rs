use vstd::prelude::*;
use vstd::slice::slice_subrange;

use crate::bit_cursor::{lemma_bits_of_two_bytes, lemma_bits_value_prefix, u16_at, BitCursor};
use crate::error::DecodeError;
use crate::packet_type::{packet_type_of, PacketType};

verus! {

pub const ETHERNET_HEADER_LEN: usize = 14;

/// The link-layer header: two hardware addresses and what the frame carries.
#[derive(Debug, Clone, Copy, PartialEq, Eq)]
pub struct EthernetHeader {
    pub destination: [u8; 6],
    pub source: [u8; 6],
    pub packet_type: PacketType,
}

/// `h` is what the first 14 bytes of `s` say.
pub open spec fn is_ethernet_header_of(h: EthernetHeader, s: Seq<u8>) -> bool {
    &&& h.destination@ == s.subrange(0, 6)
    &&& h.source@ == s.subrange(6, 12)
    &&& h.packet_type == packet_type_of(u16_at(s, 12) as u16)
}

/// Decodes an Ethernet header from the front of `input` and returns what follows it.
pub fn ethernet_header(input: &[u8]) -> (r: Result<(&[u8], EthernetHeader), DecodeError>)
    ensures
        r is Err <==> input@.len() < ETHERNET_HEADER_LEN,
        r is Err ==> r == Err::<(&[u8], EthernetHeader), DecodeError>(
            DecodeError::InsufficientInput,
        ),
        r matches Ok((rest, h)) ==> {
            &&& rest@ == input@.subrange(ETHERNET_HEADER_LEN as int, input@.len() as int)
            &&& is_ethernet_header_of(h, input@)
        },
{
    if input.len() < ETHERNET_HEADER_LEN {
        return Err(DecodeError::InsufficientInput);
    }
    let head = slice_subrange(input, 0, ETHERNET_HEADER_LEN);
    let c = BitCursor::new(head);
    let (d, c) = match c.take_bytes(6) {
        Ok(p) => p,
        Err(e) => return Err(e),
    };
    let (s, c) = match c.take_bytes(6) {
        Ok(p) => p,
        Err(e) => return Err(e),
    };
    let (code, _) = match c.take_bits(16) {
        Ok(p) => p,
        Err(e) => return Err(e),
    };
    let destination: [u8; 6] = [d[0], d[1], d[2], d[3], d[4], d[5]];
    let source: [u8; 6] = [s[0], s[1], s[2], s[3], s[4], s[5]];
    proof {
        lemma_bits_value_prefix(input@, ETHERNET_HEADER_LEN as int, 96, 16);
        lemma_bits_of_two_bytes(input@, 12);
        assert(destination@ =~= input@.subrange(0, 6));
        assert(source@ =~= input@.subrange(6, 12));
    }
    let h = EthernetHeader { destination, source, packet_type: PacketType::from_code(code) };
    Ok((slice_subrange(input, ETHERNET_HEADER_LEN, input.len()), h))
}

} // verus!
