use vstd::prelude::*;
use vstd::arithmetic::power2::lemma2_to64;
use vstd::slice::slice_subrange;

use crate::bit_cursor::{
    lemma_bits_of_byte, lemma_bits_of_two_bytes, lemma_bits_value_prefix, u16_at, BitCursor,
};
use crate::checksum::{checksum_of, internet_checksum, lemma_checksum_detects_bit_flip};
use crate::error::DecodeError;
use crate::fragmentation::Fragmentation;
use crate::transport_layer_protocol::{protocol_of, TransportLayerProtocol};

verus! {

pub const IPV4_HEADER_LEN: usize = 20;

/// The fixed 20-byte part of an IPv4 header. Options, if any, are not decoded.
///
/// `version` and `header_length` hold 4 bits, `differentiated_services_codepoint` 6 bits and
/// `explicit_congestion_notification` 2 bits.
#[derive(Debug, Clone, Copy, PartialEq, Eq)]
pub struct IPV4Header {
    pub version: u8,
    pub header_length: u8,
    pub differentiated_services_codepoint: u8,
    pub explicit_congestion_notification: u8,
    pub total_length: u16,
    pub identification: u16,
    pub fragmentation: Fragmentation,
    pub time_to_live: u8,
    pub protocol: TransportLayerProtocol,
    pub header_checksum: u16,
    pub source: [u8; 4],
    pub destination: [u8; 4],
}

/// `h` is what the first 20 bytes of `s` say.
pub open spec fn is_ipv4_header_of(h: IPV4Header, s: Seq<u8>) -> bool {
    &&& h.version == s[0] >> 4u8
    &&& h.header_length == s[0] & 0xfu8
    &&& h.differentiated_services_codepoint == s[1] >> 2u8
    &&& h.explicit_congestion_notification == s[1] & 3u8
    &&& h.total_length as nat == u16_at(s, 2)
    &&& h.identification as nat == u16_at(s, 4)
    &&& h.fragmentation == Fragmentation::decode_spec(u16_at(s, 6) as u16)
    &&& h.time_to_live == s[8]
    &&& h.protocol == protocol_of(s[9])
    &&& h.header_checksum as nat == u16_at(s, 10)
    &&& h.source@ == s.subrange(12, 16)
    &&& h.destination@ == s.subrange(16, 20)
}

impl IPV4Header {
    /// Every field lies within its declared width.
    pub open spec fn wf(self) -> bool {
        &&& self.version < 16
        &&& self.header_length < 16
        &&& self.differentiated_services_codepoint < 64
        &&& self.explicit_congestion_notification < 4
        &&& self.fragmentation.wf()
    }

    /// The nine 16-bit words that the header checksum covers; the checksum field is left out.
    pub open spec fn words(self) -> Seq<u16> {
        seq![
            (self.version as u16) << 12u16 | (self.header_length as u16) << 8u16
                | (self.differentiated_services_codepoint as u16) << 2u16
                | self.explicit_congestion_notification as u16,
            self.total_length,
            self.identification,
            self.fragmentation.encode_spec(),
            (self.time_to_live as u16) << 8u16 | self.protocol.code_spec() as u16,
            (self.source@[0] as u16) << 8u16 | self.source@[1] as u16,
            (self.source@[2] as u16) << 8u16 | self.source@[3] as u16,
            (self.destination@[0] as u16) << 8u16 | self.destination@[1] as u16,
            (self.destination@[2] as u16) << 8u16 | self.destination@[3] as u16,
        ]
    }

    pub open spec fn valid_spec(self) -> bool {
        checksum_of(self.words()) == self.header_checksum
    }

    /// Whether the stored checksum matches the one computed over the other fields.
    pub fn valid(&self) -> (r: bool)
        ensures
            r == self.valid_spec(),
    {
        let mut words: Vec<u16> = Vec::new();
        words.push(
            (self.version as u16) << 12u16 | (self.header_length as u16) << 8u16 | (
            self.differentiated_services_codepoint as u16) << 2u16
                | self.explicit_congestion_notification as u16,
        );
        words.push(self.total_length);
        words.push(self.identification);
        words.push(u16::from(self.fragmentation));
        words.push((self.time_to_live as u16) << 8u16 | self.protocol.to_u16());
        words.push((self.source[0] as u16) << 8u16 | self.source[1] as u16);
        words.push((self.source[2] as u16) << 8u16 | self.source[3] as u16);
        words.push((self.destination[0] as u16) << 8u16 | self.destination[1] as u16);
        words.push((self.destination[2] as u16) << 8u16 | self.destination[3] as u16);
        assert(words@ =~= self.words());
        internet_checksum(&words) == self.header_checksum
    }
}

/// A header whose checksum is right stops being valid when any single bit of any of the
/// nine summed words flips while the stored checksum stays.
pub proof fn lemma_bit_flip_invalidates(h: IPV4Header, g: IPV4Header, i: int, b: u16)
    requires
        h.valid_spec(),
        0 <= i < 9,
        b < 16,
        g.words() == h.words().update(i, h.words()[i] ^ (1u16 << b)),
        g.header_checksum == h.header_checksum,
    ensures
        !g.valid_spec(),
{
    lemma_checksum_detects_bit_flip(h.words(), i, b);
}

/// Decodes the fixed part of an IPv4 header from the front of `input` and returns what
/// follows it, options included.
pub fn ipv4_header(input: &[u8]) -> (r: Result<(&[u8], IPV4Header), DecodeError>)
    ensures
        r is Err <==> input@.len() < IPV4_HEADER_LEN,
        r is Err ==> r == Err::<(&[u8], IPV4Header), DecodeError>(
            DecodeError::InsufficientInput,
        ),
        r matches Ok((rest, h)) ==> {
            &&& rest@ == input@.subrange(IPV4_HEADER_LEN as int, input@.len() as int)
            &&& is_ipv4_header_of(h, input@)
            &&& h.wf()
        },
{
    if input.len() < IPV4_HEADER_LEN {
        return Err(DecodeError::InsufficientInput);
    }
    let head = slice_subrange(input, 0, IPV4_HEADER_LEN);
    let c = BitCursor::new(head);
    let (version, c) = match c.take_bits(4) {
        Ok(p) => p,
        Err(e) => return Err(e),
    };
    let (header_length, c) = match c.take_bits(4) {
        Ok(p) => p,
        Err(e) => return Err(e),
    };
    let (dscp, c) = match c.take_bits(6) {
        Ok(p) => p,
        Err(e) => return Err(e),
    };
    let (ecn, c) = match c.take_bits(2) {
        Ok(p) => p,
        Err(e) => return Err(e),
    };
    let (total_length, c) = match c.take_bits(16) {
        Ok(p) => p,
        Err(e) => return Err(e),
    };
    let (identification, c) = match c.take_bits(16) {
        Ok(p) => p,
        Err(e) => return Err(e),
    };
    let (flags, c) = match c.take_bits(16) {
        Ok(p) => p,
        Err(e) => return Err(e),
    };
    let (time_to_live, c) = match c.take_bits(8) {
        Ok(p) => p,
        Err(e) => return Err(e),
    };
    let (protocol, c) = match c.take_bits(8) {
        Ok(p) => p,
        Err(e) => return Err(e),
    };
    let (header_checksum, c) = match c.take_bits(16) {
        Ok(p) => p,
        Err(e) => return Err(e),
    };
    let (s, c) = match c.take_bytes(4) {
        Ok(p) => p,
        Err(e) => return Err(e),
    };
    let (d, _) = match c.take_bytes(4) {
        Ok(p) => p,
        Err(e) => return Err(e),
    };
    proof {
        lemma2_to64();
        lemma_bits_value_prefix(input@, 20, 0, 4);
        lemma_bits_value_prefix(input@, 20, 4, 4);
        lemma_bits_value_prefix(input@, 20, 8, 6);
        lemma_bits_value_prefix(input@, 20, 14, 2);
        lemma_bits_value_prefix(input@, 20, 16, 16);
        lemma_bits_value_prefix(input@, 20, 32, 16);
        lemma_bits_value_prefix(input@, 20, 48, 16);
        lemma_bits_value_prefix(input@, 20, 64, 8);
        lemma_bits_value_prefix(input@, 20, 72, 8);
        lemma_bits_value_prefix(input@, 20, 80, 16);
        lemma_bits_of_byte(input@, 0);
        lemma_bits_of_byte(input@, 1);
        lemma_bits_of_byte(input@, 8);
        lemma_bits_of_byte(input@, 9);
        lemma_bits_of_two_bytes(input@, 2);
        lemma_bits_of_two_bytes(input@, 4);
        lemma_bits_of_two_bytes(input@, 6);
        lemma_bits_of_two_bytes(input@, 10);
    }
    let source: [u8; 4] = [s[0], s[1], s[2], s[3]];
    let destination: [u8; 4] = [d[0], d[1], d[2], d[3]];
    assert(source@ =~= input@.subrange(12, 16));
    assert(destination@ =~= input@.subrange(16, 20));
    let h = IPV4Header {
        version: version as u8,
        header_length: header_length as u8,
        differentiated_services_codepoint: dscp as u8,
        explicit_congestion_notification: ecn as u8,
        total_length,
        identification,
        fragmentation: Fragmentation::from_u16(flags),
        time_to_live: time_to_live as u8,
        protocol: TransportLayerProtocol::from_code(protocol as u8),
        header_checksum,
        source,
        destination,
    };
    Ok((slice_subrange(input, IPV4_HEADER_LEN, input.len()), h))
}

} // verus!
