use vstd::prelude::*;

use crate::ethernet_header::{ethernet_header, is_ethernet_header_of, EthernetHeader};
use crate::ipv4_header::{ipv4_header, is_ipv4_header_of, IPV4Header};

verus! {

/// What could be decoded from a frame, and the bytes left over.
pub struct DecodedPacket<'a> {
    pub ethernet_header: Option<EthernetHeader>,
    pub ip_header: Option<IPV4Header>,
    pub rest: &'a [u8],
}

/// Decodes an Ethernet header and then an IPv4 header from `data`.
///
/// Where a header cannot be decoded, none of the later ones is, and `rest` is all of `data`.
pub fn decode_packet(data: &[u8]) -> (r: DecodedPacket)
    ensures
        data@.len() < 14 ==> {
            &&& r.ethernet_header is None
            &&& r.ip_header is None
            &&& r.rest@ == data@
        },
        data@.len() >= 14 ==> (r.ethernet_header matches Some(e) && is_ethernet_header_of(
            e,
            data@,
        )),
        14 <= data@.len() < 34 ==> {
            &&& r.ip_header is None
            &&& r.rest@ == data@
        },
        data@.len() >= 34 ==> {
            &&& r.ip_header matches Some(h) && is_ipv4_header_of(
                h,
                data@.subrange(14, data@.len() as int),
            ) && h.wf()
            &&& r.rest@ == data@.subrange(34, data@.len() as int)
        },
{
    match ethernet_header(data) {
        Err(_) => DecodedPacket { ethernet_header: None, ip_header: None, rest: data },
        Ok((after_ethernet, e)) => match ipv4_header(after_ethernet) {
            Err(_) => DecodedPacket { ethernet_header: Some(e), ip_header: None, rest: data },
            Ok((rest, h)) => {
                assert(rest@ =~= data@.subrange(34, data@.len() as int));
                DecodedPacket { ethernet_header: Some(e), ip_header: Some(h), rest }
            },
        },
    }
}

} // verus!
