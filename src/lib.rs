//! Decoding of Ethernet and IPv4 headers from raw bytes, with the IPv4 header checksum check.
//!
//! A bit cursor reads fields of any width up to 16 bits; the decoders chain its reads in
//! wire order and hand back what follows each header untouched.

pub mod bit_cursor;
pub mod checksum;
pub mod error;
pub mod ethernet_header;
pub mod fragmentation;
pub mod ipv4_header;
pub mod packet;
pub mod packet_type;
pub mod transport_layer_protocol;
