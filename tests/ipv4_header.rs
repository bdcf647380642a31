use packet_decoder::error::DecodeError;
use packet_decoder::fragmentation::{FragmentInfo, Fragmentation};
use packet_decoder::ipv4_header::{ipv4_header, IPV4Header};
use packet_decoder::transport_layer_protocol::TransportLayerProtocol;

const SAMPLE: [u8; 20] = [
    0x45, 0x00, 0x00, 0x28, 0x44, 0xfa, 0x40, 0x00, 0x2a, 0x06, 0xbc, 0x78, 0xb6, 0x3d, 0xc8,
    0x0b, 0xc0, 0xa8, 0x10, 0x6c,
];

fn sample_header() -> IPV4Header {
    ipv4_header(&SAMPLE).unwrap().1
}

#[test]
fn ethernet_header_test() {
    let source: [u8; 40] = [0x45, 0x00, 0x00, 0x28,
        0x44, 0xfa, 0x40, 0x00,
        0x2a, 0x06, 0xbc, 0x78,
        0xb6, 0x3d, 0xc8, 0x0b,
        0xc0, 0xa8, 0x10, 0x6c,
        0x01, 0xbb, 0xf1, 0xbe, 0x37, 0x8c, 0x0c, 0x60, 0x5b, 0x57, 0xe9, 0xbf, 0x50, 0x11
        , 0x04, 0x6c, 0xdf, 0x8c, 0x00, 0x00];
    println!("{:?}", ipv4_header(&source));
}

#[test]
fn check_checksum_test() {
    let source: [u8; 40] = [0x45, 0x00, 0x00, 0x28,
        0x44, 0xfa, 0x40, 0x00,
        0x2a, 0x06, 0xbc, 0x78,
        0xb6, 0x3d, 0xc8, 0x0b,
        0xc0, 0xa8, 0x10, 0x6c, 0x01, 0xbb, 0xf1, 0xbe, 0x37, 0x8c, 0x0c, 0x60, 0x5b, 0x57, 0xe9, 0xbf, 0x50, 0x11
        , 0x04, 0x6c, 0xdf, 0x8c, 0x00, 0x00];
    let header = ipv4_header(&source).unwrap().1;
    assert!(header.valid());
    let source: [u8; 40] = [0x45, 0x00, 0x00, 0x28,
        0x49, 0xfa, 0x40, 0x01,
        0x2a, 0x06, 0xbc, 0x78,
        0xb6, 0x3d, 0xc8, 0x0b,
        0xc0, 0xa8, 0x10, 0x6c,
        0x01, 0xbb, 0xf1, 0xbe,
        0x37, 0x8c, 0x0c, 0x60,
        0x5b, 0x57, 0xe9, 0xbf,
        0x50, 0x11, 0x04, 0x6c,
        0xdf, 0x8c, 0x00, 0x00];
    let header = ipv4_header(&source).unwrap().1;
    assert!(!header.valid());
    println!("{:?}", header);
}

#[test]
fn ipv4_sample_decodes_every_field() {
    let (rest, h) = ipv4_header(&SAMPLE).unwrap();
    assert!(rest.is_empty());
    assert_eq!(h.version, 4);
    assert_eq!(h.header_length, 5);
    assert_eq!(h.differentiated_services_codepoint, 0);
    assert_eq!(h.explicit_congestion_notification, 0);
    assert_eq!(h.total_length, 0x0028);
    assert_eq!(h.identification, 0x44fa);
    assert_eq!(h.fragmentation, Fragmentation::NoFragmentation);
    assert_eq!(h.time_to_live, 0x2a);
    assert_eq!(h.protocol, TransportLayerProtocol::TCP);
    assert_eq!(h.header_checksum, 0xbc78);
    assert_eq!(h.source, [182, 61, 200, 11]);
    assert_eq!(h.destination, [192, 168, 16, 108]);
    assert!(h.valid());
}

#[test]
fn ipv4_corrupted_identification_is_invalid() {
    let mut bytes = SAMPLE;
    bytes[4] = 0x49;
    let h = ipv4_header(&bytes).unwrap().1;
    assert_eq!(h.identification, 0x49fa);
    assert_eq!(h.header_checksum, 0xbc78);
    assert!(!h.valid());
}

#[test]
fn ipv4_short_input_is_insufficient() {
    for n in 0..20 {
        assert_eq!(ipv4_header(&SAMPLE[..n]).unwrap_err(), DecodeError::InsufficientInput);
    }
    assert!(ipv4_header(&SAMPLE[..20]).is_ok());
}

#[test]
fn ipv4_rest_starts_after_twenty_bytes() {
    let mut bytes = SAMPLE.to_vec();
    bytes.extend_from_slice(&[0x01, 0x02, 0x03]);
    let (rest, h) = ipv4_header(&bytes).unwrap();
    assert_eq!(rest, &[0x01, 0x02, 0x03]);
    assert_eq!(h, sample_header());
}

#[test]
fn ipv4_packed_first_word() {
    let mut bytes = SAMPLE;
    bytes[0] = 0x6f;
    bytes[1] = 0xb9;
    let h = ipv4_header(&bytes).unwrap().1;
    assert_eq!(h.version, 6);
    assert_eq!(h.header_length, 15);
    assert_eq!(h.differentiated_services_codepoint, 0x2e);
    assert_eq!(h.explicit_congestion_notification, 1);
}

#[test]
fn ipv4_unknown_protocol_resolves() {
    let mut bytes = SAMPLE;
    bytes[9] = 0x99;
    let h = ipv4_header(&bytes).unwrap().1;
    assert_eq!(h.protocol, TransportLayerProtocol::Unknown(0x99));
}

#[test]
fn ipv4_fragmented_field() {
    let mut bytes = SAMPLE;
    bytes[6] = 0x20;
    bytes[7] = 0x02;
    let h = ipv4_header(&bytes).unwrap().1;
    assert_eq!(
        h.fragmentation,
        Fragmentation::Fragmented(FragmentInfo { more_fragments: true, offset: 2 })
    );
}

#[test]
fn checksum_flip_of_any_byte_bit_is_detected() {
    for i in 0..20 {
        if i == 6 || i == 7 || i == 10 || i == 11 {
            continue;
        }
        for b in 0..8 {
            let mut bytes = SAMPLE;
            bytes[i] ^= 1 << b;
            let h = ipv4_header(&bytes).unwrap().1;
            assert!(!h.valid(), "byte {} bit {}", i, b);
        }
    }
}

#[test]
fn checksum_flip_in_fragmentation_word_is_detected() {
    let mut h = sample_header();
    h.fragmentation = Fragmentation::Fragmented(FragmentInfo { more_fragments: false, offset: 0 });
    assert!(!h.valid());
    h.header_checksum = 0xfc78;
    assert!(h.valid());
    for b in 0..13 {
        let mut g = h;
        g.fragmentation = Fragmentation::Fragmented(FragmentInfo {
            more_fragments: false,
            offset: 1 << b,
        });
        assert!(!g.valid(), "offset bit {}", b);
    }
    let mut g = h;
    g.fragmentation = Fragmentation::Fragmented(FragmentInfo { more_fragments: true, offset: 0 });
    assert!(!g.valid());
}

#[test]
fn checksum_of_recomputed_header_is_valid() {
    let mut h = sample_header();
    h.time_to_live = 0x40;
    assert!(!h.valid());
    h.header_checksum = 0xa678;
    assert!(h.valid());
}

#[test]
fn protocol_codes_round_trip() {
    assert_eq!(TransportLayerProtocol::ICMP.to_u16(), 0x01);
    assert_eq!(TransportLayerProtocol::TCP.to_u16(), 0x06);
    assert_eq!(TransportLayerProtocol::UDP.to_u16(), 0x11);
    assert_eq!(TransportLayerProtocol::Unknown(0x99).to_u16(), 0x99);
    assert_eq!(TransportLayerProtocol::from_code(0x01), TransportLayerProtocol::ICMP);
    assert_eq!(TransportLayerProtocol::from_code(0x11), TransportLayerProtocol::UDP);
    assert_eq!(TransportLayerProtocol::from_code(0x99), TransportLayerProtocol::Unknown(0x99));
}
