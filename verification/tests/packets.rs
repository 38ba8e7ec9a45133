use ntpuvpn_rs::addr::{mask_prefix_len, Ipv4Address, Ipv4Prefix, MacAddress};
use ntpuvpn_rs::frame::{build_frame, FRAME_HEADER_LEN};
use ntpuvpn_rs::packet::{
    classify, classify_packet, parse_destination, Link, PacketError, MAX_PAYLOAD_LEN,
    MIN_HEADER_LEN,
};

fn vpn_prefix() -> Ipv4Prefix {
    Ipv4Prefix { network: Ipv4Address::new(10, 0, 0, 0), mask: Ipv4Address::new(255, 0, 0, 0) }
}

fn packet_to(destination: [u8; 4], len: usize) -> Vec<u8> {
    let mut bytes = vec![0u8; len];
    bytes[0] = 0x45;
    bytes[16] = destination[0];
    bytes[17] = destination[1];
    bytes[18] = destination[2];
    bytes[19] = destination[3];
    for (i, b) in bytes.iter_mut().enumerate().skip(20) {
        *b = (i % 251) as u8;
    }
    bytes
}

#[test]
fn address_bits_are_network_order() {
    assert_eq!(Ipv4Address::new(10, 1, 2, 3).bits, 0x0A01_0203);
    assert_eq!(Ipv4Address::new(0, 0, 0, 0).bits, 0);
    assert_eq!(Ipv4Address::new(255, 255, 255, 255).bits, u32::MAX);
    assert_eq!(Ipv4Address::new(192, 168, 1, 254).bits, 0xC0A8_01FE);
}

#[test]
fn octets_round_trip() {
    assert_eq!(Ipv4Address { bits: 0x0A01_0203 }.octets(), [10, 1, 2, 3]);
    assert_eq!(Ipv4Address { bits: u32::MAX }.octets(), [255, 255, 255, 255]);
    assert_eq!(Ipv4Address { bits: 0 }.octets(), [0, 0, 0, 0]);
    assert_eq!(Ipv4Address::new(8, 8, 4, 4).octets(), [8, 8, 4, 4]);
}

#[test]
fn zero_mac_is_all_zero() {
    assert_eq!(MacAddress::zero().octets, [0u8; 6]);
}

#[test]
fn prefix_length_of_contiguous_masks() {
    assert_eq!(mask_prefix_len(Ipv4Address::new(0, 0, 0, 0)), Some(0));
    assert_eq!(mask_prefix_len(Ipv4Address::new(128, 0, 0, 0)), Some(1));
    assert_eq!(mask_prefix_len(Ipv4Address::new(255, 0, 0, 0)), Some(8));
    assert_eq!(mask_prefix_len(Ipv4Address::new(255, 255, 240, 0)), Some(20));
    assert_eq!(mask_prefix_len(Ipv4Address::new(255, 255, 255, 0)), Some(24));
    assert_eq!(mask_prefix_len(Ipv4Address::new(255, 255, 255, 254)), Some(31));
    assert_eq!(mask_prefix_len(Ipv4Address::new(255, 255, 255, 255)), Some(32));
}

#[test]
fn every_prefix_length_is_found() {
    for n in 0u32..=32 {
        let bits = if n == 0 { 0 } else { u32::MAX << (32 - n) };
        assert_eq!(mask_prefix_len(Ipv4Address { bits }), Some(n as u8));
    }
}

#[test]
fn gapped_masks_have_no_prefix_length() {
    assert_eq!(mask_prefix_len(Ipv4Address::new(255, 0, 255, 0)), None);
    assert_eq!(mask_prefix_len(Ipv4Address::new(0, 0, 0, 1)), None);
    assert_eq!(mask_prefix_len(Ipv4Address::new(255, 255, 255, 253)), None);
    assert_eq!(mask_prefix_len(Ipv4Address::new(127, 255, 255, 255)), None);
    assert_eq!(vpn_prefix().prefix_len(), Some(8));
    let gapped = Ipv4Prefix {
        network: Ipv4Address::new(10, 0, 0, 0),
        mask: Ipv4Address::new(255, 1, 0, 0),
    };
    assert_eq!(gapped.prefix_len(), None);
}

#[test]
fn vpn_destination_goes_to_tunnel() {
    assert_eq!(classify(Ipv4Address::new(10, 1, 2, 3), &vpn_prefix()), Link::Tunnel);
    assert!(vpn_prefix().contains(Ipv4Address::new(10, 1, 2, 3)));
}

#[test]
fn other_destination_goes_to_physical_link() {
    assert_eq!(classify(Ipv4Address::new(8, 8, 8, 8), &vpn_prefix()), Link::Physical);
    assert!(!vpn_prefix().contains(Ipv4Address::new(8, 8, 8, 8)));
}

#[test]
fn classification_at_the_edges_of_the_prefix() {
    let prefix = vpn_prefix();
    assert_eq!(classify(Ipv4Address::new(10, 0, 0, 0), &prefix), Link::Tunnel);
    assert_eq!(classify(Ipv4Address::new(10, 255, 255, 255), &prefix), Link::Tunnel);
    assert_eq!(classify(Ipv4Address::new(9, 255, 255, 255), &prefix), Link::Physical);
    assert_eq!(classify(Ipv4Address::new(11, 0, 0, 0), &prefix), Link::Physical);
}

#[test]
fn classification_follows_the_mask_formula() {
    let prefix = Ipv4Prefix {
        network: Ipv4Address::new(192, 168, 16, 0),
        mask: Ipv4Address::new(255, 255, 240, 0),
    };
    for d in [
        Ipv4Address::new(192, 168, 16, 1),
        Ipv4Address::new(192, 168, 31, 255),
        Ipv4Address::new(192, 168, 32, 0),
        Ipv4Address::new(192, 168, 15, 255),
        Ipv4Address::new(10, 1, 2, 3),
    ] {
        let inside = (d.bits & prefix.mask.bits) == prefix.network.bits;
        let expected = if inside { Link::Tunnel } else { Link::Physical };
        assert_eq!(classify(d, &prefix), expected);
    }
}

#[test]
fn network_with_host_bits_matches_nothing() {
    let prefix = Ipv4Prefix {
        network: Ipv4Address::new(10, 1, 2, 3),
        mask: Ipv4Address::new(255, 0, 0, 0),
    };
    assert_eq!(classify(Ipv4Address::new(10, 1, 2, 3), &prefix), Link::Physical);
}

#[test]
fn empty_mask_sends_everything_to_the_tunnel() {
    let prefix = Ipv4Prefix { network: Ipv4Address::new(0, 0, 0, 0), mask: Ipv4Address { bits: 0 } };
    assert_eq!(classify(Ipv4Address::new(8, 8, 8, 8), &prefix), Link::Tunnel);
}

#[test]
fn destination_is_read_from_bytes_16_to_19() {
    let packet = packet_to([10, 1, 2, 3], 20);
    assert_eq!(parse_destination(&packet), Ok(Ipv4Address::new(10, 1, 2, 3)));
    let packet = packet_to([8, 8, 8, 8], 60);
    assert_eq!(parse_destination(&packet), Ok(Ipv4Address { bits: 0x0808_0808 }));
}

#[test]
fn short_packets_have_no_destination() {
    assert_eq!(parse_destination(&[]), Err(PacketError::TooShort));
    assert_eq!(parse_destination(&[0x45u8; 19]), Err(PacketError::TooShort));
    assert_eq!(classify_packet(&[0x45u8; 19], &vpn_prefix()), Err(PacketError::TooShort));
    assert_eq!(classify_packet(&[], &vpn_prefix()), Err(PacketError::TooShort));
}

#[test]
fn packets_are_classified_by_destination() {
    assert_eq!(classify_packet(&packet_to([10, 1, 2, 3], 20), &vpn_prefix()), Ok(Link::Tunnel));
    assert_eq!(classify_packet(&packet_to([8, 8, 8, 8], 20), &vpn_prefix()), Ok(Link::Physical));
    assert_eq!(classify_packet(&packet_to([10, 9, 9, 9], 1500), &vpn_prefix()), Ok(Link::Tunnel));
}

#[test]
fn frame_is_header_then_packet() {
    let source = MacAddress { octets: [0x02, 0x00, 0x00, 0x00, 0x00, 0x01] };
    let destination = MacAddress { octets: [0xaa, 0xbb, 0xcc, 0xdd, 0xee, 0xff] };
    let packet = packet_to([10, 1, 2, 3], 28);
    let frame = build_frame(&packet, &source, &destination).unwrap();
    assert_eq!(frame.len(), FRAME_HEADER_LEN + 28);
    assert_eq!(&frame[0..6], &[0xaa, 0xbb, 0xcc, 0xdd, 0xee, 0xff]);
    assert_eq!(&frame[6..12], &[0x02, 0x00, 0x00, 0x00, 0x00, 0x01]);
    assert_eq!(&frame[12..14], &[0x08, 0x00]);
    assert_eq!(&frame[14..], &packet[..]);
}

#[test]
fn frame_of_minimal_packet_is_exact() {
    let source = MacAddress { octets: [1, 2, 3, 4, 5, 6] };
    let destination = MacAddress { octets: [7, 8, 9, 10, 11, 12] };
    let packet: Vec<u8> = (100u8..120).collect();
    let mut expected: Vec<u8> = vec![7, 8, 9, 10, 11, 12, 1, 2, 3, 4, 5, 6, 0x08, 0x00];
    expected.extend(100u8..120);
    assert_eq!(build_frame(&packet, &source, &destination), Ok(expected));
}

#[test]
fn frame_limits() {
    let mac = MacAddress::zero();
    assert_eq!(MIN_HEADER_LEN, 20);
    assert_eq!(MAX_PAYLOAD_LEN, 1500);
    assert_eq!(FRAME_HEADER_LEN, 14);
    assert_eq!(build_frame(&[], &mac, &mac), Err(PacketError::TooShort));
    assert_eq!(build_frame(&[0u8; 19], &mac, &mac), Err(PacketError::TooShort));
    assert!(build_frame(&[0u8; 20], &mac, &mac).is_ok());
    let largest = build_frame(&vec![7u8; 1500], &mac, &mac).unwrap();
    assert_eq!(largest.len(), 1514);
    assert_eq!(build_frame(&vec![7u8; 1501], &mac, &mac), Err(PacketError::TooLong));
    assert_eq!(build_frame(&vec![7u8; 65535], &mac, &mac), Err(PacketError::TooLong));
}
