use rcore_socket::addr::Ipv4Address;
use rcore_socket::packet::build_raw_packet;
use smoltcp::wire::{IpProtocol, Ipv4Packet};

/// One's-complement sum of 16-bit words, most significant octet first.
fn ones_sum(data: &[u8]) -> u16 {
    let mut sum: u32 = 0;
    let mut i = 0;
    while i + 1 < data.len() {
        sum += ((data[i] as u32) << 8) | data[i + 1] as u32;
        i += 2;
    }
    while sum > 0xffff {
        sum = (sum >> 16) + (sum & 0xffff);
    }
    sum as u16
}

#[test]
fn frames_a_known_packet_octet_for_octet() {
    let packet = build_raw_packet(
        Ipv4Address([10, 0, 2, 15]),
        Ipv4Address([10, 0, 2, 2]),
        1,
        &[8, 0, 0xf7, 0xff, 0, 0, 0, 0],
    );
    // words: 4500 001c 0000 0000 0001 ---- 0a00 020f 0a00 0202
    // sum = 0x5d2e, checksum = 0xa2d1
    let expected: [u8; 28] = [
        0x45, 0x00, 0x00, 0x1c, 0x00, 0x00, 0x00, 0x00, 0x00, 0x01, 0xa2, 0xd1, 10, 0, 2, 15, 10,
        0, 2, 2, 8, 0, 0xf7, 0xff, 0, 0, 0, 0,
    ];
    assert_eq!(packet, expected.to_vec());
}

#[test]
fn header_fields_are_as_specified() {
    let payload: Vec<u8> = (0..100u8).collect();
    let packet = build_raw_packet(Ipv4Address([192, 168, 0, 1]), Ipv4Address([8, 8, 8, 8]), 17, &payload);
    assert_eq!(packet.len(), 120);
    assert_eq!(packet[0] >> 4, 4);
    assert_eq!((packet[0] & 0x0f) * 4, 20);
    assert_eq!(((packet[2] as usize) << 8) | packet[3] as usize, 120);
    assert_eq!(packet[8], 0);
    assert_eq!(packet[9], 17);
    assert_eq!(&packet[12..16], &[192, 168, 0, 1]);
    assert_eq!(&packet[16..20], &[8, 8, 8, 8]);
    assert_eq!(&packet[20..], &payload[..]);
    assert_eq!(ones_sum(&packet[..20]), 0xffff);
}

#[test]
fn the_stack_accepts_the_header() {
    let packet = build_raw_packet(Ipv4Address([127, 0, 0, 1]), Ipv4Address([127, 0, 0, 1]), 6, b"abc");
    let parsed = Ipv4Packet::new_checked(&packet[..]).unwrap();
    assert!(parsed.verify_checksum());
    assert_eq!(parsed.version(), 4);
    assert_eq!(parsed.header_len(), 20);
    assert_eq!(parsed.total_len(), 23);
    assert_eq!(parsed.protocol(), IpProtocol::Tcp);
    assert_eq!(parsed.payload(), b"abc");
}

#[test]
fn empty_payload_gives_a_bare_header() {
    let packet = build_raw_packet(Ipv4Address([1, 2, 3, 4]), Ipv4Address([5, 6, 7, 8]), 255, &[]);
    assert_eq!(packet.len(), 20);
    assert_eq!(packet[2], 0);
    assert_eq!(packet[3], 20);
    assert_eq!(packet[9], 255);
    assert_eq!(ones_sum(&packet), 0xffff);
}

#[test]
fn largest_payload_fills_the_length_field() {
    let payload = vec![0x5au8; 65515];
    let packet = build_raw_packet(Ipv4Address([1, 1, 1, 1]), Ipv4Address([2, 2, 2, 2]), 1, &payload);
    assert_eq!(packet.len(), 65535);
    assert_eq!(packet[2], 0xff);
    assert_eq!(packet[3], 0xff);
    assert_eq!(ones_sum(&packet[..20]), 0xffff);
    assert!(Ipv4Packet::new_checked(&packet[..]).unwrap().verify_checksum());
}

#[test]
fn checksum_validates_for_many_headers() {
    let mut seed: u32 = 12345;
    let mut n = 0;
    while n < 500 {
        seed = seed.wrapping_mul(1664525).wrapping_add(1013904223);
        let s = seed.to_be_bytes();
        seed = seed.wrapping_mul(1664525).wrapping_add(1013904223);
        let d = seed.to_be_bytes();
        let len = (seed >> 8) as usize % 64;
        let payload = vec![n as u8; len];
        let packet = build_raw_packet(Ipv4Address(s), Ipv4Address(d), (seed >> 3) as u8, &payload);
        assert_eq!(packet.len(), 20 + len);
        assert_eq!(ones_sum(&packet[..20]), 0xffff);
        n += 1;
    }
}
