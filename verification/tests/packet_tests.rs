use ring_probe::checksum::{compute_checksum, verify_checksum};
use ring_probe::packet::{
    create_icmp_packet, echo_request_with_payload, AddressFamily, ECHO_REQUEST_V4, ECHO_REQUEST_V6,
    HEADER_LEN,
};

fn assert_sealed(packet: &[u8]) {
    let mut zeroed = packet.to_vec();
    zeroed[2] = 0;
    zeroed[3] = 0;
    let sum = compute_checksum(&zeroed);
    assert_eq!(packet[2], (sum >> 8) as u8);
    assert_eq!(packet[3], (sum & 0xFF) as u8);
    assert!(verify_checksum(packet));
}

#[test]
fn header_constants() {
    assert_eq!(HEADER_LEN, 8);
    assert_eq!(ECHO_REQUEST_V4, 8);
    assert_eq!(ECHO_REQUEST_V6, 128);
    assert_eq!(AddressFamily::V4.echo_request_type(), 8);
    assert_eq!(AddressFamily::V6.echo_request_type(), 128);
}

#[test]
fn packet_without_payload_is_the_known_vector() {
    let packet = create_icmp_packet(0, AddressFamily::V4);
    assert_eq!(packet, vec![0x08, 0x00, 0xF7, 0xFD, 0x00, 0x01, 0x00, 0x01]);
}

#[test]
fn packet_without_payload_v6() {
    let packet = create_icmp_packet(0, AddressFamily::V6);
    // 0x8000 + 0x0001 + 0x0001 = 0x8002
    assert_eq!(packet, vec![0x80, 0x00, 0x7F, 0xFD, 0x00, 0x01, 0x00, 0x01]);
}

#[test]
fn packet_has_header_and_length_for_each_size() {
    for size in [0usize, 1, 2, 3, 31, 56, 57, 1000, 65_527] {
        for family in [AddressFamily::V4, AddressFamily::V6] {
            let packet = create_icmp_packet(size, family);
            assert_eq!(packet.len(), 8 + size);
            assert_eq!(packet[0], if family == AddressFamily::V4 { 8 } else { 128 });
            assert_eq!(packet[1], 0);
            assert_eq!(&packet[4..8], &[0, 1, 0, 1]);
            assert_sealed(&packet);
        }
    }
}

#[test]
fn payload_is_filled_with_random_bytes() {
    let packet = create_icmp_packet(64, AddressFamily::V4);
    assert!(packet[8..].iter().any(|byte| *byte != 0));
    let other = create_icmp_packet(64, AddressFamily::V4);
    assert_ne!(packet[8..], other[8..]);
}

#[test]
fn packet_is_the_echo_request_of_its_payload() {
    let packet = create_icmp_packet(23, AddressFamily::V6);
    let again = echo_request_with_payload(AddressFamily::V6, &packet[8..]);
    assert_eq!(packet, again);
}

#[test]
fn echo_request_with_given_payload() {
    let packet = echo_request_with_payload(AddressFamily::V4, b"abc");
    // 0x0800 + 0x0001 + 0x0001 + 0x6162 + 0x6300 = 0xCC64
    assert_eq!(packet, vec![0x08, 0x00, 0x33, 0x9B, 0x00, 0x01, 0x00, 0x01, 0x61, 0x62, 0x63]);
    assert_sealed(&packet);
}

#[test]
fn echo_request_with_empty_payload() {
    let packet = echo_request_with_payload(AddressFamily::V4, &[]);
    assert_eq!(packet, vec![0x08, 0x00, 0xF7, 0xFD, 0x00, 0x01, 0x00, 0x01]);
}

#[test]
fn changing_a_packet_invalidates_its_checksum() {
    let mut packet = echo_request_with_payload(AddressFamily::V4, &[1, 2, 3, 4]);
    assert!(verify_checksum(&packet));
    packet[9] ^= 0x40;
    assert!(!verify_checksum(&packet));
}
