use ring_probe::checksum::{compute_checksum, verify_checksum};
use ring_probe::packet::fill_checksum;

#[test]
fn checksum_of_echo_header_vector() {
    let header = [0x08u8, 0x00, 0x00, 0x00, 0x00, 0x01, 0x00, 0x01];
    assert_eq!(compute_checksum(&header), 0xF7FD);
}

#[test]
fn checksum_pads_trailing_byte_as_high_byte() {
    // 0x0800 + 0x0100 = 0x0900
    assert_eq!(compute_checksum(&[0x08, 0x00, 0x01]), !0x0900u16);
    assert_eq!(compute_checksum(&[0x08, 0x00, 0x01]), 0xF6FF);
    assert_eq!(compute_checksum(&[0x08, 0x00, 0x01]), compute_checksum(&[0x08, 0x00, 0x01, 0x00]));
}

#[test]
fn checksum_of_single_byte() {
    assert_eq!(compute_checksum(&[0xAB]), !0xAB00u16);
}

#[test]
fn checksum_of_nothing_is_all_ones() {
    assert_eq!(compute_checksum(&[]), 0xFFFF);
}

#[test]
fn checksum_folds_carries() {
    // 0xFFFF + 0x0001 = 0x1_0000, folded to 0x0001
    assert_eq!(compute_checksum(&[0xFF, 0xFF, 0x00, 0x01]), !0x0001u16);
    // 0xFFFF + 0xFFFF = 0x1_FFFE, folded to 0xFFFF
    assert_eq!(compute_checksum(&[0xFF, 0xFF, 0xFF, 0xFF]), 0x0000);
    // 0x8000 + 0x8000 = 0x1_0000, folded to 0x0001
    assert_eq!(compute_checksum(&[0x80, 0x00, 0x80, 0x00]), 0xFFFE);
}

#[test]
fn checksum_of_all_ones_words_is_zero() {
    assert_eq!(compute_checksum(&[0xFF, 0xFF]), 0x0000);
}

#[test]
fn checksum_of_a_buffer_beyond_a_32_bit_sum() {
    // 70_000 words of 0xFFFF sum to more than 32 bits hold; the folded sum
    // of any number of such words is 0xFFFF.
    let data = vec![0xFFu8; 140_000];
    assert_eq!(compute_checksum(&data), 0x0000);
    // one more byte 0x01 as a padded word 0x0100
    let mut odd = data.clone();
    odd.push(0x01);
    assert_eq!(compute_checksum(&odd), !0x0100u16);
}

#[test]
fn checksum_matches_a_wide_sum() {
    let data: Vec<u8> = (0..1001u32).map(|i| (i * 7 + 3) as u8).collect();
    let mut sum: u64 = 0;
    for (i, byte) in data.iter().enumerate() {
        sum += if i % 2 == 0 { (*byte as u64) << 8 } else { *byte as u64 };
    }
    while sum >> 16 != 0 {
        sum = (sum & 0xFFFF) + (sum >> 16);
    }
    assert_eq!(compute_checksum(&data), !(sum as u16));
}

#[test]
fn filled_checksum_verifies() {
    let mut buffer = vec![0x08u8, 0x00, 0xDE, 0xAD, 0x00, 0x01, 0x00, 0x01, 0x61, 0x62, 0x63];
    fill_checksum(&mut buffer);
    assert!(verify_checksum(&buffer));
    assert_eq!(compute_checksum(&buffer), 0);
    // the field holds the checksum of the buffer with the field zeroed
    let mut zeroed = buffer.clone();
    zeroed[2] = 0;
    zeroed[3] = 0;
    let sum = compute_checksum(&zeroed);
    assert_eq!(buffer[2], (sum >> 8) as u8);
    assert_eq!(buffer[3], (sum & 0xFF) as u8);
    // nothing else moved
    assert_eq!(&buffer[..2], &[0x08, 0x00]);
    assert_eq!(&buffer[4..], &[0x00, 0x01, 0x00, 0x01, 0x61, 0x62, 0x63]);
}

#[test]
fn filled_checksum_verifies_for_many_buffers() {
    for len in 4..40usize {
        for seed in 0..20u32 {
            let mut buffer: Vec<u8> =
                (0..len as u32).map(|i| (i.wrapping_mul(31).wrapping_add(seed * 17)) as u8).collect();
            fill_checksum(&mut buffer);
            assert!(verify_checksum(&buffer), "len {} seed {}", len, seed);
        }
    }
}

#[test]
fn filled_checksum_of_zero_buffer_is_all_ones() {
    let mut buffer = vec![0u8; 4];
    fill_checksum(&mut buffer);
    assert_eq!(buffer, vec![0, 0, 0xFF, 0xFF]);
    assert!(verify_checksum(&buffer));
}

#[test]
fn filling_twice_changes_nothing() {
    let mut buffer = vec![0x80u8, 0x00, 0x12, 0x34, 0x00, 0x01, 0x00, 0x01, 0x09];
    fill_checksum(&mut buffer);
    let once = buffer.clone();
    fill_checksum(&mut buffer);
    assert_eq!(buffer, once);
}

#[test]
fn corrupted_buffer_does_not_verify() {
    let mut buffer = vec![0x08u8, 0x00, 0x00, 0x00, 0x00, 0x01, 0x00, 0x01];
    fill_checksum(&mut buffer);
    assert_eq!(&buffer[2..4], &[0xF7, 0xFD]);
    buffer[7] = 0x02;
    assert!(!verify_checksum(&buffer));
}
