use netstack_core::check_sum;

const IPV4_HEADER: [u8; 20] = [
    0x45, 0x00, 0x00, 0x3c, 0x1c, 0x46, 0x40, 0x00, 0x40, 0x06, 0x00, 0x00, 0xac, 0x10, 0x0a, 0x63,
    0xac, 0x10, 0x0a, 0x0c,
];

#[test]
fn checksum_of_known_ipv4_header() {
    assert_eq!(check_sum(&IPV4_HEADER, 0), 0xb1e6);
}

#[test]
fn checksum_written_into_its_field_verifies() {
    let mut header = IPV4_HEADER;
    let sum = check_sum(&header, 0);
    header[10] = (sum >> 8) as u8;
    header[11] = (sum & 0xff) as u8;
    assert_eq!(check_sum(&header, 0), 0);
}

#[test]
fn checksum_self_verifies_with_a_seed_and_an_odd_tail() {
    let mut segment: [u8; 11] = [0x12, 0x34, 0x00, 0x00, 0xff, 0xff, 0xff, 0xff, 0x80, 0x01, 0x7f];
    let seed: u32 = 0x0003_a1b2;
    let sum = check_sum(&segment, seed);
    segment[2] = (sum >> 8) as u8;
    segment[3] = (sum & 0xff) as u8;
    assert_eq!(check_sum(&segment, seed), 0);
}

#[test]
fn checksum_of_nothing_is_all_ones() {
    assert_eq!(check_sum(&[], 0), 0xffff);
}

#[test]
fn checksum_counts_an_odd_last_byte_as_high_byte() {
    assert_eq!(check_sum(&[0x12], 0), 0xedff);
    assert_eq!(check_sum(&[0x00, 0x01, 0x12], 0), 0xedfe);
}

#[test]
fn checksum_reads_words_high_byte_first() {
    assert_eq!(check_sum(&[0x12, 0x34], 0), 0xedcb);
    assert_eq!(check_sum(&[0x34, 0x12], 0), 0xcbed);
}

#[test]
fn checksum_folds_the_carry_back_in() {
    // 0xffff + 0x0001 = 0x1_0000, which folds to 0x0001.
    assert_eq!(check_sum(&[0xff, 0xff, 0x00, 0x01], 0), 0xfffe);
    // 0xffff + 0xffff = 0x1_fffe, which folds to 0xffff.
    assert_eq!(check_sum(&[0xff, 0xff, 0xff, 0xff], 0), 0x0000);
}

#[test]
fn checksum_folds_a_large_seed() {
    // 0xffff_ffff is a multiple of 0xffff and folds to 0xffff.
    assert_eq!(check_sum(&[], 0xffff_ffff), 0x0000);
    // 0x0001_0000 folds to 0x0001.
    assert_eq!(check_sum(&[], 0x0001_0000), 0xfffe);
    assert_eq!(check_sum(&[0xff, 0xfe], 0x0001_0000), 0x0000);
}

#[test]
fn checksum_of_many_bytes_does_not_overflow() {
    let bytes = vec![0xffu8; 100_001];
    // 50_000 words of 0xffff and a last word of 0xff00.
    assert_eq!(check_sum(&bytes, 0xffff_ffff), 0x00ff);
}

#[test]
fn seed_carries_the_sum_of_a_prefix() {
    let pseudo: [u8; 12] = [10, 0, 0, 1, 10, 0, 0, 2, 0, 17, 0, 12];
    let segment: [u8; 12] = [0x30, 0x39, 0x00, 0x35, 0x00, 0x0c, 0x00, 0x00, b'p', b'i', b'n', b'g'];
    let mut whole = Vec::new();
    whole.extend_from_slice(&pseudo);
    whole.extend_from_slice(&segment);
    let mut seed: u32 = 0;
    for pair in pseudo.chunks(2) {
        seed += (pair[0] as u32) << 8 | pair[1] as u32;
    }
    assert_eq!(check_sum(&segment, seed), check_sum(&whole, 0));
}
