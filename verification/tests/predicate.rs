use powsearch::predicate::hash_structure_good;

fn digest_with_prefix(b0: u8, b1: u8, b2: u8, b3: u8) -> Vec<u8> {
    let mut d = vec![0u8; 32];
    d[0] = b0;
    d[1] = b1;
    d[2] = b2;
    d[3] = b3;
    d
}

#[test]
fn masked_bits_zero_accepts() {
    // prefix 0x00000F00, mask 0x0000FFFF: ~mask = 0xFFFF0000, and
    // 0x00000F00 & 0xFFFF0000 == 0, so the digest is accepted.
    let d = digest_with_prefix(0x00, 0x00, 0x0F, 0x00);
    assert!(hash_structure_good(&d, 0x0000FFFF));
}

#[test]
fn all_dont_care_accepts_everything() {
    assert!(hash_structure_good(&digest_with_prefix(0xFF, 0xFF, 0xFF, 0xFF), 0xFFFFFFFF));
    assert!(hash_structure_good(&digest_with_prefix(0x00, 0x00, 0x00, 0x00), 0xFFFFFFFF));
    assert!(hash_structure_good(&digest_with_prefix(0x12, 0x34, 0x56, 0x78), 0xFFFFFFFF));
}

#[test]
fn required_zero_bit_set_rejects() {
    // mask 0x7FFFFFFF demands a zero top bit, but the prefix has it set.
    let d = digest_with_prefix(0x80, 0x00, 0x00, 0x00);
    assert!(!hash_structure_good(&d, 0x7FFFFFFF));
    // same prefix is fine when the top bit is don't-care
    assert!(hash_structure_good(&d, 0x80000000));
}

#[test]
fn all_zero_mask_demands_zero_prefix() {
    assert!(hash_structure_good(&digest_with_prefix(0, 0, 0, 0), 0x00000000));
    assert!(!hash_structure_good(&digest_with_prefix(0, 0, 0, 1), 0x00000000));
    assert!(!hash_structure_good(&digest_with_prefix(1, 0, 0, 0), 0x00000000));
}

#[test]
fn short_input_always_rejected() {
    assert!(!hash_structure_good(&[], 0xFFFFFFFF));
    assert!(!hash_structure_good(&[0x00], 0xFFFFFFFF));
    assert!(!hash_structure_good(&[0x00, 0x00], 0xFFFFFFFF));
    assert!(!hash_structure_good(&[0x00, 0x00, 0x00], 0xFFFFFFFF));
    assert!(!hash_structure_good(&[0xAB, 0xCD, 0xEF], 0x00000000));
}

#[test]
fn exactly_four_bytes_is_enough() {
    assert!(hash_structure_good(&[0x00, 0x00, 0x00, 0x00], 0x00000000));
    assert!(!hash_structure_good(&[0xFF, 0x00, 0x00, 0x00], 0x00FFFFFF));
}
