use powsearch::preimage::{build, build_suffix, nonce_hex};

#[test]
fn nonce_rendering_is_fixed_width_lowercase() {
    assert_eq!(nonce_hex(0), b"0000000000000000".to_vec());
    assert_eq!(nonce_hex(1), b"0000000000000001".to_vec());
    assert_eq!(nonce_hex(0xdeadbeef), b"00000000deadbeef".to_vec());
    assert_eq!(nonce_hex(u64::MAX), b"ffffffffffffffff".to_vec());
    assert_eq!(nonce_hex(0x0123456789abcdef), b"0123456789abcdef".to_vec());
}

#[test]
fn preimage_is_hex_nonce_then_suffix() {
    assert_eq!(build(1, b"suffix"), b"0000000000000001suffix".to_vec());
    assert_eq!(build(0, b""), b"0000000000000000".to_vec());
    assert_eq!(build(0xabc, b"addr1chalAffff00"), b"0000000000000abcaddr1chalAffff00".to_vec());
}

#[test]
fn preimage_build_is_deterministic() {
    let s = b"addr1chalAffff00";
    let a = build(123456789, s);
    let b = build(123456789, s);
    assert_eq!(a, b);
}

#[test]
fn distinct_nonces_give_distinct_preimages() {
    let s = b"addr1chalAffff00";
    assert_ne!(build(5, s), build(6, s));
    assert_ne!(build(0, s), build(u64::MAX, s));
}

#[test]
fn suffix_concatenates_fields_in_order_without_separators() {
    let s = build_suffix(b"addr1", b"chalA", b"ffff00", b"npm", b"sub9", b"17");
    assert_eq!(s, b"addr1chalAffff00npmsub917".to_vec());
    let empty = build_suffix(b"", b"", b"", b"", b"", b"");
    assert_eq!(empty, Vec::<u8>::new());
}
