use dioxus_shareables::assoc_type::seg_str;

#[test]
fn seg_str_packs_little_endian() {
    assert_eq!(seg_str("abc", 0), 0x63_62_61);
    assert_eq!(seg_str("abc", 1), 0x63_62);
    assert_eq!(seg_str("abc", 3), 0);
    assert_eq!(seg_str("abc", 100), 0);
    assert_eq!(seg_str("", 0), 0);
}

#[test]
fn seg_str_takes_sixteen_bytes() {
    let s = "0123456789abcdefXYZ";
    let expected = u128::from_le_bytes(*b"0123456789abcdef");
    assert_eq!(seg_str(s, 0), expected);
    assert_eq!(seg_str(s, 16), u128::from_le_bytes(*b"XYZ\0\0\0\0\0\0\0\0\0\0\0\0\0"));
    assert_eq!(seg_str("\u{ff}", 0), 0xbf_c3);
}

