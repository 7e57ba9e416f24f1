use eth_vanity::{byte_array_to_hex, byte_array_to_hex_prefixed};

#[test]
fn renders_two_lowercase_digits_per_byte() {
    assert_eq!(byte_array_to_hex(&vec![0x00, 0x0a, 0xab, 0xff, 0x10]), "000aabff10");
}

#[test]
fn prefixed_rendering() {
    assert_eq!(byte_array_to_hex_prefixed(&vec![0xde, 0xad, 0xbe, 0xef]), "0xdeadbeef");
}

#[test]
fn empty_bytes_render_empty() {
    assert_eq!(byte_array_to_hex(&vec![]), "");
    assert_eq!(byte_array_to_hex_prefixed(&vec![]), "0x");
}

#[test]
fn distinct_bytes_render_distinctly() {
    let a = byte_array_to_hex_prefixed(&vec![0x01, 0x23]);
    let b = byte_array_to_hex_prefixed(&vec![0x12, 0x30]);
    assert_ne!(a, b);
}
