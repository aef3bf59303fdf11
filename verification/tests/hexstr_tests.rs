use pastebin::hexstr::{all_hex_chars, bytes_to_hex, to_lower_hex};

#[test]
fn bytes_render_as_lowercase_hex_pairs() {
    assert_eq!(bytes_to_hex(&vec![]), "");
    assert_eq!(bytes_to_hex(&vec![0x00]), "00");
    assert_eq!(bytes_to_hex(&vec![0x0f]), "0f");
    assert_eq!(bytes_to_hex(&vec![0xf0]), "f0");
    assert_eq!(bytes_to_hex(&vec![0xde, 0xad, 0xbe, 0xef]), "deadbeef");
    assert_eq!(bytes_to_hex(&vec![0xff, 0x00, 0x1a]), "ff001a");
}

#[test]
fn hex_char_classification() {
    assert!(all_hex_chars("0123456789abcdefABCDEF"));
    assert!(all_hex_chars(""));
    assert!(!all_hex_chars("0g"));
    assert!(!all_hex_chars("xyz"));
    assert!(!all_hex_chars("12 34"));
}

#[test]
fn case_folding_touches_hex_letters_only() {
    assert_eq!(to_lower_hex("0123456789ABCDEF"), "0123456789abcdef");
    assert_eq!(to_lower_hex("abcdef"), "abcdef");
    assert_eq!(to_lower_hex("XYZ-G"), "XYZ-G");
    assert_eq!(to_lower_hex(""), "");
}
