use minichain::text::string_of_bytes;

#[test]
fn each_byte_becomes_its_character() {
    assert_eq!(string_of_bytes(b"Hi!"), "Hi!");
    assert_eq!(string_of_bytes(&[]), "");
    // Bytes past ASCII map to the characters with the same scalar value,
    // not to a byte-level reinterpretation.
    assert_eq!(string_of_bytes(&[0xff, 0x00, 0x41]), "\u{ff}\u{0}A");
}
