use llm_wrapper::offset::CharByteMap;

#[test]
fn test_ascii_byte_equals_char() {
    let m = CharByteMap::new("hello");
    assert_eq!(m.char_len(), 5);
    assert_eq!(m.byte_to_char(0).unwrap(), 0);
    assert_eq!(m.byte_to_char(5).unwrap(), 5); // end sentinel
    assert_eq!(m.byte_range_to_char_range(0, 5).unwrap(), (0, 5));
}

#[test]
fn test_japanese_three_byte() {
    // "あい": each char is 3 bytes → byte 0,3,6.
    let m = CharByteMap::new("あい");
    assert_eq!(m.char_len(), 2);
    assert_eq!(m.byte_range_to_char_range(0, 6).unwrap(), (0, 2));
    assert_eq!(m.byte_range_to_char_range(3, 6).unwrap(), (1, 2));
}

#[test]
fn test_emoji_four_byte() {
    // "a🦀b": 'a'=1B @0, '🦀'=4B @1, 'b'=1B @5.
    let m = CharByteMap::new("a🦀b");
    assert_eq!(m.char_len(), 3);
    assert_eq!(m.byte_range_to_char_range(1, 5).unwrap(), (1, 2));
    assert_eq!(m.byte_range_to_char_range(0, 6).unwrap(), (0, 3));
}

#[test]
fn test_offset_inside_multibyte_errors() {
    // "あ" occupies bytes 0..3; byte 1 and 2 are inside the code point.
    let m = CharByteMap::new("あ");
    assert!(m.byte_to_char(1).is_err());
    assert!(m.byte_to_char(2).is_err());
    // Boundaries are fine.
    assert_eq!(m.byte_to_char(0).unwrap(), 0);
    assert_eq!(m.byte_to_char(3).unwrap(), 1);
}

#[test]
fn test_out_of_range_errors() {
    let m = CharByteMap::new("abc");
    assert!(m.byte_to_char(4).is_err());
}

#[test]
fn test_inverted_range_errors() {
    let m = CharByteMap::new("hello");
    assert!(m.byte_range_to_char_range(3, 1).is_err());
}

#[test]
fn test_empty_string() {
    let m = CharByteMap::new("");
    assert_eq!(m.char_len(), 0);
    assert_eq!(m.byte_to_char(0).unwrap(), 0);
    assert_eq!(m.byte_range_to_char_range(0, 0).unwrap(), (0, 0));
}

#[test]
fn test_nfc_nfd_char_counts_differ() {
    // Precomposed "é" (NFC, 1 char / 2 bytes) vs decomposed "e\u{301}"
    // (NFD, 2 chars / 3 bytes). char_len must reflect the actual scalars.
    let nfc = CharByteMap::new("Caf\u{e9}");
    assert_eq!(nfc.char_len(), 4);
    let nfd = CharByteMap::new("Cafe\u{301}");
    assert_eq!(nfd.char_len(), 5);
}

#[test]
fn byte_to_char_round_trips_every_char_start() {
    // Law: the char found for the byte at which char i starts is i.
    let text = "aé🦀z";
    let m = CharByteMap::new(text);
    for (i, (b, _)) in text.char_indices().enumerate() {
        assert_eq!(m.byte_to_char(b).unwrap(), i);
    }
    assert_eq!(m.byte_to_char(text.len()).unwrap(), text.chars().count());
}
