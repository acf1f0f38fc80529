use commmon::codec::{encode_payload, hex_error_message, hex_text, lossy_text, HexDecodeError};
use commmon::text::{
    chars_of, contains_text, decimal_text, hex4_upper_text, join_from, parse_bounded, same_text, split_words,
    string_of, trim,
};

#[test]
fn decimal_numerals() {
    assert_eq!(decimal_text(0), "0");
    assert_eq!(decimal_text(7), "7");
    assert_eq!(decimal_text(115200), "115200");
    assert_eq!(decimal_text(u64::MAX), "18446744073709551615");
}

#[test]
fn parse_unsigned_like_str_parse() {
    assert_eq!(parse_bounded("9600", u64::MAX), Some(9600));
    assert_eq!(parse_bounded("+42", u64::MAX), Some(42));
    assert_eq!(parse_bounded("+", u64::MAX), None);
    assert_eq!(parse_bounded("", u64::MAX), None);
    assert_eq!(parse_bounded("-1", u64::MAX), None);
    assert_eq!(parse_bounded("12a", u64::MAX), None);
    assert_eq!(parse_bounded(" 1", u64::MAX), None);
    assert_eq!(parse_bounded("18446744073709551615", u64::MAX), Some(u64::MAX));
    assert_eq!(parse_bounded("18446744073709551616", u64::MAX), None);
    assert_eq!(parse_bounded("65535", u16::MAX as u64), Some(65535));
    assert_eq!(parse_bounded("65536", u16::MAX as u64), None);
    for s in ["0", "7", "300", "+9", "abc", "99999999999999999999"] {
        assert_eq!(parse_bounded(s, u64::MAX), s.parse::<u64>().ok());
    }
}

#[test]
fn words_like_split_whitespace() {
    for s in ["", "  ", "open COM3 115200", "  write  COM3\thello   world \n", "a\u{3000}b", "x"] {
        let ours = split_words(s);
        let std_words: Vec<String> = s.split_whitespace().map(|w| w.to_string()).collect();
        assert_eq!(ours, std_words);
    }
}

#[test]
fn trim_like_str_trim() {
    for s in ["", "  a b  ", "\t\nhelp\r\n", "plain", "\u{2003}x\u{2003}"] {
        assert_eq!(trim(s), s.trim());
    }
}

#[test]
fn contains_like_str_contains() {
    assert!(contains_text("boot OK done", "OK"));
    assert!(!contains_text("boot ok done", "OK"));
    assert!(contains_text("anything", ""));
    assert!(!contains_text("", "x"));
    assert!(contains_text("ERR", "ERR"));
}

#[test]
fn join_and_slices() {
    let parts = vec!["a".to_string(), "b".to_string(), "c".to_string()];
    assert_eq!(join_from(&parts, 0, " "), "a b c");
    assert_eq!(join_from(&parts, 1, ""), "bc");
    assert_eq!(join_from(&parts, 3, " "), "");
    let cs = chars_of("héllo");
    assert_eq!(cs, vec!['h', 'é', 'l', 'l', 'o']);
    assert_eq!(string_of(&cs, 1, 3), "él");
    assert!(same_text("abc", "abc"));
    assert!(!same_text("abc", "abd"));
}

#[test]
fn hex_ids_are_four_upper_digits() {
    assert_eq!(hex4_upper_text(0x10c4), "10C4");
    assert_eq!(hex4_upper_text(0xea60), "EA60");
    assert_eq!(hex4_upper_text(0x7), "0007");
}

#[test]
fn payload_text_and_hex() {
    assert_eq!(encode_payload("hello", false).unwrap(), b"hello".to_vec());
    assert_eq!(encode_payload("48454C4C4F", true).unwrap(), b"HELLO".to_vec());
    assert_eq!(encode_payload("0aFf", true).unwrap(), vec![0x0a, 0xff]);
    assert_eq!(encode_payload("123", true).unwrap_err(), HexDecodeError::OddLength);
    assert_eq!(
        encode_payload("12g4", true).unwrap_err(),
        HexDecodeError::InvalidHexCharacter { c: 'g', index: 2 }
    );
}

#[test]
fn hex_error_texts() {
    assert_eq!(hex_error_message(HexDecodeError::OddLength), "Odd number of digits");
    assert_eq!(
        hex_error_message(HexDecodeError::InvalidHexCharacter { c: 'g', index: 3 }),
        "Invalid character 'g' at position 3"
    );
    assert_eq!(
        hex_error_message(HexDecodeError::InvalidHexCharacter { c: '\n', index: 5 }),
        "Invalid character '\\n' at position 5"
    );
    assert_eq!(hex_error_message(HexDecodeError::InvalidStringLength), "Invalid string length");
}

#[test]
fn received_bytes_as_text_and_hex() {
    assert_eq!(hex_text(&vec![1, 2, 3, 15, 16]), "0102030f10");
    assert_eq!(hex_text(&b"Hello world!".to_vec()), "48656c6c6f20776f726c6421");
    assert_eq!(lossy_text(&b"OK\r\n".to_vec()), "OK\r\n");
    assert_eq!(lossy_text(&vec![0x61, 0xff, 0x62]), "a\u{fffd}b");
}

#[test]
fn hex_of_received_bytes_sends_them_back() {
    let bytes: Vec<u8> = (0u8..=255).collect();
    let text = hex_text(&bytes);
    assert_eq!(encode_payload(&text, true).unwrap(), bytes);
}
