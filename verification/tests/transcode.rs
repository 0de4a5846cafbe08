use hexer::hex::{decode, decode_bytes, decode_to_text, encode, encode_bytes, HexError};
use hexer::output::wants_newline;
use hexer::resolve::{select_input, strip_trailing_newline, trim_trailing_whitespace, Input};

#[test]
fn encode_empty() {
    assert_eq!(encode(&[]), "");
}

#[test]
fn encode_single_zero_byte() {
    assert_eq!(encode(&[0x00]), "00");
}

#[test]
fn encode_two_bytes_lowercase() {
    assert_eq!(encode(&[0xAB, 0xCD]), "abcd");
}

#[test]
fn encode_text_bytes() {
    assert_eq!(encode("AB".as_bytes()), "4142");
}

#[test]
fn encode_matches_reference_codec() {
    let samples: Vec<Vec<u8>> = vec![
        vec![],
        vec![0x00],
        vec![0xAB, 0xCD],
        vec![0xff, 0x00, 0x7f, 0x80],
        (0u8..=255u8).collect(),
    ];
    for bytes in samples {
        assert_eq!(encode(&bytes), faster_hex::hex_string(&bytes));
    }
}

#[test]
fn decode_matches_reference_codec() {
    let src = "00abCDef1234567890";
    let ours = decode(src).unwrap();
    let mut theirs = vec![0u8; src.len() / 2];
    faster_hex::hex_decode(src.as_bytes(), &mut theirs).unwrap();
    assert_eq!(ours, theirs);
}

#[test]
fn decode_single_zero_byte() {
    assert_eq!(decode("00").unwrap(), vec![0u8]);
}

#[test]
fn decode_case_insensitive() {
    assert_eq!(decode("ABCD").unwrap(), decode("abcd").unwrap());
    assert_eq!(decode("ABCD").unwrap(), vec![0xAB, 0xCD]);
}

#[test]
fn decode_odd_length_fails() {
    assert_eq!(decode("abc"), Err(HexError::OddLength));
}

#[test]
fn decode_non_hex_fails() {
    assert_eq!(decode("zz"), Err(HexError::InvalidDigit));
}

#[test]
fn decode_non_ascii_fails() {
    assert_eq!(decode("é0"), Err(HexError::OddLength));
    assert_eq!(decode("éé"), Err(HexError::InvalidDigit));
}

#[test]
fn round_trip_arbitrary_bytes() {
    let original: Vec<u8> = vec![0xff, 0xfe, 0x00, 0x41, 0x80, 0x10];
    let hex = encode_bytes(&original);
    assert_eq!(decode_bytes(&hex).unwrap(), original);
}

#[test]
fn round_trip_through_strings() {
    let original: Vec<u8> = (0u8..=255u8).collect();
    assert_eq!(decode(&encode(&original)).unwrap(), original);
}

#[test]
fn decode_to_text_valid_utf8() {
    assert_eq!(decode_to_text("4142").unwrap(), "AB");
}

#[test]
fn decode_to_text_lossy_substitution() {
    assert_eq!(decode_to_text("ff").unwrap(), "\u{FFFD}");
}

#[test]
fn decode_to_text_propagates_errors() {
    assert_eq!(decode_to_text("abc"), Err(HexError::OddLength));
    assert_eq!(decode_to_text("zz"), Err(HexError::InvalidDigit));
}

#[test]
fn newline_only_on_interactive_terminal_without_flag() {
    assert!(wants_newline(true, false));
    assert!(!wants_newline(true, true));
    assert!(!wants_newline(false, false));
    assert!(!wants_newline(false, true));
}

#[test]
fn file_takes_precedence_over_literal() {
    let chosen = select_input(Some("data.bin".to_string()), Some("abcd".to_string()));
    assert!(matches!(chosen, Input::File(p) if p == "data.bin"));
}

#[test]
fn literal_used_without_file() {
    let chosen = select_input(None, Some("abcd".to_string()));
    assert!(matches!(chosen, Input::Literal(s) if s == "abcd"));
}

#[test]
fn stdin_used_without_file_or_literal() {
    let chosen = select_input(None, None);
    assert!(matches!(chosen, Input::Stdin));
}

#[test]
fn stdin_bytes_lose_one_trailing_newline() {
    let mut piped = b"AB\n".to_vec();
    strip_trailing_newline(&mut piped);
    assert_eq!(piped, b"AB");
    assert_eq!(encode(&piped), "4142");
}

#[test]
fn strip_keeps_bytes_without_newline() {
    let mut piped = b"AB".to_vec();
    strip_trailing_newline(&mut piped);
    assert_eq!(piped, b"AB");
    let mut empty: Vec<u8> = Vec::new();
    strip_trailing_newline(&mut empty);
    assert_eq!(empty, Vec::<u8>::new());
}

#[test]
fn strip_removes_only_one_newline() {
    let mut piped = b"AB\n\n".to_vec();
    strip_trailing_newline(&mut piped);
    assert_eq!(piped, b"AB\n");
}

#[test]
fn trim_removes_trailing_whitespace() {
    assert_eq!(trim_trailing_whitespace("abcd \t\r\n"), "abcd");
    assert_eq!(trim_trailing_whitespace("abcd"), "abcd");
    assert_eq!(trim_trailing_whitespace(" \n"), "");
    assert_eq!(trim_trailing_whitespace(""), "");
}

#[test]
fn trim_keeps_leading_and_inner_whitespace() {
    assert_eq!(trim_trailing_whitespace(" a b \n"), " a b");
}

#[test]
fn trim_removes_unicode_whitespace() {
    assert_eq!(trim_trailing_whitespace("a\u{00A0}\u{2003}"), "a");
}
