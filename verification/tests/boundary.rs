use rubyfmt_ffi::cbuf::content_before_nul;
use rubyfmt_ffi::encoding::is_valid_utf8;
use rubyfmt_ffi::marshal::contains_nul;
use rubyfmt_ffi::marshal::decode_input;
use rubyfmt_ffi::marshal::encode_output;

#[test]
fn missing_input_yields_nothing() {
    assert_eq!(decode_input(None), None);
}

#[test]
fn invalid_utf8_input_yields_nothing() {
    // 0xFF is not valid UTF-8; 0x00 is the terminator
    assert_eq!(decode_input(Some(&vec![0xFF, 0x00])), None);
}

#[test]
fn valid_input_decodes_to_text() {
    let buf = b"x=1\n\0".to_vec();
    assert_eq!(decode_input(Some(&buf)), Some(b"x=1\n".to_vec()));
}

#[test]
fn text_stops_at_first_terminator() {
    let buf = b"abc\0def".to_vec();
    assert_eq!(content_before_nul(&buf), b"abc".to_vec());
    assert_eq!(content_before_nul(&vec![0u8]), Vec::<u8>::new());
}

#[test]
fn engine_failure_yields_nothing() {
    assert_eq!(encode_output(None), None);
}

#[test]
fn embedded_terminator_is_declined() {
    assert_eq!(encode_output(Some(vec![b'a', 0, b'b'])), None);
}

#[test]
fn encode_appends_one_terminator() {
    let answer = b"x = 1\n".to_vec();
    assert_eq!(encode_output(Some(answer)), Some(b"x = 1\n\0".to_vec()));
}

#[test]
fn round_trip_is_stable_for_an_unchanging_engine() {
    // an engine that leaves already-formatted text unchanged: running the
    // boundary on its own output reproduces the buffer byte for byte
    let formatted = b"x = 1\n".to_vec();
    let first = encode_output(Some(formatted.clone())).unwrap();
    let decoded = decode_input(Some(&first)).unwrap();
    assert_eq!(decoded, formatted);
    let second = encode_output(Some(decoded)).unwrap();
    assert_eq!(second, first);
}

#[test]
fn ascii_is_valid_utf8() {
    assert!(is_valid_utf8(&b"hello, world".to_vec()));
    assert!(is_valid_utf8(&Vec::new()));
    assert!(is_valid_utf8(&vec![0u8]));
    assert!(is_valid_utf8(&vec![0x7F]));
}

#[test]
fn multibyte_text_is_valid_utf8() {
    assert!(is_valid_utf8(&"h\u{E9}llo".as_bytes().to_vec()));
    assert!(is_valid_utf8(&"\u{65E5}\u{672C}\u{8A9E}".as_bytes().to_vec()));
    assert!(is_valid_utf8(&"\u{1F600}".as_bytes().to_vec()));
}

#[test]
fn boundary_encodings_are_valid_utf8() {
    for v in [
        vec![0xC2, 0x80],
        vec![0xDF, 0xBF],
        vec![0xE0, 0xA0, 0x80],
        vec![0xED, 0x9F, 0xBF],
        vec![0xEE, 0x80, 0x80],
        vec![0xEF, 0xBF, 0xBF],
        vec![0xF0, 0x90, 0x80, 0x80],
        vec![0xF4, 0x8F, 0xBF, 0xBF],
    ] {
        assert!(is_valid_utf8(&v), "{:?}", v);
    }
}

#[test]
fn malformed_encodings_are_not_valid_utf8() {
    for v in [
        vec![0x80],                         // stray continuation byte
        vec![0xC2],                         // truncated two-byte encoding
        vec![0xE2, 0x82],                   // truncated three-byte encoding
        vec![0xE2, 0x28, 0xA1],             // bad continuation byte
        vec![0xC0, 0xAF],                   // over-long
        vec![0xC1, 0xBF],                   // over-long
        vec![0xE0, 0x80, 0x80],             // over-long
        vec![0xF0, 0x80, 0x80, 0x80],       // over-long
        vec![0xED, 0xA0, 0x80],             // surrogate
        vec![0xED, 0xBF, 0xBF],             // surrogate
        vec![0xF4, 0x90, 0x80, 0x80],       // past the last scalar
        vec![0xF8, 0x88, 0x80, 0x80, 0x80], // five-byte pattern
        vec![0xFF],
    ] {
        assert!(!is_valid_utf8(&v), "{:?}", v);
    }
}

#[test]
fn validator_agrees_with_the_standard_library() {
    let samples: Vec<Vec<u8>> = vec![
        b"x=1\n".to_vec(),
        "h\u{E9}llo \u{1F600}".as_bytes().to_vec(),
        vec![0xFF, 0x00],
        vec![0xED, 0xA0, 0x80],
        vec![0xC0, 0xAF],
        vec![0xF4, 0x90, 0x80, 0x80],
        vec![0xE2, 0x82],
        vec![0x80],
        vec![0x00, 0x7F, 0x41],
    ];
    for v in samples {
        assert_eq!(is_valid_utf8(&v), std::str::from_utf8(&v).is_ok(), "{:?}", v);
    }
}

#[test]
fn terminator_scan_finds_embedded_zero() {
    assert!(contains_nul(&vec![b'a', 0, b'b']));
    assert!(!contains_nul(&b"abc".to_vec()));
    assert!(!contains_nul(&Vec::new()));
}
