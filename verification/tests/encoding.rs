use rushttp::encoding::is_valid_utf8;

#[test]
fn ascii_is_valid() {
    assert!(is_valid_utf8(b""));
    assert!(is_valid_utf8(b"plain ascii text 0123456789"));
}

#[test]
fn multibyte_scalars_are_valid() {
    assert!(is_valid_utf8("na\u{00EF}ve".as_bytes()));
    assert!(is_valid_utf8("\u{20AC}".as_bytes()));
    assert!(is_valid_utf8("\u{1F496}".as_bytes()));
    assert!(is_valid_utf8(&[0xc2, 0x80]));
    assert!(is_valid_utf8(&[0xe0, 0xa0, 0x80]));
    assert!(is_valid_utf8(&[0xed, 0x9f, 0xbf]));
    assert!(is_valid_utf8(&[0xf0, 0x90, 0x80, 0x80]));
    assert!(is_valid_utf8(&[0xf4, 0x8f, 0xbf, 0xbf]));
}

#[test]
fn stray_continuation_is_invalid() {
    assert!(!is_valid_utf8(&[0x80]));
    assert!(!is_valid_utf8(&[0x41, 0xbf, 0x41]));
}

#[test]
fn truncated_sequences_are_invalid() {
    assert!(!is_valid_utf8(&[0xc3]));
    assert!(!is_valid_utf8(&[0xe2, 0x82]));
    assert!(!is_valid_utf8(&[0xf0, 0x9f, 0x92]));
    assert!(!is_valid_utf8(&[0xc3, 0x41]));
}

#[test]
fn overlong_encodings_are_invalid() {
    assert!(!is_valid_utf8(&[0xc0, 0x80]));
    assert!(!is_valid_utf8(&[0xc1, 0xbf]));
    assert!(!is_valid_utf8(&[0xe0, 0x80, 0x80]));
    assert!(!is_valid_utf8(&[0xf0, 0x80, 0x80, 0x80]));
}

#[test]
fn surrogates_are_invalid() {
    assert!(!is_valid_utf8(&[0xed, 0xa0, 0x80]));
    assert!(!is_valid_utf8(&[0xed, 0xbf, 0xbf]));
}

#[test]
fn out_of_range_scalars_are_invalid() {
    assert!(!is_valid_utf8(&[0xf4, 0x90, 0x80, 0x80]));
    assert!(!is_valid_utf8(&[0xf5, 0x80, 0x80, 0x80]));
    assert!(!is_valid_utf8(&[0xff]));
}

#[test]
fn agrees_with_std_on_samples() {
    let samples: [&[u8]; 8] = [
        b"abc",
        &[0xc3, 0xa9],
        &[0xc3, 0x28],
        &[0xe2, 0x82, 0xac],
        &[0xed, 0xa0, 0x80],
        &[0xf0, 0x9f, 0x92, 0x96],
        &[0xf8, 0x88, 0x80, 0x80],
        &[0x2b, 0xc0, 0xaf],
    ];
    for s in samples {
        assert_eq!(is_valid_utf8(s), std::str::from_utf8(s).is_ok());
    }
}
