use comde::literal::{parse_literal, render_literal};

#[test]
fn literal_roundtrips_every_byte_value() {
    let mut all: Vec<u8> = Vec::new();
    for b in 0..=255u8 {
        all.push(b);
    }
    let rendered = render_literal(&all);
    let parsed = parse_literal(&rendered).unwrap();
    assert_eq!(parsed, all);
}

#[test]
fn literal_roundtrips_empty_and_single() {
    let rendered = render_literal(&[]);
    assert_eq!(rendered, b"b\"\"".to_vec());
    assert_eq!(parse_literal(&rendered).unwrap(), Vec::<u8>::new());

    let rendered = render_literal(&[0x41]);
    assert_eq!(rendered, b"b\"A\"".to_vec());
    assert_eq!(parse_literal(&rendered).unwrap(), vec![0x41u8]);
}

#[test]
fn literal_escapes_exactly_as_expected() {
    let bytes = [0x00u8, 0x41, 0x22, 0x5c, 0x09, 0x7f, 0xff];
    let rendered = render_literal(&bytes);
    let expected = b"b\"\\x00A\\\"\\\\\\x09\\x7f\\xff\"".to_vec();
    assert_eq!(rendered, expected);
    assert_eq!(parse_literal(&rendered).unwrap(), bytes.to_vec());
}

#[test]
fn literal_text_is_ascii() {
    let mut all: Vec<u8> = Vec::new();
    for b in 0..=255u8 {
        all.push(b);
    }
    let rendered = render_literal(&all);
    for b in rendered {
        assert!(b < 0x80);
    }
}

#[test]
fn malformed_literals_are_rejected() {
    assert!(parse_literal(b"").is_none());
    assert!(parse_literal(b"b\"").is_none());
    assert!(parse_literal(b"\"abc\"").is_none());
    assert!(parse_literal(b"b\"abc").is_none());
    assert!(parse_literal(b"b\"\\q\"").is_none());
    assert!(parse_literal(b"b\"\\xgg\"").is_none());
    assert!(parse_literal(b"b\"\\x4\"").is_none());
    assert!(parse_literal(b"b\"\x01\"").is_none());
}
