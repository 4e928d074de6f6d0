use twicbook_builder::filter::{is_custom_start, is_standard_variant, parse_elo, trim_bytes};

#[test]
fn parse_elo_reads_plain_number() {
    assert_eq!(parse_elo(b"2500"), Some(2500));
    assert_eq!(parse_elo(b"+2401"), Some(2401));
}

#[test]
fn parse_elo_trims_whitespace() {
    assert_eq!(parse_elo(b"  2450 \t"), Some(2450));
    assert_eq!(parse_elo(b"\r\n2600\n"), Some(2600));
    // U+00A0 and U+3000 are Unicode whitespace, which `str::trim` removes.
    assert_eq!(parse_elo("\u{a0}2610\u{3000}".as_bytes()), Some(2610));
}

#[test]
fn parse_elo_rejects_placeholders() {
    assert_eq!(parse_elo(b"?"), None);
    assert_eq!(parse_elo(b"-"), None);
    assert_eq!(parse_elo(b"0"), None);
    assert_eq!(parse_elo(b""), None);
    assert_eq!(parse_elo(b"   "), None);
    assert_eq!(parse_elo(b" ? "), None);
}

#[test]
fn parse_elo_rejects_non_positive_and_garbage() {
    assert_eq!(parse_elo(b"-2500"), None);
    assert_eq!(parse_elo(b"+0"), None);
    assert_eq!(parse_elo(b"2500x"), None);
    assert_eq!(parse_elo(b"25 00"), None);
    assert_eq!(parse_elo(b"99999999999"), None);
    assert_eq!(parse_elo(b"\xff2500"), None);
    assert_eq!(parse_elo(b"2500\xff"), None);
}

#[test]
fn parse_elo_handles_i32_bounds() {
    assert_eq!(parse_elo(b"2147483647"), Some(i32::MAX));
    assert_eq!(parse_elo(b"2147483648"), None);
    assert_eq!(parse_elo(b"0002400"), Some(2400));
}

#[test]
fn standard_variant_names() {
    assert!(is_standard_variant(b""));
    assert!(is_standard_variant(b"   "));
    assert!(is_standard_variant(b"Standard"));
    assert!(is_standard_variant(b"STANDARD"));
    assert!(is_standard_variant(b" normal "));
    assert!(is_standard_variant(b"Normal"));
}

#[test]
fn non_standard_variant_names() {
    assert!(!is_standard_variant(b"Chess960"));
    assert!(!is_standard_variant(b"Crazyhouse"));
    assert!(!is_standard_variant(b"standard chess"));
    assert!(!is_standard_variant(b"\xff"));
    assert!(!is_standard_variant(b"standard\xff"));
}

#[test]
fn custom_start_detection() {
    assert!(is_custom_start(Some(b"1")));
    assert!(is_custom_start(Some(b" 1\r\n")));
    assert!(!is_custom_start(Some(b"0")));
    assert!(!is_custom_start(Some(b"")));
    assert!(!is_custom_start(None));
    // A vertical tab is not ASCII whitespace for `u8::is_ascii_whitespace`.
    assert!(!is_custom_start(Some(b"\x0b1")));
}

#[test]
fn trim_bytes_strips_ascii_whitespace() {
    assert_eq!(trim_bytes(b"  ab c \n"), b"ab c");
    assert_eq!(trim_bytes(b"\t\x0c"), b"");
    assert_eq!(trim_bytes(b"x"), b"x");
    assert_eq!(trim_bytes(b"\x0bx\x0b"), b"\x0bx\x0b");
}
