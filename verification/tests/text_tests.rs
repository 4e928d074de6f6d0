use twicbook_builder::text::{
    bytes_eq, eq_ignore_ascii_case, parse_i32_bytes, parse_usize_bytes, push_decimal, trim_ws,
};

#[test]
fn trim_ws_matches_str_trim() {
    let samples = [
        "  hello  ",
        "\u{2003}x\u{2028}",
        "\u{85}y\u{a0}",
        "\t\n",
        "",
        "a b",
        "\u{1680}\u{200a}z\u{202f}\u{205f}",
    ];
    for s in samples {
        assert_eq!(trim_ws(s.as_bytes()), s.trim().as_bytes(), "{s:?}");
    }
}

#[test]
fn parse_i32_matches_std() {
    for s in ["0", "-0", "+7", "-", "+", "", "12a", "-2147483648", "2147483648", "007"] {
        assert_eq!(parse_i32_bytes(s.as_bytes()), s.parse::<i32>().ok(), "{s:?}");
    }
}

#[test]
fn parse_usize_matches_std() {
    for s in ["0", "+12", "-1", "+", "", "42", "18446744073709551616", "1 2"] {
        assert_eq!(parse_usize_bytes(s.as_bytes()), s.parse::<usize>().ok(), "{s:?}");
    }
}

#[test]
fn decimal_digits() {
    for n in [0u64, 7, 10, 99, 12345, u64::MAX] {
        let mut out = Vec::new();
        push_decimal(&mut out, n);
        assert_eq!(out, n.to_string().into_bytes());
    }
}

#[test]
fn byte_comparisons() {
    assert!(bytes_eq(b"abc", b"abc"));
    assert!(!bytes_eq(b"abc", b"abd"));
    assert!(!bytes_eq(b"abc", b"ab"));
    assert!(eq_ignore_ascii_case(b"NoRmAl", b"normal"));
    assert!(!eq_ignore_ascii_case(b"normal!", b"normal"));
}
