use card_registry::normalize;
use card_registry::validate;

#[test]
fn normalize_uppercases_and_strips_whitespace() {
    assert_eq!(normalize("1234 5678 90AB cdef"), "1234567890ABCDEF");
    assert_eq!(normalize("abcdef"), "ABCDEF");
    assert_eq!(normalize(" \t\r\n"), "");
    assert_eq!(normalize(""), "");
    assert_eq!(normalize("a b\tc\nd"), "ABCD");
    assert_eq!(normalize("\u{a0}x\u{2003}y\u{3000}"), "XY");
}

#[test]
fn normalize_output_has_no_whitespace_or_lowercase() {
    let samples = [
        "hello world",
        "  MiXeD  CaSe  ",
        "1234567890abcdef",
        "\tZ z\u{2028}q\u{2029}",
    ];
    for s in samples {
        let n = normalize(s);
        assert!(!n.chars().any(|c| c.is_whitespace()));
        assert!(!n.chars().any(|c| c.is_ascii_lowercase()));
    }
}

#[test]
fn validate_accepts_exactly_sixteen_hex_digits() {
    assert!(validate("1234567890ABCDEF"));
    assert!(validate("0000000000000000"));
    assert!(validate("FFFFFFFFFFFFFFFF"));
}

#[test]
fn validate_rejects_wrong_length() {
    assert!(!validate(""));
    assert!(!validate("123456789ABCDEF"));
    assert!(!validate("1234567890ABCDEF0"));
}

#[test]
fn validate_rejects_non_hex_characters() {
    assert!(!validate("1234567890abcdef"));
    assert!(!validate("1234567890ABCDEG"));
    assert!(!validate("not-a-card"));
    assert!(!validate("1234 567890ABCDE"));
}

#[test]
fn validate_accepts_the_normalized_form_only() {
    let raw = "12 34 56 78 90 ab cd ef";
    assert!(!validate(raw));
    assert!(validate(normalize(raw).as_str()));
}
