use rust_fpm::number::{parse_i64, parse_octal, parse_usize, to_decimal};
use rust_fpm::params::Params;
use rust_fpm::text::{
    bytes_eq, eq_ignore_ascii_case, has_nul, push_text, text_eq, to_ascii_uppercase,
};

#[test]
fn usize_in_text() {
    assert_eq!(parse_usize("0"), Some(0));
    assert_eq!(parse_usize("42"), Some(42));
    assert_eq!(parse_usize("+42"), Some(42));
    assert_eq!(parse_usize("0042"), Some(42));
    assert_eq!(parse_usize(""), None);
    assert_eq!(parse_usize("+"), None);
    assert_eq!(parse_usize("-1"), None);
    assert_eq!(parse_usize("-0"), None);
    assert_eq!(parse_usize("++1"), None);
    assert_eq!(parse_usize(" 1"), None);
    assert_eq!(parse_usize("1_000"), None);
    assert_eq!(parse_usize("four"), None);
    assert_eq!(parse_usize("\u{0661}"), None);
    assert_eq!(parse_usize("18446744073709551615"), Some(18446744073709551615));
    assert_eq!(parse_usize("18446744073709551616"), None);
    assert_eq!(parse_usize("99999999999999999999999"), None);
}

#[test]
fn usize_agrees_with_std() {
    for text in ["", "+", "-", "7", "+7", "-7", "007", "7 ", "1e3", "18446744073709551615",
        "18446744073709551616", "184467440737095516150"] {
        assert_eq!(parse_usize(text), text.parse::<usize>().ok());
    }
}

#[test]
fn i64_in_text() {
    assert_eq!(parse_i64("0"), Some(0));
    assert_eq!(parse_i64("-0"), Some(0));
    assert_eq!(parse_i64("12345"), Some(12345));
    assert_eq!(parse_i64("+5"), Some(5));
    assert_eq!(parse_i64("-5"), Some(-5));
    assert_eq!(parse_i64("-"), None);
    assert_eq!(parse_i64("+-5"), None);
    assert_eq!(parse_i64("-+5"), None);
    assert_eq!(parse_i64("9223372036854775807"), Some(9223372036854775807));
    assert_eq!(parse_i64("9223372036854775808"), None);
    assert_eq!(parse_i64("-9223372036854775808"), Some(-9223372036854775808));
    assert_eq!(parse_i64("-9223372036854775809"), None);
    for text in ["", "x", "00", "-00012", "+0", "9223372036854775806", "-1 "] {
        assert_eq!(parse_i64(text), text.parse::<i64>().ok());
    }
}

#[test]
fn octal_in_text() {
    assert_eq!(parse_octal("0666"), Some(438));
    assert_eq!(parse_octal("666"), Some(438));
    assert_eq!(parse_octal("000777"), Some(511));
    assert_eq!(parse_octal("+17"), Some(15));
    assert_eq!(parse_octal("0"), None);
    assert_eq!(parse_octal("000"), None);
    assert_eq!(parse_octal(""), None);
    assert_eq!(parse_octal("0o666"), None);
    assert_eq!(parse_octal("668"), None);
    assert_eq!(parse_octal("37777777777"), Some(4294967295));
    assert_eq!(parse_octal("40000000000"), None);
}

#[test]
fn numbers_written() {
    assert_eq!(to_decimal(0), "0");
    assert_eq!(to_decimal(9), "9");
    assert_eq!(to_decimal(10), "10");
    assert_eq!(to_decimal(404), "404");
    assert_eq!(to_decimal(18446744073709551615), "18446744073709551615");
}

#[test]
fn numbers_read_back() {
    for n in [0u64, 1, 9, 10, 99, 100, 65535, 1700000000] {
        assert_eq!(parse_usize(&to_decimal(n)), Some(n as usize));
        assert_eq!(parse_i64(&to_decimal(n)), Some(n as i64));
    }
}

#[test]
fn text_comparison() {
    assert!(text_eq("", ""));
    assert!(text_eq("h\u{e9}llo", "h\u{e9}llo"));
    assert!(!text_eq("abc", "abd"));
    assert!(!text_eq("abc", "ab"));
    assert!(bytes_eq(&[1, 2], &[1, 2]));
    assert!(!bytes_eq(&[1, 2], &[2, 1]));
}

#[test]
fn ascii_case() {
    assert!(eq_ignore_ascii_case(b"Content-Type", b"content-type"));
    assert!(eq_ignore_ascii_case(b"CONTENT-TYPE", b"content-type"));
    assert!(!eq_ignore_ascii_case(b"content_type", b"content-type"));
    assert!(!eq_ignore_ascii_case(b"content-typ", b"content-type"));
    assert!(!eq_ignore_ascii_case(b"[", b"{"));
    assert_eq!(to_ascii_uppercase("request_method"), "REQUEST_METHOD");
    assert_eq!(to_ascii_uppercase("Already_UP{z}`a"), "ALREADY_UP{Z}`A");
    assert_eq!(to_ascii_uppercase("stra\u{df}e \u{e9}"), "STRA\u{df}E \u{e9}");
    let once = to_ascii_uppercase("mIxed");
    assert_eq!(to_ascii_uppercase(&once), once);
}

#[test]
fn nul_in_text() {
    assert!(has_nul("\0"));
    assert!(has_nul("abc\0"));
    assert!(!has_nul(""));
    assert!(!has_nul("abc0"));
}

#[test]
fn text_as_bytes() {
    let mut bytes = vec![1u8];
    push_text(&mut bytes, "a\u{e9}");
    assert_eq!(bytes, vec![1u8, 0x61, 0xc3, 0xa9]);
}

#[test]
fn params_are_a_map() {
    let mut params = Params::new();
    assert_eq!(params.len(), 0);
    assert!(params.get("A").is_none());
    params.insert("A".to_string(), "1".to_string());
    params.insert("B".to_string(), "2".to_string());
    params.insert("A".to_string(), "3".to_string());
    assert_eq!(params.len(), 2);
    assert_eq!(params.get("A"), Some("3"));
    assert_eq!(params.get("B"), Some("2"));
    assert!(params.contains_key("B"));
    assert!(!params.contains_key("b"));
    params.insert_default("B", "9");
    params.insert_default("C", "4");
    assert_eq!(params.get("B"), Some("2"));
    assert_eq!(params.get("C"), Some("4"));
    let mut names: Vec<&str> = Vec::new();
    for i in 0..params.len() {
        names.push(params.entry(i).0);
    }
    names.sort();
    assert_eq!(names, vec!["A", "B", "C"]);
}
