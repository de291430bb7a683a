use http_metrics::text::{
    append_decimal, append_escaped, append_fixed_point, append_signed_decimal, is_space_char,
    pow10_u64, trim_end,
};

fn decimal(n: u64) -> String {
    let mut s = String::new();
    append_decimal(&mut s, n);
    s
}

fn fixed(n: u64, places: u8) -> String {
    let mut s = String::new();
    append_fixed_point(&mut s, n, places);
    s
}

fn escaped(text: &str, in_label: bool) -> String {
    let mut s = String::new();
    append_escaped(&mut s, text, in_label);
    s
}

#[test]
fn decimal_numerals() {
    assert_eq!(decimal(0), "0");
    assert_eq!(decimal(7), "7");
    assert_eq!(decimal(10), "10");
    assert_eq!(decimal(1234567890), "1234567890");
    assert_eq!(decimal(u64::MAX), "18446744073709551615");
    let mut s = "x=".to_string();
    append_decimal(&mut s, 42);
    assert_eq!(s, "x=42");
}

#[test]
fn signed_numerals() {
    for n in [0, 1, -1, 137, -137, i32::MAX, i32::MIN] {
        let mut s = String::new();
        append_signed_decimal(&mut s, n);
        assert_eq!(s, n.to_string());
    }
}

#[test]
fn powers_of_ten() {
    assert_eq!(pow10_u64(0), 1);
    assert_eq!(pow10_u64(6), 1_000_000);
    assert_eq!(pow10_u64(19), 10_000_000_000_000_000_000);
}

#[test]
fn fixed_point_numerals() {
    assert_eq!(fixed(0, 0), "0");
    assert_eq!(fixed(37, 0), "37");
    assert_eq!(fixed(0, 6), "0");
    assert_eq!(fixed(5_000, 6), "0.005");
    assert_eq!(fixed(10_000, 6), "0.01");
    assert_eq!(fixed(250_000, 6), "0.25");
    assert_eq!(fixed(1_000_000, 6), "1");
    assert_eq!(fixed(2_500_000, 6), "2.5");
    assert_eq!(fixed(10_000_000, 6), "10");
    assert_eq!(fixed(1_234_567, 6), "1.234567");
    assert_eq!(fixed(1, 6), "0.000001");
    assert_eq!(fixed(1_000_001, 6), "1.000001");
    assert_eq!(fixed(123, 1), "12.3");
    assert_eq!(fixed(u64::MAX, 19), "1.8446744073709551615");
    assert_eq!(fixed(7, 19), "0.0000000000000000007");
}

#[test]
fn fixed_point_agrees_with_division() {
    for n in [0u64, 1, 999, 5_000, 123_456, 1_000_000, 98_765_432_100] {
        let text = fixed(n, 6);
        let parsed: f64 = text.parse().unwrap();
        assert!((parsed - n as f64 / 1e6).abs() < 1e-9);
    }
}

#[test]
fn escaping() {
    assert_eq!(escaped("plain", true), "plain");
    assert_eq!(escaped("a\\b", true), "a\\\\b");
    assert_eq!(escaped("a\nb", true), "a\\nb");
    assert_eq!(escaped("a\"b", true), "a\\\"b");
    assert_eq!(escaped("a\"b", false), "a\"b");
    assert_eq!(escaped("a\\b\nc", false), "a\\\\b\\nc");
    assert_eq!(escaped("", true), "");
    assert_eq!(escaped("日本\"", true), "日本\\\"");
}

#[test]
fn trimming() {
    assert_eq!(trim_end(""), "");
    assert_eq!(trim_end("   "), "");
    assert_eq!(trim_end("abc"), "abc");
    assert_eq!(trim_end("abc \n\t"), "abc");
    assert_eq!(trim_end("  a b  "), "  a b");
    assert_eq!(trim_end("x\u{a0}\u{3000}\u{2028}"), "x");
    assert_eq!(trim_end("x\u{200b}"), "x\u{200b}");
}

#[test]
fn trimming_agrees_with_std() {
    for code in 0u32..0x3100 {
        if let Some(c) = char::from_u32(code) {
            assert_eq!(is_space_char(c), c.is_whitespace(), "U+{:04X}", code);
            let s = format!("a{}", c);
            assert_eq!(trim_end(&s), s.trim_end());
        }
    }
}
