use pike::text::{
    basename, first_line, parse_u32, str_contains, str_eq, str_le, trim_spaces, u64_to_dec,
};

#[test]
fn decimal_rendering_exact_values() {
    assert_eq!(u64_to_dec(0), "0");
    assert_eq!(u64_to_dec(7), "7");
    assert_eq!(u64_to_dec(10), "10");
    assert_eq!(u64_to_dec(3001), "3001");
    assert_eq!(u64_to_dec(65535), "65535");
    assert_eq!(u64_to_dec(u64::MAX), "18446744073709551615");
}

#[test]
fn decimal_parsing_exact_values() {
    assert_eq!(parse_u32("0"), Some(0));
    assert_eq!(parse_u32("8000"), Some(8000));
    assert_eq!(parse_u32(""), None);
    assert_eq!(parse_u32("12x"), None);
    assert_eq!(parse_u32("-3"), None);
    assert_eq!(parse_u32("4294967295"), Some(u32::MAX));
    assert_eq!(parse_u32("4294967296"), None);
}

#[test]
fn lexicographic_order_on_strings() {
    assert!(str_le("0.1.0", "0.1.1"));
    assert!(!str_le("0.1.1", "0.1.0"));
    assert!(str_le("abc", "abc"));
    assert!(str_le("ab", "abc"));
    assert!(!str_le("abc", "ab"));
    assert!(str_le("", "a"));
}

#[test]
fn substring_search() {
    assert!(str_contains("picodata 24.6.1", "picodata 24.6"));
    assert!(!str_contains("picodata 25.1.1", "picodata 24.6"));
    assert!(str_contains("abc", ""));
    assert!(!str_contains("ab", "abc"));
}

#[test]
fn string_equality() {
    assert!(str_eq("same", "same"));
    assert!(!str_eq("same", "sane"));
    assert!(!str_eq("same", "same "));
}

#[test]
fn first_line_of_text() {
    assert_eq!(first_line("one\ntwo\nthree"), "one");
    assert_eq!(first_line("single"), "single");
    assert_eq!(first_line("\nrest"), "");
    assert_eq!(first_line(""), "");
}

#[test]
fn trimming_whitespace() {
    assert_eq!(trim_spaces("  55 \t"), "55");
    assert_eq!(trim_spaces("55"), "55");
    assert_eq!(trim_spaces("   "), "");
    assert_eq!(trim_spaces(""), "");
    assert_eq!(trim_spaces("\r\na b\n"), "a b");
}

#[test]
fn basename_of_paths() {
    assert_eq!(basename("assets/logo.png"), "logo.png");
    assert_eq!(basename("a/b/c.txt"), "c.txt");
    assert_eq!(basename("plain"), "plain");
    assert_eq!(basename("dir/"), "");
}
