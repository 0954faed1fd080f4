use refurb_check::text::{
    lower_char, parse_i64, split_char, split_lines, str_contains, str_contains_ci,
    str_starts_with, trim,
};

#[test]
fn contains_finds_substrings() {
    assert!(str_contains("Generic NVMe SSD", "NVMe"));
    assert!(str_contains("abc", ""));
    assert!(str_contains("", ""));
    assert!(!str_contains("", "a"));
    assert!(!str_contains("APPLE", "apple"));
    assert!(str_contains("aaab", "aab"));
}

#[test]
fn contains_ci_ignores_ascii_case() {
    assert!(str_contains_ci("IOPlatform REFURBISHED flag", "refurbished"));
    assert!(str_contains_ci("Renewed", "renewed"));
    assert!(!str_contains_ci("refurb", "refurbished"));
}

#[test]
fn starts_with_is_a_prefix_test() {
    assert!(str_starts_with("FABC1234", "F"));
    assert!(str_starts_with("FABC1234", ""));
    assert!(!str_starts_with("CABC1234", "F"));
    assert!(!str_starts_with("F", "FA"));
}

#[test]
fn lower_char_maps_ascii_only() {
    assert_eq!(lower_char('A'), 'a');
    assert_eq!(lower_char('Z'), 'z');
    assert_eq!(lower_char('a'), 'a');
    assert_eq!(lower_char('0'), '0');
}

#[test]
fn trim_strips_edges_only() {
    assert_eq!(trim("  x y  "), "x y");
    assert_eq!(trim("\t\r\nz\n"), "z");
    assert_eq!(trim("   "), "");
    assert_eq!(trim(""), "");
    assert_eq!(trim("inner"), "inner");
}

#[test]
fn split_char_keeps_empty_parts() {
    let parts = split_char("a\"b\"c", '"');
    assert_eq!(parts, vec!["a", "b", "c"]);
    let parts = split_char("\"IOPlatformSerialNumber\" = \"C02ABC\"", '"');
    assert_eq!(parts.len(), 5);
    assert_eq!(parts[3], "C02ABC");
    assert_eq!(split_char("", ':'), vec![""]);
    assert_eq!(split_char("::", ':'), vec!["", "", ""]);
}

#[test]
fn split_lines_handles_terminators() {
    assert_eq!(split_lines("a\nb\n"), vec!["a", "b"]);
    assert_eq!(split_lines("a\r\nb"), vec!["a", "b"]);
    assert_eq!(split_lines(""), Vec::<&str>::new());
    assert_eq!(split_lines("\n"), vec![""]);
    assert_eq!(split_lines("one"), vec!["one"]);
}

#[test]
fn parse_i64_follows_std_grammar() {
    assert_eq!(parse_i64("0"), Some(0));
    assert_eq!(parse_i64("007"), Some(7));
    assert_eq!(parse_i64("-15"), Some(-15));
    assert_eq!(parse_i64("+15"), Some(15));
    assert_eq!(parse_i64(""), None);
    assert_eq!(parse_i64("-"), None);
    assert_eq!(parse_i64("+"), None);
    assert_eq!(parse_i64(" 5"), None);
    assert_eq!(parse_i64("5 "), None);
    assert_eq!(parse_i64("1_0"), None);
    assert_eq!(parse_i64("9223372036854775807"), Some(i64::MAX));
    assert_eq!(parse_i64("-9223372036854775808"), Some(i64::MIN));
    assert_eq!(parse_i64("9223372036854775808"), None);
    assert_eq!(parse_i64("-9223372036854775809"), None);
}
