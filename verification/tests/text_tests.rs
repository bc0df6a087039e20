use oaas::text::{
    fmt_i64, fmt_u64, lines, parse_u32, parse_u64, split_char, strip_prefix, strip_suffix, trim, trim_end_matches,
    words,
};

#[test]
fn splitting() {
    assert_eq!(split_char("a,,b", ','), vec!["a", "", "b"]);
    assert_eq!(split_char("", ','), vec![""]);
    assert_eq!(lines("a\r\nb\n\nc"), vec!["a", "b", "", "c"]);
    assert_eq!(lines("a\n"), vec!["a"]);
    assert_eq!(lines(""), Vec::<String>::new());
    assert_eq!(words("  cpu0  1\t2 \n"), vec!["cpu0", "1", "2"]);
    assert_eq!(words(""), Vec::<String>::new());
}

#[test]
fn trimming_and_affixes() {
    assert_eq!(trim("\t x y \u{3000}"), "x y");
    assert_eq!(trim_end_matches("http://h/v1///", '/'), "http://h/v1");
    assert_eq!(strip_prefix("MemTotal: 1", "MemTotal:").as_deref(), Some(" 1"));
    assert_eq!(strip_prefix("x", "MemTotal:"), None);
    assert_eq!(strip_suffix("12 kB", " kB").as_deref(), Some("12"));
}

#[test]
fn numbers() {
    assert_eq!(parse_u64("18446744073709551615"), Some(u64::MAX));
    assert_eq!(parse_u64("18446744073709551616"), None);
    assert_eq!(parse_u64("+7"), Some(7));
    assert_eq!(parse_u64("+"), None);
    assert_eq!(parse_u64("-1"), None);
    assert_eq!(parse_u64(""), None);
    assert_eq!(parse_u32("4294967296"), None);
    assert_eq!(fmt_u64(0), "0");
    assert_eq!(fmt_u64(1234567890), "1234567890");
    assert_eq!(fmt_i64(i64::MIN), "-9223372036854775808");
    assert_eq!(fmt_i64(-5), "-5");
}
