use seis::decimal::{decimal_text, padded_text, parse_i32, signed_text};
use seis::text::{chars_of, has_prefix, has_suffix, join_strings, rfind_char, split_tokens, string_of};

#[test]
fn decimal_text_of_unsigned() {
    assert_eq!(decimal_text(0), "0");
    assert_eq!(decimal_text(7), "7");
    assert_eq!(decimal_text(1234), "1234");
    assert_eq!(decimal_text(u64::MAX), u64::MAX.to_string());
}

#[test]
fn decimal_text_of_signed() {
    assert_eq!(signed_text(0), "0");
    assert_eq!(signed_text(-42), "-42");
    assert_eq!(signed_text(2048), "2048");
    assert_eq!(signed_text(i64::MIN), i64::MIN.to_string());
    assert_eq!(signed_text(i64::MAX), i64::MAX.to_string());
}

#[test]
fn padded_text_pads_to_width() {
    assert_eq!(padded_text(7, 3), "007");
    assert_eq!(padded_text(0, 3), "000");
    assert_eq!(padded_text(42, 3), "042");
    assert_eq!(padded_text(999, 3), "999");
    assert_eq!(padded_text(1234, 3), "1234");
    assert_eq!(padded_text(5, 0), "5");
}

#[test]
fn parse_i32_accepts_what_std_accepts() {
    assert_eq!(parse_i32("12"), Some(12));
    assert_eq!(parse_i32("-7"), Some(-7));
    assert_eq!(parse_i32("+5"), Some(5));
    assert_eq!(parse_i32("007"), Some(7));
    assert_eq!(parse_i32("-0"), Some(0));
    assert_eq!(parse_i32("2147483647"), Some(i32::MAX));
    assert_eq!(parse_i32("-2147483648"), Some(i32::MIN));
}

#[test]
fn parse_i32_refuses_what_std_refuses() {
    for s in ["", "-", "+", "1a", " 1", "1 ", "2147483648", "-2147483649", "--1", "1.5", "99999999999999999999"] {
        assert_eq!(parse_i32(s), None, "{s}");
        assert!(s.parse::<i32>().is_err(), "{s}");
    }
}

#[test]
fn parse_reads_back_signed_text() {
    for v in [0i32, 1, -1, 9, 10, -10, 123456, i32::MAX, i32::MIN] {
        assert_eq!(parse_i32(&signed_text(v as i64)), Some(v));
    }
}

#[test]
fn split_tokens_splits_at_white_space() {
    assert_eq!(split_tokens("  a b\t\nc  "), vec!["a", "b", "c"]);
    assert_eq!(split_tokens(""), Vec::<String>::new());
    assert_eq!(split_tokens("   "), Vec::<String>::new());
    assert_eq!(split_tokens("x\u{3000}yz"), vec!["x", "yz"]);
    assert_eq!(split_tokens("10 20"), vec!["10", "20"]);
}

#[test]
fn join_strings_puts_separator_between() {
    let parts = vec!["a".to_string(), "bc".to_string(), "d".to_string()];
    assert_eq!(join_strings(&parts, " "), "a bc d");
    assert_eq!(join_strings(&vec![], ","), "");
    assert_eq!(join_strings(&vec!["one".to_string()], ","), "one");
}

#[test]
fn prefixes_and_suffixes() {
    assert!(has_prefix("graben007", "graben"));
    assert!(!has_prefix("grab", "graben"));
    assert!(has_prefix("x", ""));
    assert!(has_suffix("modelvp.grd", "vp.grd"));
    assert!(!has_suffix("modelvs.grd", "vp.grd"));
    assert!(!has_suffix("d", "vp.grd"));
}

#[test]
fn characters_and_search() {
    let cs = chars_of("a\\b.c.d");
    assert_eq!(cs, vec!['a', '\\', 'b', '.', 'c', '.', 'd']);
    assert_eq!(string_of(&cs), "a\\b.c.d");
    assert_eq!(rfind_char(&cs, '.'), Some(5));
    assert_eq!(rfind_char(&cs, '\\'), Some(1));
    assert_eq!(rfind_char(&cs, 'z'), None);
}
