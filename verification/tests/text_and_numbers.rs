use feather_server::config::{parse_origin_list, trim_chars};
use feather_server::decimal::{i64_to_string, parse_i32, parse_i64, parse_u32, parse_u64, u64_to_string};
use feather_server::text::{split_chars, str_equals};

#[test]
fn integers_print_as_to_string_does() {
    assert_eq!(i64_to_string(0), "0");
    assert_eq!(i64_to_string(-42), "-42");
    assert_eq!(i64_to_string(i64::MIN), i64::MIN.to_string());
    assert_eq!(i64_to_string(i64::MAX), i64::MAX.to_string());
    assert_eq!(u64_to_string(u64::MAX), u64::MAX.to_string());
    assert_eq!(u64_to_string(1_700_000_000_123), "1700000000123");
}

#[test]
fn integers_parse_as_str_parse_does() {
    assert_eq!(parse_i64("+17"), Some(17));
    assert_eq!(parse_i64("-0"), Some(0));
    assert_eq!(parse_i64("007"), Some(7));
    assert_eq!(parse_i64("-9223372036854775808"), Some(i64::MIN));
    assert_eq!(parse_i64("9223372036854775808"), None);
    assert_eq!(parse_i64(""), None);
    assert_eq!(parse_i64("+"), None);
    assert_eq!(parse_i64("-"), None);
    assert_eq!(parse_i64("12a"), None);
    assert_eq!(parse_i64(" 1"), None);
    assert_eq!(parse_u64("-1"), None);
    assert_eq!(parse_u64("18446744073709551615"), Some(u64::MAX));
    assert_eq!(parse_u64("18446744073709551616"), None);
    assert_eq!(parse_u32("4294967296"), None);
    assert_eq!(parse_i32("-2147483648"), Some(i32::MIN));
    assert_eq!(parse_i32("2147483648"), None);
    for s in ["", "+", "-", "0", "-5", "+5", "99999999999999999999999", "1_0", "٣"] {
        assert_eq!(parse_i64(s), s.parse::<i64>().ok(), "{s}");
        assert_eq!(parse_u32(s), s.parse::<u32>().ok(), "{s}");
    }
}

#[test]
fn printed_integers_read_back() {
    for x in [i64::MIN, -1_000_001, -1, 0, 1, 1_700_000_000_000, i64::MAX] {
        assert_eq!(parse_i64(&i64_to_string(x)), Some(x));
    }
}

#[test]
fn split_keeps_empty_pieces() {
    let parts = split_chars("a::b:", ':');
    let got: Vec<String> = parts.iter().map(|p| p.iter().collect()).collect();
    assert_eq!(got, vec!["a", "", "b", ""]);
    assert_eq!(split_chars("", ':').len(), 1);
}

#[test]
fn equality_by_characters() {
    assert!(str_equals("pending", "pending"));
    assert!(!str_equals("pending", "Pending"));
    assert!(!str_equals("pend", "pending"));
}

#[test]
fn trim_removes_unicode_whitespace() {
    let v: Vec<char> = " \t\u{3000}x y\u{a0}\n".chars().collect();
    let t: String = trim_chars(&v).into_iter().collect();
    assert_eq!(t, " \t\u{3000}x y\u{a0}\n".trim());
}

#[test]
fn origin_list_drops_blank_entries() {
    assert_eq!(
        parse_origin_list(" http://a.test , ,http://b.test,"),
        vec!["http://a.test".to_string(), "http://b.test".to_string()]
    );
    assert!(parse_origin_list("").is_empty());
}
