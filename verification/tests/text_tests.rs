use demuxusb_rs::hexdata::decode_or_empty;
use demuxusb_rs::text::{
    contains, eq_str, parse_u32, parse_u64, parse_u8, remove_all_str, split, trim, u64_to_string,
};

fn chars(s: &str) -> Vec<char> {
    s.chars().collect()
}

fn text(v: &[char]) -> String {
    v.iter().collect()
}

#[test]
fn parse_u64_accepts_plain_and_plus_signed_digits() {
    assert_eq!(parse_u64(&chars("123")), Some(123));
    assert_eq!(parse_u64(&chars("+5")), Some(5));
    assert_eq!(parse_u64(&chars("0007")), Some(7));
    assert_eq!(parse_u64(&chars("18446744073709551615")), Some(u64::MAX));
}

#[test]
fn parse_u64_rejects_what_str_parse_rejects() {
    assert_eq!(parse_u64(&chars("")), None);
    assert_eq!(parse_u64(&chars("+")), None);
    assert_eq!(parse_u64(&chars("-1")), None);
    assert_eq!(parse_u64(&chars(" 1")), None);
    assert_eq!(parse_u64(&chars("1a")), None);
    assert_eq!(parse_u64(&chars("18446744073709551616")), None);
    assert_eq!(parse_u64(&chars("99999999999999999999999")), None);
}

#[test]
fn parse_narrow_integers_check_their_range() {
    assert_eq!(parse_u8(&chars("255")), Some(255));
    assert_eq!(parse_u8(&chars("256")), None);
    assert_eq!(parse_u32(&chars("4294967295")), Some(u32::MAX));
    assert_eq!(parse_u32(&chars("4294967296")), None);
    for s in ["0", "1", "42", "+9", "x", "", "300"] {
        assert_eq!(parse_u8(&chars(s)), s.parse::<u8>().ok(), "{s}");
    }
}

#[test]
fn decimal_text_reads_back() {
    assert_eq!(u64_to_string(0), "0");
    assert_eq!(u64_to_string(12345), "12345");
    assert_eq!(u64_to_string(u64::MAX), u64::MAX.to_string());
    for n in [0u64, 9, 10, 99, 100, 1_000_001, u64::MAX] {
        assert_eq!(parse_u64(&chars(&u64_to_string(n))), Some(n));
    }
}

#[test]
fn trim_removes_unicode_whitespace_at_both_ends() {
    assert_eq!(text(&trim(&chars("  a b \t"))), "a b");
    assert_eq!(text(&trim(&chars("\u{3000}x\u{a0}"))), "x");
    assert_eq!(text(&trim(&chars("   "))), "");
    for s in [" IN txn ", "OUT", "\n\r x y \u{2009}", ""] {
        assert_eq!(text(&trim(&chars(s))), s.trim());
    }
}

#[test]
fn split_matches_str_split() {
    for (s, c) in [("a:b", ':'), ("", ':'), ("a:", ':'), (":", ':'), ("1.2.3", '.'), ("abc", '.')] {
        let got: Vec<String> = split(&chars(s), c).iter().map(|p| text(p)).collect();
        let want: Vec<String> = s.split(c).map(|p| p.to_string()).collect();
        assert_eq!(got, want, "{s:?}");
    }
}

#[test]
fn remove_all_matches_str_replace() {
    for (s, p) in [("a b c", " "), ("IN (STALL)", "(STALL)"), ("aaa", "aa"), ("", "x"), ("xyz", "q")] {
        assert_eq!(text(&remove_all_str(&chars(s), p)), s.replace(p, ""), "{s:?}");
    }
}

#[test]
fn contains_and_literal_equality() {
    assert!(contains(&chars("IN txn"), &chars("IN")));
    assert!(!contains(&chars("OUT txn"), &chars("IN")));
    assert!(contains(&chars("abc"), &chars("")));
    assert!(eq_str(&chars("Set Address"), "Set Address"));
    assert!(!eq_str(&chars("Set Address "), "Set Address"));
}

#[test]
fn hex_columns_decode_or_give_nothing() {
    assert_eq!(decode_or_empty("0a1B"), vec![0x0a, 0x1b]);
    assert_eq!(decode_or_empty("800600010000"), vec![0x80, 0x06, 0x00, 0x01, 0x00, 0x00]);
    assert_eq!(decode_or_empty("abc"), Vec::<u8>::new());
    assert_eq!(decode_or_empty("zz"), Vec::<u8>::new());
    assert_eq!(decode_or_empty(""), Vec::<u8>::new());
}
