use rgd_zbot::number::{decimal_string, format_number, parse_i64, parse_u32, parse_u64, parse_usize};
use rgd_zbot::text::{contains, same_text, split, trim};

#[test]
fn thousands_separators() {
    assert_eq!(format_number(0), "0");
    assert_eq!(format_number(12), "12");
    assert_eq!(format_number(999), "999");
    assert_eq!(format_number(1000), "1,000");
    assert_eq!(format_number(12345), "12,345");
    assert_eq!(format_number(123456), "123,456");
    assert_eq!(format_number(1234567), "1,234,567");
    assert_eq!(format_number(u64::MAX), "18,446,744,073,709,551,615");
}

#[test]
fn separators_are_only_commas() {
    for n in [0, 7, 1000, 98765, 1234567890, u64::MAX] {
        assert_eq!(format_number(n).replace(',', ""), n.to_string());
    }
}

#[test]
fn numerals_read_back() {
    for n in [0, 9, 10, 4096, u64::MAX] {
        assert_eq!(decimal_string(n), n.to_string());
        assert_eq!(parse_u64(&decimal_string(n)), Some(n));
    }
}

#[test]
fn numerals_like_the_standard_library() {
    let texts = [
        "", "+", "-", "0", "-0", "+0", "00012", "+12", "-12", "++1", "+-1", "1+", " 1", "1 ", "1_0",
        "0x1", "4294967295", "4294967296", "9223372036854775807", "9223372036854775808",
        "-9223372036854775808", "-9223372036854775809", "18446744073709551615",
        "18446744073709551616", "99999999999999999999999999999999999999999999", "\u{661}", "a",
    ];
    for s in texts {
        assert_eq!(parse_u64(s), s.parse::<u64>().ok(), "{s}");
        assert_eq!(parse_u32(s), s.parse::<u32>().ok(), "{s}");
        assert_eq!(parse_usize(s), s.parse::<usize>().ok(), "{s}");
        assert_eq!(parse_i64(s), s.parse::<i64>().ok(), "{s}");
    }
}

#[test]
fn trims_like_the_standard_library() {
    for s in ["", " ", "a", " a", "a ", "\u{a0}a b\u{2003}", "\u{200b}a", "\u{85}\u{1680}x\u{3000}\u{2028}"] {
        assert_eq!(trim(s), s.trim());
        assert_eq!(trim(&trim(s)), trim(s));
    }
    for c in '\0'..=char::MAX {
        let s = c.to_string();
        assert_eq!(trim(&s).is_empty(), s.trim().is_empty());
    }
}

#[test]
fn splits_like_the_standard_library() {
    for s in ["", ":", "a", "a:b", ":a::b:", "~|~", "~|~|~", "a~|~b~|~", "~|"] {
        for sep in [":", "~|~"] {
            let parts = split(s, sep);
            assert_eq!(parts, s.split(sep).collect::<Vec<_>>());
            assert_eq!(parts.join(sep), s);
        }
    }
}

#[test]
fn searches_like_the_standard_library() {
    for s in ["", "json", "application/json; charset=UTF-8", "text/html", "jsjson", "jso"] {
        assert_eq!(contains(s, "json"), s.contains("json"));
    }
    assert!(contains("abc", ""));
    assert!(contains("", ""));
}

#[test]
fn compares_texts() {
    assert!(same_text("", ""));
    assert!(same_text("\u{e9}a", "\u{e9}a"));
    assert!(!same_text("a", "ab"));
    assert!(!same_text("ab", "ac"));
}
