use novel_processor::numfmt::{dec_i64_string, dec_string, parse_i64, parse_u32, parse_u64, parse_usize};
use novel_processor::text::{chars_of, find_chars, replace_first_chars, string_of, trim_chars};

fn s(cs: &[char]) -> String {
    cs.iter().collect()
}

#[test]
fn chars_round_trip_through_string() {
    let cs = chars_of("第一章 abc");
    assert_eq!(cs.len(), 7);
    assert_eq!(string_of(&cs), "第一章 abc");
}

#[test]
fn trim_removes_unicode_white_space() {
    let cs = chars_of("\u{3000}\t 第1章 \n\u{a0}");
    assert_eq!(s(&trim_chars(&cs)), "第1章");
    assert_eq!(s(&trim_chars(&chars_of("   "))), "");
}

#[test]
fn find_gives_first_occurrence() {
    let hay = chars_of("abcabc");
    assert_eq!(find_chars(&hay, &chars_of("bc")), Some(1));
    assert_eq!(find_chars(&hay, &chars_of("x")), None);
    assert_eq!(find_chars(&hay, &chars_of("")), Some(0));
}

#[test]
fn replace_first_only_replaces_once() {
    let r = replace_first_chars(&chars_of("aXbXc"), &chars_of("X"), &chars_of("--"));
    assert_eq!(s(&r), "a--bXc");
    let r = replace_first_chars(&chars_of("abc"), &chars_of("z"), &chars_of("--"));
    assert_eq!(s(&r), "abc");
}

#[test]
fn decimal_formatting() {
    assert_eq!(dec_string(0), "0");
    assert_eq!(dec_string(1234567890), "1234567890");
    assert_eq!(dec_string(u64::MAX), u64::MAX.to_string());
    assert_eq!(dec_i64_string(-42), "-42");
    assert_eq!(dec_i64_string(i64::MIN), i64::MIN.to_string());
}

#[test]
fn unsigned_parsing_matches_std() {
    for text in ["0", "+7", "42", "4294967295", "4294967296", "", "+", "-1", " 1", "1a", "007"] {
        assert_eq!(parse_u32(text), text.parse::<u32>().ok(), "u32 {:?}", text);
        assert_eq!(parse_u64(text), text.parse::<u64>().ok(), "u64 {:?}", text);
        assert_eq!(parse_usize(text), text.parse::<usize>().ok(), "usize {:?}", text);
    }
    assert_eq!(parse_u64("18446744073709551615"), Some(u64::MAX));
    assert_eq!(parse_u64("18446744073709551616"), None);
}

#[test]
fn signed_parsing_matches_std() {
    for text in [
        "0", "-0", "+5", "-5", "9223372036854775807", "9223372036854775808", "-9223372036854775808",
        "-9223372036854775809", "-", "+", "", "--1", "1-",
    ] {
        assert_eq!(parse_i64(text), text.parse::<i64>().ok(), "i64 {:?}", text);
    }
}

#[test]
fn decimal_round_trip() {
    for n in [0i64, 7, -7, 30, i64::MAX, i64::MIN] {
        assert_eq!(parse_i64(&dec_i64_string(n)), Some(n));
    }
}
