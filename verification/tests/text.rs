use phantom_rs::text::{
    decimal_string, find_chars, join_strings, parse_i32, parse_u8, split_str, str_contains,
    str_contains_char, str_eq, str_is_blank, to_ascii_lowercase, trim_end_char,
};

fn chars(s: &str) -> Vec<char> {
    s.chars().collect()
}

#[test]
fn split_agrees_with_std() {
    for s in ["", ";", "a", "a;b", ";a;;b;", "§;⛏"] {
        let expected: Vec<String> = s.split(';').map(|p| p.to_string()).collect();
        assert_eq!(split_str(s, ';'), expected);
    }
}

#[test]
fn join_agrees_with_std() {
    for s in ["", ";", "a;b", ";a;;b;"] {
        let parts: Vec<String> = s.split(';').map(|p| p.to_string()).collect();
        assert_eq!(join_strings(&parts, ';'), s);
    }
    assert_eq!(join_strings(&vec![], ';'), "");
}

#[test]
fn trim_end_agrees_with_std() {
    for s in ["", ";", ";;", "a;b;;", ";a", "⛏;"] {
        assert_eq!(trim_end_char(s, ';'), s.trim_end_matches(';'));
    }
}

#[test]
fn search_agrees_with_std() {
    for (s, pat) in
        [("abcabc", "ca"), ("abc", "abcd"), ("", ""), ("abc", ""), ("aab", "ab"), ("ws://h", "://")]
    {
        assert_eq!(str_contains(s, pat), s.contains(pat));
        assert_eq!(find_chars(&chars(s), &chars(pat)), s.find(pat));
    }
    assert!(str_contains_char("a:b", ':'));
    assert!(!str_contains_char("ab", ':'));
    assert!(str_eq("a§", "a§"));
    assert!(!str_eq("a", "ab"));
}

#[test]
fn ascii_lowercase_agrees_with_std() {
    for s in ["", "CrEaTiVe", "ÄÖ Ü", "@[`{", "AZaz09"] {
        assert_eq!(to_ascii_lowercase(s), s.to_ascii_lowercase());
    }
}

#[test]
fn blank_agrees_with_std_on_every_character() {
    for n in 0..=0x10_ffffu32 {
        if let Some(c) = char::from_u32(n) {
            let s = c.to_string();
            assert_eq!(str_is_blank(&s), s.trim().is_empty());
        }
    }
    assert!(str_is_blank(""));
    assert!(str_is_blank(" \t\u{3000}"));
    assert!(!str_is_blank(" a "));
}

#[test]
fn decimal_agrees_with_std() {
    for n in [0u64, 7, 10, 99, 100, 19132, 65535, u64::MAX] {
        assert_eq!(decimal_string(n), n.to_string());
    }
}

#[test]
fn signed_numbers_agree_with_std() {
    for s in [
        "", "0", "-0", "+0", "12", "-12", "+12", "007", "2147483647", "2147483648",
        "-2147483648", "-2147483649", "99999999999999999999", "1 ", " 1", "a", "-", "+", "--1",
        "1.0", "٣",
    ] {
        assert_eq!(parse_i32(s), s.parse::<i32>().ok());
    }
}

#[test]
fn bytes_as_numbers_agree_with_std() {
    for s in
        ["", "0", "-0", "-1", "+7", "255", "256", "0255", "00000000000255", "a", "1a", "+", "-"]
    {
        assert_eq!(parse_u8(s), s.parse::<u8>().ok());
    }
}

#[test]
fn decimal_reads_back() {
    for n in [0u64, 1, 9, 10, 2147483647] {
        assert_eq!(parse_i32(&decimal_string(n)), Some(n as i32));
    }
}
