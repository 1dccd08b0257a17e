use fast_down::text::{
    chars_eq, chars_start_with, opt_str_eq, parse_u32, push_chars, push_decimal, push_str, slice_chars,
    split, starts_with, str_eq, to_chars, trim, trim_matches, trim_start_matches,
};

fn chars(s: &str) -> Vec<char> {
    s.chars().collect()
}

#[test]
fn to_chars_gives_the_characters() {
    assert_eq!(to_chars("aé😀"), vec!['a', 'é', '😀']);
    assert_eq!(to_chars(""), Vec::<char>::new());
}

#[test]
fn push_appends() {
    let mut buf = chars("ab");
    push_str(&mut buf, "cd");
    push_chars(&mut buf, &chars("ef"));
    assert_eq!(buf, chars("abcdef"));
}

#[test]
fn decimal_numerals() {
    for (n, text) in [
        (0u64, "0"),
        (7, "7"),
        (10, "10"),
        (109, "109"),
        (1234567890, "1234567890"),
        (u64::MAX, "18446744073709551615"),
    ] {
        let mut buf = Vec::new();
        push_decimal(&mut buf, n);
        assert_eq!(buf, chars(text));
    }
}

#[test]
fn equality_of_texts() {
    assert!(str_eq("abc", "abc"));
    assert!(!str_eq("abc", "abd"));
    assert!(!str_eq("abc", "ab"));
    assert!(str_eq("", ""));
    assert!(chars_eq(&chars("x"), &chars("x")));
    assert!(!chars_eq(&chars("x"), &chars("y")));
    assert!(opt_str_eq(&None, &None));
    assert!(opt_str_eq(&Some("a".to_string()), &Some("a".to_string())));
    assert!(!opt_str_eq(&Some("a".to_string()), &None));
    assert!(!opt_str_eq(&None, &Some("a".to_string())));
    assert!(!opt_str_eq(&Some("a".to_string()), &Some("b".to_string())));
}

#[test]
fn prefixes() {
    assert!(starts_with("W/\"abc\"", "W/"));
    assert!(!starts_with("w/\"abc\"", "W/"));
    assert!(starts_with("abc", ""));
    assert!(!starts_with("a", "ab"));
    assert!(chars_start_with(&chars("hello"), &chars("hel")));
}

#[test]
fn trimming_a_character() {
    assert_eq!(trim_matches(&chars("\"abc\""), '"'), chars("abc"));
    assert_eq!(trim_matches(&chars("\"\"a\"b\"\"\""), '"'), chars("a\"b"));
    assert_eq!(trim_matches(&chars("\"\"\""), '"'), chars(""));
    assert_eq!(trim_matches(&chars("abc"), '"'), chars("abc"));
    assert_eq!(trim_start_matches(&chars("vv1.2v"), 'v'), chars("1.2v"));
    assert_eq!(trim_start_matches(&chars(""), 'v'), chars(""));
}

#[test]
fn trimming_white_space() {
    assert_eq!(trim(&chars("  a b \t\r\n")), chars("a b"));
    assert_eq!(trim(&chars("\u{3000}x\u{a0}")), chars("x"));
    assert_eq!(trim(&chars("   ")), chars(""));
    assert_eq!(trim(&chars("")), chars(""));
    assert_eq!(trim(&chars("\u{200b}x")), chars("\u{200b}x"));
}

#[test]
fn trim_agrees_with_std() {
    for s in ["", " a", "a ", "\t\n a b \r\n", "\u{2028}x\u{2029}", "\u{1680}\u{205f}y\u{202f}", "\u{85}z"] {
        let got: String = trim(&chars(s)).into_iter().collect();
        assert_eq!(got, s.trim());
    }
}

#[test]
fn splitting() {
    assert_eq!(split(&chars("1.2.3"), '.'), vec![chars("1"), chars("2"), chars("3")]);
    assert_eq!(split(&chars(""), '.'), vec![chars("")]);
    assert_eq!(split(&chars("."), '.'), vec![chars(""), chars("")]);
    assert_eq!(split(&chars("a..b."), '.'), vec![chars("a"), chars(""), chars("b"), chars("")]);
    assert_eq!(slice_chars(&chars("hello"), 1, 3), chars("el"));
}

#[test]
fn parsing_numbers() {
    assert_eq!(parse_u32(&chars("0")), Some(0));
    assert_eq!(parse_u32(&chars("42")), Some(42));
    assert_eq!(parse_u32(&chars("+42")), Some(42));
    assert_eq!(parse_u32(&chars("007")), Some(7));
    assert_eq!(parse_u32(&chars("4294967295")), Some(u32::MAX));
    assert_eq!(parse_u32(&chars("4294967296")), None);
    assert_eq!(parse_u32(&chars("99999999999999999999999")), None);
    assert_eq!(parse_u32(&chars("")), None);
    assert_eq!(parse_u32(&chars("+")), None);
    assert_eq!(parse_u32(&chars("-1")), None);
    assert_eq!(parse_u32(&chars("1a")), None);
    assert_eq!(parse_u32(&chars(" 1")), None);
    assert_eq!(parse_u32(&chars("++1")), None);
}

#[test]
fn parse_u32_agrees_with_std() {
    for s in ["", "+", "1", "+0", "00", "12x", "4294967295", "4294967296", "-0", "٣"] {
        assert_eq!(parse_u32(&chars(s)), s.parse::<u32>().ok());
    }
}
