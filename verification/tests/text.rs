use susecon_agent::config::{env_or, env_parse_u64, env_parse_usize};
use susecon_agent::text::{
    chars_of, contains_chars, is_space_char, lowercase_chars, parse_decimal, push_decimal, push_joined,
    split_words, starts_with_chars, string_of, IntErrorKind,
};

fn v(s: &str) -> Vec<char> {
    s.chars().collect()
}

fn kind(e: &std::num::ParseIntError) -> IntErrorKind {
    match e.kind() {
        std::num::IntErrorKind::Empty => IntErrorKind::Empty,
        std::num::IntErrorKind::InvalidDigit => IntErrorKind::InvalidDigit,
        std::num::IntErrorKind::PosOverflow => IntErrorKind::PosOverflow,
        other => panic!("unexpected kind {:?}", other),
    }
}

#[test]
fn white_space_is_unicode_white_space() {
    for u in 0u32..0x11_0000 {
        if let Some(c) = char::from_u32(u) {
            assert_eq!(is_space_char(c), c.is_whitespace(), "U+{:04X}", u);
        }
    }
}

#[test]
fn words_match_split_whitespace() {
    for s in ["", " ", "ai", "  ai  kubernetes ", "a\tb\nc\u{3000}d\u{85}e", "x\u{A0}y", "edge  ", "  edge"] {
        let expected: Vec<Vec<char>> = s.split_whitespace().map(v).collect();
        assert_eq!(split_words(&v(s)), expected, "{:?}", s);
    }
}

#[test]
fn contains_matches_str_contains() {
    let hays = ["", "kubernetes", "agentic ai on kubernetes", "aaab", "ééa", "containers"];
    let needles = ["", "a", "ai", "kube", "netes", "aab", "ab", "éa", "x", "containersx"];
    for h in hays {
        for n in needles {
            assert_eq!(contains_chars(&v(h), &v(n)), h.contains(n), "{:?} in {:?}", n, h);
        }
    }
}

#[test]
fn lowercase_chars_lowers() {
    assert_eq!(lowercase_chars("AI on Kubernetes"), v("ai on kubernetes"));
    assert_eq!(lowercase_chars("ÉTÉ ΣΑΣ"), v(&"ÉTÉ ΣΑΣ".to_lowercase()));
    assert_eq!(chars_of("héllo"), v("héllo"));
    assert_eq!(string_of(&v("héllo")), "héllo");
}

#[test]
fn prefixes() {
    assert!(starts_with_chars(&v("VmRSS:  12 kB"), &v("VmRSS:")));
    assert!(!starts_with_chars(&v("VmRS"), &v("VmRSS:")));
    assert!(!starts_with_chars(&v("VmHWM: 1"), &v("VmRSS:")));
    assert!(starts_with_chars(&v("x"), &v("")));
}

#[test]
fn decimal_numerals() {
    for n in [0u64, 7, 10, 42, 1000, 1234567890, u64::MAX] {
        let mut s = String::from("#");
        push_decimal(&mut s, n);
        assert_eq!(s, format!("#{}", n));
    }
}

#[test]
fn joined_tags() {
    let tags: Vec<String> = vec!["ai".into(), "kubernetes".into(), "mcp".into()];
    let mut s = String::from("Tags: ");
    push_joined(&mut s, &tags, ", ");
    assert_eq!(s, "Tags: ai, kubernetes, mcp");
    let mut e = String::new();
    push_joined(&mut e, &Vec::new(), ", ");
    assert_eq!(e, "");
}

#[test]
fn parse_matches_std() {
    let cases = [
        "", "+", "-", "0", "+0", "-0", "12", "+12", "012", "1 2", " 1", "1a", "a1", "18446744073709551615",
        "18446744073709551616", "99999999999999999999x", "4294967295", "4294967296", "٣",
    ];
    for c in cases {
        let ours = parse_decimal(c, u64::MAX);
        match c.parse::<u64>() {
            Ok(n) => assert_eq!(ours, Ok(n), "{:?}", c),
            Err(e) => assert_eq!(ours, Err(kind(&e)), "{:?}", c),
        }
        let ours32 = parse_decimal(c, u32::MAX as u64);
        match c.parse::<u32>() {
            Ok(n) => assert_eq!(ours32, Ok(n as u64), "{:?}", c),
            Err(e) => assert_eq!(ours32, Err(kind(&e)), "{:?}", c),
        }
    }
}

#[test]
fn parse_error_messages_match_std() {
    for c in ["", "x", "99999999999999999999"] {
        let e = c.parse::<u64>().unwrap_err();
        assert_eq!(kind(&e).message(), e.to_string());
    }
}

#[test]
fn settings_fall_back_to_defaults() {
    assert_eq!(env_or(None, "0.0.0.0:8080"), "0.0.0.0:8080");
    assert_eq!(env_or(Some("127.0.0.1:1"), "0.0.0.0:8080"), "127.0.0.1:1");
    assert_eq!(env_parse_u64(None, "30"), Ok(30));
    assert_eq!(env_parse_u64(Some("12"), "30"), Ok(12));
    assert_eq!(env_parse_u64(Some("twelve"), "30"), Err(IntErrorKind::InvalidDigit));
    assert_eq!(env_parse_u64(Some(""), "30"), Err(IntErrorKind::Empty));
    assert_eq!(env_parse_usize(None, "512"), Ok(512));
    assert_eq!(env_parse_usize(Some("99999999999999999999"), "512"), Err(IntErrorKind::PosOverflow));
}
