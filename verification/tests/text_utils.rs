use pokescript::text::{contains_str, parse_u8, split_on, str_eq};

#[test]
fn parse_u8_accepts_plain_and_signed_numerals() {
    assert_eq!(parse_u8("0"), Some(0));
    assert_eq!(parse_u8("7"), Some(7));
    assert_eq!(parse_u8("007"), Some(7));
    assert_eq!(parse_u8("+12"), Some(12));
    assert_eq!(parse_u8("255"), Some(255));
}

#[test]
fn parse_u8_rejects_bad_numerals() {
    assert_eq!(parse_u8(""), None);
    assert_eq!(parse_u8("+"), None);
    assert_eq!(parse_u8("256"), None);
    assert_eq!(parse_u8("999999"), None);
    assert_eq!(parse_u8("1a"), None);
    assert_eq!(parse_u8("-1"), None);
    assert_eq!(parse_u8(" 1"), None);
}

#[test]
fn parse_u8_matches_std_parse() {
    for s in ["0", "42", "+8", "255", "256", "", "+", "-0", "01x"] {
        assert_eq!(parse_u8(s), s.parse::<u8>().ok(), "input {:?}", s);
    }
}

#[test]
fn split_on_keeps_empty_pieces() {
    assert_eq!(split_on("a,,b", ','), vec!["a", "", "b"]);
    assert_eq!(split_on("", ','), vec![""]);
    assert_eq!(split_on("abc", ','), vec!["abc"]);
    assert_eq!(split_on(",x,", ','), vec!["", "x", ""]);
    assert_eq!(split_on("1-3", '-'), vec!["1", "3"]);
}

#[test]
fn split_on_matches_std_split() {
    for s in ["a,b,c", ",,", "one", "", "x,", ",y"] {
        let expected: Vec<&str> = s.split(',').collect();
        assert_eq!(split_on(s, ','), expected, "input {:?}", s);
    }
}

#[test]
fn str_eq_compares_characters() {
    assert!(str_eq("", ""));
    assert!(str_eq("pikachu", "pikachu"));
    assert!(!str_eq("pikachu", "pikachu "));
    assert!(!str_eq("abc", "abd"));
    assert!(str_eq("\u{00e9}\u{2593}", "\u{00e9}\u{2593}"));
}

#[test]
fn contains_str_scans_all_elements() {
    let v = vec!["a".to_string(), "bb".to_string(), "ccc".to_string()];
    assert!(contains_str(&v, "bb"));
    assert!(contains_str(&v, "ccc"));
    assert!(!contains_str(&v, "b"));
    assert!(!contains_str(&Vec::new(), "a"));
}
