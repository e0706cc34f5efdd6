use anatro_rs::text::{contains_char, decimal_string, hex_string, split_char, text_eq, trim_end};

#[test]
fn split_like_str_split() {
    for (s, c) in [("a-b", '-'), ("", '-'), ("-", '-'), ("a--b-", '-'), ("x:y:z", ':'), ("é:ü", ':')] {
        let mine: Vec<&str> = split_char(s, c);
        let theirs: Vec<&str> = s.split(c).collect();
        assert_eq!(mine, theirs);
    }
}

#[test]
fn trim_end_like_std() {
    for s in ["abc  ", "abc\n", "\t\r\n", "", "a b", "x\u{3000}", "y\u{a0}\u{2028}"] {
        assert_eq!(trim_end(s), s.trim_end());
    }
}

#[test]
fn small_text_helpers() {
    assert!(contains_char("a/b", '/'));
    assert!(!contains_char("ab", '/'));
    assert!(text_eq("abc", "abc"));
    assert!(!text_eq("abc", "abd"));
    assert!(!text_eq("ab", "abc"));
    assert_eq!(decimal_string(0), "0");
    assert_eq!(decimal_string(1234567), "1234567");
    assert_eq!(hex_string(0xBEEF, 4), "BEEF");
    assert_eq!(hex_string(0xBEEF, 6), "00BEEF");
    assert_eq!(hex_string(u64::MAX, 16), "FFFFFFFFFFFFFFFF");
}
