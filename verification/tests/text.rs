use srlbot::text::{
    characters, contains, equals, is_white_space, join, split_whitespace, starts_with,
};

#[test]
fn characters_are_listed_in_order() {
    assert_eq!(characters("aé越"), vec!['a', 'é', '越']);
    assert!(characters("").is_empty());
}

#[test]
fn strings_are_compared() {
    assert!(equals("RaceBot", "RaceBot"));
    assert!(equals("", ""));
    assert!(!equals("RaceBot", "racebot"));
    assert!(!equals("RaceBot", "RaceBo"));
    assert!(!equals("", "a"));
}

#[test]
fn prefixes_and_parts_are_found() {
    assert!(starts_with(".roll", ".roll"));
    assert!(starts_with(".rolling", ".roll"));
    assert!(starts_with("x", ""));
    assert!(!starts_with(" .roll", ".roll"));
    assert!(!starts_with(".rol", ".roll"));
    assert!(contains("hello bot", "bot"));
    assert!(contains("bot", "bot"));
    assert!(contains("bobot", "bot"));
    assert!(contains("", ""));
    assert!(contains("é越bot越", "bot"));
    assert!(!contains("bo", "bot"));
    assert!(!contains("b ot", "bot"));
}

#[test]
fn white_space_is_that_of_unicode() {
    for code in 0..=0x10ffff_u32 {
        if let Some(c) = char::from_u32(code) {
            assert_eq!(is_white_space(c), c.is_whitespace());
        }
    }
}

#[test]
fn strings_are_split_at_white_space() {
    assert_eq!(split_whitespace("!lottery a  b\tc "), vec!["!lottery", "a", "b", "c"]);
    assert_eq!(split_whitespace("  one\u{a0}two\u{3000}"), vec!["one", "two"]);
    assert_eq!(split_whitespace("越 é"), vec!["越", "é"]);
    assert!(split_whitespace("").is_empty());
    assert!(split_whitespace(" \n ").is_empty());
    for s in ["a b", " a b", "a\u{85}b", "\u{200b}a \u{2009}b", "x\u{1680}y z\r\n"] {
        let expected: Vec<&str> = s.split_whitespace().collect();
        assert_eq!(split_whitespace(s), expected);
    }
}

#[test]
fn joined_words_are_split_again() {
    let list: Vec<String> = vec!["a".to_owned(), "bc".to_owned(), "越".to_owned()];
    assert_eq!(join(&list, "/"), "a/bc/越");
    assert_eq!(join(&list[..1].to_vec(), "/"), "a");
    assert_eq!(join(&Vec::new(), "/"), "");
    assert_eq!(split_whitespace(&join(&list, " ")), list);
}
