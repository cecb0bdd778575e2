use srlbot::seed::{convert_to_base26, draw, random_seed, seed_reply};
use std::collections::BTreeSet;

fn value(letters: &str) -> i64 {
    letters
        .bytes()
        .fold(0, |n: i64, b: u8| 26 * n + (b - b'A') as i64)
}

#[test]
fn seeds_are_written_in_letters() {
    assert_eq!(convert_to_base26(1), "B");
    assert_eq!(convert_to_base26(25), "Z");
    assert_eq!(convert_to_base26(26), "BA");
    assert_eq!(convert_to_base26(27), "BB");
    assert_eq!(convert_to_base26(675), "ZZ");
    assert_eq!(convert_to_base26(676), "BAA");
    assert_eq!(convert_to_base26(i32::MAX), "GYTISYX");
}

#[test]
fn seeds_that_are_not_positive_have_no_letters() {
    assert_eq!(convert_to_base26(0), "");
    assert_eq!(convert_to_base26(-7), "");
    assert_eq!(convert_to_base26(i32::MIN), "");
}

#[test]
fn letters_give_the_seed_back() {
    for seed in [0, 1, 5, 25, 26, 700, 17575, 17576, 123456789, i32::MAX] {
        let letters = convert_to_base26(seed);
        assert_eq!(value(&letters), seed as i64);
        assert!(letters.bytes().all(|b| b.is_ascii_uppercase()));
        assert!(!letters.starts_with('A'));
    }
}

#[test]
fn different_seeds_are_written_differently() {
    let written: BTreeSet<String> = (0..5000).map(convert_to_base26).collect();
    assert_eq!(written.len(), 5000);
}

#[test]
fn a_seed_is_told_in_letters() {
    assert_eq!(seed_reply(26), "Your seed is: BA");
    assert_eq!(seed_reply(0), "Your seed is: ");
}

#[test]
fn seeds_are_drawn_at_random() {
    let drawn: BTreeSet<i32> = (0..50).map(|_| random_seed()).collect();
    assert!(drawn.iter().all(|seed| *seed >= 0 && *seed < i32::MAX));
    assert!(drawn.len() > 1);
}

#[test]
fn numbers_are_drawn_from_their_range() {
    assert_eq!(draw(5, 6), 5);
    assert_eq!(draw(i32::MIN, i32::MIN + 1), i32::MIN);
    let drawn: BTreeSet<i32> = (0..200).map(|_| draw(-1, 2)).collect();
    assert_eq!(drawn, BTreeSet::from([-1, 0, 1]));
}
