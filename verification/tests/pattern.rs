use srlbot::pattern::{find_room, scrub};

fn color_len(s: &[char]) -> usize {
    s.iter().take(2).take_while(|c| c.is_ascii_digit()).count()
}

fn code_len(s: &[char]) -> usize {
    match s[0] {
        '\x03' => {
            let foreground = color_len(&s[1..]);
            let after = &s[1 + foreground..];
            if foreground > 0 && after.len() > 1 && after[0] == ',' && color_len(&after[1..]) > 0 {
                1 + foreground + 1 + color_len(&after[1..])
            } else {
                1 + foreground
            }
        }
        '\x04' if s.len() >= 7 && s[1..7].iter().all(|c| c.is_ascii_hexdigit()) => 7,
        '\x02' | '\x0f' | '\x11' | '\x16' | '\x1d' | '\x1e' | '\x1f' => 1,
        _ => 0,
    }
}

fn scrubbed_by_hand(text: &str) -> String {
    let chars: Vec<char> = text.chars().collect();
    let mut kept = String::new();
    let mut i: usize = 0;
    while i < chars.len() {
        let n: usize = code_len(&chars[i..]);
        if n == 0 {
            kept.push(chars[i]);
            i += 1;
        } else {
            i += n;
        }
    }
    kept
}

#[test]
fn formatting_codes_are_taken_out() {
    assert_eq!(scrub("\x02bold\x02 \x1ditalic\x0f"), "bold italic");
    assert_eq!(scrub("\x0304red\x03"), "red");
    assert_eq!(scrub("\x034,12red on blue"), "red on blue");
    assert_eq!(scrub("\x03044digits"), "4digits");
    assert_eq!(scrub("\x03,4"), ",4");
    assert_eq!(scrub("\x034,x"), ",x");
    assert_eq!(scrub("\x034,123"), "3");
    assert_eq!(scrub("\x04FF00aahex"), "hex");
    assert_eq!(scrub("\x11mono\x16reverse\x1estrike\x1funder"), "monoreversestrikeunder");
    assert_eq!(scrub(""), "");
}

#[test]
fn plain_text_stays_as_it_is() {
    assert_eq!(scrub("Race initiated, 越 4,12!"), "Race initiated, 越 4,12!");
    let sentence = "Race initiated for Mega Man Hacks. Join #srl-dr0nu to participate.";
    assert_eq!(scrub(sentence), sentence);
    assert_eq!(scrub("plain \x02bold"), "plain bold");
}

#[test]
fn a_color_prefix_without_color_stays() {
    assert_eq!(scrub("\x04"), "\x04");
    assert_eq!(scrub("\x04FF00a"), "\x04FF00a");
    assert_eq!(scrub("\x04FF00ag"), "\x04FF00ag");
}

#[test]
fn scrubbing_twice_matters_only_after_a_color_prefix() {
    let once = scrub("a\x02\x0304b\x1f");
    assert_eq!(scrub(&once), once);
    let hidden = scrub("\x04\x02ABCDEF");
    assert_eq!(hidden, "\x04ABCDEF");
    assert_eq!(scrub(&hidden), "");
}

#[test]
fn scrubbing_reads_from_the_left() {
    let letters: [char; 5] = ['\x03', '1', ',', 'a', '\x02'];
    for length in 0..6 {
        for mut number in 0..5_usize.pow(length) {
            let mut text = String::new();
            for _ in 0..length {
                text.push(letters[number % 5]);
                number /= 5;
            }
            assert_eq!(scrub(&text), scrubbed_by_hand(&text), "{:?}", text);
        }
    }
    for text in ["\x04\x041234567", "\x04abcdef\x04ABCDEFx", "\x0312\x04\x0312abcdef", "\x04é12345"] {
        assert_eq!(scrub(text), scrubbed_by_hand(text), "{:?}", text);
    }
}

fn found(message: &str) -> Option<(String, String)> {
    find_room(message).map(|room| (room.game, room.chan))
}

fn room(game: &str, chan: &str) -> Option<(String, String)> {
    Some((game.to_owned(), chan.to_owned()))
}

#[test]
fn announced_rooms_are_found() {
    assert_eq!(
        found("Race initiated for Mega Man Hacks. Join #srl-dr0nu to participate."),
        room("Mega Man Hacks", "#srl-dr0nu")
    );
    assert_eq!(
        found("hey: Race initiated for X. Join #srl-1 to participate. Bye"),
        room("X", "#srl-1")
    );
    assert_eq!(
        found("Race initiated for  . Join #srl-Z9 to participate."),
        room(" ", "#srl-Z9")
    );
}

#[test]
fn other_sentences_announce_nothing() {
    for message in [
        "",
        "Race initiated for Mega Man Hacks.",
        "race initiated for Mega Man Hacks. Join #srl-dr0nu to participate.",
        "Race initiated for . Join #srl-dr0nu to participate.",
        "Race initiated for Mega Man Hacks. Join #srl- to participate.",
        "Race initiated for Mega Man Hacks. Join #srl-dr-nu to participate.",
        "Race initiated for Mega Man Hacks. Join srl-dr0nu to participate.",
        "Race initiated for Pok\u{e9}mon. Join #srl-dr0nu to participate.",
        "Race initiated for Dr. Mario. Join #srl-dr0nu to participate.",
        "Race initiated for Mega Man Hacks. Join #srl-dr0nu to participate",
    ] {
        assert_eq!(found(message), None, "{:?}", message);
    }
}

#[test]
fn the_first_announcement_is_found() {
    assert_eq!(
        found(
            "Race initiated for Dr. Race initiated for A. Join #srl-a to participate. \
             Race initiated for B. Join #srl-b to participate."
        ),
        room("A", "#srl-a")
    );
    assert_eq!(
        found("Race initiated for Race initiated for A. Join #srl-a to participate."),
        room("Race initiated for A", "#srl-a")
    );
}
