//! The regular expressions of the bot: the formatting codes of IRC, and RaceBot's
//! announcement of a new race.

use vstd::prelude::*;
use vstd::string::*;

use crate::text::part_can_be_cut_out;
use crate::text::stands_at;

verus! {

/// Matches one formatting code of an IRC message, as described at
/// <https://modern.ircdocs.horse/formatting.html>.
pub const SCRUB: &'static str =
    r"\x03([0-9]{1,2}(,[0-9]{1,2})?)?|\x04[a-fA-F0-9]{6}|[\x02\x0f\x11\x16\x1d\x1e\x1f]";

/// Matches RaceBot's announcement of a race, such as "Race initiated for Mega Man
/// Hacks. Join #srl-dr0nu to participate."
pub const ROOM: &'static str =
    r"Race initiated for (?P<game>[ [:alnum:]]+)\. Join (?P<chan>\#srl\-[[:alnum:]]+) to participate\.";

/// The group of `ROOM` that holds the name of the game.
pub const GAME_GROUP: &'static str = "game";

/// The group of `ROOM` that holds the name of the channel.
pub const CHAN_GROUP: &'static str = "chan";

/// What the name of every race channel begins with.
pub const RACE_PREFIX: &'static str = "#srl-";

// Formatting codes

pub open spec fn is_digit(c: char) -> bool {
    '0' <= c && c <= '9'
}

pub open spec fn is_hex_digit(c: char) -> bool {
    is_digit(c) || ('a' <= c && c <= 'f') || ('A' <= c && c <= 'F')
}

/// Whether `c` switches a style (bold, reset, monospace, reverse, italics,
/// strikethrough, underline).
pub open spec fn is_toggle(c: char) -> bool {
    c == '\x02' || c == '\x0f' || c == '\x11' || c == '\x16' || c == '\x1d' || c == '\x1e' || c
        == '\x1f'
}

/// How many characters a color number takes at the start of `s`: one or two
/// digits, as many as there are, or none.
pub open spec fn color_len(s: Seq<char>) -> nat {
    if s.len() > 0 && is_digit(s[0]) {
        if s.len() > 1 && is_digit(s[1]) {
            2
        } else {
            1
        }
    } else {
        0
    }
}

/// How many characters a pair of colors takes at the start of `s`: a foreground
/// number, and a comma and a background number if both are there, or none.
pub open spec fn colors_len(s: Seq<char>) -> nat {
    let foreground = color_len(s);
    let after = s.skip(foreground as int);
    if foreground > 0 && after.len() > 0 && after[0] == ',' && color_len(after.skip(1)) > 0 {
        foreground + 1 + color_len(after.skip(1))
    } else {
        foreground
    }
}

/// How many characters a formatting code takes at the start of `s`, zero if none
/// stands there. The byte 3 is a code with or without colors, the byte 4 only with
/// the six digits of a color.
pub open spec fn code_len(s: Seq<char>) -> nat {
    if s.len() == 0 {
        0
    } else if s[0] == '\x03' {
        1 + colors_len(s.skip(1))
    } else if s[0] == '\x04' {
        if s.len() >= 7 && forall|i: int| 1 <= i < 7 ==> is_hex_digit(#[trigger] s[i]) {
            7
        } else {
            0
        }
    } else if is_toggle(s[0]) {
        1
    } else {
        0
    }
}

/// The text without its formatting codes, read from the left.
pub open spec fn scrubbed(text: Seq<char>) -> Seq<char>
    decreases text.len(),
{
    if text.len() == 0 {
        Seq::empty()
    } else if code_len(text) > 0 {
        scrubbed(text.skip(code_len(text) as int))
    } else {
        seq![text[0]] + scrubbed(text.skip(1))
    }
}

/// Calls `regex::Regex::new` and `regex::Regex::replace_all`.
///
/// Trusted: `SCRUB` is a valid expression, and when all its matches are replaced by
/// nothing, what is left is `scrubbed` of the text. A search takes the leftmost match
/// and goes on behind it; where the expression leaves a choice, the repetitions and
/// the optional groups take as much as they can.
#[verifier::external_body]
fn replace_all(pattern: &str, text: &str, replacement: &str) -> (replaced: String)
    requires
        pattern@ == SCRUB@,
        replacement@.len() == 0,
    ensures
        replaced@ == scrubbed(text@),
{
    let re = regex::Regex::new(pattern).expect("Failed to build scrub");
    re.replace_all(text, replacement).into_owned()
}

/// Takes the colors and styles out of a message.
pub fn scrub(message: &str) -> (plain: String)
    ensures
        plain@ == scrubbed(message@),
{
    proof {
        reveal_strlit("");
    }
    replace_all(SCRUB, message, "")
}

// Announcements

pub open spec fn is_alphanumeric(c: char) -> bool {
    is_digit(c) || ('a' <= c && c <= 'z') || ('A' <= c && c <= 'Z')
}

/// Whether `game` can stand in an announcement as the name of a game.
pub open spec fn is_game_name(game: Seq<char>) -> bool {
    &&& game.len() > 0
    &&& forall|i: int|
        0 <= i < game.len() ==> (is_alphanumeric(#[trigger] game[i]) || game[i] == ' ')
}

/// Whether `chan` can stand in an announcement as the name of a race channel.
pub open spec fn is_race_channel(chan: Seq<char>) -> bool {
    &&& stands_at(chan, 0, RACE_PREFIX@)
    &&& chan.len() > RACE_PREFIX@.len()
    &&& forall|i: int| RACE_PREFIX@.len() <= i < chan.len() ==> is_alphanumeric(#[trigger] chan[i])
}

/// The sentence with which RaceBot announces a race of `game` in `chan`.
pub open spec fn announcement(game: Seq<char>, chan: Seq<char>) -> Seq<char> {
    "Race initiated for "@ + game + ". Join "@ + chan + " to participate."@
}

/// Whether a race of `game` in `chan` is announced in `text` from position `at` on.
pub open spec fn announced_at(text: Seq<char>, at: int, game: Seq<char>, chan: Seq<char>) -> bool {
    &&& is_game_name(game)
    &&& is_race_channel(chan)
    &&& stands_at(text, at, announcement(game, chan))
}

/// Whether that announcement is the first in `text`.
pub open spec fn announced_first(text: Seq<char>, at: int, game: Seq<char>, chan: Seq<char>) -> bool {
    &&& announced_at(text, at, game, chan)
    &&& forall|earlier: int, g: Seq<char>, c: Seq<char>|
        earlier < at ==> !#[trigger] announced_at(text, earlier, g, c)
}

/// A race that RaceBot announces.
pub struct RoomModel {
    pub game: Seq<char>,
    pub chan: Seq<char>,
}

/// The race that `text` announces first, if it announces any.
pub open spec fn announced(text: Seq<char>) -> Option<RoomModel> {
    if exists|at: int, game: Seq<char>, chan: Seq<char>| announced_first(text, at, game, chan) {
        let (_, game, chan) = choose|at: int, game: Seq<char>, chan: Seq<char>|
            announced_first(text, at, game, chan);
        Some(RoomModel { game, chan })
    } else {
        None
    }
}

/// Calls `regex::Regex::new`, `regex::Regex::captures` and `regex::Captures::name`.
///
/// Trusted: `ROOM` is a valid expression; it matches in a text exactly if the text
/// announces a race; the match taken is the leftmost one; and its two groups then
/// hold the name of the game and that of the channel.
#[verifier::external_body]
fn capture(pattern: &str, text: &str, group: &str) -> (found: Option<String>)
    requires
        pattern@ == ROOM@,
        group@ == GAME_GROUP@ || group@ == CHAN_GROUP@,
    ensures
        found is Some == announced(text@) is Some,
        found is Some && group@ == GAME_GROUP@ ==> found->0@ == announced(text@)->0.game,
        found is Some && group@ == CHAN_GROUP@ ==> found->0@ == announced(text@)->0.chan,
{
    let re = regex::Regex::new(pattern).expect("Failed to build regex");
    re.captures(text).and_then(|c| c.name(group).map(|m| m.as_str().to_owned()))
}

/// A race that RaceBot announced: the name of the game and the channel to join.
#[derive(Debug)]
pub struct Room {
    pub game: String,
    pub chan: String,
}

impl View for Room {
    type V = RoomModel;

    open spec fn view(&self) -> RoomModel {
        RoomModel { game: self.game@, chan: self.chan@ }
    }
}

/// Finds the race that a message announces.
pub fn find_room(message: &str) -> (room: Option<Room>)
    ensures
        room is Some == announced(message@) is Some,
        room is Some ==> room->0@ == announced(message@)->0,
{
    let chan = capture(ROOM, message, CHAN_GROUP);
    let game = capture(ROOM, message, GAME_GROUP);
    match (chan, game) {
        (Some(chan), Some(game)) => Some(Room { game, chan }),
        _ => None,
    }
}

/// At one position of a text at most one race is announced.
pub proof fn announcement_is_unique(
    text: Seq<char>,
    at: int,
    game: Seq<char>,
    chan: Seq<char>,
    other_game: Seq<char>,
    other_chan: Seq<char>,
)
    requires
        announced_at(text, at, game, chan),
        announced_at(text, at, other_game, other_chan),
    ensures
        game == other_game,
        chan == other_chan,
{
    reveal_strlit("Race initiated for ");
    reveal_strlit(". Join ");
    reveal_strlit(" to participate.");
    reveal_strlit("#srl-");
    let a = announcement(game, chan);
    let b = announcement(other_game, other_chan);
    let n = game.len();
    let m = other_game.len();
    assert forall|i: int| 0 <= i < a.len() && i < b.len() implies a[i] == b[i] by {
        assert(text.subrange(at, at + a.len())[i] == text[at + i]);
        assert(text.subrange(at, at + b.len())[i] == text[at + i]);
    }
    assert forall|i: int| 0 <= i < n && i < m implies game[i] == other_game[i] by {
        assert(a[19 + i] == game[i] && b[19 + i] == other_game[i]);
    }
    if n < m {
        assert(a[19 + n as int] == '.' && b[19 + n as int] == other_game[n as int]);
    }
    if m < n {
        assert(b[19 + m as int] == '.' && a[19 + m as int] == game[m as int]);
    }
    assert(game == other_game);
    let k = chan.len();
    let l = other_chan.len();
    assert forall|i: int| 0 <= i < k && i < l implies chan[i] == other_chan[i] by {
        assert(a[26 + n + i] == chan[i] && b[26 + n + i] == other_chan[i]);
    }
    if k < l {
        assert(a[26 + n + k as int] == ' ' && b[26 + n + k as int] == other_chan[k as int]);
    }
    if l < k {
        assert(b[26 + n + l as int] == ' ' && a[26 + n + l as int] == chan[l as int]);
    }
    assert(chan == other_chan);
}

/// The race that a text announces first is the race that is found in it.
pub proof fn first_announcement_is_found(text: Seq<char>, at: int, game: Seq<char>, chan: Seq<char>)
    requires
        announced_first(text, at, game, chan),
    ensures
        announced(text) == Some(RoomModel { game, chan }),
{
    let (a, g, c) = choose|a: int, g: Seq<char>, c: Seq<char>| announced_first(text, a, g, c);
    assert(announced_first(text, a, g, c));
    assert(a == at);
    announcement_is_unique(text, at, game, chan, g, c);
}

/// In a text that announces a race at some position, a race is found, and the
/// announcement found stands no later.
pub proof fn announcement_is_noticed(text: Seq<char>, at: int, game: Seq<char>, chan: Seq<char>)
    requires
        announced_at(text, at, game, chan),
    ensures
        announced(text) is Some,
        exists|first: int|
            first <= at && #[trigger] announced_first(
                text,
                first,
                announced(text)->0.game,
                announced(text)->0.chan,
            ),
    decreases at,
{
    if announced_first(text, at, game, chan) {
        first_announcement_is_found(text, at, game, chan);
        assert(announced_first(text, at, announced(text)->0.game, announced(text)->0.chan));
    } else {
        let (a, g, c) = choose|a: int, g: Seq<char>, c: Seq<char>|
            a < at && #[trigger] announced_at(text, a, g, c);
        announcement_is_noticed(text, a, g, c);
    }
}

/// RaceBot's sentence is understood: the race that it announces is the race found.
pub proof fn announcement_is_understood(game: Seq<char>, chan: Seq<char>)
    requires
        is_game_name(game),
        is_race_channel(chan),
    ensures
        announced(announcement(game, chan)) == Some(RoomModel { game, chan }),
{
    let text = announcement(game, chan);
    assert(text.subrange(0, text.len() as int) == text);
    first_announcement_is_found(text, 0, game, chan);
}

/// A race that is found has the name of a game and that of a race channel.
pub proof fn room_is_well_formed(text: Seq<char>)
    requires
        announced(text) is Some,
    ensures
        is_game_name(announced(text)->0.game),
        is_race_channel(announced(text)->0.chan),
{
}

/// Whether `c` can only stand in a message as the start of a formatting code.
pub open spec fn is_format_char(c: char) -> bool {
    c == '\x03' || is_toggle(c)
}

/// Nothing of what a formatting code can begin with is left in a scrubbed text,
/// save for a byte 4, which is no code unless a color follows it.
pub proof fn scrubbed_text_is_plain(text: Seq<char>)
    ensures
        forall|i: int| 0 <= i < scrubbed(text).len() ==> !is_format_char(#[trigger] scrubbed(text)[i]),
    decreases text.len(),
{
    if text.len() == 0 {
        assert(scrubbed(text).len() == 0);
    } else if code_len(text) > 0 {
        scrubbed_text_is_plain(text.skip(code_len(text) as int));
        assert(scrubbed(text) == scrubbed(text.skip(code_len(text) as int)));
    } else {
        let rest = scrubbed(text.skip(1));
        scrubbed_text_is_plain(text.skip(1));
        assert forall|i: int| 0 <= i < scrubbed(text).len() implies !is_format_char(
            #[trigger] scrubbed(text)[i],
        ) by {
            if i > 0 {
                assert(scrubbed(text)[i] == rest[i - 1]);
            }
        }
    }
}

/// A text without anything that a formatting code can begin with stays as it is.
pub proof fn plain_text_is_kept(text: Seq<char>)
    requires
        forall|i: int|
            0 <= i < text.len() ==> !is_format_char(#[trigger] text[i]) && text[i] != '\x04',
    ensures
        scrubbed(text) == text,
    decreases text.len(),
{
    if text.len() == 0 {
        assert(scrubbed(text) == text);
    } else {
        assert forall|i: int| 0 <= i < text.skip(1).len() implies !is_format_char(
            #[trigger] text.skip(1)[i],
        ) && text.skip(1)[i] != '\x04' by {
            assert(text.skip(1)[i] == text[i + 1]);
        }
        assert(!is_format_char(text[0]));
        plain_text_is_kept(text.skip(1));
        assert(scrubbed(text) == text);
    }
}

/// Text without anything that a formatting code can begin with is kept in front of any
/// other text.
pub proof fn plain_start_is_kept(start: Seq<char>, rest: Seq<char>)
    requires
        forall|i: int|
            0 <= i < start.len() ==> !is_format_char(#[trigger] start[i]) && start[i] != '\x04',
    ensures
        scrubbed(start + rest) == start + scrubbed(rest),
    decreases start.len(),
{
    if start.len() == 0 {
        assert(start + rest == rest);
        assert(start + scrubbed(rest) == scrubbed(rest));
    } else {
        let tail = start.skip(1);
        assert forall|i: int| 0 <= i < tail.len() implies !is_format_char(#[trigger] tail[i])
            && tail[i] != '\x04' by {
            assert(tail[i] == start[i + 1]);
        }
        assert(!is_format_char(start[0]));
        plain_start_is_kept(tail, rest);
        assert((start + rest).skip(1) == tail + rest);
        assert(seq![start[0]] + (tail + scrubbed(rest)) == start + scrubbed(rest));
    }
}

/// Every character of a scrubbed text comes from the text.
pub proof fn scrubbed_text_is_from_text(text: Seq<char>)
    ensures
        forall|i: int| 0 <= i < scrubbed(text).len() ==> text.contains(#[trigger] scrubbed(text)[i]),
        scrubbed(text).len() <= text.len(),
    decreases text.len(),
{
    if text.len() == 0 {
        assert(scrubbed(text).len() == 0);
    } else {
        let n: int = if code_len(text) > 0 { code_len(text) as int } else { 1 };
        let tail = text.skip(n);
        scrubbed_text_is_from_text(tail);
        assert forall|i: int| 0 <= i < scrubbed(text).len() implies text.contains(
            #[trigger] scrubbed(text)[i],
        ) by {
            let c = scrubbed(text)[i];
            if code_len(text) == 0 && i == 0 {
                assert(text[0] == c);
            } else {
                assert(tail.contains(c));
                let j = choose|j: int| 0 <= j < tail.len() && tail[j] == c;
                assert(text[n + j] == c);
            }
        }
    }
}

/// Scrubbing a text without a byte 4 twice is scrubbing it once.
pub proof fn scrubbing_twice_is_scrubbing_once(text: Seq<char>)
    requires
        !text.contains('\x04'),
    ensures
        scrubbed(scrubbed(text)) == scrubbed(text),
{
    scrubbed_text_is_plain(text);
    scrubbed_text_is_from_text(text);
    plain_text_is_kept(scrubbed(text));
}

/// RaceBot's sentence holds no formatting codes, so scrubbing leaves it as it is.
pub proof fn announcement_is_plain(game: Seq<char>, chan: Seq<char>)
    requires
        is_game_name(game),
        is_race_channel(chan),
    ensures
        scrubbed(announcement(game, chan)) == announcement(game, chan),
{
    reveal_strlit("Race initiated for ");
    reveal_strlit(". Join ");
    reveal_strlit(" to participate.");
    reveal_strlit("#srl-");
    let text = announcement(game, chan);
    assert forall|i: int| 0 <= i < text.len() implies text[i] >= ' ' by {
        let n = game.len();
        let k = chan.len();
        if 19 <= i < 19 + n {
            assert(text[i] == game[i - 19]);
        } else if 26 + n <= i < 26 + n + k {
            assert(text[i] == chan[i - 26 - n]);
            if i - 26 - n < 5 {
                assert(chan.subrange(0, 5)[i - 26 - n] == chan[i - 26 - n]);
            }
        }
    }
    plain_text_is_kept(text);
}

/// Whether `c` is one of the digits.
pub open spec fn in_digits(c: char) -> bool {
    '0' <= c && c <= '9'
}

/// Whether `c` is a letter or a digit of ASCII.
pub open spec fn in_letters_or_digits(c: char) -> bool {
    in_digits(c) || ('a' <= c && c <= 'z') || ('A' <= c && c <= 'Z')
}

/// Whether `s` begins with a digit.
pub open spec fn digit_first(s: Seq<char>) -> bool {
    s.len() > 0 && in_digits(s[0])
}

/// Whether `s` begins with a comma and a digit.
pub open spec fn comma_digit_first(s: Seq<char>) -> bool {
    s.len() > 1 && s[0] == ',' && in_digits(s[1])
}

/// Whether `s` is a color number that ends where `rest` begins: one digit with no other
/// behind it, or two.
pub open spec fn is_color(s: Seq<char>, rest: Seq<char>) -> bool {
    ||| s.len() == 1 && in_digits(s[0]) && !digit_first(rest)
    ||| s.len() == 2 && in_digits(s[0]) && in_digits(s[1])
}

/// A character that switches a style is taken out, wherever it stands.
pub proof fn styles_are_taken_out(c: char, rest: Seq<char>)
    requires
        c == '\u{2}' || c == '\u{f}' || c == '\u{11}' || c == '\u{16}' || c == '\u{1d}' || c
            == '\u{1e}' || c == '\u{1f}',
    ensures
        scrubbed(seq![c] + rest) == scrubbed(rest),
{
    assert((seq![c] + rest).skip(1) =~= rest);
}

/// A color code is taken out with its numbers: the byte alone, with a foreground color,
/// or with a background color too, behind a comma.
pub proof fn colors_are_taken_out(foreground: Seq<char>, background: Seq<char>, rest: Seq<char>)
    ensures
        !digit_first(rest) ==> scrubbed(seq!['\u{3}'] + rest) == scrubbed(rest),
        is_color(foreground, rest) && !comma_digit_first(rest) ==> scrubbed(
            seq!['\u{3}'] + foreground + rest,
        ) == scrubbed(rest),
        is_color(foreground, Seq::empty()) && is_color(background, rest) ==> scrubbed(
            seq!['\u{3}'] + foreground + seq![','] + background + rest,
        ) == scrubbed(rest),
{
    let alone = seq!['\u{3}'] + rest;
    assert(alone.skip(1) =~= rest);
    if !digit_first(rest) {
        assert(color_len(rest) == 0);
        assert(code_len(alone) == 1);
    }
    if is_color(foreground, rest) && !comma_digit_first(rest) {
        let s = seq!['\u{3}'] + foreground + rest;
        let n = foreground.len();
        assert(s.skip(1) =~= foreground + rest);
        assert(color_len(s.skip(1)) == n);
        assert(s.skip(1).skip(n as int) =~= rest);
        if rest.len() > 1 {
            assert(rest.skip(1)[0] == rest[1]);
        }
        assert(code_len(s) == 1 + n);
        assert(s.skip((1 + n) as int) =~= rest);
    }
    if is_color(foreground, Seq::empty()) && is_color(background, rest) {
        let s = seq!['\u{3}'] + foreground + seq![','] + background + rest;
        let n = foreground.len();
        let m = background.len();
        assert(s.skip(1) =~= foreground + (seq![','] + background + rest));
        assert(color_len(s.skip(1)) == n);
        let after = s.skip(1).skip(n as int);
        assert(after =~= seq![','] + background + rest);
        assert(after.skip(1) =~= background + rest);
        assert(color_len(after.skip(1)) == m);
        assert(code_len(s) == 1 + n + 1 + m);
        assert(s.skip((1 + n + 1 + m) as int) =~= rest);
    }
}

/// A color in six hexadecimal digits is taken out.
pub proof fn hex_colors_are_taken_out(digits: Seq<char>, rest: Seq<char>)
    requires
        digits.len() == 6,
        forall|i: int|
            0 <= i < 6 ==> (in_digits(#[trigger] digits[i]) || ('a' <= digits[i] && digits[i]
                <= 'f') || ('A' <= digits[i] && digits[i] <= 'F')),
    ensures
        scrubbed(seq!['\u{4}'] + digits + rest) == scrubbed(rest),
{
    let s = seq!['\u{4}'] + digits + rest;
    assert forall|i: int| 1 <= i < 7 implies is_hex_digit(#[trigger] s[i]) by {
        assert(s[i] == digits[i - 1]);
    }
    assert(s.skip(7) =~= rest);
}

/// Every other character is kept, and so is the byte 4 when six hexadecimal digits do not
/// follow it.
pub proof fn other_characters_are_kept(c: char, rest: Seq<char>)
    requires
        c != '\u{2}' && c != '\u{3}' && c != '\u{f}' && c != '\u{11}' && c != '\u{16}' && c
            != '\u{1d}' && c != '\u{1e}' && c != '\u{1f}',
        c == '\u{4}' ==> rest.len() < 6 || exists|i: int|
            0 <= i < 6 && !(in_digits(#[trigger] rest[i]) || ('a' <= rest[i] && rest[i] <= 'f')
                || ('A' <= rest[i] && rest[i] <= 'F')),
    ensures
        scrubbed(seq![c] + rest) == seq![c] + scrubbed(rest),
{
    let s = seq![c] + rest;
    assert(s.skip(1) =~= rest);
    if c == '\u{4}' && rest.len() >= 6 {
        let i = choose|i: int|
            0 <= i < 6 && !(in_digits(#[trigger] rest[i]) || ('a' <= rest[i] && rest[i] <= 'f')
                || ('A' <= rest[i] && rest[i] <= 'F'));
        assert(s[i + 1] == rest[i]);
    }
}

/// Whether `game` is made of letters, digits and spaces, one at least.
pub open spec fn names_a_game(game: Seq<char>) -> bool {
    &&& game.len() > 0
    &&& forall|i: int|
        0 <= i < game.len() ==> (in_letters_or_digits(#[trigger] game[i]) || game[i] == ' ')
}

/// Whether `race` is made of letters and digits, one at least.
pub open spec fn names_a_race(race: Seq<char>) -> bool {
    &&& race.len() > 0
    &&& forall|i: int| 0 <= i < race.len() ==> in_letters_or_digits(#[trigger] race[i])
}

/// The prefix and the name of a race make the name of its channel.
pub proof fn channel_is_named_after_race(race: Seq<char>)
    requires
        names_a_race(race),
    ensures
        is_race_channel("#srl-"@ + race),
{
    let chan = "#srl-"@ + race;
    reveal_strlit("#srl-");
    assert(chan.subrange(0, 5) =~= "#srl-"@);
    assert forall|i: int| 5 <= i < chan.len() implies is_alphanumeric(#[trigger] chan[i]) by {
        assert(chan[i] == race[i - 5]);
    }
}

/// Behind any words without a capital R, RaceBot's sentence is understood, whatever game
/// and race it names and whatever follows it.
pub proof fn sentence_is_understood(
    before: Seq<char>,
    game: Seq<char>,
    race: Seq<char>,
    after: Seq<char>,
)
    requires
        !before.contains('R'),
        names_a_game(game),
        names_a_race(race),
    ensures
        announced(
            before + "Race initiated for "@ + game + ". Join "@ + "#srl-"@ + race
                + " to participate."@ + after,
        ) == Some(RoomModel { game, chan: "#srl-"@ + race }),
{
    reveal_strlit("Race initiated for ");
    reveal_strlit("#srl-");
    let chan = "#srl-"@ + race;
    let text = before + "Race initiated for "@ + game + ". Join "@ + "#srl-"@ + race
        + " to participate."@ + after;
    let sentence = announcement(game, chan);
    let at = before.len() as int;
    assert(text =~= before + sentence + after);
    assert(text.subrange(at, at + sentence.len()) =~= sentence);
    channel_is_named_after_race(race);
    assert forall|i: int| 0 <= i < game.len() implies (is_alphanumeric(#[trigger] game[i])
        || game[i] == ' ') by {
        assert(in_letters_or_digits(game[i]) || game[i] == ' ');
    }
    assert forall|earlier: int, g: Seq<char>, c: Seq<char>| earlier < at implies !#[trigger] announced_at(
        text,
        earlier,
        g,
        c,
    ) by {
        let other = announcement(g, c);
        assert(other[0] == 'R');
        if announced_at(text, earlier, g, c) {
            assert(text.subrange(earlier, earlier + other.len())[0] == text[earlier]);
            assert(before[earlier] == 'R');
        }
    }
    first_announcement_is_found(text, at, game, chan);
}

/// Where a race is found in a text, RaceBot's sentence stands there, and names it.
pub proof fn only_the_sentence_is_understood(text: Seq<char>)
    requires
        announced(text) is Some,
    ensures
        names_a_game(announced(text)->0.game),
        exists|before: Seq<char>, race: Seq<char>, after: Seq<char>|
            {
                &&& names_a_race(race)
                &&& announced(text)->0.chan == "#srl-"@ + race
                &&& text == #[trigger] (before + "Race initiated for "@ + announced(text)->0.game
                    + ". Join "@ + "#srl-"@ + race + " to participate."@ + after)
            },
{
    reveal_strlit("#srl-");
    let (at, game, chan) = choose|at: int, game: Seq<char>, chan: Seq<char>|
        announced_first(text, at, game, chan);
    let sentence = announcement(game, chan);
    let race = chan.skip(5);
    let before = text.take(at);
    let after = text.skip(at + sentence.len());
    part_can_be_cut_out(text, at, sentence);
    part_can_be_cut_out(chan, 0, "#srl-"@);
    assert(chan =~= "#srl-"@ + race);
    assert forall|i: int| 0 <= i < race.len() implies in_letters_or_digits(#[trigger] race[i]) by {
        assert(is_alphanumeric(chan[i + 5]));
    }
    assert forall|i: int| 0 <= i < game.len() implies (in_letters_or_digits(#[trigger] game[i])
        || game[i] == ' ') by {
        assert(is_alphanumeric(game[i]) || game[i] == ' ');
    }
    assert(text =~= before + "Race initiated for "@ + game + ". Join "@ + "#srl-"@ + race
        + " to participate."@ + after);
}

/// The value of a room holds its two names as they are.
pub proof fn room_values_are_whole(room: Room)
    ensures
        room@.game == room.game@,
        room@.chan == room.chan@,
{
}

} // verus!
