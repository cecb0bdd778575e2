use srlbot::action::{Action, ContextWrapper};
use srlbot::chat::{handle_message, multi_reply, reply_actions};
use srlbot::config::config_for_guild;
use srlbot::message::IrcMessage;
use srlbot::race::StartRace;

const ROOM: &str = "Race initiated for Mega Man Hacks. Join #srl-dr0nu to participate.";

fn message(nickname: Option<&str>, channel: &str, text: &str) -> IrcMessage {
    IrcMessage {
        source_nickname: nickname.map(|n| n.to_owned()),
        channel: channel.to_owned(),
        message: text.to_owned(),
    }
}

fn shown(actions: &Vec<Action>) -> Vec<String> {
    actions
        .iter()
        .map(|action| match action {
            Action::ToDiscord(context, text) => format!("discord {}: {}", context.channel_id, text),
            Action::Join(channel) => format!("join {}", channel),
            Action::Privmsg(target, text) => format!("{}: {}", target, text),
            Action::ShowEntrants(race) => format!("entrants {}", race),
            Action::Multitwitch(channel, race) => format!("multi {} {}", channel, race),
        })
        .collect()
}

fn answer(nickname: &str, channel: &str, text: &str) -> Vec<String> {
    shown(&reply_actions(&message(Some(nickname), channel, text), text, "srlbot", 26))
}

#[test]
fn answers_go_to_the_channel_or_to_the_sender() {
    assert_eq!(message(Some("ada"), "#srl-a", "").answer_target(), "#srl-a");
    assert_eq!(message(Some("ada"), "&local", "").answer_target(), "&local");
    assert_eq!(message(Some("ada"), "+modeless", "").answer_target(), "+modeless");
    assert_eq!(message(Some("ada"), "!safe", "").answer_target(), "!safe");
    assert_eq!(message(Some("ada"), "srlbot", "").answer_target(), "ada");
    assert_eq!(message(Some("ada"), "", "").answer_target(), "ada");
    assert_eq!(message(None, "srlbot", "").answer_target(), "srlbot");
    assert_eq!(message(None, "#srl-a", "").answer_target(), "#srl-a");
}

#[test]
fn the_bot_enters_and_quits() {
    for command in [".botenter", ".botjoin", ".botenter now"] {
        assert_eq!(answer("ada", "#srl-a", command), vec!["#srl-a: .enter"]);
    }
    for command in [".botquit", ".botforfeit", ".botquitter"] {
        assert_eq!(answer("ada", "#srl-a", command), vec!["#srl-a: .quit"]);
    }
    assert_eq!(answer("ada", "srlbot", ".botquit"), vec!["ada: .quit"]);
    assert!(answer("ada", "#srl-a", " .botquit").is_empty());
}

#[test]
fn a_roll_is_answered_with_the_seed() {
    assert_eq!(answer("ada", "#srl-a", ".roll"), vec!["#srl-a: Your seed is: BA"]);
}

#[test]
fn only_a_roll_depends_on_the_seed() {
    for text in [".botenter srlbot", ".multi", "hello", ROOM] {
        let irc_msg = message(Some("RaceBot"), "#srl-a", text);
        let one = shown(&reply_actions(&irc_msg, text, "srlbot", 1));
        assert_eq!(one, shown(&reply_actions(&irc_msg, text, "srlbot", 2)));
    }
    let irc_msg = message(Some("ada"), "#srl-a", ".roll");
    let one = shown(&reply_actions(&irc_msg, ".roll", "srlbot", 1));
    assert_ne!(one, shown(&reply_actions(&irc_msg, ".roll", "srlbot", 2)));
}

#[test]
fn entrants_are_shown_for_a_race() {
    assert_eq!(answer("ada", "#srl-a", ".entrants dr0nu more"), vec!["entrants dr0nu"]);
    assert_eq!(answer("ada", "#srl-a", ".entrantsx  y"), vec!["entrants y"]);
    assert!(answer("ada", "#srl-a", ".entrants ").is_empty());
}

#[test]
fn streams_are_asked_for_in_race_channels() {
    assert_eq!(answer("ada", "#srl-dr0nu", ".multi"), vec!["multi #srl-dr0nu dr0nu"]);
    assert_eq!(answer("ada", "#srl-", ".multi"), vec!["multi #srl- "]);
    assert!(answer("ada", "#speedrunslive", ".multi").is_empty());
    assert!(answer("ada", "srlbot", ".multi").is_empty());
}

#[test]
fn the_bot_is_friendly() {
    assert_eq!(answer("ada", "#srl-a", "hi srlbot!"), vec!["#srl-a: beep boop"]);
    assert_eq!(
        answer("ada", "#srl-a", ".botenter srlbot"),
        vec!["#srl-a: .enter", "#srl-a: beep boop"]
    );
}

#[test]
fn small_talk_is_not_answered() {
    assert!(answer("ada", "#srl-a", "hello").is_empty());
    assert!(answer("ada", "#srl-a", "").is_empty());
    assert!(answer("ada", "#srl-a", ROOM).is_empty());
}

#[test]
fn announced_races_are_joined_for_every_configuration() {
    assert_eq!(answer("RaceBot", "#speedrunslive", ROOM), vec!["join #srl-dr0nu"; 3]);
    let mm9 = "Race initiated for Mega Man 9. Join #srl-n1n3 to participate.";
    assert_eq!(answer("RaceBot", "#speedrunslive", mm9), vec!["join #srl-n1n3"]);
    let other = "Race initiated for Tetris. Join #srl-t to participate.";
    assert!(answer("RaceBot", "#speedrunslive", other).is_empty());
}

#[test]
fn formatted_messages_are_understood() {
    let mut queue = StartRace::new();
    let config = config_for_guild("whats this").unwrap();
    queue.poll_discord(Some((ContextWrapper { channel_id: 9 }, config)), 0);
    let text = "\x0304Race initiated for \x02Mega Man Hacks\x02. Join \x0312#srl-dr0nu\x03 to participate.";
    let irc_msg = message(Some("RaceBot"), "#speedrunslive", text);
    let actions = handle_message(&mut queue, &irc_msg, "srlbot", 1).unwrap();
    assert_eq!(
        shown(&actions),
        vec![
            "discord 9: /join #srl-dr0nu",
            "join #srl-dr0nu",
            "#srl-dr0nu: .setgoal mega man 2 randomizer - any% (easy)",
            "#srl-dr0nu: .enter",
            "join #srl-dr0nu",
            "join #srl-dr0nu",
            "join #srl-dr0nu",
        ]
    );
    assert!(queue.is_idle());
}

#[test]
fn what_is_not_understood_is_left_alone() {
    let irc_msg = message(Some("RaceBot"), "#speedrunslive", "hello srlbot");
    let mut queue = StartRace::new();
    let actions = handle_message(&mut queue, &irc_msg, "srlbot", 1).unwrap();
    assert_eq!(shown(&actions), vec!["#speedrunslive: beep boop"]);
    let config = config_for_guild("whats this").unwrap();
    queue.poll_discord(Some((ContextWrapper { channel_id: 9 }, config)), 0);
    assert!(handle_message(&mut queue, &irc_msg, "srlbot", 1).is_none());
    assert!(!queue.is_idle());
}

#[test]
fn a_roll_draws_its_seed() {
    let irc_msg = message(Some("ada"), "#srl-a", ".ro\x02ll");
    let mut queue = StartRace::new();
    let first = shown(&handle_message(&mut queue, &irc_msg, "srlbot", 1).unwrap());
    assert_eq!(first.len(), 1);
    assert!(first[0].starts_with("#srl-a: Your seed is: "));
    let drawn = (0..50).any(|_| {
        shown(&handle_message(&mut queue, &irc_msg, "srlbot", 1).unwrap()) != first
    });
    assert!(drawn);
}

#[test]
fn streams_are_linked() {
    let twitches: Vec<String> = ["a", "", "bc"].iter().map(|s| s.to_string()).collect();
    assert_eq!(multi_reply(&twitches), "Multitwitch URL: http://multitwitch.tv/a/bc");
    assert_eq!(multi_reply(&vec!["a".to_owned()]), "Multitwitch URL: http://multitwitch.tv/a");
    assert_eq!(multi_reply(&vec!["".to_owned()]), "Sorry, no registered streams");
    assert_eq!(multi_reply(&Vec::new()), "Sorry, no registered streams");
}
