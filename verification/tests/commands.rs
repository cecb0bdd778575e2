use srlbot::commands::{draw_index, lottery, lottery_reply, lottery_tickets, ping, roll, startrace};
use srlbot::message::DiscordMessage;
use std::collections::BTreeSet;

fn message(content: &str) -> DiscordMessage {
    DiscordMessage {
        author_is_bot: false,
        author_name: "ada".to_owned(),
        guild: Some("whats this".to_owned()),
        channel_id: 42,
        channel_name: Some("races".to_owned()),
        content: content.to_owned(),
    }
}

#[test]
fn bots_are_not_responded_to() {
    let mut msg = message("!lottery a b");
    msg.author_is_bot = true;
    assert!(ping(&msg).is_none());
    assert!(roll(&msg).is_none());
    assert!(lottery(&msg).is_none());
    assert!(startrace(&msg).is_none());
}

#[test]
fn a_ping_tells_where_it_came_from() {
    let mut msg = message("!ping");
    assert_eq!(
        ping(&msg).unwrap(),
        "Ping received.\nFrom guild with name 'whats this'\nFrom user with display_name 'ada'\nFrom channel 'races'"
    );
    msg.guild = None;
    msg.channel_name = None;
    assert_eq!(
        ping(&msg).unwrap(),
        "Ping received.\nunknown guild\nFrom user with display_name 'ada'"
    );
}

#[test]
fn a_roll_gives_a_seed() {
    let replies: BTreeSet<String> = (0..50).map(|_| roll(&message("!roll")).unwrap()).collect();
    assert!(replies.len() > 1);
    for reply in replies {
        let letters = reply.strip_prefix("Your seed is: ").unwrap();
        assert!(letters.bytes().all(|b| b.is_ascii_uppercase()));
    }
}

#[test]
fn a_lottery_without_tickets_is_invalid() {
    assert_eq!(lottery(&message("!lottery")).unwrap(), "Invalid lottery");
    assert_eq!(lottery(&message("")).unwrap(), "Invalid lottery");
    assert_eq!(lottery(&message("  !lottery  ")).unwrap(), "Invalid lottery");
}

#[test]
fn a_lottery_draws_one_of_its_tickets() {
    assert_eq!(lottery(&message("!lottery only")).unwrap(), "Winner is: only");
    let msg = message("!lottery a b c");
    let winners: BTreeSet<String> = (0..200).map(|_| lottery(&msg).unwrap()).collect();
    let expected: BTreeSet<String> = ["Winner is: a", "Winner is: b", "Winner is: c"]
        .iter()
        .map(|winner| winner.to_string())
        .collect();
    assert_eq!(winners, expected);
}

#[test]
fn the_drawn_ticket_wins() {
    let list = lottery_tickets("!lottery a  b c");
    assert_eq!(list, vec!["a", "b", "c"]);
    assert_eq!(lottery_reply(&list, Some(0)), "Winner is: a");
    assert_eq!(lottery_reply(&list, Some(2)), "Winner is: c");
    assert_eq!(lottery_reply(&list, None), "Invalid lottery");
}

#[test]
fn a_race_is_asked_for_in_its_guild() {
    let request = startrace(&message("!startrace")).unwrap();
    assert_eq!(request.reply, "Attempting to start race...");
    assert_eq!(request.context.channel_id, 42);
    assert_eq!(request.config.game_code, "megamanhacks");
    let mut msg = message("!startrace");
    msg.guild = Some("Mega Man 9 Tournament".to_owned());
    assert_eq!(startrace(&msg).unwrap().config.game_code, "mm9");
}

#[test]
fn no_race_is_asked_for_elsewhere() {
    let mut msg = message("!startrace");
    msg.guild = Some("elsewhere".to_owned());
    assert!(startrace(&msg).is_none());
    msg.guild = None;
    assert!(startrace(&msg).is_none());
}

#[test]
fn indices_are_drawn_from_their_range() {
    assert_eq!(draw_index(3, 3), 3);
    let drawn: BTreeSet<usize> = (0..200).map(|_| draw_index(1, 3)).collect();
    assert_eq!(drawn, BTreeSet::from([1, 2, 3]));
}
