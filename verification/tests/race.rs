use srlbot::action::{Action, ContextWrapper};
use srlbot::config::{config_for_guild, RaceConfig};
use srlbot::message::IrcMessage;
use srlbot::pattern::find_room;
use srlbot::race::{
    is_understood, RacebotStartRaceState, StartRace, ALREADY_STARTED, RACEBOTWAIT,
    TICKS_PER_SECOND, TIMED_OUT,
};

const ROOM: &str = "Race initiated for Mega Man Hacks. Join #srl-dr0nu to participate.";
const ROOM9: &str = "Race initiated for Mega Man 9. Join #srl-n1n3 to participate.";

fn hacks() -> RaceConfig {
    config_for_guild("Mega Man 2 Randomizer").unwrap()
}

fn mm9() -> RaceConfig {
    config_for_guild("Mega Man 9 Tournament").unwrap()
}

fn context(channel_id: u64) -> ContextWrapper {
    ContextWrapper { channel_id }
}

fn waiting() -> RacebotStartRaceState {
    RacebotStartRaceState::Waiting(context(7), 1000, hacks())
}

fn said_by(nickname: &str, message: &str) -> IrcMessage {
    IrcMessage {
        source_nickname: Some(nickname.to_owned()),
        channel: "#speedrunslive".to_owned(),
        message: message.to_owned(),
    }
}

fn shown(actions: &Vec<Action>) -> Vec<String> {
    actions
        .iter()
        .map(|action| match action {
            Action::ToDiscord(context, text) => format!("discord {}: {}", context.channel_id, text),
            Action::Join(channel) => format!("join {}", channel),
            Action::Privmsg(target, text) => format!("{}: {}", target, text),
            Action::ShowEntrants(race) => format!("entrants {}", race),
            Action::Multitwitch(channel, race) => format!("multi {} {}", channel, race),
        })
        .collect()
}

fn update(queue: &mut StartRace, nickname: &str, message: &str, now: u64) -> Vec<String> {
    shown(&queue.update_pending_races(&said_by(nickname, message), message, now))
}

#[test]
fn a_context_is_shown_without_its_channel() {
    assert_eq!(context(7).debug_text(), "Context");
    assert_eq!(context(8).debug_text(), "Context");
}

#[test]
fn a_waiting_race_can_fail() {
    match waiting().failed("no") {
        RacebotStartRaceState::Failed(context, sent_at, config, message) => {
            assert_eq!(context.channel_id, 7);
            assert_eq!(sent_at, 1000);
            assert_eq!(config.game_code, "megamanhacks");
            assert_eq!(message, "no");
        }
        _ => panic!("not failed"),
    }
    assert!(matches!(RacebotStartRaceState::Timedout.failed("no"), RacebotStartRaceState::Bad));
    assert!(matches!(
        RacebotStartRaceState::Success("#srl-a".to_owned()).failed("no"),
        RacebotStartRaceState::Bad
    ));
}

#[test]
fn context_and_config_are_known_until_the_end() {
    assert_eq!(waiting().get_context().unwrap().channel_id, 7);
    assert_eq!(waiting().get_config().unwrap().game_code, "megamanhacks");
    assert_eq!(waiting().failed("no").get_context().unwrap().channel_id, 7);
    assert_eq!(waiting().failed("no").get_config().unwrap().game_code, "megamanhacks");
    assert!(RacebotStartRaceState::Timedout.get_context().is_none());
    assert!(RacebotStartRaceState::Bad.get_config().is_none());
    assert!(RacebotStartRaceState::Success("#srl-a".to_owned()).get_context().is_none());
}

#[test]
fn an_announcement_in_time_opens_the_race() {
    let limit = RACEBOTWAIT * TICKS_PER_SECOND;
    match waiting().check_racebot_response(&Some("RaceBot"), ROOM, 1000 + limit - 1) {
        RacebotStartRaceState::Success(chan) => assert_eq!(chan, "#srl-dr0nu"),
        _ => panic!("not open"),
    }
    assert!(matches!(
        waiting().check_racebot_response(&Some("RaceBot"), ROOM, 0),
        RacebotStartRaceState::Success(_)
    ));
}

#[test]
fn a_late_announcement_times_the_race_out() {
    assert_eq!(RACEBOTWAIT, 3);
    let limit = RACEBOTWAIT * TICKS_PER_SECOND;
    for message in [ROOM, ROOM9] {
        assert!(matches!(
            waiting().check_racebot_response(&Some("RaceBot"), message, 1000 + limit),
            RacebotStartRaceState::Timedout
        ));
    }
}

#[test]
fn an_announcement_of_another_game_is_for_someone_else() {
    assert!(matches!(
        waiting().check_racebot_response(&Some("RaceBot"), ROOM9, 2000),
        RacebotStartRaceState::Waiting(ContextWrapper { channel_id: 7 }, 1000, _)
    ));
}

#[test]
fn a_refusal_fails_the_race() {
    assert!(matches!(
        waiting().check_racebot_response(&Some("RaceBot"), ALREADY_STARTED, u64::MAX),
        RacebotStartRaceState::Failed(_, 1000, _, _)
    ));
}

#[test]
fn others_do_not_answer_for_racebot() {
    for nickname in [None, Some("racebot"), Some("ada")] {
        for message in [ROOM, ALREADY_STARTED, "hello"] {
            assert!(matches!(
                waiting().check_racebot_response(&nickname, message, u64::MAX),
                RacebotStartRaceState::Waiting(_, 1000, _)
            ));
        }
    }
}

#[test]
fn an_answer_to_a_race_that_does_not_wait_is_bad() {
    for message in [ROOM, ALREADY_STARTED] {
        assert!(matches!(
            RacebotStartRaceState::Timedout.check_racebot_response(&Some("RaceBot"), message, 0),
            RacebotStartRaceState::Bad
        ));
    }
    assert!(matches!(
        RacebotStartRaceState::Timedout.check_racebot_response(&Some("ada"), ROOM, 0),
        RacebotStartRaceState::Timedout
    ));
}

#[test]
fn only_racebot_can_say_what_is_not_understood() {
    assert!(is_understood(Some("RaceBot"), ROOM));
    assert!(is_understood(Some("RaceBot"), ALREADY_STARTED));
    assert!(is_understood(Some("ada"), "hello"));
    assert!(is_understood(None, "hello"));
    assert!(!is_understood(Some("RaceBot"), "hello"));
}

#[test]
fn a_request_is_passed_on_to_racebot() {
    let mut queue = StartRace::new();
    assert!(queue.is_idle());
    assert!(queue.poll_discord(None, 5).is_empty());
    assert!(queue.is_idle());
    let actions = queue.poll_discord(Some((context(7), mm9())), 5);
    assert_eq!(shown(&actions), vec!["#speedrunslive: .startrace mm9"]);
    assert!(!queue.is_idle());
}

#[test]
fn an_open_race_is_joined_and_entered() {
    let mut queue = StartRace::new();
    queue.poll_discord(Some((context(7), hacks())), 5);
    assert_eq!(
        update(&mut queue, "RaceBot", ROOM, 6),
        vec![
            "discord 7: /join #srl-dr0nu",
            "join #srl-dr0nu",
            "#srl-dr0nu: .setgoal mega man 2 randomizer - any% (easy)",
            "#srl-dr0nu: .enter",
        ]
    );
    assert!(queue.is_idle());
    assert!(update(&mut queue, "RaceBot", ROOM, 7).is_empty());
    assert!(update(&mut queue, "RaceBot", "anything", 7).is_empty());
}

#[test]
fn races_are_answered_in_order_and_the_others_wait_on() {
    let mut queue = StartRace::new();
    queue.poll_discord(Some((context(1), hacks())), 5);
    queue.poll_discord(Some((context(2), mm9())), 5);
    queue.poll_discord(Some((context(3), hacks())), 5);
    assert!(update(&mut queue, "ada", ROOM, 6).is_empty());
    let done = update(&mut queue, "RaceBot", ROOM, 6);
    assert_eq!(done.len(), 8);
    assert_eq!(done[0], "discord 1: /join #srl-dr0nu");
    assert_eq!(done[4], "discord 3: /join #srl-dr0nu");
    assert!(!queue.is_idle());
    assert_eq!(update(&mut queue, "RaceBot", ROOM9, 6)[0], "discord 2: /join #srl-n1n3");
    assert!(queue.is_idle());
}

#[test]
fn a_repeated_message_has_no_second_effect() {
    let mut queue = StartRace::new();
    queue.poll_discord(Some((context(1), hacks())), 5);
    queue.poll_discord(Some((context(2), mm9())), 5);
    assert_eq!(update(&mut queue, "RaceBot", ROOM, 6).len(), 4);
    assert!(update(&mut queue, "RaceBot", ROOM, 6).is_empty());
    assert!(update(&mut queue, "RaceBot", ROOM, 7).is_empty());
    assert!(!queue.is_idle());
    let late = 5 + RACEBOTWAIT * TICKS_PER_SECOND;
    assert_eq!(
        update(&mut queue, "RaceBot", ROOM, late),
        vec![format!("discord 2: {}", TIMED_OUT)]
    );
    assert!(queue.is_idle());
}

#[test]
fn a_refusal_announces_no_race() {
    assert!(find_room(ALREADY_STARTED).is_none());
}

#[test]
fn a_refusal_ends_every_race() {
    let mut queue = StartRace::new();
    queue.poll_discord(Some((context(1), hacks())), 5);
    queue.poll_discord(Some((context(2), mm9())), 5);
    assert_eq!(
        update(&mut queue, "RaceBot", ALREADY_STARTED, 6),
        vec![
            format!("discord 1: {}", ALREADY_STARTED),
            format!("discord 2: {}", ALREADY_STARTED),
        ]
    );
    assert!(queue.is_idle());
}

#[test]
fn discord_is_told_about_a_late_answer() {
    let mut queue = StartRace::new();
    queue.poll_discord(Some((context(1), hacks())), 5);
    let late = 5 + RACEBOTWAIT * TICKS_PER_SECOND;
    assert_eq!(
        update(&mut queue, "RaceBot", ROOM9, late),
        vec![format!("discord 1: {}", TIMED_OUT)]
    );
    assert!(queue.is_idle());
    assert_eq!(
        TIMED_OUT,
        "Sorry, something went wrong. Check IRC, you might have a channel waiting."
    );
}
