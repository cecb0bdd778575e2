//! The bot's answers on IRC.

use vstd::prelude::*;
use vstd::string::*;

use crate::action::steps;
use crate::action::steps_are_the_actions;
use crate::action::then_all;
use crate::action::then_do;
use crate::action::Action;
use crate::action::ActionModel;
use crate::action::ContextWrapper;
use crate::config::configs;
use crate::config::race_configs;
use crate::config::RaceConfig;
use crate::message::text_of;
use crate::message::IrcMessage;
use crate::pattern::announced;
use crate::pattern::announcement;
use crate::pattern::announcement_is_understood;
use crate::pattern::find_room;
use crate::pattern::is_game_name;
use crate::pattern::is_race_channel;
use crate::pattern::scrub;
use crate::pattern::scrubbed;
use crate::pattern::RoomModel;
use crate::pattern::RACE_PREFIX;
use crate::race::all_waiting;
use crate::race::configured_games_can_be_announced;
use crate::race::from_racebot;
use crate::race::is_understood;
use crate::race::only_racebot_counts;
use crate::race::outcomes;
use crate::race::still_waiting;
use crate::race::timely_answer_opens_the_race;
use crate::race::understood;
use crate::race::StartRace;
use crate::race::StateModel;
use crate::race::RACEBOT;
use crate::race::SRL;
use crate::seed::is_seed;
use crate::seed::random_seed;
use crate::seed::seed_answer;
use crate::seed::seed_letters;
use crate::seed::seed_reply;
use crate::text::contains;
use crate::text::equals;
use crate::text::first_word_is_split_off;
use crate::text::is_word;
use crate::text::join;
use crate::text::joined;
use crate::text::joined_strings_are_cut_again;
use crate::text::joining_is_by_parts;
use crate::text::leads;
use crate::text::occurs;
use crate::text::part_stands_where_it_is_put;
use crate::text::pieces;
use crate::text::split_whitespace;
use crate::text::stands_at;
use crate::text::starts_with;
use crate::text::what_stands_first_leads;
use crate::text::what_stands_somewhere_occurs;
use crate::text::white_space;
use crate::text::white_space_is_no_word;
use crate::text::words;

verus! {

/// Where SpeedRunsLive answers questions about races.
pub const SRL_API: &'static str = "http://api.speedrunslive.com:81/";

/// Whether `text` begins with `command`.
pub open spec fn begins(text: Seq<char>, command: Seq<char>) -> bool {
    stands_at(text, 0, command)
}

/// The channel of an announced race is joined once for every one of `list` that is of
/// the same game.
pub open spec fn joins_for(list: Seq<RaceConfig>, room: RoomModel) -> Seq<ActionModel> {
    list.filter(|config: RaceConfig| config.game_name@ == room.game).map_values(
        |config: RaceConfig| ActionModel::Join(room.chan),
    )
}

/// The channels that are joined after a message: that of a race of a configured game,
/// when RaceBot announces it.
pub open spec fn joins(nickname: Option<Seq<char>>, text: Seq<char>) -> Seq<ActionModel> {
    if nickname == Some(RACEBOT@) && announced(text) is Some {
        joins_for(configs(), announced(text)->0)
    } else {
        Seq::empty()
    }
}

/// `.entrants` with the number of a race shows who has entered it.
pub open spec fn entrants_step(text: Seq<char>) -> Seq<ActionModel> {
    if begins(text, ".entrants"@) && words(text).len() > 1 {
        seq![ActionModel::ShowEntrants(words(text)[1])]
    } else {
        Seq::empty()
    }
}

/// `.botenter` and `.botjoin` have the bot enter the race.
pub open spec fn enter_step(text: Seq<char>, target: Seq<char>) -> Seq<ActionModel> {
    if begins(text, ".botenter"@) || begins(text, ".botjoin"@) {
        seq![ActionModel::Privmsg(target, ".enter"@)]
    } else {
        Seq::empty()
    }
}

/// `.botquit` and `.botforfeit` have the bot leave the race.
pub open spec fn quit_step(text: Seq<char>, target: Seq<char>) -> Seq<ActionModel> {
    if begins(text, ".botquit"@) || begins(text, ".botforfeit"@) {
        seq![ActionModel::Privmsg(target, ".quit"@)]
    } else {
        Seq::empty()
    }
}

/// `.roll` is answered with a seed.
pub open spec fn roll_step(text: Seq<char>, target: Seq<char>, seed: i32) -> Seq<ActionModel> {
    if begins(text, ".roll"@) {
        seq![ActionModel::Privmsg(target, seed_answer(seed))]
    } else {
        Seq::empty()
    }
}

/// `.multi` in a race channel is answered with the streams of the race whose number
/// the channel's name ends with.
pub open spec fn multi_step(text: Seq<char>, target: Seq<char>) -> Seq<ActionModel> {
    if begins(text, ".multi"@) && begins(target, RACE_PREFIX@) {
        seq![ActionModel::Multitwitch(target, target.skip(RACE_PREFIX@.len() as int))]
    } else {
        Seq::empty()
    }
}

/// Whether the bot's nickname stands in `text`.
pub open spec fn mentions(text: Seq<char>, own_nickname: Seq<char>) -> bool {
    exists|at: int| stands_at(text, at, own_nickname)
}

/// A friendly message is sent when the bot is mentioned.
pub open spec fn mention_step(
    text: Seq<char>,
    target: Seq<char>,
    own_nickname: Seq<char>,
) -> Seq<ActionModel> {
    if mentions(text, own_nickname) {
        seq![ActionModel::Privmsg(target, "beep boop"@)]
    } else {
        Seq::empty()
    }
}

/// What a message is answered with, the seed for a roll being `seed`.
pub open spec fn replies(
    nickname: Option<Seq<char>>,
    target: Seq<char>,
    text: Seq<char>,
    own_nickname: Seq<char>,
    seed: i32,
) -> Seq<ActionModel> {
    joins(nickname, text) + entrants_step(text) + enter_step(text, target) + quit_step(text, target)
        + roll_step(text, target, seed) + multi_step(text, target) + mention_step(
        text,
        target,
        own_nickname,
    )
}

fn join_actions(nickname: Option<&str>, message: &str) -> (actions: Vec<Action>)
    ensures
        steps(actions@) == joins(text_of(nickname), message@),
{
    let mut actions: Vec<Action> = Vec::new();
    assert(steps(actions@) =~= Seq::<ActionModel>::empty());
    if from_racebot(nickname) {
        if let Some(room) = find_room(message) {
            let list = race_configs();
            let ghost same = |config: RaceConfig| config.game_name@ == room@.game;
            let mut i: usize = 0;
            reveal(Seq::filter);
            assert(joins_for(list@.take(0), room@) =~= Seq::<ActionModel>::empty());
            while i < list.len()
                invariant
                    i <= list@.len(),
                    same == (|config: RaceConfig| config.game_name@ == room@.game),
                    steps(actions@) == joins_for(list@.take(i as int), room@),
                decreases list@.len() - i,
            {
                let ghost before = list@.take(i as int);
                reveal(Seq::filter);
                assert(list@.take(i + 1).drop_last() =~= before);
                assert(list@.take(i + 1).last() == list@[i as int]);
                if equals(list[i].game_name, room.game.as_str()) {
                    then_do(&mut actions, Action::Join(room.chan.clone()));
                }
                assert(steps(actions@) =~= joins_for(list@.take(i + 1), room@));
                i = i + 1;
            }
            assert(list@.take(i as int) =~= list@);
        }
    }
    actions
}

fn add_entrants(actions: &mut Vec<Action>, message: &str)
    ensures
        steps(final(actions)@) == steps(old(actions)@) + entrants_step(message@),
{
    if starts_with(message, ".entrants") {
        let split = split_whitespace(message);
        if split.len() > 1 {
            assert(split.deep_view()[1] == split@[1]@);
            then_do(actions, Action::ShowEntrants(split[1].clone()));
        }
    }
    assert(steps(actions@) =~= steps(old(actions)@) + entrants_step(message@));
}

fn add_enter(actions: &mut Vec<Action>, message: &str, target: &str)
    ensures
        steps(final(actions)@) == steps(old(actions)@) + enter_step(message@, target@),
{
    if starts_with(message, ".botenter") || starts_with(message, ".botjoin") {
        then_do(actions, Action::Privmsg(target.to_owned(), ".enter".to_owned()));
    }
    assert(steps(actions@) =~= steps(old(actions)@) + enter_step(message@, target@));
}

fn add_quit(actions: &mut Vec<Action>, message: &str, target: &str)
    ensures
        steps(final(actions)@) == steps(old(actions)@) + quit_step(message@, target@),
{
    if starts_with(message, ".botquit") || starts_with(message, ".botforfeit") {
        then_do(actions, Action::Privmsg(target.to_owned(), ".quit".to_owned()));
    }
    assert(steps(actions@) =~= steps(old(actions)@) + quit_step(message@, target@));
}

fn add_roll(actions: &mut Vec<Action>, message: &str, target: &str, seed: i32)
    ensures
        steps(final(actions)@) == steps(old(actions)@) + roll_step(message@, target@, seed),
{
    if starts_with(message, ".roll") {
        then_do(actions, Action::Privmsg(target.to_owned(), seed_reply(seed)));
    }
    assert(steps(actions@) =~= steps(old(actions)@) + roll_step(message@, target@, seed));
}

fn add_multi(actions: &mut Vec<Action>, message: &str, target: &str)
    ensures
        steps(final(actions)@) == steps(old(actions)@) + multi_step(message@, target@),
{
    if starts_with(message, ".multi") && starts_with(target, RACE_PREFIX) {
        let race = target.substring_char(RACE_PREFIX.unicode_len(), target.unicode_len());
        then_do(actions, Action::Multitwitch(target.to_owned(), race.to_owned()));
    }
    assert(steps(actions@) =~= steps(old(actions)@) + multi_step(message@, target@));
}

fn add_mention(actions: &mut Vec<Action>, message: &str, target: &str, own_nickname: &str)
    ensures
        steps(final(actions)@) == steps(old(actions)@) + mention_step(message@, target@, own_nickname@),
{
    if contains(message, own_nickname) {
        then_do(actions, Action::Privmsg(target.to_owned(), "beep boop".to_owned()));
    }
    assert(steps(actions@) =~= steps(old(actions)@) + mention_step(message@, target@, own_nickname@));
}

/// Answers a message whose text, without formatting codes, is `message`. A roll gives
/// `seed`.
pub fn reply_actions(
    irc_msg: &IrcMessage,
    message: &str,
    own_nickname: &str,
    seed: i32,
) -> (actions: Vec<Action>)
    ensures
        steps(actions@) == replies(
            irc_msg.nickname(),
            irc_msg.target(),
            message@,
            own_nickname@,
            seed,
        ),
{
    let target = irc_msg.answer_target();
    let mut actions = join_actions(irc_msg.source_nickname(), message);
    add_entrants(&mut actions, message);
    add_enter(&mut actions, message, target.as_str());
    add_quit(&mut actions, message, target.as_str());
    add_roll(&mut actions, message, target.as_str(), seed);
    add_multi(&mut actions, message, target.as_str());
    add_mention(&mut actions, message, target.as_str(), own_nickname);
    actions
}

/// Takes a message of IRC: tells the races that wait for RaceBot about it, and answers it.
/// Nothing is done, and `None` is returned, if a race waits and RaceBot says something
/// that is neither its refusal nor the announcement of a race.
pub fn handle_message(
    start_race: &mut StartRace,
    irc_msg: &IrcMessage,
    own_nickname: &str,
    now: u64,
) -> (actions: Option<Vec<Action>>)
    ensures
        ({
            let nickname = irc_msg.nickname();
            let text = scrubbed(irc_msg.message@);
            let races = old(start_race)@;
            if races.len() > 0 && !understood(nickname, text) {
                &&& actions is None
                &&& final(start_race)@ == races
            } else {
                &&& actions is Some
                &&& final(start_race)@ == still_waiting(races, nickname, text, now)
                &&& all_waiting(final(start_race)@)
                &&& exists|seed: i32|
                    is_seed(seed) && (begins(text, ".roll"@) ==> call_ensures(
                        random_seed,
                        (),
                        seed,
                    )) && steps(actions->0@) == outcomes(races, nickname, text, now)
                        + #[trigger] replies(nickname, irc_msg.target(), text, own_nickname@, seed)
            }
        }),
{
    let message = scrub(irc_msg.message.as_str());
    if !start_race.is_idle() && !is_understood(irc_msg.source_nickname(), message.as_str()) {
        return None;
    }
    let mut actions = start_race.update_pending_races(irc_msg, message.as_str(), now);
    let seed: i32 = if starts_with(message.as_str(), ".roll") {
        random_seed()
    } else {
        0
    };
    let answer = reply_actions(irc_msg, message.as_str(), own_nickname, seed);
    then_all(&mut actions, answer);
    Some(actions)
}

/// The streams that are named, that is, not empty.
pub open spec fn named_streams(twitches: Seq<Seq<char>>) -> Seq<Seq<char>> {
    twitches.filter(|name: Seq<char>| name.len() > 0)
}

/// What `.multi` is answered with when the entrants have those streams.
pub open spec fn multi_answer(twitches: Seq<Seq<char>>) -> Seq<char> {
    if named_streams(twitches).len() == 0 {
        "Sorry, no registered streams"@
    } else {
        "Multitwitch URL: "@ + "http://multitwitch.tv/"@ + joined(named_streams(twitches), "/"@)
    }
}

/// Links to the streams of a race. Entrants without a stream have an empty name.
pub fn multi_reply(twitches: &Vec<String>) -> (reply: String)
    ensures
        reply@ == multi_answer(twitches.deep_view()),
{
    let mut named: Vec<String> = Vec::new();
    let ghost all = twitches.deep_view();
    let mut i: usize = 0;
    reveal(Seq::filter);
    assert(named.deep_view() =~= named_streams(all.take(0)));
    while i < twitches.len()
        invariant
            all == twitches.deep_view(),
            i <= twitches@.len(),
            named.deep_view() == named_streams(all.take(i as int)),
        decreases twitches@.len() - i,
    {
        let ghost before = named.deep_view();
        reveal(Seq::filter);
        assert(all.take(i + 1).drop_last() =~= all.take(i as int));
        assert(all.take(i + 1).last() == twitches@[i as int]@);
        if !twitches[i].as_str().is_empty() {
            named.push(twitches[i].clone());
            assert(named.deep_view() =~= before.push(twitches@[i as int]@));
        }
        i = i + 1;
    }
    assert(all.take(i as int) =~= all);
    if named.len() == 0 {
        "Sorry, no registered streams".to_owned()
    } else {
        let url = "http://multitwitch.tv/".to_owned().concat(join(&named, "/").as_str());
        let reply = "Multitwitch URL: ".to_owned().concat(url.as_str());
        assert(reply@ =~= multi_answer(all));
        reply
    }
}

/// All that is joined after a message is the channel that it announces.
pub proof fn joins_are_of_the_room(list: Seq<RaceConfig>, room: RoomModel)
    ensures
        forall|i: int|
            0 <= i < joins_for(list, room).len() ==> #[trigger] joins_for(list, room)[i]
                == ActionModel::Join(room.chan),
{
}

/// A race of a configured game is joined when RaceBot announces it.
pub proof fn announced_race_is_joined(i: int, chan: Seq<char>)
    requires
        0 <= i < configs().len(),
        is_race_channel(chan),
    ensures
        ({
            let text = announcement(configs()[i].game_name@, chan);
            &&& joins(Some(RACEBOT@), text).len() > 0
            &&& joins(Some(RACEBOT@), text)[0] == ActionModel::Join(chan)
        }),
{
    let game = configs()[i].game_name@;
    let same = |config: RaceConfig| config.game_name@ == game;
    configured_games_can_be_announced(i);
    announcement_is_understood(game, chan);
    configs().lemma_filter_contains(same, i);
    joins_are_of_the_room(configs(), RoomModel { game, chan });
}

/// A race of any other game is not joined.
pub proof fn other_races_are_not_joined(game: Seq<char>, chan: Seq<char>)
    requires
        is_game_name(game),
        is_race_channel(chan),
        forall|i: int| 0 <= i < configs().len() ==> (#[trigger] configs()[i]).game_name@ != game,
    ensures
        joins(Some(RACEBOT@), announcement(game, chan)) == Seq::<ActionModel>::empty(),
{
    announcement_is_understood(game, chan);
    nothing_is_joined(configs(), RoomModel { game, chan });
}

proof fn nothing_is_joined(list: Seq<RaceConfig>, room: RoomModel)
    requires
        forall|i: int| 0 <= i < list.len() ==> (#[trigger] list[i]).game_name@ != room.game,
    ensures
        joins_for(list, room) == Seq::<ActionModel>::empty(),
    decreases list.len(),
{
    reveal(Seq::filter);
    if list.len() > 0 {
        let head = list.drop_last();
        assert forall|i: int| 0 <= i < head.len() implies (#[trigger] head[i]).game_name@
            != room.game by {
            assert(head[i] == list[i]);
        }
        nothing_is_joined(head, room);
        assert(list[list.len() - 1].game_name@ != room.game);
    }
    assert(joins_for(list, room) =~= Seq::<ActionModel>::empty());
}

/// Whatever is said in answer to a message is said to where an answer to it goes.
pub proof fn answers_go_to_the_target(
    nickname: Option<Seq<char>>,
    target: Seq<char>,
    text: Seq<char>,
    own_nickname: Seq<char>,
    seed: i32,
)
    ensures
        forall|i: int|
            0 <= i < replies(nickname, target, text, own_nickname, seed).len() ==> match #[trigger] replies(
                nickname,
                target,
                text,
                own_nickname,
                seed,
            )[i] {
                ActionModel::Privmsg(to, _) => to == target,
                ActionModel::Multitwitch(to, _) => to == target,
                ActionModel::ToDiscord(_, _) => false,
                _ => true,
            },
{
    if nickname == Some(RACEBOT@) && announced(text) is Some {
        joins_are_of_the_room(configs(), announced(text)->0);
    }
}

/// A message that is no command, not RaceBot's, and does not mention the bot is not
/// answered.
pub proof fn small_talk_is_not_answered(
    nickname: Option<Seq<char>>,
    target: Seq<char>,
    text: Seq<char>,
    own_nickname: Seq<char>,
    seed: i32,
)
    requires
        text.len() == 0 || text[0] != '.',
        nickname != Some(RACEBOT@),
        !mentions(text, own_nickname),
    ensures
        replies(nickname, target, text, own_nickname, seed) == Seq::<ActionModel>::empty(),
{
    reveal_strlit(".entrants");
    reveal_strlit(".botenter");
    reveal_strlit(".botjoin");
    reveal_strlit(".botquit");
    reveal_strlit(".botforfeit");
    reveal_strlit(".roll");
    reveal_strlit(".multi");
    assert forall|command: Seq<char>|
        command.len() > 0 && command[0] == '.' implies !#[trigger] begins(text, command) by {
        if begins(text, command) {
            assert(text.subrange(0, command.len() as int)[0] == text[0]);
        }
    }
}

/// The seed matters to a roll only.
pub proof fn only_rolls_need_a_seed(
    nickname: Option<Seq<char>>,
    target: Seq<char>,
    text: Seq<char>,
    own_nickname: Seq<char>,
    seed: i32,
    other: i32,
)
    requires
        !begins(text, ".roll"@),
    ensures
        replies(nickname, target, text, own_nickname, seed) == replies(
            nickname,
            target,
            text,
            own_nickname,
            other,
        ),
{
}

/// A message that holds the bot's nickname anywhere, the start and the end included, is
/// answered with a friendly message where an answer to it goes, after all other answers.
pub proof fn mention_is_answered(
    nickname: Option<Seq<char>>,
    target: Seq<char>,
    before: Seq<char>,
    after: Seq<char>,
    own_nickname: Seq<char>,
    seed: i32,
)
    ensures
        ({
            let answer = replies(
                nickname,
                target,
                before + own_nickname + after,
                own_nickname,
                seed,
            );
            &&& answer.contains(ActionModel::Privmsg(target, "beep boop"@))
            &&& answer.last() == ActionModel::Privmsg(target, "beep boop"@)
        }),
{
    let text = before + own_nickname + after;
    let answer = replies(nickname, target, text, own_nickname, seed);
    part_stands_where_it_is_put(before, own_nickname, after);
    assert(stands_at(text, before.len() as int, own_nickname));
    assert(mention_step(text, target, own_nickname).len() == 1);
    assert(answer[answer.len() - 1] == ActionModel::Privmsg(target, "beep boop"@));
}

/// A mention of the bot adds the friendly message to what is answered without one, and
/// nothing else.
pub proof fn mention_adds_one_answer(
    nickname: Option<Seq<char>>,
    target: Seq<char>,
    text: Seq<char>,
    own_nickname: Seq<char>,
    absent: Seq<char>,
    seed: i32,
)
    requires
        occurs(text, own_nickname),
        !occurs(text, absent),
    ensures
        replies(nickname, target, text, own_nickname, seed) == replies(
            nickname,
            target,
            text,
            absent,
            seed,
        ).push(ActionModel::Privmsg(target, "beep boop"@)),
{
    what_stands_somewhere_occurs(text, own_nickname);
    what_stands_somewhere_occurs(text, absent);
    assert(mentions(text, own_nickname) && !mentions(text, absent));
    assert(replies(nickname, target, text, own_nickname, seed) =~= replies(
        nickname,
        target,
        text,
        absent,
        seed,
    ).push(ActionModel::Privmsg(target, "beep boop"@)));
}

proof fn differs(text: Seq<char>, command: Seq<char>, i: int)
    requires
        0 <= i < command.len(),
        i < text.len(),
        text[i] != command[i],
    ensures
        !begins(text, command),
{
    if begins(text, command) {
        assert(text.subrange(0, command.len() as int)[i] == text[i]);
    }
}

proof fn command_begins(command: Seq<char>, rest: Seq<char>)
    ensures
        begins(command + rest, command),
{
    assert((command + rest).subrange(0, command.len() as int) =~= command);
}

proof fn reveal_commands()
    ensures
        ".entrants"@ == seq!['.', 'e', 'n', 't', 'r', 'a', 'n', 't', 's'],
        ".botenter"@ == seq!['.', 'b', 'o', 't', 'e', 'n', 't', 'e', 'r'],
        ".botjoin"@ == seq!['.', 'b', 'o', 't', 'j', 'o', 'i', 'n'],
        ".botquit"@ == seq!['.', 'b', 'o', 't', 'q', 'u', 'i', 't'],
        ".botforfeit"@ == seq!['.', 'b', 'o', 't', 'f', 'o', 'r', 'f', 'e', 'i', 't'],
        ".roll"@ == seq!['.', 'r', 'o', 'l', 'l'],
        ".multi"@ == seq!['.', 'm', 'u', 'l', 't', 'i'],
{
    reveal_strlit(".entrants");
    reveal_strlit(".botenter");
    reveal_strlit(".botjoin");
    reveal_strlit(".botquit");
    reveal_strlit(".botforfeit");
    reveal_strlit(".roll");
    reveal_strlit(".multi");
    assert(".entrants"@ =~= seq!['.', 'e', 'n', 't', 'r', 'a', 'n', 't', 's']);
    assert(".botenter"@ =~= seq!['.', 'b', 'o', 't', 'e', 'n', 't', 'e', 'r']);
    assert(".botjoin"@ =~= seq!['.', 'b', 'o', 't', 'j', 'o', 'i', 'n']);
    assert(".botquit"@ =~= seq!['.', 'b', 'o', 't', 'q', 'u', 'i', 't']);
    assert(".botforfeit"@ =~= seq!['.', 'b', 'o', 't', 'f', 'o', 'r', 'f', 'e', 'i', 't']);
    assert(".roll"@ =~= seq!['.', 'r', 'o', 'l', 'l']);
    assert(".multi"@ =~= seq!['.', 'm', 'u', 'l', 't', 'i']);
}

/// `.botenter` and `.botjoin`, with anything behind them, have the bot enter the race, and
/// nothing else is done.
pub proof fn bot_enters(
    nickname: Option<Seq<char>>,
    target: Seq<char>,
    text: Seq<char>,
    own_nickname: Seq<char>,
    seed: i32,
)
    requires
        leads(text, ".botenter"@) || leads(text, ".botjoin"@),
        nickname != Some("RaceBot"@),
        !occurs(text, own_nickname),
    ensures
        replies(nickname, target, text, own_nickname, seed) == seq![
            ActionModel::Privmsg(target, ".enter"@),
        ],
{
    reveal_commands();
    what_stands_somewhere_occurs(text, own_nickname);
    what_stands_first_leads(text, ".botenter"@);
    what_stands_first_leads(text, ".botjoin"@);
    assert(text[1] == 'b' && (text[4] == 'e' || text[4] == 'j'));
    differs(text, ".entrants"@, 1);
    differs(text, ".botquit"@, 4);
    differs(text, ".botforfeit"@, 4);
    differs(text, ".roll"@, 1);
    differs(text, ".multi"@, 1);
    assert(replies(nickname, target, text, own_nickname, seed) =~= seq![
        ActionModel::Privmsg(target, ".enter"@),
    ]);
}

/// `.botquit` and `.botforfeit`, with anything behind them, have the bot leave the race,
/// and nothing else is done.
pub proof fn bot_quits(
    nickname: Option<Seq<char>>,
    target: Seq<char>,
    text: Seq<char>,
    own_nickname: Seq<char>,
    seed: i32,
)
    requires
        leads(text, ".botquit"@) || leads(text, ".botforfeit"@),
        nickname != Some("RaceBot"@),
        !occurs(text, own_nickname),
    ensures
        replies(nickname, target, text, own_nickname, seed) == seq![
            ActionModel::Privmsg(target, ".quit"@),
        ],
{
    reveal_commands();
    what_stands_somewhere_occurs(text, own_nickname);
    what_stands_first_leads(text, ".botquit"@);
    what_stands_first_leads(text, ".botforfeit"@);
    assert(text[1] == 'b' && (text[4] == 'q' || text[4] == 'f'));
    differs(text, ".entrants"@, 1);
    differs(text, ".botenter"@, 4);
    differs(text, ".botjoin"@, 4);
    differs(text, ".roll"@, 1);
    differs(text, ".multi"@, 1);
    assert(replies(nickname, target, text, own_nickname, seed) =~= seq![
        ActionModel::Privmsg(target, ".quit"@),
    ]);
}

/// `.roll`, with anything behind it, is answered with the letters of the seed, and nothing
/// else is done.
pub proof fn roll_is_answered(
    nickname: Option<Seq<char>>,
    target: Seq<char>,
    text: Seq<char>,
    own_nickname: Seq<char>,
    seed: i32,
)
    requires
        leads(text, ".roll"@),
        nickname != Some("RaceBot"@),
        !occurs(text, own_nickname),
    ensures
        replies(nickname, target, text, own_nickname, seed) == seq![
            ActionModel::Privmsg(target, "Your seed is: "@ + seed_letters(seed)),
        ],
{
    reveal_commands();
    what_stands_somewhere_occurs(text, own_nickname);
    what_stands_first_leads(text, ".roll"@);
    assert(text[1] == 'r');
    differs(text, ".entrants"@, 1);
    differs(text, ".botenter"@, 1);
    differs(text, ".botjoin"@, 1);
    differs(text, ".botquit"@, 1);
    differs(text, ".botforfeit"@, 1);
    differs(text, ".multi"@, 1);
    assert(replies(nickname, target, text, own_nickname, seed) =~= seq![
        ActionModel::Privmsg(target, "Your seed is: "@ + seed_letters(seed)),
    ]);
}

/// `.multi`, with anything behind it, asks in a race channel for the streams of the race
/// that the channel is named after, and does nothing elsewhere.
pub proof fn multi_asks_for_the_race(
    nickname: Option<Seq<char>>,
    target: Seq<char>,
    race: Seq<char>,
    text: Seq<char>,
    own_nickname: Seq<char>,
    seed: i32,
)
    requires
        leads(text, ".multi"@),
        nickname != Some("RaceBot"@),
        !occurs(text, own_nickname),
    ensures
        replies(nickname, "#srl-"@ + race, text, own_nickname, seed) == seq![
            ActionModel::Multitwitch("#srl-"@ + race, race),
        ],
        !leads(target, "#srl-"@) ==> replies(nickname, target, text, own_nickname, seed)
            == Seq::<ActionModel>::empty(),
{
    reveal_commands();
    reveal_strlit("#srl-");
    what_stands_somewhere_occurs(text, own_nickname);
    what_stands_first_leads(text, ".multi"@);
    what_stands_first_leads(target, "#srl-"@);
    command_begins("#srl-"@, race);
    assert(text[1] == 'm');
    differs(text, ".entrants"@, 1);
    differs(text, ".botenter"@, 1);
    differs(text, ".botjoin"@, 1);
    differs(text, ".botquit"@, 1);
    differs(text, ".botforfeit"@, 1);
    differs(text, ".roll"@, 1);
    assert(("#srl-"@ + race).skip(5) =~= race);
    assert(replies(nickname, "#srl-"@ + race, text, own_nickname, seed) =~= seq![
        ActionModel::Multitwitch("#srl-"@ + race, race),
    ]);
}

/// `.entrants` shows the entrants of the race that the second word of the message names,
/// and does nothing if there is no second word. Nothing else is done.
pub proof fn entrants_are_shown(
    nickname: Option<Seq<char>>,
    target: Seq<char>,
    command: Seq<char>,
    gap: Seq<char>,
    race: Seq<char>,
    rest: Seq<char>,
    own_nickname: Seq<char>,
    seed: i32,
)
    requires
        leads(command, ".entrants"@),
        is_word(command),
        forall|i: int| 0 <= i < gap.len() ==> white_space(#[trigger] gap[i]),
        nickname != Some("RaceBot"@),
    ensures
        gap.len() > 0 && is_word(race) && (rest.len() == 0 || white_space(rest[0])) && !occurs(
            command + gap + race + rest,
            own_nickname,
        ) ==> replies(nickname, target, command + gap + race + rest, own_nickname, seed) == seq![
            ActionModel::ShowEntrants(race),
        ],
        !occurs(command + gap, own_nickname) ==> replies(
            nickname,
            target,
            command + gap,
            own_nickname,
            seed,
        ) == Seq::<ActionModel>::empty(),
{
    let named = command + gap + race + rest;
    let unnamed = command + gap;
    if gap.len() > 0 && is_word(race) && (rest.len() == 0 || white_space(rest[0])) && !occurs(
        named,
        own_nickname,
    ) {
        let after = gap + race + rest;
        assert(named =~= command + after);
        assert(white_space(gap[0]));
        assert(after[0] == gap[0]);
        first_word_is_split_off(command, after);
        assert(after =~= gap + (race + rest));
        white_space_is_no_word(gap, race + rest);
        first_word_is_split_off(race, rest);
        assert(words(named)[1] == race);
        what_stands_somewhere_occurs(named, own_nickname);
        only_entrants(nickname, target, command, after, own_nickname, seed);
    }
    if !occurs(unnamed, own_nickname) {
        if gap.len() > 0 {
            assert(white_space(gap[0]));
        }
        first_word_is_split_off(command, gap);
        white_space_is_no_word(gap, Seq::empty());
        assert(words(unnamed).len() == 1);
        what_stands_somewhere_occurs(unnamed, own_nickname);
        only_entrants(nickname, target, command, gap, own_nickname, seed);
    }
}

proof fn only_entrants(
    nickname: Option<Seq<char>>,
    target: Seq<char>,
    command: Seq<char>,
    after: Seq<char>,
    own_nickname: Seq<char>,
    seed: i32,
)
    requires
        leads(command, ".entrants"@),
        nickname != Some("RaceBot"@),
        !mentions(command + after, own_nickname),
    ensures
        replies(nickname, target, command + after, own_nickname, seed) == if words(
            command + after,
        ).len() > 1 {
            seq![ActionModel::ShowEntrants(words(command + after)[1])]
        } else {
            Seq::<ActionModel>::empty()
        },
{
    let text = command + after;
    let more = choose|more: Seq<char>| command == #[trigger] (".entrants"@ + more);
    reveal_commands();
    command_begins(".entrants"@, more + after);
    assert(text =~= ".entrants"@ + (more + after));
    assert(text[1] == 'e');
    differs(text, ".botenter"@, 1);
    differs(text, ".botjoin"@, 1);
    differs(text, ".botquit"@, 1);
    differs(text, ".botforfeit"@, 1);
    differs(text, ".roll"@, 1);
    differs(text, ".multi"@, 1);
    assert(replies(nickname, target, text, own_nickname, seed) =~= entrants_step(text));
}

/// A message that begins with none of the commands, is not RaceBot's and does not hold
/// the bot's nickname is not answered.
pub proof fn nothing_else_is_answered(
    nickname: Option<Seq<char>>,
    target: Seq<char>,
    text: Seq<char>,
    own_nickname: Seq<char>,
    seed: i32,
)
    requires
        !leads(text, ".entrants"@),
        !leads(text, ".botenter"@),
        !leads(text, ".botjoin"@),
        !leads(text, ".botquit"@),
        !leads(text, ".botforfeit"@),
        !leads(text, ".roll"@),
        !leads(text, ".multi"@),
        nickname != Some("RaceBot"@),
        !occurs(text, own_nickname),
    ensures
        replies(nickname, target, text, own_nickname, seed) == Seq::<ActionModel>::empty(),
{
    what_stands_first_leads(text, ".entrants"@);
    what_stands_first_leads(text, ".botenter"@);
    what_stands_first_leads(text, ".botjoin"@);
    what_stands_first_leads(text, ".botquit"@);
    what_stands_first_leads(text, ".botforfeit"@);
    what_stands_first_leads(text, ".roll"@);
    what_stands_first_leads(text, ".multi"@);
    what_stands_somewhere_occurs(text, own_nickname);
    assert(replies(nickname, target, text, own_nickname, seed) =~= Seq::<ActionModel>::empty());
}

/// RaceBot is answered like anyone else, save that the channel of a race that it announces
/// is joined first: three times for Mega Man Hacks, which three guilds race, once for Mega
/// Man 9, which one does, and not at all for another game.
pub proof fn racebot_is_followed(
    nickname: Option<Seq<char>>,
    target: Seq<char>,
    text: Seq<char>,
    own_nickname: Seq<char>,
    seed: i32,
)
    ensures
        nickname != Some("RaceBot"@) || announced(text) is None ==> replies(
            nickname,
            target,
            text,
            own_nickname,
            seed,
        ) == replies(None, target, text, own_nickname, seed),
        announced(text) is Some ==> ({
            let join = ActionModel::Join(announced(text)->0.chan);
            let game = announced(text)->0.game;
            let joins = if game == "Mega Man Hacks"@ {
                seq![join, join, join]
            } else if game == "Mega Man 9"@ {
                seq![join]
            } else {
                Seq::empty()
            };
            replies(Some("RaceBot"@), target, text, own_nickname, seed) == joins + replies(
                None,
                target,
                text,
                own_nickname,
                seed,
            )
        }),
{
    if nickname != Some("RaceBot"@) || announced(text) is None {
        assert(joins(nickname, text) == joins(None, text));
    }
    if announced(text) is Some {
        let room = announced(text)->0;
        joins_by_game(room);
        assert(joins(None, text) == Seq::<ActionModel>::empty());
        replies_after_joins(Some("RaceBot"@), target, text, own_nickname, seed);
    }
}

proof fn replies_after_joins(
    nickname: Option<Seq<char>>,
    target: Seq<char>,
    text: Seq<char>,
    own_nickname: Seq<char>,
    seed: i32,
)
    ensures
        replies(nickname, target, text, own_nickname, seed) == joins(nickname, text) + replies(
            None,
            target,
            text,
            own_nickname,
            seed,
        ),
{
    assert(replies(nickname, target, text, own_nickname, seed) =~= joins(nickname, text) + replies(
        None,
        target,
        text,
        own_nickname,
        seed,
    ));
}

proof fn joins_by_game(room: RoomModel)
    ensures
        ({
            let join = ActionModel::Join(room.chan);
            joins_for(configs(), room) == if room.game == "Mega Man Hacks"@ {
                seq![join, join, join]
            } else if room.game == "Mega Man 9"@ {
                seq![join]
            } else {
                Seq::empty()
            }
        }),
{
    let join = ActionModel::Join(room.chan);
    let all = configs();
    let none = Seq::<RaceConfig>::empty();
    reveal_strlit("Mega Man Hacks");
    reveal_strlit("Mega Man 9");
    assert("Mega Man Hacks"@.len() == 14 && "Mega Man 9"@.len() == 10);
    reveal(Seq::filter);
    assert(joins_for(none, room) =~= Seq::<ActionModel>::empty());
    joins_for_push(none, all[0], room);
    joins_for_push(none.push(all[0]), all[1], room);
    joins_for_push(none.push(all[0]).push(all[1]), all[2], room);
    joins_for_push(none.push(all[0]).push(all[1]).push(all[2]), all[3], room);
    assert(all =~= none.push(all[0]).push(all[1]).push(all[2]).push(all[3]));
    if room.game == "Mega Man Hacks"@ {
        assert(joins_for(all, room) =~= seq![join, join, join]);
    } else if room.game == "Mega Man 9"@ {
        assert(joins_for(all, room) =~= seq![join]);
    }
}

proof fn joins_for_push(list: Seq<RaceConfig>, config: RaceConfig, room: RoomModel)
    ensures
        joins_for(list.push(config), room) == if config.game_name@ == room.game {
            joins_for(list, room).push(ActionModel::Join(room.chan))
        } else {
            joins_for(list, room)
        },
{
    reveal(Seq::filter);
    assert(list.push(config).drop_last() =~= list);
    if config.game_name@ == room.game {
        assert(joins_for(list.push(config), room) =~= joins_for(list, room).push(
            ActionModel::Join(room.chan),
        ));
    }
}

proof fn named_streams_by_parts(a: Seq<Seq<char>>, b: Seq<Seq<char>>)
    ensures
        named_streams(a + b) == named_streams(a) + named_streams(b),
{
    Seq::filter_distributes_over_add(a, b, |name: Seq<char>| name.len() > 0);
}

proof fn all_named(list: Seq<Seq<char>>)
    requires
        forall|i: int| 0 <= i < list.len() ==> (#[trigger] list[i]).len() > 0,
    ensures
        named_streams(list) == list,
    decreases list.len(),
{
    reveal(Seq::filter);
    if list.len() > 0 {
        let head = list.drop_last();
        assert forall|i: int| 0 <= i < head.len() implies (#[trigger] head[i]).len() > 0 by {
            assert(head[i] == list[i]);
        }
        all_named(head);
        assert(list[list.len() - 1].len() > 0);
        assert(list =~= head.push(list.last()));
    }
    assert(named_streams(list) =~= list);
}

/// Entrants without a stream make no difference to the link.
pub proof fn unnamed_streams_are_left_out(a: Seq<Seq<char>>, b: Seq<Seq<char>>)
    ensures
        multi_answer(a + seq![Seq::empty()] + b) == multi_answer(a + b),
        multi_answer(Seq::empty()) == "Sorry, no registered streams"@,
{
    let none: Seq<Seq<char>> = seq![Seq::empty()];
    reveal(Seq::filter);
    assert(named_streams(Seq::<Seq<char>>::empty()) =~= Seq::<Seq<char>>::empty());
    assert(none.drop_last() =~= Seq::<Seq<char>>::empty());
    assert(none.last().len() == 0);
    assert(named_streams(none) =~= Seq::<Seq<char>>::empty());
    named_streams_by_parts(a, none);
    named_streams_by_parts(a + none, b);
    named_streams_by_parts(a, b);
    assert(named_streams(a + none + b) =~= named_streams(a + b));
}

/// The link grows by every stream: the first stands behind the address, and each further
/// one behind a stroke, however many there are.
pub proof fn link_grows_by_every_stream(list: Seq<Seq<char>>, name: Seq<char>)
    requires
        forall|i: int| 0 <= i < list.len() ==> (#[trigger] list[i]).len() > 0,
        name.len() > 0,
    ensures
        list.len() == 0 ==> multi_answer(list.push(name)) == "Multitwitch URL: "@
            + "http://multitwitch.tv/"@ + name,
        list.len() > 0 ==> multi_answer(list.push(name)) == multi_answer(list) + "/"@ + name,
{
    let more = list.push(name);
    assert forall|i: int| 0 <= i < more.len() implies (#[trigger] more[i]).len() > 0 by {
        if i < list.len() {
            assert(more[i] == list[i]);
        }
    }
    all_named(list);
    all_named(more);
    if list.len() > 0 {
        assert(more =~= list + seq![name]);
        joining_is_by_parts(list, seq![name], "/"@);
        assert(multi_answer(more) =~= multi_answer(list) + "/"@ + name);
    }
}

/// The link names every stream, in order: behind the address, what stands between the
/// strokes is the streams that were given, however many there are.
pub proof fn link_names_every_stream(list: Seq<Seq<char>>)
    requires
        list.len() > 0,
        forall|i: int| 0 <= i < list.len() ==> (#[trigger] list[i]).len() > 0,
        forall|i: int| 0 <= i < list.len() ==> !(#[trigger] list[i]).contains('/'),
    ensures
        ({
            let answer = multi_answer(list);
            let address = "Multitwitch URL: "@ + "http://multitwitch.tv/"@;
            let path = answer.skip(address.len() as int);
            &&& answer == address + path
            &&& pieces(path, '/') == list
        }),
{
    let address = "Multitwitch URL: "@ + "http://multitwitch.tv/"@;
    reveal_strlit("/");
    assert("/"@ =~= seq!['/']);
    all_named(list);
    assert(multi_answer(list).skip(address.len() as int) =~= joined(list, "/"@));
    assert(multi_answer(list) =~= address + joined(list, "/"@));
    joined_strings_are_cut_again(list, '/');
}

/// SpeedRunsLive is asked for races, and for entrants, where it answers.
pub proof fn services_have_their_addresses()
    ensures
        SRL_API@ == "http://api.speedrunslive.com:81/"@,
        SRL@ == "#speedrunslive"@,
        RACE_PREFIX@ == "#srl-"@,
{
}

/// From a message as it comes in to the steps taken: a race that alone waits, and that
/// RaceBot announces within three seconds, with or without formatting codes, is told to
/// the channel that asked, joined, given its goal and entered, and waits no more.
pub proof fn announced_race_is_opened(
    queue: &mut StartRace,
    context: ContextWrapper,
    sent_at: u64,
    config: RaceConfig,
    irc_msg: &IrcMessage,
    own_nickname: &str,
    now: u64,
    actions: Option<Vec<Action>>,
)
    requires
        call_ensures(handle_message, (queue, irc_msg, own_nickname, now), actions),
        old(queue)@ == seq![StateModel::Waiting(context, sent_at, config)],
        irc_msg.source_nickname is Some,
        irc_msg.source_nickname->0@ == "RaceBot"@,
        announced(scrubbed(irc_msg.message@)) is Some,
        announced(scrubbed(irc_msg.message@))->0.game == config.game_name@,
        now - sent_at < 3_000_000_000,
    ensures
        final(queue)@ == Seq::<StateModel>::empty(),
        actions is Some,
        actions->0@.len() >= 4,
        ({
            let chan = announced(scrubbed(irc_msg.message@))->0.chan;
            &&& actions->0@[0]@ == ActionModel::ToDiscord(context, "/join "@ + chan)
            &&& actions->0@[1]@ == ActionModel::Join(chan)
            &&& actions->0@[2]@ == ActionModel::Privmsg(chan, ".setgoal "@ + config.race_goal@)
            &&& actions->0@[3]@ == ActionModel::Privmsg(chan, ".enter"@)
        }),
{
    let text = scrubbed(irc_msg.message@);
    let nickname = irc_msg.nickname();
    timely_answer_opens_the_race(context, sent_at, config, text, now);
    let opened = outcomes(old(queue)@, nickname, text, now);
    let seed = choose|seed: i32|
        is_seed(seed) && steps(actions->0@) == outcomes(old(queue)@, nickname, text, now)
            + #[trigger] replies(nickname, irc_msg.target(), text, own_nickname@, seed);
    let answers = replies(nickname, irc_msg.target(), text, own_nickname@, seed);
    first_steps(actions->0@, opened, answers);
}

proof fn first_steps(actions: Seq<Action>, first: Seq<ActionModel>, others: Seq<ActionModel>)
    requires
        steps(actions) == first + others,
    ensures
        actions.len() >= first.len(),
        forall|k: int| 0 <= k < first.len() ==> #[trigger] actions[k]@ == first[k],
{
    steps_are_the_actions(actions);
    assert forall|k: int| 0 <= k < first.len() implies #[trigger] actions[k]@ == first[k] by {
        assert(steps(actions)[k] == actions[k]@);
    }
}

/// What anyone but RaceBot says leaves the races waiting, and is answered by its scrubbed
/// text alone, whatever waits.
pub proof fn others_are_answered_alone(
    queue: &mut StartRace,
    irc_msg: &IrcMessage,
    own_nickname: &str,
    now: u64,
    actions: Option<Vec<Action>>,
)
    requires
        call_ensures(handle_message, (queue, irc_msg, own_nickname, now), actions),
        all_waiting(old(queue)@),
        irc_msg.source_nickname is Some ==> irc_msg.source_nickname->0@ != "RaceBot"@,
    ensures
        final(queue)@ == old(queue)@,
        actions is Some,
        exists|seed: i32|
            0 <= seed < i32::MAX && steps(actions->0@) == #[trigger] replies(
                None,
                irc_msg.target(),
                scrubbed(irc_msg.message@),
                own_nickname@,
                seed,
            ),
{
    let nickname = irc_msg.nickname();
    let text = scrubbed(irc_msg.message@);
    only_racebot_counts(old(queue)@, nickname, text, now);
    let seed = choose|seed: i32|
        is_seed(seed) && steps(actions->0@) == outcomes(old(queue)@, nickname, text, now)
            + #[trigger] replies(nickname, irc_msg.target(), text, own_nickname@, seed);
    racebot_is_followed(nickname, irc_msg.target(), text, own_nickname@, seed);
    assert(steps(actions->0@) =~= replies(
        None,
        irc_msg.target(),
        text,
        own_nickname@,
        seed,
    ));
}

} // verus!
