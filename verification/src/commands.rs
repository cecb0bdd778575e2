//! The commands that users give on Discord. The bot does not respond to bots.

use vstd::prelude::*;
use vstd::string::*;

use crate::action::ContextWrapper;
use crate::config::config_for_guild;
use crate::config::configs;
use crate::config::first_for_guild;
use crate::config::guild_gets_its_first_race;
use crate::config::guilds_are_distinct;
use crate::config::RaceConfig;
use crate::message::owned_text;
use crate::message::DiscordMessage;
use crate::seed::answer_gives_the_seed;
use crate::seed::base26_value;
use crate::seed::is_seed;
use crate::seed::random_seed;
use crate::seed::seed_answer;
use crate::seed::seed_reply;
use crate::text::is_word;
use crate::text::joined;
use crate::text::joined_words_are_split;
use crate::text::split_whitespace;
use crate::text::words;

verus! {

/// What a ping is answered with: where it came from, as far as that is known.
pub open spec fn ping_answer(
    guild: Option<Seq<char>>,
    author: Seq<char>,
    channel: Option<Seq<char>>,
) -> Seq<char> {
    let from_guild = match guild {
        None => "unknown guild"@,
        Some(name) => "From guild with name '"@ + name + "'"@,
    };
    let from_user = "\nFrom user with display_name '"@ + author + "'"@;
    let from_channel = match channel {
        None => Seq::empty(),
        Some(name) => "\nFrom channel '"@ + name + "'"@,
    };
    "Ping received.\n"@ + from_guild + from_user + from_channel
}

/// Answers a ping, unless a bot sent it.
pub fn ping(msg: &DiscordMessage) -> (reply: Option<String>)
    ensures
        reply is None == msg.author_is_bot,
        reply is Some ==> reply->0@ == ping_answer(
            owned_text(msg.guild),
            msg.author_name@,
            owned_text(msg.channel_name),
        ),
{
    if msg.author_is_bot {
        return None;
    }
    let mut reply = "Ping received.\n".to_owned();
    match msg.guild() {
        None => {
            reply.append("unknown guild");
        },
        Some(name) => {
            reply.append("From guild with name '");
            reply.append(name);
            reply.append("'");
        },
    }
    reply.append("\nFrom user with display_name '");
    reply.append(msg.author_name.as_str());
    reply.append("'");
    if let Some(name) = msg.channel_name() {
        reply.append("\nFrom channel '");
        reply.append(name);
        reply.append("'");
    }
    assert(reply@ =~= ping_answer(
        owned_text(msg.guild),
        msg.author_name@,
        owned_text(msg.channel_name),
    ));
    Some(reply)
}

/// Answers with a seed, unless a bot asked.
pub fn roll(msg: &DiscordMessage) -> (reply: Option<String>)
    ensures
        reply is None == msg.author_is_bot,
        reply is Some ==> exists|seed: i32|
            is_seed(seed) && call_ensures(random_seed, (), seed) && reply->0@
                == #[trigger] seed_answer(seed),
{
    if msg.author_is_bot {
        return None;
    }
    let seed = random_seed();
    Some(seed_reply(seed))
}

/// The tickets of a lottery: the words behind the command.
pub open spec fn tickets(content: Seq<char>) -> Seq<Seq<char>> {
    if words(content).len() > 0 {
        words(content).skip(1)
    } else {
        Seq::empty()
    }
}

/// What a lottery is answered with when the ticket at `winning_idx` is drawn, or none
/// could be.
pub open spec fn lottery_answer(list: Seq<Seq<char>>, winning_idx: Option<usize>) -> Seq<char> {
    match winning_idx {
        None => "Invalid lottery"@,
        Some(idx) => "Winner is: "@ + list[idx as int],
    }
}

/// Calls `rand::distributions::Uniform::new_inclusive`, and
/// `rand::distributions::Distribution::sample` on `rand::thread_rng`.
///
/// Trusted: the number drawn is at least `low` and at most `high`. Which one it is is
/// left to chance. The generator needs entropy of the system when a thread first uses
/// it.
#[verifier::external_body]
fn sample_inclusive(low: usize, high: usize) -> (drawn: usize)
    requires
        low <= high,
    ensures
        low <= drawn <= high,
{
    let dist = rand::distributions::Uniform::new_inclusive(low, high);
    rand::distributions::Distribution::sample(&dist, &mut rand::thread_rng())
}

/// Draws a number that is at least `low` and at most `high`.
pub fn draw_index(low: usize, high: usize) -> (drawn: usize)
    requires
        low <= high,
    ensures
        low <= drawn <= high,
{
    sample_inclusive(low, high)
}

/// The tickets in the text of a lottery command.
pub fn lottery_tickets(content: &str) -> (list: Vec<String>)
    ensures
        list.deep_view() == tickets(content@),
{
    let mut list = split_whitespace(content);
    let ghost all = list.deep_view();
    if list.len() > 0 {
        let ghost strings = list@;
        let command = list.remove(0);
        assert(list@ =~= strings.skip(1));
        assert(list.deep_view() =~= all.skip(1));
    } else {
        assert(list.deep_view() =~= tickets(content@));
    }
    list
}

/// Says who won.
pub fn lottery_reply(list: &Vec<String>, winning_idx: Option<usize>) -> (reply: String)
    requires
        winning_idx matches Some(idx) ==> idx < list@.len(),
    ensures
        reply@ == lottery_answer(list.deep_view(), winning_idx),
{
    match winning_idx {
        None => "Invalid lottery".to_owned(),
        Some(idx) => "Winner is: ".to_owned().concat(list[idx].as_str()),
    }
}

/// Draws one of the tickets, unless a bot asked.
pub fn lottery(msg: &DiscordMessage) -> (reply: Option<String>)
    ensures
        reply is None == msg.author_is_bot,
        reply is Some && tickets(msg.content@).len() == 0 ==> reply->0@ == lottery_answer(
            tickets(msg.content@),
            None,
        ),
        reply is Some && tickets(msg.content@).len() > 0 ==> exists|idx: usize|
            idx < tickets(msg.content@).len() && call_ensures(
                draw_index,
                (0usize, (tickets(msg.content@).len() - 1) as usize),
                idx,
            ) && reply->0@ == #[trigger] lottery_answer(tickets(msg.content@), Some(idx)),
{
    if msg.author_is_bot {
        return None;
    }
    let list = lottery_tickets(msg.content.as_str());
    assert(list.deep_view().len() == list@.len());
    let winning_idx: Option<usize> = if list.len() > 0 {
        Some(draw_index(0, list.len() - 1))
    } else {
        None
    };
    Some(lottery_reply(&list, winning_idx))
}

/// A race to start, and what its start is answered with.
pub struct StartRaceRequest {
    /// What the user who asked is told.
    pub reply: String,
    /// Where the outcome is told.
    pub context: ContextWrapper,
    /// The race.
    pub config: RaceConfig,
}

/// Asks for the race of the guild that the command was given in, unless a bot gave it.
/// Nothing is asked for in a guild that is unknown or has no race.
pub fn startrace(msg: &DiscordMessage) -> (request: Option<StartRaceRequest>)
    ensures
        request is Some == (!msg.author_is_bot && msg.guild is Some && first_for_guild(
            configs(),
            msg.guild->0@,
        ) is Some),
        request matches Some(request) ==> {
            &&& request.reply@ == "Attempting to start race..."@
            &&& request.context.channel_id == msg.channel_id
            &&& Some(request.config) == first_for_guild(configs(), msg.guild->0@)
        },
{
    if msg.author_is_bot {
        return None;
    }
    match msg.guild() {
        None => None,
        Some(guild) => match config_for_guild(guild) {
            None => None,
            Some(config) => Some(
                StartRaceRequest {
                    reply: "Attempting to start race...".to_owned(),
                    context: ContextWrapper { channel_id: msg.channel_id },
                    config,
                },
            ),
        },
    }
}

/// The words that are given behind the command, with single spaces between them, are the
/// tickets.
pub proof fn tickets_are_what_is_given(command: Seq<char>, list: Seq<Seq<char>>)
    requires
        is_word(command),
        forall|i: int| 0 <= i < list.len() ==> is_word(#[trigger] list[i]),
    ensures
        tickets(joined(seq![command] + list, seq![' '])) == list,
{
    let all = seq![command] + list;
    assert forall|i: int| 0 <= i < all.len() implies is_word(#[trigger] all[i]) by {
        if i > 0 {
            assert(all[i] == list[i - 1]);
        }
    }
    joined_words_are_split(all);
    assert(all.skip(1) =~= list);
}

/// What is said of a ping names the guild, the author and the channel in full.
pub proof fn ping_is_answered_in_full(guild: Seq<char>, author: Seq<char>, channel: Seq<char>)
    ensures
        ping_answer(None, author, None) == "Ping received.\n"@ + "unknown guild"@
            + "\nFrom user with display_name '"@ + author + "'"@,
        ping_answer(Some(guild), author, None) == "Ping received.\n"@ + "From guild with name '"@
            + guild + "'"@ + "\nFrom user with display_name '"@ + author + "'"@,
        ping_answer(None, author, Some(channel)) == ping_answer(None, author, None)
            + "\nFrom channel '"@ + channel + "'"@,
        ping_answer(Some(guild), author, Some(channel)) == ping_answer(Some(guild), author, None)
            + "\nFrom channel '"@ + channel + "'"@,
{
    assert(ping_answer(None, author, None) =~= "Ping received.\n"@ + "unknown guild"@
        + "\nFrom user with display_name '"@ + author + "'"@);
    assert(ping_answer(Some(guild), author, None) =~= "Ping received.\n"@
        + "From guild with name '"@ + guild + "'"@ + "\nFrom user with display_name '"@ + author
        + "'"@);
    assert(ping_answer(None, author, Some(channel)) =~= ping_answer(None, author, None)
        + "\nFrom channel '"@ + channel + "'"@);
    assert(ping_answer(Some(guild), author, Some(channel)) =~= ping_answer(
        Some(guild),
        author,
        None,
    ) + "\nFrom channel '"@ + channel + "'"@);
}

/// All words but the first are tickets, in order.
pub proof fn all_words_but_the_first_are_tickets(content: Seq<char>)
    ensures
        words(content).len() == 0 ==> tickets(content).len() == 0,
        words(content).len() > 0 ==> words(content) == seq![words(content)[0]] + tickets(content),
{
    if words(content).len() > 0 {
        assert(words(content) =~= seq![words(content)[0]] + tickets(content));
    }
}

/// The ticket that is drawn wins, whichever it is and however many there are. Where there
/// is none to draw, the lottery is invalid.
pub proof fn drawn_ticket_wins(
    before: Seq<Seq<char>>,
    ticket: Seq<char>,
    after: Seq<Seq<char>>,
    idx: usize,
)
    requires
        idx == before.len(),
    ensures
        lottery_answer(before + seq![ticket] + after, Some(idx)) == "Winner is: "@ + ticket,
        lottery_answer(before, None) == "Invalid lottery"@,
{
}

/// Each ticket of a list is made the winner by some index that can be drawn.
pub proof fn every_ticket_can_win(list: Seq<Seq<char>>, ticket: Seq<char>)
    requires
        list.contains(ticket),
        list.len() <= usize::MAX,
    ensures
        exists|idx: usize|
            0 <= idx <= list.len() - 1 && #[trigger] lottery_answer(list, Some(idx))
                == "Winner is: "@ + ticket,
{
    let i = choose|i: int| 0 <= i < list.len() && list[i] == ticket;
    let idx = i as usize;
    assert(lottery_answer(list, Some(idx)) == "Winner is: "@ + ticket);
}

/// Draws of different tickets are answered differently.
pub proof fn answers_tell_winners_apart(list: Seq<Seq<char>>, idx: usize, other: usize)
    requires
        idx < list.len(),
        other < list.len(),
        list[idx as int] != list[other as int],
    ensures
        lottery_answer(list, Some(idx)) != lottery_answer(list, Some(other)),
{
    let words = "Winner is: "@;
    let a = lottery_answer(list, Some(idx));
    let b = lottery_answer(list, Some(other));
    assert(a.skip(words.len() as int) =~= list[idx as int]);
    assert(b.skip(words.len() as int) =~= list[other as int]);
}

/// Whoever asks for a race is answered, and the race of the guild is asked for, with the
/// outcome to be told in the very channel that asked. Bots, and guilds that are not listed
/// or not known, get no race.
pub proof fn race_is_asked_for(msg: &DiscordMessage, request: Option<StartRaceRequest>, i: int)
    requires
        call_ensures(startrace, (msg,), request),
        0 <= i < configs().len(),
    ensures
        msg.author_is_bot ==> request is None,
        msg.guild is None ==> request is None,
        msg.guild is Some && (forall|j: int|
            0 <= j < configs().len() ==> (#[trigger] configs()[j]).guild@ != msg.guild->0@)
            ==> request is None,
        !msg.author_is_bot && msg.guild is Some && msg.guild->0@ == configs()[i].guild@ ==> {
            &&& request is Some
            &&& request->0.reply@ == "Attempting to start race..."@
            &&& request->0.context.channel_id == msg.channel_id
            &&& request->0.config == configs()[i]
        },
{
    guilds_are_distinct(i, i);
    if msg.guild is Some {
        guild_gets_its_first_race(configs(), msg.guild->0@);
    }
}

/// A ping is answered unless a bot sent it, and the answer begins with the guild, goes on
/// with the author and ends with the channel, as far as they are known.
pub proof fn ping_tells_where_it_came_from(msg: &DiscordMessage, reply: Option<String>)
    requires
        call_ensures(ping, (msg,), reply),
    ensures
        reply is Some <==> !msg.author_is_bot,
        reply is Some ==> ({
            let guild = match msg.guild {
                Some(name) => "From guild with name '"@ + name@ + "'"@,
                None => "unknown guild"@,
            };
            let channel = match msg.channel_name {
                Some(name) => "\nFrom channel '"@ + name@ + "'"@,
                None => Seq::empty(),
            };
            reply->0@ == "Ping received.\n"@ + guild + ("\nFrom user with display_name '"@
                + msg.author_name@ + "'"@) + channel
        }),
{
    if reply is Some {
        let guild = match msg.guild {
            Some(name) => "From guild with name '"@ + name@ + "'"@,
            None => "unknown guild"@,
        };
        let channel = match msg.channel_name {
            Some(name) => "\nFrom channel '"@ + name@ + "'"@,
            None => Seq::empty(),
        };
        assert(reply->0@ =~= "Ping received.\n"@ + guild + ("\nFrom user with display_name '"@
            + msg.author_name@ + "'"@) + channel);
    }
}

/// A lottery is answered unless a bot asked: with the name of one of the words behind
/// the command, or, if there are none, that it is invalid.
pub proof fn lottery_has_a_winner(msg: &DiscordMessage, reply: Option<String>)
    requires
        call_ensures(lottery, (msg,), reply),
    ensures
        reply is Some <==> !msg.author_is_bot,
        reply is Some && words(msg.content@).len() <= 1 ==> reply->0@ == "Invalid lottery"@,
        reply is Some && words(msg.content@).len() > 1 ==> exists|i: int|
            1 <= i < words(msg.content@).len() && reply->0@ == "Winner is: "@
                + #[trigger] words(msg.content@)[i],
{
    let all = words(msg.content@);
    all_words_but_the_first_are_tickets(msg.content@);
    if reply is Some && all.len() > 1 {
        let idx = choose|idx: usize|
            idx < tickets(msg.content@).len() && reply->0@ == #[trigger] lottery_answer(
                tickets(msg.content@),
                Some(idx),
            );
        assert(all[idx + 1] == tickets(msg.content@)[idx as int]);
        assert(reply->0@ == "Winner is: "@ + all[idx + 1]);
    }
}

/// A roll is answered unless a bot asked, and what is said gives a seed that can be drawn.
pub proof fn roll_gives_a_seed(msg: &DiscordMessage, reply: Option<String>)
    requires
        call_ensures(roll, (msg,), reply),
    ensures
        reply is Some <==> !msg.author_is_bot,
        reply is Some ==> ({
            let words = "Your seed is: "@;
            let letters = reply->0@.skip(words.len() as int);
            &&& reply->0@ == words + letters
            &&& 0 <= base26_value(letters) < i32::MAX
        }),
{
    if reply is Some {
        let seed = choose|seed: i32|
            is_seed(seed) && reply->0@ == #[trigger] seed_answer(seed);
        answer_gives_the_seed(seed);
    }
}

} // verus!
