//! What comes in from IRC and from Discord.

use vstd::prelude::*;

verus! {

/// The text of an optional string.
pub open spec fn text_of(s: Option<&str>) -> Option<Seq<char>> {
    match s {
        Some(s) => Some(s@),
        None => None,
    }
}

/// The text of an optional string that is owned.
pub open spec fn owned_text(s: Option<String>) -> Option<Seq<char>> {
    match s {
        Some(s) => Some(s@),
        None => None,
    }
}

fn borrowed(s: &Option<String>) -> (b: Option<&str>)
    ensures
        text_of(b) == owned_text(*s),
{
    match s {
        Some(s) => Some(s.as_str()),
        None => None,
    }
}

/// Whether a message that is sent to `target` is sent to a channel, not to a user.
pub open spec fn is_channel_name(target: Seq<char>) -> bool {
    target.len() > 0 && (target[0] == '#' || target[0] == '&' || target[0] == '+' || target[0]
        == '!')
}

/// Calls `irc::client::prelude::Message::response_target` on a `PRIVMSG` of that sender
/// to that target. A `NOTICE` is treated alike there, and the text plays no part.
///
/// Trusted: a message to a channel is answered in the channel, any other is answered to
/// its sender, if there is one.
#[verifier::external_body]
fn response_target(source_nickname: Option<&str>, target: &str) -> (answer_to: Option<String>)
    ensures
        is_channel_name(target@) ==> owned_text(answer_to) == Some(target@),
        !is_channel_name(target@) ==> owned_text(answer_to) == text_of(source_nickname),
{
    let message = irc::client::prelude::Message {
        tags: None,
        prefix: source_nickname.map(
            |n| irc::client::prelude::Prefix::Nickname(n.to_owned(), String::new(), String::new()),
        ),
        command: irc::client::prelude::Command::PRIVMSG(target.to_owned(), String::new()),
    };
    message.response_target().map(|t| t.to_owned())
}

/// A `PRIVMSG` or `NOTICE` of IRC.
#[derive(Debug)]
pub struct IrcMessage {
    /// The nickname of the sender, if the sender is a user.
    pub source_nickname: Option<String>,
    /// The channel or user that the message was sent to.
    pub channel: String,
    /// The text of the message, with its formatting codes.
    pub message: String,
}

impl IrcMessage {
    /// The text of the sender's nickname.
    pub open spec fn nickname(&self) -> Option<Seq<char>> {
        owned_text(self.source_nickname)
    }

    /// What an answer is sent to: the channel of the message if it has one, else its
    /// sender, or what it was sent to if it has none.
    pub open spec fn target(&self) -> Seq<char> {
        match self.nickname() {
            Some(nickname) if !is_channel_name(self.channel@) => nickname,
            _ => self.channel@,
        }
    }

    /// The nickname of the sender.
    pub fn source_nickname(&self) -> (nickname: Option<&str>)
        ensures
            text_of(nickname) == self.nickname(),
    {
        borrowed(&self.source_nickname)
    }

    /// What an answer is sent to.
    pub fn answer_target(&self) -> (target: String)
        ensures
            target@ == self.target(),
    {
        match response_target(self.source_nickname(), self.channel.as_str()) {
            Some(target) => target,
            None => self.channel.clone(),
        }
    }
}

/// A command that a user of Discord gave.
#[derive(Debug)]
pub struct DiscordMessage {
    /// Whether the author is a bot.
    pub author_is_bot: bool,
    /// The name of the author.
    pub author_name: String,
    /// The guild that the message was sent in, if it is known.
    pub guild: Option<String>,
    /// The number of the channel that the message was sent in.
    pub channel_id: u64,
    /// The name of that channel, if it is known.
    pub channel_name: Option<String>,
    /// The text of the message.
    pub content: String,
}

impl DiscordMessage {
    /// The guild's name.
    pub fn guild(&self) -> (guild: Option<&str>)
        ensures
            text_of(guild) == owned_text(self.guild),
    {
        borrowed(&self.guild)
    }

    /// The channel's name.
    pub fn channel_name(&self) -> (name: Option<&str>)
        ensures
            text_of(name) == owned_text(self.channel_name),
    {
        borrowed(&self.channel_name)
    }
}

/// The text of an optional string is the whole text, if there is a string.
pub proof fn texts_are_whole(borrowed: &str, owned: String)
    ensures
        text_of(Some(borrowed)) == Some(borrowed@),
        text_of(None) is None,
        owned_text(Some(owned)) == Some(owned@),
        owned_text(None) is None,
{
}

/// A message to a channel is answered in the channel. Any other is answered to its
/// sender, or where it was sent if it has no sender. The sender's nickname is taken whole.
pub proof fn answers_find_their_way(msg: IrcMessage)
    ensures
        msg.channel@.len() > 0 && (msg.channel@[0] == '#' || msg.channel@[0] == '&'
            || msg.channel@[0] == '+' || msg.channel@[0] == '!') ==> msg.target() == msg.channel@,
        msg.channel@.len() == 0 || (msg.channel@[0] != '#' && msg.channel@[0] != '&'
            && msg.channel@[0] != '+' && msg.channel@[0] != '!') ==> match msg.source_nickname {
            Some(nickname) => msg.target() == nickname@,
            None => msg.target() == msg.channel@,
        },
        match msg.source_nickname {
            Some(nickname) => msg.nickname() == Some(nickname@),
            None => msg.nickname() is None,
        },
{
}

} // verus!
