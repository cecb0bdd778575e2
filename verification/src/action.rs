//! What the bot does in answer.

use vstd::prelude::*;
use vstd::string::*;

verus! {

/// Where an answer on Discord goes.
#[derive(Copy, Clone)]
pub struct ContextWrapper {
    /// The number of the Discord channel.
    pub channel_id: u64,
}

impl ContextWrapper {
    /// How a context is shown for debugging: all look the same.
    pub fn debug_text(&self) -> (text: String)
        ensures
            text@ == "Context"@,
    {
        "Context".to_owned()
    }
}

/// One step of an answer. The steps of an answer are taken in order.
pub enum Action {
    /// Say the text on Discord.
    ToDiscord(ContextWrapper, String),
    /// Join the IRC channel.
    Join(String),
    /// Send the text, the second string, to the IRC channel or user, the first.
    Privmsg(String, String),
    /// Ask SpeedRunsLive for the entrants of the race, and show them.
    ShowEntrants(String),
    /// Ask SpeedRunsLive for the entrants of the race, the second string, and answer
    /// the IRC channel, the first, with the streams of those entrants.
    Multitwitch(String, String),
}

/// The mathematical value of an `Action`.
pub enum ActionModel {
    ToDiscord(ContextWrapper, Seq<char>),
    Join(Seq<char>),
    Privmsg(Seq<char>, Seq<char>),
    ShowEntrants(Seq<char>),
    Multitwitch(Seq<char>, Seq<char>),
}

impl View for Action {
    type V = ActionModel;

    open spec fn view(&self) -> ActionModel {
        match *self {
            Action::ToDiscord(context, text) => ActionModel::ToDiscord(context, text@),
            Action::Join(channel) => ActionModel::Join(channel@),
            Action::Privmsg(target, text) => ActionModel::Privmsg(target@, text@),
            Action::ShowEntrants(race) => ActionModel::ShowEntrants(race@),
            Action::Multitwitch(channel, race) => ActionModel::Multitwitch(channel@, race@),
        }
    }
}

/// The values of a list of actions.
pub open spec fn steps(actions: Seq<Action>) -> Seq<ActionModel> {
    actions.map_values(|a: Action| a@)
}

/// Adds one action to a list.
pub fn then_do(actions: &mut Vec<Action>, action: Action)
    ensures
        steps(final(actions)@) == steps(old(actions)@).push(action@),
{
    actions.push(action);
    assert(steps(actions@) =~= steps(old(actions)@).push(action@));
}

/// Adds a list of actions to another.
pub fn then_all(actions: &mut Vec<Action>, more: Vec<Action>)
    ensures
        steps(final(actions)@) == steps(old(actions)@) + steps(more@),
{
    let mut tail = more;
    actions.append(&mut tail);
    assert(steps(actions@) =~= steps(old(actions)@) + steps(more@));
}

/// Actions with the same value are the same step, with the same texts, and on Discord in
/// the same channel.
pub proof fn action_values_are_faithful(a: Action, b: Action)
    requires
        a@ == b@,
    ensures
        match a {
            Action::ToDiscord(context, text) => b matches Action::ToDiscord(c, t) && c.channel_id
                == context.channel_id && t@ == text@,
            Action::Join(channel) => b matches Action::Join(c) && c@ == channel@,
            Action::Privmsg(target, text) => b matches Action::Privmsg(to, t) && to@ == target@
                && t@ == text@,
            Action::ShowEntrants(race) => b matches Action::ShowEntrants(r) && r@ == race@,
            Action::Multitwitch(channel, race) => b matches Action::Multitwitch(c, r) && c@
                == channel@ && r@ == race@,
        },
{
}

/// The value of an action holds its texts and its channel as they are.
pub proof fn action_values_are_whole(context: ContextWrapper, a: String, b: String)
    ensures
        Action::ToDiscord(context, a)@ == ActionModel::ToDiscord(context, a@),
        Action::Join(a)@ == ActionModel::Join(a@),
        Action::Privmsg(a, b)@ == ActionModel::Privmsg(a@, b@),
        Action::ShowEntrants(a)@ == ActionModel::ShowEntrants(a@),
        Action::Multitwitch(a, b)@ == ActionModel::Multitwitch(a@, b@),
{
}

/// The steps of a list are the values of its actions, all of them and in order.
pub proof fn steps_are_the_actions(actions: Seq<Action>)
    ensures
        steps(actions).len() == actions.len(),
        forall|i: int| 0 <= i < actions.len() ==> #[trigger] steps(actions)[i] == actions[i]@,
{
}

} // verus!
