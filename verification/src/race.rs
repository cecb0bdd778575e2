//! Races that were asked for on Discord and are to be started by RaceBot on IRC.

use std::collections::VecDeque;

use vstd::prelude::*;
use vstd::string::*;

use crate::action::steps;
use crate::action::steps_are_the_actions;
use crate::action::then_all;
use crate::action::then_do;
use crate::action::Action;
use crate::action::ActionModel;
use crate::action::ContextWrapper;
use crate::config::configs;
use crate::config::RaceConfig;
use crate::message::text_of;
use crate::message::IrcMessage;
use crate::pattern::announced;
use crate::pattern::announced_first;
use crate::pattern::announcement;
use crate::pattern::announcement_is_understood;
use crate::pattern::find_room;
use crate::pattern::is_game_name;
use crate::pattern::is_race_channel;
use crate::text::equals;
use crate::text::stands_at;

verus! {

/// The nickname of the bot that starts races.
pub const RACEBOT: &'static str = "RaceBot";

/// The channel in which RaceBot takes requests.
pub const SRL: &'static str = "#speedrunslive";

/// How many seconds RaceBot has to answer a request.
pub const RACEBOTWAIT: u64 = 3;

/// How many ticks of the clock make a second. Times are in nanoseconds, counted from
/// any fixed moment.
pub const TICKS_PER_SECOND: u64 = 1_000_000_000;

/// RaceBot's answer to a user who has a race open.
pub const ALREADY_STARTED: &'static str =
    "You've already started a race. Please use .setgame in the race channel if you need to set it to the correct game.";

/// What Discord is told when RaceBot's answer came late.
pub const TIMED_OUT: &'static str =
    "Sorry, something went wrong. Check IRC, you might have a channel waiting.";

/// How far the start of a race has come.
pub enum RacebotStartRaceState {
    /// The request was sent at that time, for that race.
    Waiting(ContextWrapper, u64, RaceConfig),
    /// RaceBot answered too late.
    Timedout,
    /// RaceBot refused, with that message.
    Failed(ContextWrapper, u64, RaceConfig, String),
    /// An answer came for a race that was not waiting for one.
    Bad,
    /// The race is open in that channel.
    Success(String),
}

/// The mathematical value of a `RacebotStartRaceState`.
pub enum StateModel {
    Waiting(ContextWrapper, u64, RaceConfig),
    Timedout,
    Failed(ContextWrapper, u64, RaceConfig, Seq<char>),
    Bad,
    Success(Seq<char>),
}

impl View for RacebotStartRaceState {
    type V = StateModel;

    open spec fn view(&self) -> StateModel {
        match *self {
            RacebotStartRaceState::Waiting(context, sent_at, config) => StateModel::Waiting(
                context,
                sent_at,
                config,
            ),
            RacebotStartRaceState::Timedout => StateModel::Timedout,
            RacebotStartRaceState::Failed(context, sent_at, config, text) => StateModel::Failed(
                context,
                sent_at,
                config,
                text@,
            ),
            RacebotStartRaceState::Bad => StateModel::Bad,
            RacebotStartRaceState::Success(chan) => StateModel::Success(chan@),
        }
    }
}

impl StateModel {
    /// The state after RaceBot refused the race.
    pub open spec fn failed(self, text: Seq<char>) -> StateModel {
        match self {
            StateModel::Waiting(context, sent_at, config) => StateModel::Failed(
                context,
                sent_at,
                config,
                text,
            ),
            _ => StateModel::Bad,
        }
    }

    /// The channel of Discord that asked for the race, while it is known.
    pub open spec fn context(self) -> Option<ContextWrapper> {
        match self {
            StateModel::Waiting(context, _, _) => Some(context),
            StateModel::Failed(context, _, _, _) => Some(context),
            _ => None,
        }
    }

    /// The race that was asked for, while it is known.
    pub open spec fn config(self) -> Option<RaceConfig> {
        match self {
            StateModel::Waiting(_, _, config) => Some(config),
            StateModel::Failed(_, _, config, _) => Some(config),
            _ => None,
        }
    }

    /// The state after a message on IRC: only RaceBot's count. A refusal fails the
    /// race. An announcement opens it if it is for its game and came in time; one for
    /// another game was meant for someone else.
    pub open spec fn after(self, nickname: Option<Seq<char>>, text: Seq<char>, now: u64) -> StateModel {
        if nickname != Some(RACEBOT@) {
            self
        } else if text == ALREADY_STARTED@ {
            self.failed(text)
        } else {
            match self {
                StateModel::Waiting(_, sent_at, config) => {
                    if now - sent_at >= RACEBOTWAIT * TICKS_PER_SECOND {
                        StateModel::Timedout
                    } else if announced(text)->0.game == config.game_name@ {
                        StateModel::Success(announced(text)->0.chan)
                    } else {
                        self
                    }
                },
                _ => StateModel::Bad,
            }
        }
    }
}

/// Whether a message is one that a race can be told about: anything but a message of
/// RaceBot that is neither its refusal nor the announcement of a race.
pub open spec fn understood(nickname: Option<Seq<char>>, text: Seq<char>) -> bool {
    nickname == Some(RACEBOT@) ==> text == ALREADY_STARTED@ || announced(text) is Some
}

/// Tells whether a message comes from RaceBot.
pub fn from_racebot(nickname: Option<&str>) -> (answer: bool)
    ensures
        answer == (text_of(nickname) == Some(RACEBOT@)),
{
    match nickname {
        Some(nickname) => equals(nickname, RACEBOT),
        None => false,
    }
}

/// Tells whether a message is one that a race can be told about.
pub fn is_understood(nickname: Option<&str>, message: &str) -> (answer: bool)
    ensures
        answer == understood(text_of(nickname), message@),
{
    if from_racebot(nickname) && !equals(message, ALREADY_STARTED) {
        find_room(message).is_some()
    } else {
        true
    }
}

impl RacebotStartRaceState {
    /// Fails a waiting race with RaceBot's message.
    pub fn failed(self, msg: &str) -> (next: RacebotStartRaceState)
        ensures
            next@ == self@.failed(msg@),
    {
        match self {
            RacebotStartRaceState::Waiting(context, sent_at, config) => {
                RacebotStartRaceState::Failed(context, sent_at, config, msg.to_owned())
            },
            _ => RacebotStartRaceState::Bad,
        }
    }

    /// The channel of Discord that asked for the race, while it is known.
    pub fn get_context(&self) -> (context: Option<ContextWrapper>)
        ensures
            context == self@.context(),
    {
        match self {
            RacebotStartRaceState::Waiting(context, _, _) => Some(*context),
            RacebotStartRaceState::Failed(context, _, _, _) => Some(*context),
            _ => None,
        }
    }

    /// The race that was asked for, while it is known.
    pub fn get_config(&self) -> (config: Option<RaceConfig>)
        ensures
            config == self@.config(),
    {
        match self {
            RacebotStartRaceState::Waiting(_, _, config) => Some(*config),
            RacebotStartRaceState::Failed(_, _, config, _) => Some(*config),
            _ => None,
        }
    }

    /// Tells a race about a message on IRC.
    pub fn check_racebot_response(
        self,
        source_nickname: &Option<&str>,
        message: &str,
        now: u64,
    ) -> (next: Self)
        requires
            understood(text_of(*source_nickname), message@),
        ensures
            next@ == self@.after(text_of(*source_nickname), message@, now),
    {
        if !from_racebot(*source_nickname) {
            return self;
        }
        if equals(message, ALREADY_STARTED) {
            return self.failed(message);
        }
        let room = find_room(message).unwrap();
        match self {
            RacebotStartRaceState::Waiting(_, sent_at, config) => {
                if now.saturating_sub(sent_at) >= RACEBOTWAIT * TICKS_PER_SECOND {
                    RacebotStartRaceState::Timedout
                } else if equals(room.game.as_str(), config.game_name) {
                    RacebotStartRaceState::Success(room.chan)
                } else {
                    self
                }
            },
            _ => RacebotStartRaceState::Bad,
        }
    }
}

/// What is done when a race has come from one state to the next: an open race is
/// told to Discord, joined, given its goal and entered; a refusal or a late answer is
/// told to Discord.
pub open spec fn outcome(race: StateModel, next: StateModel) -> Seq<ActionModel> {
    match next {
        StateModel::Waiting(_, _, _) => Seq::empty(),
        StateModel::Success(chan) => {
            let told = match race.context() {
                Some(context) => seq![ActionModel::ToDiscord(context, "/join "@ + chan)],
                None => Seq::empty(),
            };
            let goal = match race.config() {
                Some(config) => seq![
                    ActionModel::Privmsg(chan, ".setgoal "@ + config.race_goal@),
                ],
                None => Seq::empty(),
            };
            told + seq![ActionModel::Join(chan)] + goal + seq![
                ActionModel::Privmsg(chan, ".enter"@),
            ]
        },
        StateModel::Failed(context, _, _, text) => seq![ActionModel::ToDiscord(context, text)],
        StateModel::Timedout => match race.context() {
            Some(context) => seq![ActionModel::ToDiscord(context, TIMED_OUT@)],
            None => Seq::empty(),
        },
        StateModel::Bad => Seq::empty(),
    }
}

fn outcome_actions(
    context: Option<ContextWrapper>,
    config: Option<RaceConfig>,
    next: RacebotStartRaceState,
    Ghost(race): Ghost<StateModel>,
) -> (actions: Vec<Action>)
    requires
        context == race.context(),
        config == race.config(),
    ensures
        steps(actions@) == outcome(race, next@),
{
    let mut actions: Vec<Action> = Vec::new();
    assert(steps(actions@) == Seq::<ActionModel>::empty());
    match next {
        RacebotStartRaceState::Success(chan) => {
            if let Some(context) = context {
                then_do(
                    &mut actions,
                    Action::ToDiscord(context, "/join ".to_owned().concat(chan.as_str())),
                );
            }
            then_do(&mut actions, Action::Join(chan.clone()));
            if let Some(config) = config {
                then_do(
                    &mut actions,
                    Action::Privmsg(chan.clone(), ".setgoal ".to_owned().concat(config.race_goal)),
                );
            }
            then_do(&mut actions, Action::Privmsg(chan, ".enter".to_owned()));
        },
        RacebotStartRaceState::Failed(context, _, _, message) => {
            then_do(&mut actions, Action::ToDiscord(context, message));
        },
        RacebotStartRaceState::Timedout => {
            if let Some(context) = context {
                then_do(&mut actions, Action::ToDiscord(context, TIMED_OUT.to_owned()));
            }
        },
        _ => {},
    }
    assert(steps(actions@) =~= outcome(race, next@));
    actions
}

/// The races that still wait after a message, in the order in which they were asked for.
pub open spec fn still_waiting(
    races: Seq<StateModel>,
    nickname: Option<Seq<char>>,
    text: Seq<char>,
    now: u64,
) -> Seq<StateModel> {
    races.map_values(|race: StateModel| race.after(nickname, text, now)).filter(
        |race: StateModel| race is Waiting,
    )
}

/// What is done after a message: what is done for each race, in the same order.
pub open spec fn outcomes(
    races: Seq<StateModel>,
    nickname: Option<Seq<char>>,
    text: Seq<char>,
    now: u64,
) -> Seq<ActionModel> {
    races.map_values(
        |race: StateModel| outcome(race, race.after(nickname, text, now)),
    ).flatten()
}

proof fn still_waiting_push(
    races: Seq<StateModel>,
    race: StateModel,
    nickname: Option<Seq<char>>,
    text: Seq<char>,
    now: u64,
)
    ensures
        still_waiting(races.push(race), nickname, text, now) == if race.after(
            nickname,
            text,
            now,
        ) is Waiting {
            still_waiting(races, nickname, text, now).push(race.after(nickname, text, now))
        } else {
            still_waiting(races, nickname, text, now)
        },
        outcomes(races.push(race), nickname, text, now) == outcomes(races, nickname, text, now)
            + outcome(race, race.after(nickname, text, now)),
{
    let after = |race: StateModel| race.after(nickname, text, now);
    let done = |race: StateModel| outcome(race, race.after(nickname, text, now));
    assert(races.push(race).map_values(after) == races.map_values(after).push(after(race)));
    assert(races.push(race).map_values(done) == races.map_values(done).push(done(race)));
    reveal(Seq::filter);
    assert(races.map_values(after).push(after(race)).drop_last() == races.map_values(after));
    races.map_values(done).lemma_flatten_push(done(race));
}

/// The values of a list of states.
pub open spec fn models(races: Seq<RacebotStartRaceState>) -> Seq<StateModel> {
    races.map_values(|race: RacebotStartRaceState| race@)
}

/// The races that were asked for and that RaceBot has not answered yet.
pub struct StartRace {
    pending_races: VecDeque<RacebotStartRaceState>,
}

impl View for StartRace {
    type V = Seq<StateModel>;

    closed spec fn view(&self) -> Seq<StateModel> {
        models(self.pending_races@)
    }
}

/// Whether all of `races` wait for RaceBot.
pub open spec fn all_waiting(races: Seq<StateModel>) -> bool {
    forall|i: int| 0 <= i < races.len() ==> (#[trigger] races[i]) is Waiting
}

impl StartRace {
    /// No races.
    pub fn new() -> (start_race: Self)
        ensures
            start_race@ == Seq::<StateModel>::empty(),
            all_waiting(start_race@),
    {
        let start_race = StartRace { pending_races: VecDeque::new() };
        assert(start_race@ =~= Seq::<StateModel>::empty());
        start_race
    }

    /// Tells whether no race waits.
    pub fn is_idle(&self) -> (idle: bool)
        ensures
            idle == (self@.len() == 0),
    {
        self.pending_races.len() == 0
    }

    /// Takes up what Discord asks for, if anything: the race waits from now on, and
    /// RaceBot is asked to start it.
    pub fn poll_discord(
        &mut self,
        request: Option<(ContextWrapper, RaceConfig)>,
        now: u64,
    ) -> (actions: Vec<Action>)
        ensures
            match request {
                None => final(self)@ == old(self)@ && steps(actions@) == Seq::<ActionModel>::empty(),
                Some((context, config)) => {
                    &&& final(self)@ == old(self)@.push(StateModel::Waiting(context, now, config))
                    &&& steps(actions@) == seq![
                        ActionModel::Privmsg(SRL@, ".startrace "@ + config.game_code@),
                    ]
                },
            },
            all_waiting(old(self)@) ==> all_waiting(final(self)@),
    {
        let mut actions: Vec<Action> = Vec::new();
        assert(steps(actions@) =~= Seq::<ActionModel>::empty());
        if let Some((context, config)) = request {
            self.pending_races.push_back(RacebotStartRaceState::Waiting(context, now, config));
            then_do(
                &mut actions,
                Action::Privmsg(SRL.to_owned(), ".startrace ".to_owned().concat(config.game_code)),
            );
            assert(self@ =~= old(self)@.push(StateModel::Waiting(context, now, config)));
        }
        actions
    }

    /// Tells the races about a message on IRC whose text, without formatting codes, is
    /// `message`. Those that RaceBot answered leave the queue.
    pub fn update_pending_races(
        &mut self,
        irc_msg: &IrcMessage,
        message: &str,
        now: u64,
    ) -> (actions: Vec<Action>)
        requires
            old(self)@.len() > 0 ==> understood(irc_msg.nickname(), message@),
        ensures
            final(self)@ == still_waiting(old(self)@, irc_msg.nickname(), message@, now),
            steps(actions@) == outcomes(old(self)@, irc_msg.nickname(), message@, now),
            all_waiting(final(self)@),
    {
        let ghost nickname = irc_msg.nickname();
        let ghost all = self@;
        let ghost mut count: int = 0;
        let mut new_pending_races: VecDeque<RacebotStartRaceState> = VecDeque::new();
        let mut actions: Vec<Action> = Vec::new();
        proof {
            assert(all.take(0) == Seq::<StateModel>::empty());
            reveal(Seq::filter);
        }
        while self.pending_races.len() > 0
            invariant
                all == old(self)@,
                0 <= count <= all.len(),
                self@ == all.skip(count),
                nickname == irc_msg.nickname(),
                all.len() > 0 ==> understood(nickname, message@),
                models(new_pending_races@)
                    == still_waiting(all.take(count), nickname, message@, now),
                steps(actions@) == outcomes(all.take(count), nickname, message@, now),
                all_waiting(models(new_pending_races@)),
            decreases self.pending_races@.len(),
        {
            assert(self@.len() == all.len() - count);
            let ghost kept = new_pending_races@;
            let ghost queue = self.pending_races@;
            let race = self.pending_races.pop_front().unwrap();
            let ghost before = race@;
            proof {
                assert(all.skip(count)[0] == before);
                assert(self@ =~= models(queue).skip(1));
                assert(all.skip(count).skip(1) =~= all.skip(count + 1));
                assert(all.take(count + 1) =~= all.take(count).push(before));
                still_waiting_push(all.take(count), before, nickname, message@, now);
            }
            let context = race.get_context();
            let config = race.get_config();
            let next = race.check_racebot_response(&irc_msg.source_nickname(), message, now);
            match next {
                RacebotStartRaceState::Waiting(_, _, _) => {
                    new_pending_races.push_back(next);
                    assert(models(new_pending_races@) =~= models(kept).push(next@));
                },
                _ => {
                    let done = outcome_actions(context, config, next, Ghost(before));
                    then_all(&mut actions, done);
                },
            }
            proof {
                count = count + 1;
            }
        }
        assert(all.take(count) =~= all);
        self.pending_races = new_pending_races;
        actions
    }
}

/// A race that waits never comes to a bad state.
pub proof fn waiting_races_do_not_go_bad(
    race: StateModel,
    nickname: Option<Seq<char>>,
    text: Seq<char>,
    now: u64,
)
    requires
        race is Waiting,
    ensures
        race.after(nickname, text, now) !is Bad,
{
}

/// A race that still waits after a message is as it was before.
pub proof fn waiting_races_are_kept(
    race: StateModel,
    nickname: Option<Seq<char>>,
    text: Seq<char>,
    now: u64,
)
    requires
        race.after(nickname, text, now) is Waiting,
    ensures
        race.after(nickname, text, now) == race,
{
}

proof fn all_waiting_head(races: Seq<StateModel>)
    requires
        all_waiting(races),
        races.len() > 0,
    ensures
        all_waiting(races.drop_last()),
        races.last() is Waiting,
{
    let head = races.drop_last();
    assert forall|i: int| 0 <= i < head.len() implies (#[trigger] head[i]) is Waiting by {
        assert(head[i] == races[i]);
    }
    assert(races[races.len() - 1] is Waiting);
}

/// What is still in the queue after a message waits, stood in it before, and is not
/// changed by the message.
pub proof fn queue_only_shrinks(
    races: Seq<StateModel>,
    nickname: Option<Seq<char>>,
    text: Seq<char>,
    now: u64,
)
    ensures
        all_waiting(still_waiting(races, nickname, text, now)),
        still_waiting(races, nickname, text, now).len() <= races.len(),
        forall|i: int|
            0 <= i < still_waiting(races, nickname, text, now).len() ==> races.contains(
                #[trigger] still_waiting(races, nickname, text, now)[i],
            ),
        forall|i: int|
            0 <= i < still_waiting(races, nickname, text, now).len() ==> (
            #[trigger] still_waiting(races, nickname, text, now)[i]).after(nickname, text, now)
                == still_waiting(races, nickname, text, now)[i],
    decreases races.len(),
{
    if races.len() == 0 {
        reveal(Seq::filter);
        assert(still_waiting(races, nickname, text, now).len() == 0);
    } else {
        let head = races.drop_last();
        let before = still_waiting(head, nickname, text, now);
        let after = still_waiting(races, nickname, text, now);
        queue_only_shrinks(head, nickname, text, now);
        assert(races == head.push(races.last()));
        still_waiting_push(head, races.last(), nickname, text, now);
        assert forall|i: int| 0 <= i < after.len() implies (#[trigger] after[i]) is Waiting
            && races.contains(after[i]) && after[i].after(nickname, text, now) == after[i] by {
            if i < before.len() {
                assert(after[i] == before[i]);
                let j = choose|j: int| 0 <= j < head.len() && head[j] == before[i];
                assert(races[j] == after[i]);
            } else {
                assert(races[races.len() - 1] == after[i]);
            }
        }
    }
}

/// A message that moves no race leaves the queue as it is, and nothing is done for it.
pub proof fn unmoved_races_wait_on(
    races: Seq<StateModel>,
    nickname: Option<Seq<char>>,
    text: Seq<char>,
    now: u64,
)
    requires
        all_waiting(races),
        forall|i: int|
            0 <= i < races.len() ==> (#[trigger] races[i]).after(nickname, text, now) == races[i],
    ensures
        still_waiting(races, nickname, text, now) == races,
        outcomes(races, nickname, text, now) == Seq::<ActionModel>::empty(),
    decreases races.len(),
{
    if races.len() == 0 {
        reveal(Seq::filter);
        assert(still_waiting(races, nickname, text, now) =~= races);
        assert(outcomes(races, nickname, text, now) =~= Seq::<ActionModel>::empty());
    } else {
        let head = races.drop_last();
        all_waiting_head(races);
        assert forall|i: int| 0 <= i < head.len() implies (#[trigger] head[i]).after(
            nickname,
            text,
            now,
        ) == head[i] by {
            assert(head[i] == races[i]);
        }
        unmoved_races_wait_on(head, nickname, text, now);
        assert(races == head.push(races.last()));
        still_waiting_push(head, races.last(), nickname, text, now);
        assert(races[races.len() - 1].after(nickname, text, now) == races.last());
    }
}

/// A message that is not RaceBot's changes nothing, and nothing is done for it.
pub proof fn only_racebot_counts(
    races: Seq<StateModel>,
    nickname: Option<Seq<char>>,
    text: Seq<char>,
    now: u64,
)
    requires
        all_waiting(races),
        nickname != Some(RACEBOT@),
    ensures
        still_waiting(races, nickname, text, now) == races,
        outcomes(races, nickname, text, now) == Seq::<ActionModel>::empty(),
{
    unmoved_races_wait_on(races, nickname, text, now);
}

/// Whether RaceBot still has time at `now` to answer each of `races`.
pub open spec fn all_in_time(races: Seq<StateModel>, now: u64) -> bool {
    forall|i: int|
        0 <= i < races.len() ==> ((#[trigger] races[i]) matches StateModel::Waiting(_, sent_at, _)
            ==> now - sent_at < RACEBOTWAIT * TICKS_PER_SECOND)
}

/// A message that is repeated has no second effect, as long as the races that still wait
/// have time left.
pub proof fn repeated_message_has_no_effect(
    races: Seq<StateModel>,
    nickname: Option<Seq<char>>,
    text: Seq<char>,
    now: u64,
    later: u64,
)
    requires
        later <= now || all_in_time(still_waiting(races, nickname, text, now), later),
    ensures
        ({
            let left = still_waiting(races, nickname, text, now);
            &&& still_waiting(left, nickname, text, later) == left
            &&& outcomes(left, nickname, text, later) == Seq::<ActionModel>::empty()
        }),
{
    let left = still_waiting(races, nickname, text, now);
    queue_only_shrinks(races, nickname, text, now);
    assert forall|i: int| 0 <= i < left.len() implies (#[trigger] left[i]).after(
        nickname,
        text,
        later,
    ) == left[i] by {
        assert(left[i].after(nickname, text, now) == left[i]);
    }
    unmoved_races_wait_on(left, nickname, text, later);
}

/// RaceBot's refusal ends every race that waits, and each of them is told about it.
pub proof fn refusal_ends_all(races: Seq<StateModel>, now: u64)
    requires
        all_waiting(races),
    ensures
        still_waiting(races, Some(RACEBOT@), ALREADY_STARTED@, now) == Seq::<StateModel>::empty(),
        outcomes(races, Some(RACEBOT@), ALREADY_STARTED@, now) == Seq::new(
            races.len(),
            |i: int| ActionModel::ToDiscord(races[i].context()->0, ALREADY_STARTED@),
        ),
    decreases races.len(),
{
    let told = Seq::new(
        races.len(),
        |i: int| ActionModel::ToDiscord(races[i].context()->0, ALREADY_STARTED@),
    );
    if races.len() == 0 {
        reveal(Seq::filter);
        assert(still_waiting(races, Some(RACEBOT@), ALREADY_STARTED@, now) =~= Seq::<
            StateModel,
        >::empty());
        assert(outcomes(races, Some(RACEBOT@), ALREADY_STARTED@, now) =~= told);
    } else {
        let head = races.drop_last();
        all_waiting_head(races);
        refusal_ends_all(head, now);
        assert(races == head.push(races.last()));
        still_waiting_push(head, races.last(), Some(RACEBOT@), ALREADY_STARTED@, now);
        assert(outcomes(races, Some(RACEBOT@), ALREADY_STARTED@, now) =~= told);
    }
}

/// RaceBot's refusal announces no race, so no announcement is mistaken for it.
pub proof fn refusal_announces_nothing()
    ensures
        announced(ALREADY_STARTED@) is None,
{
    reveal_strlit("Race initiated for ");
    reveal_strlit(
        "You've already started a race. Please use .setgame in the race channel if you need to set it to the correct game.",
    );
    let text = ALREADY_STARTED@;
    assert(forall|i: int| 0 <= i < text.len() ==> text[i] != 'R');
    assert forall|at: int, game: Seq<char>, chan: Seq<char>| !announced_first(
        text,
        at,
        game,
        chan,
    ) by {
        let sentence = announcement(game, chan);
        assert(sentence[0] == 'R');
        if stands_at(text, at, sentence) {
            assert(text.subrange(at, at + sentence.len())[0] == text[at]);
        }
    }
}

/// Every configured game has a name that can stand in an announcement.
pub proof fn configured_games_can_be_announced(i: int)
    requires
        0 <= i < configs().len(),
    ensures
        is_game_name(configs()[i].game_name@),
{
    reveal_strlit("Mega Man Hacks");
    reveal_strlit("Mega Man 9");
    let game = configs()[i].game_name@;
    assert(game == "Mega Man Hacks"@ || game == "Mega Man 9"@);
}

/// What becomes of a race that waits when RaceBot announces one: it times out if the
/// announcement is late, is opened in the announced channel if it is for the same game,
/// and waits on if it is not.
pub proof fn announcement_is_weighed(
    context: ContextWrapper,
    sent_at: u64,
    config: RaceConfig,
    game: Seq<char>,
    chan: Seq<char>,
    now: u64,
)
    requires
        is_game_name(game),
        is_race_channel(chan),
    ensures
        understood(Some(RACEBOT@), announcement(game, chan)),
        ({
            let race = StateModel::Waiting(context, sent_at, config);
            let next = race.after(Some(RACEBOT@), announcement(game, chan), now);
            if now - sent_at >= RACEBOTWAIT * TICKS_PER_SECOND {
                next == StateModel::Timedout
            } else if game == config.game_name@ {
                next == StateModel::Success(chan)
            } else {
                next == race
            }
        }),
{
    announcement_is_understood(game, chan);
    refusal_announces_nothing();
}

/// A race that was asked for, that is announced in time and that alone waits, is told
/// to Discord, joined, given its goal and entered, and waits no more.
pub proof fn requested_race_is_opened(
    context: ContextWrapper,
    sent_at: u64,
    i: int,
    chan: Seq<char>,
    now: u64,
)
    requires
        0 <= i < configs().len(),
        is_race_channel(chan),
        now - sent_at < RACEBOTWAIT * TICKS_PER_SECOND,
    ensures
        ({
            let config = configs()[i];
            let races = seq![StateModel::Waiting(context, sent_at, config)];
            let text = announcement(config.game_name@, chan);
            &&& still_waiting(races, Some(RACEBOT@), text, now) == Seq::<StateModel>::empty()
            &&& outcomes(races, Some(RACEBOT@), text, now) == seq![
                ActionModel::ToDiscord(context, "/join "@ + chan),
                ActionModel::Join(chan),
                ActionModel::Privmsg(chan, ".setgoal "@ + config.race_goal@),
                ActionModel::Privmsg(chan, ".enter"@),
            ]
        }),
{
    let config = configs()[i];
    let race = StateModel::Waiting(context, sent_at, config);
    let text = announcement(config.game_name@, chan);
    let none = Seq::<StateModel>::empty();
    configured_games_can_be_announced(i);
    announcement_is_weighed(context, sent_at, config, config.game_name@, chan, now);
    assert(seq![race] =~= none.push(race));
    still_waiting_push(none, race, Some(RACEBOT@), text, now);
    reveal(Seq::filter);
    assert(still_waiting(none, Some(RACEBOT@), text, now) =~= none);
    assert(outcomes(none, Some(RACEBOT@), text, now) =~= Seq::<ActionModel>::empty());
    assert(outcomes(seq![race], Some(RACEBOT@), text, now) =~= seq![
        ActionModel::ToDiscord(context, "/join "@ + chan),
        ActionModel::Join(chan),
        ActionModel::Privmsg(chan, ".setgoal "@ + config.race_goal@),
        ActionModel::Privmsg(chan, ".enter"@),
    ]);
}

/// Whether a race is of the game of that name.
pub open spec fn is_of_game(race: StateModel, game: Seq<char>) -> bool {
    race.config() matches Some(config) && config.game_name@ == game
}

/// The steps with which a race is opened in a channel.
pub open spec fn opening(race: StateModel, chan: Seq<char>) -> Seq<ActionModel> {
    seq![
        ActionModel::ToDiscord(race.context()->0, "/join "@ + chan),
        ActionModel::Join(chan),
        ActionModel::Privmsg(chan, ".setgoal "@ + race.config()->0.race_goal@),
        ActionModel::Privmsg(chan, ".enter"@),
    ]
}

/// When RaceBot announces a race while it has time left for all that wait, every race of
/// the announced game leaves the queue and is opened in the announced channel, in order,
/// and the others stay.
pub proof fn announcement_opens_its_races(races: Seq<StateModel>, text: Seq<char>, now: u64)
    requires
        all_waiting(races),
        all_in_time(races, now),
        announced(text) is Some,
    ensures
        understood(Some(RACEBOT@), text),
        ({
            let room = announced(text)->0;
            &&& still_waiting(races, Some(RACEBOT@), text, now) == races.filter(
                |race: StateModel| !is_of_game(race, room.game),
            )
            &&& outcomes(races, Some(RACEBOT@), text, now) == races.filter(
                |race: StateModel| is_of_game(race, room.game),
            ).map_values(|race: StateModel| opening(race, room.chan)).flatten()
        }),
    decreases races.len(),
{
    let room = announced(text)->0;
    let other = |race: StateModel| !is_of_game(race, room.game);
    let same = |race: StateModel| is_of_game(race, room.game);
    let open = |race: StateModel| opening(race, room.chan);
    reveal(Seq::filter);
    if races.len() == 0 {
        assert(still_waiting(races, Some(RACEBOT@), text, now) =~= races.filter(other));
        assert(races.filter(same).map_values(open) =~= Seq::<Seq<ActionModel>>::empty());
        assert(outcomes(races, Some(RACEBOT@), text, now) =~= races.filter(same).map_values(
            open,
        ).flatten());
    } else {
        let head = races.drop_last();
        let race = races.last();
        all_waiting_head(races);
        assert forall|i: int| 0 <= i < head.len() implies ((#[trigger] head[i]) matches
            StateModel::Waiting(_, sent_at, _) ==> now - sent_at < RACEBOTWAIT
            * TICKS_PER_SECOND) by {
            assert(head[i] == races[i]);
        }
        announcement_opens_its_races(head, text, now);
        refusal_announces_nothing();
        assert(races == head.push(race));
        still_waiting_push(head, race, Some(RACEBOT@), text, now);
        assert(races[races.len() - 1] == race);
        if same(race) {
            let kept = head.filter(same);
            assert(race.after(Some(RACEBOT@), text, now) == StateModel::Success(room.chan));
            assert(outcome(race, StateModel::Success(room.chan)) =~= opening(race, room.chan));
            assert(kept.push(race).map_values(open) =~= kept.map_values(open).push(open(race)));
            kept.map_values(open).lemma_flatten_push(open(race));
        } else {
            assert(race.after(Some(RACEBOT@), text, now) == race);
            assert(outcomes(races, Some(RACEBOT@), text, now) =~= outcomes(
                head,
                Some(RACEBOT@),
                text,
                now,
            ));
        }
    }
    refusal_announces_nothing();
}

/// What becomes of a queue is what becomes of its parts, one after the other.
pub proof fn queue_is_taken_by_parts(
    a: Seq<StateModel>,
    b: Seq<StateModel>,
    nickname: Option<Seq<char>>,
    text: Seq<char>,
    now: u64,
)
    ensures
        still_waiting(a + b, nickname, text, now) == still_waiting(a, nickname, text, now)
            + still_waiting(b, nickname, text, now),
        outcomes(a + b, nickname, text, now) == outcomes(a, nickname, text, now) + outcomes(
            b,
            nickname,
            text,
            now,
        ),
    decreases b.len(),
{
    if b.len() == 0 {
        reveal(Seq::filter);
        assert(a + b =~= a);
        assert(still_waiting(b, nickname, text, now) =~= Seq::<StateModel>::empty());
        assert(outcomes(b, nickname, text, now) =~= Seq::<ActionModel>::empty());
    } else {
        let head = b.drop_last();
        let race = b.last();
        queue_is_taken_by_parts(a, head, nickname, text, now);
        assert(a + b =~= (a + head).push(race));
        assert(b =~= head.push(race));
        still_waiting_push(a + head, race, nickname, text, now);
        still_waiting_push(head, race, nickname, text, now);
        assert(still_waiting(a + b, nickname, text, now) =~= still_waiting(a, nickname, text, now)
            + still_waiting(b, nickname, text, now));
        assert(outcomes(a + b, nickname, text, now) =~= outcomes(a, nickname, text, now)
            + outcomes(b, nickname, text, now));
    }
}

proof fn one_race(race: StateModel, nickname: Option<Seq<char>>, text: Seq<char>, now: u64)
    ensures
        race.after(nickname, text, now) is Waiting ==> still_waiting(
            seq![race],
            nickname,
            text,
            now,
        ) == seq![race.after(nickname, text, now)],
        race.after(nickname, text, now) !is Waiting ==> still_waiting(
            seq![race],
            nickname,
            text,
            now,
        ) == Seq::<StateModel>::empty(),
        outcomes(seq![race], nickname, text, now) == outcome(
            race,
            race.after(nickname, text, now),
        ),
{
    let none = Seq::<StateModel>::empty();
    reveal(Seq::filter);
    assert(seq![race] =~= none.push(race));
    still_waiting_push(none, race, nickname, text, now);
    assert(still_waiting(none, nickname, text, now) =~= none);
    assert(outcomes(none, nickname, text, now) =~= Seq::<ActionModel>::empty());
    assert(outcomes(seq![race], nickname, text, now) =~= outcome(
        race,
        race.after(nickname, text, now),
    ));
    if race.after(nickname, text, now) is Waiting {
        assert(still_waiting(seq![race], nickname, text, now) =~= seq![
            race.after(nickname, text, now),
        ]);
    }
}

/// A race that RaceBot answers late, three seconds or more after it was asked for, waits
/// no more, and the very channel that asked for it is told so, and nothing else is done.
pub proof fn late_answer_is_reported(
    context: ContextWrapper,
    sent_at: u64,
    config: RaceConfig,
    text: Seq<char>,
    now: u64,
)
    requires
        announced(text) is Some,
        now - sent_at >= 3_000_000_000,
    ensures
        ({
            let races = seq![StateModel::Waiting(context, sent_at, config)];
            &&& still_waiting(races, Some("RaceBot"@), text, now) == Seq::<StateModel>::empty()
            &&& outcomes(races, Some("RaceBot"@), text, now) == seq![
                ActionModel::ToDiscord(
                    context,
                    "Sorry, something went wrong. Check IRC, you might have a channel waiting."@,
                ),
            ]
        }),
{
    refusal_announces_nothing();
    one_race(StateModel::Waiting(context, sent_at, config), Some("RaceBot"@), text, now);
}

/// A race that RaceBot announces within three seconds waits no more. The very channel
/// that asked for it is told where it is, and it is joined, given its goal and entered.
pub proof fn timely_answer_opens_the_race(
    context: ContextWrapper,
    sent_at: u64,
    config: RaceConfig,
    text: Seq<char>,
    now: u64,
)
    requires
        announced(text) is Some,
        announced(text)->0.game == config.game_name@,
        now - sent_at < 3_000_000_000,
    ensures
        ({
            let races = seq![StateModel::Waiting(context, sent_at, config)];
            let chan = announced(text)->0.chan;
            &&& still_waiting(races, Some("RaceBot"@), text, now) == Seq::<StateModel>::empty()
            &&& outcomes(races, Some("RaceBot"@), text, now) == seq![
                ActionModel::ToDiscord(context, "/join "@ + chan),
                ActionModel::Join(chan),
                ActionModel::Privmsg(chan, ".setgoal "@ + config.race_goal@),
                ActionModel::Privmsg(chan, ".enter"@),
            ]
        }),
{
    let race = StateModel::Waiting(context, sent_at, config);
    let chan = announced(text)->0.chan;
    refusal_announces_nothing();
    one_race(race, Some("RaceBot"@), text, now);
    assert(outcome(race, StateModel::Success(chan)) =~= seq![
        ActionModel::ToDiscord(context, "/join "@ + chan),
        ActionModel::Join(chan),
        ActionModel::Privmsg(chan, ".setgoal "@ + config.race_goal@),
        ActionModel::Privmsg(chan, ".enter"@),
    ]);
}

/// A race waits on, and nothing is done for it, when someone else speaks, and when RaceBot
/// announces a race of another game within three seconds.
pub proof fn other_messages_leave_a_race_waiting(
    context: ContextWrapper,
    sent_at: u64,
    config: RaceConfig,
    nickname: Option<Seq<char>>,
    text: Seq<char>,
    now: u64,
)
    requires
        nickname != Some("RaceBot"@) || (announced(text) is Some && announced(text)->0.game
            != config.game_name@ && now - sent_at < 3_000_000_000),
    ensures
        ({
            let races = seq![StateModel::Waiting(context, sent_at, config)];
            &&& still_waiting(races, nickname, text, now) == races
            &&& outcomes(races, nickname, text, now) == Seq::<ActionModel>::empty()
        }),
{
    refusal_announces_nothing();
    one_race(StateModel::Waiting(context, sent_at, config), nickname, text, now);
}

/// A race that RaceBot refuses waits no more, at whatever time, and the very channel that
/// asked for it is told RaceBot's words, and nothing else is done.
pub proof fn refusal_is_reported(
    context: ContextWrapper,
    sent_at: u64,
    config: RaceConfig,
    now: u64,
)
    ensures
        ({
            let races = seq![StateModel::Waiting(context, sent_at, config)];
            let text =
                "You've already started a race. Please use .setgame in the race channel if you need to set it to the correct game."@;
            &&& understood(Some("RaceBot"@), text)
            &&& still_waiting(races, Some("RaceBot"@), text, now) == Seq::<StateModel>::empty()
            &&& outcomes(races, Some("RaceBot"@), text, now) == seq![
                ActionModel::ToDiscord(context, text),
            ]
        }),
{
    let text =
        "You've already started a race. Please use .setgame in the race channel if you need to set it to the correct game."@;
    one_race(StateModel::Waiting(context, sent_at, config), Some("RaceBot"@), text, now);
}

/// Only RaceBot can say what is not understood, and it is understood when it refuses a
/// race and when it announces one.
pub proof fn understanding_has_its_bounds(nickname: Option<Seq<char>>, text: Seq<char>)
    ensures
        understood(nickname, text) <==> nickname != Some("RaceBot"@) || announced(text) is Some
            || text
            == "You've already started a race. Please use .setgame in the race channel if you need to set it to the correct game."@,
{
}

/// A state that no longer waits is bad once RaceBot answers it, and stays as it is
/// when someone else speaks.
pub proof fn settled_races_take_no_answer(
    race: StateModel,
    nickname: Option<Seq<char>>,
    text: Seq<char>,
    now: u64,
)
    requires
        race !is Waiting,
    ensures
        nickname != Some("RaceBot"@) ==> race.after(nickname, text, now) == race,
        nickname == Some("RaceBot"@) ==> race.after(nickname, text, now) == StateModel::Bad,
        race.failed(text) == StateModel::Bad,
{
}

/// What was asked for, by whom and when, is kept while a race waits and when it fails,
/// and is forgotten otherwise.
pub proof fn requests_are_remembered(
    context: ContextWrapper,
    sent_at: u64,
    config: RaceConfig,
    text: Seq<char>,
)
    ensures
        StateModel::Waiting(context, sent_at, config).context() == Some(context),
        StateModel::Waiting(context, sent_at, config).config() == Some(config),
        StateModel::Waiting(context, sent_at, config).failed(text) == StateModel::Failed(
            context,
            sent_at,
            config,
            text,
        ),
        StateModel::Failed(context, sent_at, config, text).context() == Some(context),
        StateModel::Failed(context, sent_at, config, text).config() == Some(config),
        StateModel::Success(text).context() is None && StateModel::Success(text).config() is None,
        StateModel::Timedout.context() is None && StateModel::Timedout.config() is None,
        StateModel::Bad.context() is None && StateModel::Bad.config() is None,
{
}

/// The value of a state holds all that the state holds, and the values of a list are
/// those of its states, all of them and in order.
pub proof fn state_values_are_whole(
    context: ContextWrapper,
    sent_at: u64,
    config: RaceConfig,
    text: String,
    races: Seq<RacebotStartRaceState>,
)
    ensures
        RacebotStartRaceState::Waiting(context, sent_at, config)@ == StateModel::Waiting(
            context,
            sent_at,
            config,
        ),
        RacebotStartRaceState::Failed(context, sent_at, config, text)@ == StateModel::Failed(
            context,
            sent_at,
            config,
            text@,
        ),
        RacebotStartRaceState::Success(text)@ == StateModel::Success(text@),
        RacebotStartRaceState::Timedout@ == StateModel::Timedout,
        RacebotStartRaceState::Bad@ == StateModel::Bad,
        models(races).len() == races.len(),
        forall|i: int| 0 <= i < races.len() ==> #[trigger] models(races)[i] == races[i]@,
{
}

/// A race that is asked for waits behind the others from that moment on, and RaceBot is
/// asked to start it by its code; where nothing is asked for, nothing changes.
pub proof fn request_is_taken_up(
    queue: &mut StartRace,
    request: Option<(ContextWrapper, RaceConfig)>,
    now: u64,
    actions: Vec<Action>,
)
    requires
        call_ensures(StartRace::poll_discord, (queue, request, now), actions),
    ensures
        match request {
            Some((context, config)) => {
                &&& final(queue)@ == old(queue)@.push(StateModel::Waiting(context, now, config))
                &&& actions@.len() == 1
                &&& actions@[0]@ == ActionModel::Privmsg(
                    "#speedrunslive"@,
                    ".startrace "@ + config.game_code@,
                )
            },
            None => final(queue)@ == old(queue)@ && actions@.len() == 0,
        },
{
    steps_are_the_actions(actions@);
    if request is Some {
        assert(steps(actions@)[0] == actions@[0]@);
    }
}

/// A queue of one race that is told of RaceBot's refusal, or of a late announcement, is
/// empty afterwards, and all that is done is to tell the channel that asked.
pub proof fn bad_news_reaches_the_channel(
    queue: &mut StartRace,
    context: ContextWrapper,
    sent_at: u64,
    config: RaceConfig,
    irc_msg: &IrcMessage,
    message: &str,
    now: u64,
    actions: Vec<Action>,
)
    requires
        call_ensures(StartRace::update_pending_races, (queue, irc_msg, message, now), actions),
        old(queue)@ == seq![StateModel::Waiting(context, sent_at, config)],
        irc_msg.source_nickname is Some,
        irc_msg.source_nickname->0@ == "RaceBot"@,
        message@
            == "You've already started a race. Please use .setgame in the race channel if you need to set it to the correct game."@
            || (announced(message@) is Some && now - sent_at >= 3_000_000_000),
    ensures
        final(queue)@ == Seq::<StateModel>::empty(),
        actions@.len() == 1,
        actions@[0]@ == ActionModel::ToDiscord(
            context,
            if announced(message@) is Some {
                "Sorry, something went wrong. Check IRC, you might have a channel waiting."@
            } else {
                message@
            },
        ),
{
    refusal_announces_nothing();
    if announced(message@) is Some {
        late_answer_is_reported(context, sent_at, config, message@, now);
    } else {
        refusal_is_reported(context, sent_at, config, now);
    }
    steps_are_the_actions(actions@);
    assert(steps(actions@)[0] == actions@[0]@);
}

} // verus!
