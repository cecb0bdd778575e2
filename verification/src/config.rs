//! The Discord guilds that the bot serves, and the races that it starts for them.

use vstd::prelude::*;

use crate::text::equals;

verus! {

/// A guild's race, in the words that Discord and RaceBot use for it.
#[derive(Debug, Copy, Clone)]
pub struct RaceConfig {
    /// Name of the Discord guild, such as `Mega Man 9 Tournament`.
    pub guild: &'static str,
    /// The game as `.startrace` takes it, such as `mm9`.
    pub game_code: &'static str,
    /// The game as RaceBot announces it, such as `Mega Man 9`.
    pub game_name: &'static str,
    /// The goal that is set in the race channel, such as `any%`.
    pub race_goal: &'static str,
}

/// The configured races, one for each guild.
pub open spec fn configs() -> Seq<RaceConfig> {
    seq![
        // The mega man 2 randomizer discord
        RaceConfig {
            guild: "Mega Man 2 Randomizer",
            game_code: "megamanhacks",
            game_name: "Mega Man Hacks",
            race_goal: "mega man 2 randomizer - any% (easy)",
        },
        // The mega man 2 randomizer tournament discord
        RaceConfig {
            guild: "Mega Man 2 Randomizer Tournament",
            game_code: "megamanhacks",
            game_name: "Mega Man Hacks",
            race_goal: "mega man 2 randomizer - any% (easy)",
        },
        // The mega man 9 tournament discord
        RaceConfig {
            guild: "Mega Man 9 Tournament",
            game_code: "mm9",
            game_name: "Mega Man 9",
            race_goal: "any%",
        },
        RaceConfig {
            guild: "whats this",
            game_code: "megamanhacks",
            game_name: "Mega Man Hacks",
            race_goal: "mega man 2 randomizer - any% (easy)",
        },
    ]
}

/// Lists the configured races.
pub fn race_configs() -> (list: Vec<RaceConfig>)
    ensures
        list@ == configs(),
{
    let list: Vec<RaceConfig> = vec![
        RaceConfig {
            guild: "Mega Man 2 Randomizer",
            game_code: "megamanhacks",
            game_name: "Mega Man Hacks",
            race_goal: "mega man 2 randomizer - any% (easy)",
        },
        RaceConfig {
            guild: "Mega Man 2 Randomizer Tournament",
            game_code: "megamanhacks",
            game_name: "Mega Man Hacks",
            race_goal: "mega man 2 randomizer - any% (easy)",
        },
        RaceConfig {
            guild: "Mega Man 9 Tournament",
            game_code: "mm9",
            game_name: "Mega Man 9",
            race_goal: "any%",
        },
        RaceConfig {
            guild: "whats this",
            game_code: "megamanhacks",
            game_name: "Mega Man Hacks",
            race_goal: "mega man 2 randomizer - any% (easy)",
        },
    ];
    assert(list@ == configs());
    list
}

/// The first of `list` that is for the guild of that name.
pub open spec fn first_for_guild(list: Seq<RaceConfig>, guild: Seq<char>) -> Option<RaceConfig>
    decreases list.len(),
{
    if list.len() == 0 {
        None
    } else if list[0].guild@ == guild {
        Some(list[0])
    } else {
        first_for_guild(list.skip(1), guild)
    }
}

/// Finds the configured race of a guild: the first that carries the guild's name.
pub fn config_for_guild(guild: &str) -> (found: Option<RaceConfig>)
    ensures
        found == first_for_guild(configs(), guild@),
{
    let list = race_configs();
    let mut i: usize = 0;
    assert(configs().skip(0) == configs());
    while i < list.len()
        invariant
            list@ == configs(),
            i <= list.len(),
            first_for_guild(configs(), guild@) == first_for_guild(
                configs().skip(i as int),
                guild@,
            ),
        decreases list.len() - i,
    {
        let config = list[i];
        assert(configs().skip(i as int).skip(1) == configs().skip(i + 1));
        if equals(config.guild, guild) {
            return Some(config);
        }
        i = i + 1;
    }
    None
}

/// No two configured races are for the same guild, so the race found for a guild
/// is the only one that carries its name.
pub proof fn guilds_are_distinct(i: int, j: int)
    requires
        0 <= i < configs().len(),
        0 <= j < configs().len(),
        configs()[i].guild@ == configs()[j].guild@,
    ensures
        i == j,
        first_for_guild(configs(), configs()[i].guild@) == Some(configs()[i]),
{
    reveal_strlit("Mega Man 2 Randomizer");
    reveal_strlit("Mega Man 2 Randomizer Tournament");
    reveal_strlit("Mega Man 9 Tournament");
    reveal_strlit("whats this");
    assert(configs()[0].guild@[9] == '2' && configs()[2].guild@[9] == '9');
    assert(configs()[0].guild@.len() == 21);
    assert(configs()[1].guild@.len() == 32);
    assert(configs()[2].guild@.len() == 21);
    assert(configs()[3].guild@.len() == 10);
    reveal_with_fuel(first_for_guild, 5);
    assert(configs().skip(1)[0] == configs()[1]);
    assert(configs().skip(1).skip(1)[0] == configs()[2]);
    assert(configs().skip(1).skip(1).skip(1)[0] == configs()[3]);
}

/// The race found for a guild is listed and carries the guild's name, and none is listed
/// before it that does; none is found only if none that is listed carries it.
pub proof fn guild_gets_its_first_race(list: Seq<RaceConfig>, guild: Seq<char>)
    ensures
        match first_for_guild(list, guild) {
            Some(config) => exists|i: int|
                0 <= i < list.len() && #[trigger] list[i] == config && config.guild@ == guild && (
                forall|j: int| 0 <= j < i ==> (#[trigger] list[j]).guild@ != guild),
            None => forall|i: int| 0 <= i < list.len() ==> (#[trigger] list[i]).guild@ != guild,
        },
    decreases list.len(),
{
    if list.len() > 0 {
        if list[0].guild@ == guild {
            assert(first_for_guild(list, guild) == Some(list[0]));
            assert(list[0] == list[0]);
        } else {
            let rest = list.skip(1);
            guild_gets_its_first_race(rest, guild);
            match first_for_guild(rest, guild) {
                Some(config) => {
                    let i = choose|i: int|
                        0 <= i < rest.len() && #[trigger] rest[i] == config && config.guild@
                            == guild && (forall|j: int|
                            0 <= j < i ==> (#[trigger] rest[j]).guild@ != guild);
                    assert(list[i + 1] == config);
                    assert forall|j: int| 0 <= j < i + 1 implies (#[trigger] list[j]).guild@
                        != guild by {
                        if j > 0 {
                            assert(rest[j - 1] == list[j]);
                        }
                    }
                },
                None => {
                    assert forall|i: int| 0 <= i < list.len() implies (#[trigger] list[i]).guild@
                        != guild by {
                        if i > 0 {
                            assert(rest[i - 1] == list[i]);
                        }
                    }
                },
            }
        }
    }
}

} // verus!
