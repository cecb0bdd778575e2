use srlbot::config::{config_for_guild, race_configs};
use std::collections::BTreeSet;

#[test]
fn each_guild_has_its_race() {
    let config = config_for_guild("Mega Man 9 Tournament").unwrap();
    assert_eq!(config.guild, "Mega Man 9 Tournament");
    assert_eq!(config.game_code, "mm9");
    assert_eq!(config.game_name, "Mega Man 9");
    assert_eq!(config.race_goal, "any%");
    for guild in ["Mega Man 2 Randomizer", "Mega Man 2 Randomizer Tournament", "whats this"] {
        let config = config_for_guild(guild).unwrap();
        assert_eq!(config.guild, guild);
        assert_eq!(config.game_code, "megamanhacks");
        assert_eq!(config.game_name, "Mega Man Hacks");
        assert_eq!(config.race_goal, "mega man 2 randomizer - any% (easy)");
    }
}

#[test]
fn other_guilds_have_no_race() {
    assert!(config_for_guild("").is_none());
    assert!(config_for_guild("Mega Man 2").is_none());
    assert!(config_for_guild("mega man 2 randomizer").is_none());
}

#[test]
fn guilds_are_listed_once() {
    let list = race_configs();
    assert_eq!(list.len(), 4);
    let guilds: BTreeSet<&str> = list.iter().map(|config| config.guild).collect();
    assert_eq!(guilds.len(), list.len());
}
