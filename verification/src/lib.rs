//! The rules of a bot that bridges Discord and the SpeedRunsLive IRC network.
//!
//! On Discord the bot takes commands ([`commands`]); one of them asks for a race, which
//! the bot has RaceBot start on IRC ([`race`]). On IRC it joins the races that RaceBot
//! announces and answers commands ([`chat`]). What comes in is a value of [`message`],
//! what is to be done is a list of [`action`]s; sending and receiving are left to the
//! program around this library.

pub mod action;
pub mod chat;
pub mod commands;
pub mod config;
pub mod message;
pub mod pattern;
pub mod race;
pub mod seed;
pub mod text;
