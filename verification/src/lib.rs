//! Verified core of the Unchained game plugin: command-line handling, chat and
//! command parsing, mod bookkeeping, build descriptions, votes and server
//! registration decisions.

pub mod text;
pub mod chat_type;
pub mod ini;
pub mod cli_args;
pub mod commands;
pub mod command_queue;
pub mod keyed;
pub mod mods;
pub mod build_info;
pub mod notifications;
pub mod map_vote;
pub mod discord_modules;
pub mod registration;
pub mod chat_filter;
pub mod syslog;
pub mod ue;
pub mod engine;
pub mod herald;
pub mod dashboard;
pub mod discord_config;
pub mod responses;
pub mod duel;
