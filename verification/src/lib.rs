//! A chat bot's command library: parsing of chat lines into commands and
//! arguments, permission guards, cooldowns, automatic replies, and the
//! rules of the bot's commands and its small economy.
pub mod text;
pub mod number;
pub mod args;
pub mod time;
pub mod random;
pub mod guards;
pub mod command;
pub mod watcher;
pub mod commands;
pub mod economy;
pub mod client;
