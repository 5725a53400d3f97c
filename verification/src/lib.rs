//! Command handling logic of a Telegram RSS subscription bot.

pub mod channel;
pub mod cli;
pub mod command;
pub mod feed;
pub mod flow;
pub mod order;
pub mod reply;
pub mod text;
