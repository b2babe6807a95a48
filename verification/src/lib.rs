//! Game logic, text helpers and bookkeeping for the girl pound discord bot.
use vstd::prelude::*;

pub mod autocomplete;
pub mod birthday;
pub mod classes;
pub mod cards;
pub mod community;
pub mod draft;
pub mod duel;
pub mod emoji;
pub mod emojirank;
pub mod genimg;
pub mod hand;
pub mod idmap;
pub mod interactions;
pub mod keyed;
pub mod links;
pub mod logs;
pub mod maps;
pub mod moderation;
pub mod nsfw_bets;
pub mod order;
pub mod patterns;
pub mod poker;
pub mod profile;
pub mod poker_events;
pub mod pulls;
pub mod reminders;
pub mod seeder;
pub mod server_logs;
pub mod servers;
pub mod text;
pub mod verses;
pub mod wallet;
mod rng;

verus! {

} // verus!
