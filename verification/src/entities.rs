//! The entities of a play space, all scoped to a guild.
//!
//! Identities: guild, user, channel and role ids are the platform's 64-bit
//! snowflakes; systems, games and characters carry store-assigned 32-bit ids.

use vstd::prelude::*;

verus! {

/// A rule system games can reference; title and abbreviation are unique per
/// guild.
pub struct System {
    pub id: i32,
    pub guild_id: i64,
    pub title: String,
    pub abbreviation: String,
    pub description: Option<String>,
    pub image: Option<String>,
}

/// A play session. Title and abbreviation are unique per guild; the optional
/// home channel is bound to at most one game per guild; the role is created
/// by the platform at game creation.
pub struct Game {
    pub id: i32,
    pub guild_id: i64,
    pub title: String,
    pub abbreviation: String,
    pub description: Option<String>,
    pub image: Option<String>,
    pub owner_id: i64,
    pub role_id: i64,
    pub main_channel_id: Option<i64>,
    pub system_id: Option<i32>,
    pub created_at: i64,
}

/// A character owned by a game; its name is unique within that game.
pub struct Character {
    pub id: i32,
    pub guild_id: i64,
    pub game_id: i32,
    pub author_id: i64,
    pub name: String,
    pub pronouns: Option<String>,
    pub description: Option<String>,
    pub image: Option<String>,
}

/// One row per (game, user) pair: this user participates in this game,
/// optionally playing one of its characters.
pub struct Player {
    pub game_id: i32,
    pub user_id: i64,
    pub character_id: Option<i32>,
}

} // verus!
