//! Core logic of a tabletop-RPG play-space manager for chat servers.
//!
//! The crate models the entities involved (rule systems, games, characters,
//! players), the per-guild store invariants that writes must preserve, and the
//! decision logic reused across every command surface: contextual resolution
//! of implicit targets, authorization, activation-state display-name
//! synchronization, and the two-phase destructive-action confirmation gate.
//! Platform and database I/O stay outside; everything here is pure and
//! verified.

pub mod activation;
pub mod autocomplete;
pub mod character;
pub mod commands;
pub mod entities;
pub mod error;
pub mod game;
pub mod store;
pub mod system;
pub mod text;
