//! The error taxonomy shared by every command surface.
//!
//! Resolution and authorization failures short-circuit before any mutation;
//! conflicts are detected at write time and name the field that clashed.
//! Every variant maps to a fixed user-facing message, so callers never leak
//! internal detail to the denied or failing party.

use vstd::prelude::*;

verus! {

/// Which uniqueness rule a rejected write ran into.
#[derive(Clone, Copy, Debug, PartialEq, Eq, Structural)]
pub enum ConflictField {
    Title,
    Abbreviation,
    Channel,
    CharacterName,
    PlayerInGame,
    Assignment,
}

/// Which argument slot would have disambiguated an underdetermined invocation.
#[derive(Clone, Copy, Debug, PartialEq, Eq, Structural)]
pub enum MissingArg {
    Game,
    Character,
}

/// The ways the contextual resolver can fail to infer a target.
#[derive(Clone, Copy, Debug, PartialEq, Eq, Structural)]
pub enum ContextFailure {
    /// The invocation channel is not any game's home channel and no explicit
    /// argument was given; `missing` names the slot that would have helped.
    NoGameContext { missing: MissingArg },
    /// The caller has no player row in the resolved game.
    NotAPlayer,
    /// The caller's player row exists but has no assigned character.
    NoCharacterAssigned,
}

/// A typed failure of a core operation.
#[derive(Clone, Copy, Debug, PartialEq, Eq, Structural)]
pub enum Error {
    /// A referenced entity id does not exist in this guild.
    NotFound,
    /// The authorization engine denied the action.
    PermissionDenied,
    /// The contextual resolver could not infer a target.
    AmbiguousContext(ContextFailure),
    /// A uniqueness constraint was violated; the payload names the field.
    Conflict(ConflictField),
    /// An external platform call failed mid-operation.
    CollaboratorFailure,
    /// Anything else; surfaced as a generic message.
    Internal,
}

/// The literal guidance text for each way the resolver can fail.
pub open spec fn spec_context_message(f: ContextFailure) -> Seq<char> {
    match f {
        ContextFailure::NoGameContext { missing: MissingArg::Game } =>
            "This is not a game channel. I couldn't figure out what you meant by context. \nTry using this command from a game channel, or hit TAB to select a `game`."@,
        ContextFailure::NoGameContext { missing: MissingArg::Character } =>
            "This is not a game channel. I couldn't figure out what you meant by context. \nTry using this command from a game channel, or hit TAB to select a `character`."@,
        ContextFailure::NotAPlayer =>
            "You are not a player in this game. I couldn't figure out what you meant by context. \nTry using this command from a game channel you play in, or hit TAB to select a `character`."@,
        ContextFailure::NoCharacterAssigned =>
            "You don't have a character assigned for this game. I couldn't figure out what you meant by context. \nTry using this command from a game channel, or hit TAB to select a `character`."@,
    }
}

/// The user-facing text of each conflict, naming the conflicting field and
/// nothing else.
pub open spec fn spec_conflict_message(f: ConflictField) -> Seq<char> {
    match f {
        ConflictField::Title => "That title already exists!"@,
        ConflictField::Abbreviation => "That abbreviation is already taken!"@,
        ConflictField::Channel => "Another game has already taken that channel."@,
        ConflictField::CharacterName => "A character with that name already exists!"@,
        ConflictField::PlayerInGame => "They are already in that game."@,
        ConflictField::Assignment => "That character is already assigned to a player."@,
    }
}

/// The user-facing text of every failure. Denials and internal faults get a
/// fixed generic message that reveals nothing about why.
pub open spec fn spec_error_message(e: Error) -> Seq<char> {
    match e {
        Error::NotFound =>
            "I couldn't find what you were looking for, not sure how this happened!"@,
        Error::PermissionDenied => "You don't have permission to do that!"@,
        Error::AmbiguousContext(f) => spec_context_message(f),
        Error::Conflict(f) => spec_conflict_message(f),
        Error::CollaboratorFailure => "Something went wrong, sorry!"@,
        Error::Internal => "Something went wrong, sorry!"@,
    }
}

/// A result with its success payload dropped, for stating what an
/// operation did regardless of what it handed back.
pub open spec fn spec_unit_result<T>(r: Result<T, Error>) -> Result<(), Error> {
    match r {
        Ok(_) => Ok(()),
        Err(e) => Err(e),
    }
}

impl Error {
    /// The exact text shown to the caller for this failure.
    pub fn user_message(&self) -> (r: String)
        ensures
            r@ == spec_error_message(*self),
    {
        match self {
            Error::NotFound => "I couldn't find what you were looking for, not sure how this happened!".to_owned(),
            Error::PermissionDenied => "You don't have permission to do that!".to_owned(),
            Error::AmbiguousContext(f) => match f {
                ContextFailure::NoGameContext { missing: MissingArg::Game } =>
                    "This is not a game channel. I couldn't figure out what you meant by context. \nTry using this command from a game channel, or hit TAB to select a `game`.".to_owned(),
                ContextFailure::NoGameContext { missing: MissingArg::Character } =>
                    "This is not a game channel. I couldn't figure out what you meant by context. \nTry using this command from a game channel, or hit TAB to select a `character`.".to_owned(),
                ContextFailure::NotAPlayer =>
                    "You are not a player in this game. I couldn't figure out what you meant by context. \nTry using this command from a game channel you play in, or hit TAB to select a `character`.".to_owned(),
                ContextFailure::NoCharacterAssigned =>
                    "You don't have a character assigned for this game. I couldn't figure out what you meant by context. \nTry using this command from a game channel, or hit TAB to select a `character`.".to_owned(),
            },
            Error::Conflict(f) => match f {
                ConflictField::Title => "That title already exists!".to_owned(),
                ConflictField::Abbreviation => "That abbreviation is already taken!".to_owned(),
                ConflictField::Channel => "Another game has already taken that channel.".to_owned(),
                ConflictField::CharacterName => "A character with that name already exists!".to_owned(),
                ConflictField::PlayerInGame => "They are already in that game.".to_owned(),
                ConflictField::Assignment => "That character is already assigned to a player.".to_owned(),
            },
            Error::CollaboratorFailure => "Something went wrong, sorry!".to_owned(),
            Error::Internal => "Something went wrong, sorry!".to_owned(),
        }
    }
}

} // verus!
