//! What every command surface shares: the request context, the contextual
//! resolver that infers an implicit target, and the confirmation gate that
//! guards destructive actions.

use vstd::prelude::*;

use crate::error::{ContextFailure, Error, MissingArg};
use crate::store::Store;

verus! {

/// The explicit request context a command runs under: who called, from
/// where, and with what capability. Built once at the boundary; the core
/// never consults any ambient state.
#[derive(Clone, Copy, Debug)]
pub struct RequestContext {
    pub guild_id: i64,
    pub channel_id: i64,
    pub caller_id: i64,
    /// Whether the caller holds the host platform's moderation capability.
    pub moderator: bool,
}

/// A resolved target: the game a command applies to, and the character when
/// that slot was applicable.
#[derive(Clone, Copy, Debug, PartialEq, Eq)]
pub struct ContextualArgs {
    pub game_id: i32,
    pub character_id: Option<i32>,
}

/// The game a request resolves to. An argument slot is `None` when the
/// command has no such argument, `Some(None)` when the caller left it for
/// inference, and `Some(Some(id))` when given explicitly.
///
/// Order: an explicit game wins; else the invocation channel's binding; else
/// an explicit character's owning game; else the request is ambiguous,
/// naming whichever slot would have disambiguated.
pub open spec fn spec_resolve_game(
    s: Store,
    ctx: RequestContext,
    game_id_arg: Option<Option<i32>>,
    character_id_arg: Option<Option<i32>>,
) -> Result<i32, Error> {
    match game_id_arg {
        Some(Some(g)) => Ok(g),
        _ => {
            if s.spec_channel_taken(ctx.guild_id, ctx.channel_id) {
                Ok(s.games@[s.spec_channel_game_idx(ctx.guild_id, ctx.channel_id)].id)
            } else {
                match character_id_arg {
                    Some(Some(c)) => {
                        if s.spec_has_character(ctx.guild_id, c) {
                            Ok(s.characters@[s.spec_character_idx(ctx.guild_id, c)].game_id)
                        } else {
                            Err(Error::NotFound)
                        }
                    },
                    Some(None) => Err(
                        Error::AmbiguousContext(
                            ContextFailure::NoGameContext { missing: MissingArg::Character },
                        ),
                    ),
                    None => Err(
                        Error::AmbiguousContext(
                            ContextFailure::NoGameContext { missing: MissingArg::Game },
                        ),
                    ),
                }
            }
        },
    }
}

/// The character slot's resolution once the game is known: an explicit id is
/// used as given; an inferable slot falls back to the caller's own
/// assignment in that game, failing precisely when the caller is not a
/// player there or has no character assigned.
pub open spec fn spec_resolve_character(
    s: Store,
    ctx: RequestContext,
    game_id: i32,
    character_id_arg: Option<Option<i32>>,
) -> Result<Option<i32>, Error> {
    match character_id_arg {
        Some(Some(c)) => Ok(Some(c)),
        Some(None) => {
            if !s.spec_has_player(game_id, ctx.caller_id) {
                Err(Error::AmbiguousContext(ContextFailure::NotAPlayer))
            } else {
                let p = s.players@[s.spec_player_idx(game_id, ctx.caller_id)];
                if p.character_id is Some {
                    Ok(Some(p.character_id->0))
                } else {
                    Err(Error::AmbiguousContext(ContextFailure::NoCharacterAssigned))
                }
            }
        },
        None => Ok(None),
    }
}

/// The whole resolution: the game first, then the character against it;
/// the first failure short-circuits.
pub open spec fn spec_contextual_args(
    s: Store,
    ctx: RequestContext,
    game_id_arg: Option<Option<i32>>,
    character_id_arg: Option<Option<i32>>,
) -> Result<ContextualArgs, Error> {
    match spec_resolve_game(s, ctx, game_id_arg, character_id_arg) {
        Err(e) => Err(e),
        Ok(g) => match spec_resolve_character(s, ctx, g, character_id_arg) {
            Err(e) => Err(e),
            Ok(c) => Ok(ContextualArgs { game_id: g, character_id: c }),
        },
    }
}

/// Infer the (game, character) a command applies to when the caller omitted
/// them, from the invocation channel's game binding and the caller's player
/// row; see [`spec_resolve_game`] and [`spec_resolve_character`] for the
/// exact order and failures.
pub fn contextual_args(
    store: &Store,
    ctx: &RequestContext,
    game_id_arg: Option<Option<i32>>,
    character_id_arg: Option<Option<i32>>,
) -> (r: Result<ContextualArgs, Error>)
    requires
        store.wf(),
    ensures
        r == spec_contextual_args(*store, *ctx, game_id_arg, character_id_arg),
{
    let game_id: i32 = match game_id_arg {
        Some(Some(g)) => g,
        _ => {
            match store.find_game_by_channel(ctx.guild_id, ctx.channel_id) {
                Some(k) => {
                    proof {
                        store.lemma_channel_game_idx_agrees(ctx.guild_id, ctx.channel_id, k as int);
                    }
                    store.games[k].id
                },
                None => {
                    match character_id_arg {
                        Some(Some(c)) => {
                            match store.find_character(ctx.guild_id, c) {
                                Some(k) => {
                                    proof {
                                        store.lemma_character_idx_agrees(ctx.guild_id, c, k as int);
                                    }
                                    store.characters[k].game_id
                                },
                                None => {
                                    return Err(Error::NotFound);
                                },
                            }
                        },
                        Some(None) => {
                            return Err(
                                Error::AmbiguousContext(
                                    ContextFailure::NoGameContext {
                                        missing: MissingArg::Character,
                                    },
                                ),
                            );
                        },
                        None => {
                            return Err(
                                Error::AmbiguousContext(
                                    ContextFailure::NoGameContext { missing: MissingArg::Game },
                                ),
                            );
                        },
                    }
                },
            }
        },
    };
    let character_id: Option<i32> = match character_id_arg {
        Some(Some(c)) => Some(c),
        Some(None) => {
            match store.find_player(game_id, ctx.caller_id) {
                None => {
                    return Err(Error::AmbiguousContext(ContextFailure::NotAPlayer));
                },
                Some(k) => {
                    proof {
                        store.lemma_player_idx_agrees(game_id, ctx.caller_id, k as int);
                    }
                    match store.players[k].character_id {
                        Some(c) => Some(c),
                        None => {
                            return Err(
                                Error::AmbiguousContext(ContextFailure::NoCharacterAssigned),
                            );
                        },
                    }
                },
            }
        },
        None => None,
    };
    Ok(ContextualArgs { game_id, character_id })
}

/// The resolver is deterministic: its outcome is a function of the store
/// snapshot and the request alone, so equal inputs resolve to the same
/// target or the same failure.
pub proof fn lemma_resolver_deterministic(
    s1: Store,
    s2: Store,
    ctx1: RequestContext,
    ctx2: RequestContext,
    game_id_arg1: Option<Option<i32>>,
    game_id_arg2: Option<Option<i32>>,
    character_id_arg1: Option<Option<i32>>,
    character_id_arg2: Option<Option<i32>>,
)
    requires
        s1 == s2,
        ctx1 == ctx2,
        game_id_arg1 == game_id_arg2,
        character_id_arg1 == character_id_arg2,
    ensures
        spec_contextual_args(s1, ctx1, game_id_arg1, character_id_arg1) == spec_contextual_args(
            s2,
            ctx2,
            game_id_arg2,
            character_id_arg2,
        ),
{
}

// ---- confirmation workflow ----------------------------------------------

/// How a confirmation challenge ended.
#[derive(Clone, Copy, Debug, PartialEq, Eq, Structural)]
pub enum ConfirmationOutcome {
    /// The typed input matched the challenge phrase (case-insensitively);
    /// the guarded effect may run, once.
    Confirmed,
    /// Input arrived but did not match; the effect must not run.
    Rejected,
    /// No input arrived before the timeout; a deliberate silent no-op.
    Abandoned,
}

/// The case folding of a sequence of characters, as the platform's string
/// library computes it; a function of the characters alone.
pub uninterp spec fn lower_of(s: Seq<char>) -> Seq<char>;

/// Relies on str::to_lowercase from std: the lowercase equivalent of the
/// string, depending on its characters alone.
#[verifier::external_body]
fn lowercase(s: &str) -> (r: String)
    ensures
        r@ == lower_of(s@),
{
    s.to_lowercase()
}

/// The view of an optional response.
pub open spec fn spec_response_view(response: Option<&str>) -> Option<Seq<char>> {
    match response {
        Some(s) => Some(s@),
        None => None,
    }
}

/// What a challenge resolves to for a given response: abandoned when none
/// arrived, confirmed exactly when the input equals the phrase up to case,
/// rejected otherwise.
pub open spec fn spec_confirmation(
    phrase: Seq<char>,
    response: Option<Seq<char>>,
) -> ConfirmationOutcome {
    match response {
        None => ConfirmationOutcome::Abandoned,
        Some(input) => if lower_of(input) == lower_of(phrase) {
            ConfirmationOutcome::Confirmed
        } else {
            ConfirmationOutcome::Rejected
        },
    }
}

/// Decide a confirmation challenge against the caller's response.
pub fn evaluate_confirmation(phrase: &str, response: Option<&str>) -> (r: ConfirmationOutcome)
    ensures
        r == spec_confirmation(phrase@, spec_response_view(response)),
{
    match response {
        None => ConfirmationOutcome::Abandoned,
        Some(input) => {
            let li = lowercase(input);
            let lp = lowercase(phrase);
            if li == lp {
                ConfirmationOutcome::Confirmed
            } else {
                ConfirmationOutcome::Rejected
            }
        },
    }
}

/// Confirmation is exact: a response whose case folding equals the phrase's
/// confirms; any response whose folding differs in any character is
/// rejected, and only a missing response abandons.
pub proof fn lemma_confirmation_exactness(phrase: Seq<char>, response: Option<Seq<char>>)
    ensures
        spec_confirmation(phrase, response) == ConfirmationOutcome::Confirmed <==> (
        response is Some && lower_of(response->0) == lower_of(phrase)),
        spec_confirmation(phrase, response) == ConfirmationOutcome::Rejected <==> (
        response is Some && lower_of(response->0) != lower_of(phrase)),
        spec_confirmation(phrase, response) == ConfirmationOutcome::Abandoned <==> response
            is None,
{
}

/// A one-shot challenge gate: it resolves at most once, so the effect it
/// guards can run at most once per confirmation.
pub struct ConfirmationGate {
    phrase: String,
    resolved: bool,
}

impl ConfirmationGate {
    /// The challenge phrase shown to the caller.
    pub closed spec fn spec_phrase(self) -> Seq<char> {
        self.phrase@
    }

    /// Whether this gate has already been resolved.
    pub closed spec fn spec_resolved(self) -> bool {
        self.resolved
    }

    /// A fresh gate around a challenge phrase.
    pub fn new(phrase: String) -> (r: ConfirmationGate)
        ensures
            r.spec_phrase() == phrase@,
            !r.spec_resolved(),
    {
        ConfirmationGate { phrase, resolved: false }
    }

    /// Resolve this guard against the caller's response. The first call
    /// decides the outcome; every later call reports nothing and changes
    /// nothing, so a guarded effect runs at most once.
    pub fn resolve(&mut self, response: Option<&str>) -> (r: Option<ConfirmationOutcome>)
        ensures
            old(self).spec_resolved() ==> r is None && *final(self) == *old(self),
            !old(self).spec_resolved() ==> {
                &&& final(self).spec_resolved()
                &&& final(self).spec_phrase() == old(self).spec_phrase()
                &&& r == Some(
                    spec_confirmation(old(self).spec_phrase(), spec_response_view(response)),
                )
            },
    {
        if self.resolved {
            return None;
        }
        self.resolved = true;
        Some(evaluate_confirmation(self.phrase.as_str(), response))
    }
}

/// The names of the top-level command groups the library backs.
pub fn all() -> (r: Vec<String>)
    ensures
        r@.len() == 3,
        r@[0]@ == "system"@,
        r@[1]@ == "game"@,
        r@[2]@ == "character"@,
{
    let mut r: Vec<String> = Vec::new();
    r.push("system".to_owned());
    r.push("game".to_owned());
    r.push("character".to_owned());
    r
}

} // verus!
