//! Characters: who may act on one, membership checks, and the commands that
//! act on characters.
//!
//! Each command runs the shared flow: contextual resolution where the
//! target is implicit, then authorization, then the store write; the first
//! failure short-circuits before anything is mutated, and deletion
//! additionally passes the confirmation challenge.

use vstd::prelude::*;

use crate::commands::{
    contextual_args, evaluate_confirmation, spec_confirmation, spec_contextual_args,
    spec_response_view, ConfirmationOutcome, RequestContext,
};
use crate::error::{spec_unit_result, Error};
use crate::store::{
    spec_assign_character_outcome, spec_create_character_outcome, spec_delete_character_outcome,
    spec_edit_character_outcome, spec_release_character_outcome, Store,
};
use crate::text::{clone_opt_string, spec_opt_string_view};

verus! {

/// The details a caller fills in when creating or editing a character.
#[derive(Clone, Debug, Default)]
pub struct CharacterModal {
    pub name: String,
    pub pronouns: Option<String>,
    pub description: Option<String>,
    pub image: Option<String>,
}

/// Whether the caller may act on the character: a moderator always may;
/// otherwise its author, the player currently assigned to it, or the owner
/// of its game, and only if the character exists in the caller's guild.
pub open spec fn spec_can_manage_character(
    s: Store,
    ctx: RequestContext,
    character_id: i32,
) -> bool {
    ||| ctx.moderator
    ||| (s.spec_has_character(ctx.guild_id, character_id) && {
        let c = s.characters@[s.spec_character_idx(ctx.guild_id, character_id)];
        ||| c.author_id == ctx.caller_id
        ||| (s.spec_char_assigned(character_id) && s.players@[s.spec_assignment_idx(
            character_id,
        )].user_id == ctx.caller_id)
        ||| (s.spec_has_game(c.guild_id, c.game_id) && s.games@[s.spec_game_idx(
            c.guild_id,
            c.game_id,
        )].owner_id == ctx.caller_id)
    })
}

/// Decide whether the caller may manage this character; a `false` says
/// nothing about why.
pub fn can_manage(store: &Store, ctx: &RequestContext, character_id: i32) -> (r: bool)
    requires
        store.wf(),
    ensures
        r == spec_can_manage_character(*store, *ctx, character_id),
{
    if ctx.moderator {
        return true;
    }
    let cidx = match store.find_character(ctx.guild_id, character_id) {
        None => {
            return false;
        },
        Some(k) => k,
    };
    proof {
        store.lemma_character_idx_agrees(ctx.guild_id, character_id, cidx as int);
    }
    if store.characters[cidx].author_id == ctx.caller_id {
        return true;
    }
    match store.find_assignment(character_id) {
        Some(k) => {
            proof {
                store.lemma_assignment_idx_agrees(character_id, k as int);
            }
            if store.players[k].user_id == ctx.caller_id {
                return true;
            }
        },
        None => {},
    }
    let guild_id = store.characters[cidx].guild_id;
    let game_id = store.characters[cidx].game_id;
    match store.find_game(guild_id, game_id) {
        Some(k) => {
            proof {
                store.lemma_game_idx_agrees(guild_id, game_id, k as int);
            }
            store.games[k].owner_id == ctx.caller_id
        },
        None => false,
    }
}

/// Granting the moderation capability can only turn a denial into an
/// allowance, never the reverse, holding everything else fixed.
pub proof fn lemma_character_authorization_monotonic(
    s: Store,
    ctx: RequestContext,
    character_id: i32,
)
    ensures
        spec_can_manage_character(s, ctx, character_id) ==> spec_can_manage_character(
            s,
            (RequestContext { moderator: true, ..ctx }),
            character_id,
        ),
{
}

/// Whether the caller is in the game: a player row of theirs, or ownership
/// of the game itself (an owner is always "in" without a row).
pub open spec fn spec_is_in_game(s: Store, ctx: RequestContext, game_id: i32) -> bool {
    ||| s.spec_has_player(game_id, ctx.caller_id)
    ||| (s.spec_has_game(ctx.guild_id, game_id) && s.games@[s.spec_game_idx(
        ctx.guild_id,
        game_id,
    )].owner_id == ctx.caller_id)
}

/// Decide whether the caller participates in this game.
pub fn is_in_game(store: &Store, ctx: &RequestContext, game_id: i32) -> (r: bool)
    requires
        store.wf(),
    ensures
        r == spec_is_in_game(*store, *ctx, game_id),
{
    if store.find_player(game_id, ctx.caller_id).is_some() {
        return true;
    }
    match store.find_game(ctx.guild_id, game_id) {
        Some(k) => {
            proof {
                store.lemma_game_idx_agrees(ctx.guild_id, game_id, k as int);
            }
            store.games[k].owner_id == ctx.caller_id
        },
        None => false,
    }
}

/// Create a character against a game the caller is in; when the caller sits
/// in the roster with no character yet, the new one is auto-assigned to
/// them, and the returned flag says so.
pub fn create(
    store: &mut Store,
    ctx: &RequestContext,
    game_id: i32,
    name: String,
    pronouns: Option<String>,
    description: Option<String>,
    image: Option<String>,
) -> (r: Result<(i32, bool), Error>)
    requires
        old(store).wf(),
    ensures
        final(store).wf(),
        !spec_is_in_game(*old(store), *ctx, game_id) ==> r == Err::<(i32, bool), Error>(
            Error::PermissionDenied,
        ) && *final(store) == *old(store),
        spec_is_in_game(*old(store), *ctx, game_id) ==> spec_create_character_outcome(
            *old(store),
            *final(store),
            r,
            ctx.guild_id,
            game_id,
            ctx.caller_id,
            name,
            pronouns,
            description,
            image,
        ),
{
    if !is_in_game(store, ctx, game_id) {
        return Err(Error::PermissionDenied);
    }
    store.create_character(ctx.guild_id, game_id, ctx.caller_id, name, pronouns, description, image)
}

/// Claim a character for the caller: the surrounding game is resolved from
/// the character (or the channel binding), the caller must be in that game,
/// and the character must not be held by anyone else.
pub fn claim(store: &mut Store, ctx: &RequestContext, character_id: i32) -> (r: Result<(), Error>)
    requires
        old(store).wf(),
    ensures
        final(store).wf(),
        ({
            let resolved = spec_contextual_args(
                *old(store),
                *ctx,
                None,
                Some(Some(character_id)),
            );
            &&& resolved is Err ==> r == Err::<(), Error>(resolved->Err_0) && *final(store)
                == *old(store)
            &&& resolved is Ok ==> {
                let g = resolved->Ok_0.game_id;
                &&& !spec_is_in_game(*old(store), *ctx, g) ==> r == Err::<(), Error>(
                    Error::PermissionDenied,
                ) && *final(store) == *old(store)
                &&& spec_is_in_game(*old(store), *ctx, g) ==> spec_assign_character_outcome(
                    *old(store),
                    *final(store),
                    r,
                    ctx.guild_id,
                    character_id,
                    ctx.caller_id,
                )
            }
        }),
{
    let game_id = match contextual_args(store, ctx, None, Some(Some(character_id))) {
        Err(e) => {
            return Err(e);
        },
        Ok(args) => args.game_id,
    };
    if !is_in_game(store, ctx, game_id) {
        return Err(Error::PermissionDenied);
    }
    store.assign_character(ctx.guild_id, character_id, ctx.caller_id)
}

/// Assign a character to a user's player row, gated by management rights on
/// the resolved game.
pub fn assign(
    store: &mut Store,
    ctx: &RequestContext,
    character_id: i32,
    user_id: i64,
) -> (r: Result<(), Error>)
    requires
        old(store).wf(),
    ensures
        final(store).wf(),
        ({
            let resolved = spec_contextual_args(
                *old(store),
                *ctx,
                None,
                Some(Some(character_id)),
            );
            &&& resolved is Err ==> r == Err::<(), Error>(resolved->Err_0) && *final(store)
                == *old(store)
            &&& resolved is Ok ==> {
                let g = resolved->Ok_0.game_id;
                &&& !crate::game::spec_can_manage_game(*old(store), *ctx, g) ==> r == Err::<
                    (),
                    Error,
                >(Error::PermissionDenied) && *final(store) == *old(store)
                &&& crate::game::spec_can_manage_game(*old(store), *ctx, g)
                    ==> spec_assign_character_outcome(
                    *old(store),
                    *final(store),
                    r,
                    ctx.guild_id,
                    character_id,
                    user_id,
                )
            }
        }),
{
    let game_id = match contextual_args(store, ctx, None, Some(Some(character_id))) {
        Err(e) => {
            return Err(e);
        },
        Ok(args) => args.game_id,
    };
    if !crate::game::can_manage(store, ctx, game_id) {
        return Err(Error::PermissionDenied);
    }
    store.assign_character(ctx.guild_id, character_id, user_id)
}

/// Release a character from its player: the character is resolved from the
/// explicit argument or the caller's own assignment, and the caller must be
/// allowed to manage it.
pub fn release(
    store: &mut Store,
    ctx: &RequestContext,
    character_id_arg: Option<i32>,
) -> (r: Result<(), Error>)
    requires
        old(store).wf(),
    ensures
        final(store).wf(),
        ({
            let resolved = spec_contextual_args(
                *old(store),
                *ctx,
                None,
                Some(character_id_arg),
            );
            &&& resolved is Err ==> r == Err::<(), Error>(resolved->Err_0) && *final(store)
                == *old(store)
            &&& resolved is Ok ==> {
                let c = resolved->Ok_0.character_id->0;
                &&& !spec_can_manage_character(*old(store), *ctx, c) ==> r == Err::<(), Error>(
                    Error::PermissionDenied,
                ) && *final(store) == *old(store)
                &&& spec_can_manage_character(*old(store), *ctx, c)
                    ==> spec_release_character_outcome(
                    *old(store),
                    *final(store),
                    r,
                    ctx.guild_id,
                    c,
                )
            }
        }),
{
    let character_id = match contextual_args(store, ctx, None, Some(character_id_arg)) {
        Err(e) => {
            return Err(e);
        },
        Ok(args) => match args.character_id {
            Some(c) => c,
            None => {
                proof {
                    assert(false);
                }
                return Err(Error::Internal);
            },
        },
    };
    if !can_manage(store, ctx, character_id) {
        return Err(Error::PermissionDenied);
    }
    store.release_character(ctx.guild_id, character_id)
}

/// Replace a character's editable details: the target is resolved from the
/// explicit argument or the caller's own assignment, under [`can_manage`].
pub fn edit(
    store: &mut Store,
    ctx: &RequestContext,
    character_id_arg: Option<i32>,
    name: String,
    pronouns: Option<String>,
    description: Option<String>,
    image: Option<String>,
) -> (r: Result<(), Error>)
    requires
        old(store).wf(),
    ensures
        final(store).wf(),
        ({
            let resolved = spec_contextual_args(
                *old(store),
                *ctx,
                None,
                Some(character_id_arg),
            );
            &&& resolved is Err ==> r == Err::<(), Error>(resolved->Err_0) && *final(store)
                == *old(store)
            &&& resolved is Ok ==> {
                let c = resolved->Ok_0.character_id->0;
                &&& !spec_can_manage_character(*old(store), *ctx, c) ==> r == Err::<(), Error>(
                    Error::PermissionDenied,
                ) && *final(store) == *old(store)
                &&& spec_can_manage_character(*old(store), *ctx, c)
                    ==> spec_edit_character_outcome(
                    *old(store),
                    *final(store),
                    r,
                    ctx.guild_id,
                    c,
                    name,
                    pronouns,
                    description,
                    image,
                )
            }
        }),
{
    let character_id = match contextual_args(store, ctx, None, Some(character_id_arg)) {
        Err(e) => {
            return Err(e);
        },
        Ok(args) => match args.character_id {
            Some(c) => c,
            None => {
                proof {
                    assert(false);
                }
                return Err(Error::Internal);
            },
        },
    };
    if !can_manage(store, ctx, character_id) {
        return Err(Error::PermissionDenied);
    }
    store.edit_character(ctx.guild_id, character_id, name, pronouns, description, image)
}

/// Everything a character's summary shows: the row's own fields, the title
/// of its game, and whoever currently plays it. The glue layer renders
/// this; nothing here is markup.
pub struct CharacterView {
    pub name: String,
    pub pronouns: Option<String>,
    pub description: Option<String>,
    pub image: Option<String>,
    pub author_id: i64,
    pub game_title: String,
    pub player: Option<i64>,
}

/// Assemble a character's summary, resolving the target from the explicit
/// argument or the caller's own assignment; usable by everyone.
pub fn view(store: &Store, ctx: &RequestContext, character_id_arg: Option<i32>) -> (r: Result<
    CharacterView,
    Error,
>)
    requires
        store.wf(),
    ensures
        ({
            let resolved = spec_contextual_args(*store, *ctx, None, Some(character_id_arg));
            &&& resolved is Err ==> r is Err && r->Err_0 == resolved->Err_0
            &&& resolved is Ok ==> {
                let c = resolved->Ok_0.character_id->0;
                &&& !store.spec_has_character(ctx.guild_id, c) ==> r is Err && r->Err_0
                    == Error::NotFound
                &&& store.spec_has_character(ctx.guild_id, c) ==> {
                    let row = store.characters@[store.spec_character_idx(ctx.guild_id, c)];
                    &&& r is Ok
                    &&& r->Ok_0.name@ == row.name@
                    &&& spec_opt_string_view(r->Ok_0.pronouns) == spec_opt_string_view(
                        row.pronouns,
                    )
                    &&& spec_opt_string_view(r->Ok_0.description) == spec_opt_string_view(
                        row.description,
                    )
                    &&& spec_opt_string_view(r->Ok_0.image) == spec_opt_string_view(row.image)
                    &&& r->Ok_0.author_id == row.author_id
                    &&& r->Ok_0.game_title@ == store.games@[store.spec_game_idx(
                        row.guild_id,
                        row.game_id,
                    )].title@
                    &&& !store.spec_char_assigned(c) ==> r->Ok_0.player is None
                    &&& store.spec_char_assigned(c) ==> r->Ok_0.player == Some(
                        store.players@[store.spec_assignment_idx(c)].user_id,
                    )
                }
            }
        }),
{
    let character_id = match contextual_args(store, ctx, None, Some(character_id_arg)) {
        Err(e) => {
            return Err(e);
        },
        Ok(args) => match args.character_id {
            Some(c) => c,
            None => {
                proof {
                    assert(false);
                }
                return Err(Error::Internal);
            },
        },
    };
    let cidx = match store.find_character(ctx.guild_id, character_id) {
        None => {
            return Err(Error::NotFound);
        },
        Some(k) => k,
    };
    proof {
        store.lemma_character_idx_agrees(ctx.guild_id, character_id, cidx as int);
    }
    let guild_id = store.characters[cidx].guild_id;
    let game_id = store.characters[cidx].game_id;
    let game_title = match store.find_game(guild_id, game_id) {
        Some(k) => {
            proof {
                store.lemma_game_idx_agrees(guild_id, game_id, k as int);
            }
            store.games[k].title.clone()
        },
        None => {
            proof {
                assert(false);
            }
            return Err(Error::Internal);
        },
    };
    let player: Option<i64> = match store.find_assignment(character_id) {
        Some(k) => {
            proof {
                store.lemma_assignment_idx_agrees(character_id, k as int);
            }
            Some(store.players[k].user_id)
        },
        None => None,
    };
    Ok(
        CharacterView {
            name: store.characters[cidx].name.clone(),
            pronouns: clone_opt_string(&store.characters[cidx].pronouns),
            description: clone_opt_string(&store.characters[cidx].description),
            image: clone_opt_string(&store.characters[cidx].image),
            author_id: store.characters[cidx].author_id,
            game_title,
            player,
        },
    )
}

/// Delete a character behind the confirmation challenge: the caller must be
/// allowed to manage it, and the deletion (releasing any holder first) runs
/// only when the typed response matches the character's name up to case.
/// Any other outcome leaves the store untouched and is reported as the
/// challenge's result.
pub fn delete(
    store: &mut Store,
    ctx: &RequestContext,
    character_id: i32,
    response: Option<&str>,
) -> (r: Result<ConfirmationOutcome, Error>)
    requires
        old(store).wf(),
    ensures
        final(store).wf(),
        !spec_can_manage_character(*old(store), *ctx, character_id) ==> r == Err::<
            ConfirmationOutcome,
            Error,
        >(Error::PermissionDenied) && *final(store) == *old(store),
        spec_can_manage_character(*old(store), *ctx, character_id) && !old(
            store,
        ).spec_has_character(ctx.guild_id, character_id) ==> r == Err::<
            ConfirmationOutcome,
            Error,
        >(Error::NotFound) && *final(store) == *old(store),
        spec_can_manage_character(*old(store), *ctx, character_id) && old(
            store,
        ).spec_has_character(ctx.guild_id, character_id) ==> {
            let phrase = old(store).characters@[old(store).spec_character_idx(
                ctx.guild_id,
                character_id,
            )].name@;
            let outcome = spec_confirmation(phrase, spec_response_view(response));
            &&& r == Ok::<ConfirmationOutcome, Error>(outcome)
            &&& outcome != ConfirmationOutcome::Confirmed ==> *final(store) == *old(store)
            &&& outcome == ConfirmationOutcome::Confirmed ==> spec_delete_character_outcome(
                *old(store),
                *final(store),
                Ok::<(), Error>(()),
                ctx.guild_id,
                character_id,
            )
        },
{
    if !can_manage(store, ctx, character_id) {
        return Err(Error::PermissionDenied);
    }
    let phrase = match store.get_character(ctx.guild_id, character_id) {
        None => {
            return Err(Error::NotFound);
        },
        Some(c) => c.name.clone(),
    };
    let outcome = evaluate_confirmation(phrase.as_str(), response);
    if outcome == ConfirmationOutcome::Confirmed {
        match store.delete_character(ctx.guild_id, character_id) {
            Ok(()) => {},
            Err(e) => {
                return Err(e);
            },
        }
    }
    Ok(outcome)
}

} // verus!
