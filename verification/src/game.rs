//! Games: who may manage one, and the commands that act on games.
//!
//! Each command here runs the flow every privileged surface shares:
//! contextual resolution where the target is implicit, then authorization,
//! then the store write; the first failure short-circuits before anything
//! is mutated, and destructive commands additionally pass the confirmation
//! challenge. Authorization is re-evaluated on every call against the
//! current store snapshot; nothing is cached, so an ownership transfer is
//! honoured immediately. A denial carries no detail about why.

use vstd::prelude::*;

use crate::commands::{
    evaluate_confirmation, spec_confirmation, spec_resolve_game, spec_response_view,
    ConfirmationOutcome, RequestContext,
};
use crate::entities::Player;
use crate::error::{spec_unit_result, Error};
use crate::store::{
    spec_add_player_outcome, spec_delete_game_outcome, spec_edit_game_outcome,
    spec_remove_player_outcome, spec_set_channel_outcome, spec_set_system_outcome,
    spec_transfer_game_outcome, spec_unset_channel_outcome, spec_unset_system_outcome, Store,
};
use crate::text::{clone_opt_string, spec_opt_string_view};

verus! {

/// The details a caller fills in when creating or editing a game.
#[derive(Clone, Debug, Default)]
pub struct GameModal {
    pub title: String,
    pub abbreviation: String,
    pub description: Option<String>,
    pub image: Option<String>,
}

/// Whether the caller may act on the game: a moderator always may; otherwise
/// only the game's owner, and only if the game exists in the caller's guild.
pub open spec fn spec_can_manage_game(s: Store, ctx: RequestContext, game_id: i32) -> bool {
    ||| ctx.moderator
    ||| (s.spec_has_game(ctx.guild_id, game_id) && s.games@[s.spec_game_idx(
        ctx.guild_id,
        game_id,
    )].owner_id == ctx.caller_id)
}

/// Decide whether the caller may manage this game; a `false` says nothing
/// about why.
pub fn can_manage(store: &Store, ctx: &RequestContext, game_id: i32) -> (r: bool)
    requires
        store.wf(),
    ensures
        r == spec_can_manage_game(*store, *ctx, game_id),
{
    if ctx.moderator {
        return true;
    }
    match store.find_game(ctx.guild_id, game_id) {
        Some(k) => {
            proof {
                store.lemma_game_idx_agrees(ctx.guild_id, game_id, k as int);
            }
            store.games[k].owner_id == ctx.caller_id
        },
        None => false,
    }
}

/// Granting the moderation capability can only turn a denial into an
/// allowance, never the reverse, holding everything else fixed.
pub proof fn lemma_game_authorization_monotonic(s: Store, ctx: RequestContext, game_id: i32)
    ensures
        spec_can_manage_game(s, ctx, game_id) ==> spec_can_manage_game(
            s,
            (RequestContext { moderator: true, ..ctx }),
            game_id,
        ),
{
}

/// Enroll a user in a game's roster: the game is resolved from the explicit
/// argument or the invocation channel, the caller must be allowed to manage
/// it, and the user must not already be in it. Returns the resolved game id.
pub fn add(
    store: &mut Store,
    ctx: &RequestContext,
    user_id: i64,
    game_id_arg: Option<Option<i32>>,
) -> (r: Result<i32, Error>)
    requires
        old(store).wf(),
    ensures
        final(store).wf(),
        spec_resolve_game(*old(store), *ctx, game_id_arg, None) is Err ==> r == Err::<i32, Error>(
            spec_resolve_game(*old(store), *ctx, game_id_arg, None)->Err_0,
        ) && *final(store) == *old(store),
        spec_resolve_game(*old(store), *ctx, game_id_arg, None) is Ok ==> {
            let g = spec_resolve_game(*old(store), *ctx, game_id_arg, None)->Ok_0;
            &&& !spec_can_manage_game(*old(store), *ctx, g) ==> r == Err::<i32, Error>(
                Error::PermissionDenied,
            ) && *final(store) == *old(store)
            &&& spec_can_manage_game(*old(store), *ctx, g) ==> spec_add_player_outcome(
                *old(store),
                *final(store),
                spec_unit_result(r),
                ctx.guild_id,
                g,
                user_id,
            ) && (r is Ok ==> r->Ok_0 == g)
        },
{
    let game_id = match crate::commands::contextual_args(store, ctx, game_id_arg, None) {
        Err(e) => {
            return Err(e);
        },
        Ok(args) => args.game_id,
    };
    if !can_manage(store, ctx, game_id) {
        return Err(Error::PermissionDenied);
    }
    match store.add_player(ctx.guild_id, game_id, user_id) {
        Err(e) => Err(e),
        Ok(()) => Ok(game_id),
    }
}

/// Remove a user from a game's roster, under the same resolution and
/// authorization as [`add`]. Returns the resolved game id.
pub fn remove(
    store: &mut Store,
    ctx: &RequestContext,
    user_id: i64,
    game_id_arg: Option<Option<i32>>,
) -> (r: Result<i32, Error>)
    requires
        old(store).wf(),
    ensures
        final(store).wf(),
        spec_resolve_game(*old(store), *ctx, game_id_arg, None) is Err ==> r == Err::<i32, Error>(
            spec_resolve_game(*old(store), *ctx, game_id_arg, None)->Err_0,
        ) && *final(store) == *old(store),
        spec_resolve_game(*old(store), *ctx, game_id_arg, None) is Ok ==> {
            let g = spec_resolve_game(*old(store), *ctx, game_id_arg, None)->Ok_0;
            &&& !spec_can_manage_game(*old(store), *ctx, g) ==> r == Err::<i32, Error>(
                Error::PermissionDenied,
            ) && *final(store) == *old(store)
            &&& spec_can_manage_game(*old(store), *ctx, g) ==> spec_remove_player_outcome(
                *old(store),
                *final(store),
                spec_unit_result(r),
                ctx.guild_id,
                g,
                user_id,
            ) && (r is Ok ==> r->Ok_0 == g)
        },
{
    let game_id = match crate::commands::contextual_args(store, ctx, game_id_arg, None) {
        Err(e) => {
            return Err(e);
        },
        Ok(args) => args.game_id,
    };
    if !can_manage(store, ctx, game_id) {
        return Err(Error::PermissionDenied);
    }
    match store.remove_player(ctx.guild_id, game_id, user_id) {
        Err(e) => Err(e),
        Ok(()) => Ok(game_id),
    }
}

/// Transfer a game to a new owner. Like every irreversible action, the
/// write runs behind the confirmation challenge: under [`can_manage`], and
/// only when the typed response matches the game's abbreviation up to case.
/// On a confirmed transfer ownership moves, the departing owner is enrolled
/// as a player unless they chose to leave, and the new owner's player row
/// is dropped; any other outcome leaves the store untouched.
pub fn transfer(
    store: &mut Store,
    ctx: &RequestContext,
    game_id: i32,
    new_owner: i64,
    also_leave: bool,
    response: Option<&str>,
) -> (r: Result<ConfirmationOutcome, Error>)
    requires
        old(store).wf(),
    ensures
        final(store).wf(),
        !spec_can_manage_game(*old(store), *ctx, game_id) ==> r == Err::<
            ConfirmationOutcome,
            Error,
        >(Error::PermissionDenied) && *final(store) == *old(store),
        spec_can_manage_game(*old(store), *ctx, game_id) && !old(store).spec_has_game(
            ctx.guild_id,
            game_id,
        ) ==> r == Err::<ConfirmationOutcome, Error>(Error::NotFound) && *final(store) == *old(
            store,
        ),
        spec_can_manage_game(*old(store), *ctx, game_id) && old(store).spec_has_game(
            ctx.guild_id,
            game_id,
        ) ==> {
            let phrase = old(store).games@[old(store).spec_game_idx(
                ctx.guild_id,
                game_id,
            )].abbreviation@;
            let outcome = spec_confirmation(phrase, spec_response_view(response));
            &&& outcome != ConfirmationOutcome::Confirmed ==> r == Ok::<
                ConfirmationOutcome,
                Error,
            >(outcome) && *final(store) == *old(store)
            &&& outcome == ConfirmationOutcome::Confirmed ==> spec_transfer_game_outcome(
                *old(store),
                *final(store),
                spec_unit_result(r),
                ctx.guild_id,
                game_id,
                new_owner,
                also_leave,
            ) && (r is Ok ==> r->Ok_0 == ConfirmationOutcome::Confirmed)
        },
{
    if !can_manage(store, ctx, game_id) {
        return Err(Error::PermissionDenied);
    }
    let phrase = match store.get_game(ctx.guild_id, game_id) {
        None => {
            return Err(Error::NotFound);
        },
        Some(g) => g.abbreviation.clone(),
    };
    let outcome = evaluate_confirmation(phrase.as_str(), response);
    if outcome == ConfirmationOutcome::Confirmed {
        match store.transfer_game(ctx.guild_id, game_id, new_owner, also_leave) {
            Ok(()) => {},
            Err(e) => {
                return Err(e);
            },
        }
    }
    Ok(outcome)
}

/// Replace a game's editable details, under [`can_manage`].
pub fn edit(
    store: &mut Store,
    ctx: &RequestContext,
    game_id: i32,
    title: String,
    abbreviation: String,
    description: Option<String>,
    image: Option<String>,
) -> (r: Result<(), Error>)
    requires
        old(store).wf(),
    ensures
        final(store).wf(),
        !spec_can_manage_game(*old(store), *ctx, game_id) ==> r == Err::<(), Error>(
            Error::PermissionDenied,
        ) && *final(store) == *old(store),
        spec_can_manage_game(*old(store), *ctx, game_id) ==> spec_edit_game_outcome(
            *old(store),
            *final(store),
            r,
            ctx.guild_id,
            game_id,
            title,
            abbreviation,
            description,
            image,
        ),
{
    if !can_manage(store, ctx, game_id) {
        return Err(Error::PermissionDenied);
    }
    store.edit_game(ctx.guild_id, game_id, title, abbreviation, description, image)
}

/// Bind a game's home channel, under [`can_manage`]; the game is given
/// explicitly, as a caller doing this is rarely in the channel yet.
pub fn set_channel(
    store: &mut Store,
    ctx: &RequestContext,
    game_id: i32,
    channel_id: i64,
) -> (r: Result<(), Error>)
    requires
        old(store).wf(),
    ensures
        final(store).wf(),
        !spec_can_manage_game(*old(store), *ctx, game_id) ==> r == Err::<(), Error>(
            Error::PermissionDenied,
        ) && *final(store) == *old(store),
        spec_can_manage_game(*old(store), *ctx, game_id) ==> spec_set_channel_outcome(
            *old(store),
            *final(store),
            r,
            ctx.guild_id,
            game_id,
            channel_id,
        ),
{
    if !can_manage(store, ctx, game_id) {
        return Err(Error::PermissionDenied);
    }
    store.set_channel(ctx.guild_id, game_id, channel_id)
}

/// Unbind a game's home channel, resolving the game from the explicit
/// argument or the invocation channel, under [`can_manage`].
pub fn unset_channel(
    store: &mut Store,
    ctx: &RequestContext,
    game_id_arg: Option<Option<i32>>,
) -> (r: Result<(), Error>)
    requires
        old(store).wf(),
    ensures
        final(store).wf(),
        spec_resolve_game(*old(store), *ctx, game_id_arg, None) is Err ==> r == Err::<(), Error>(
            spec_resolve_game(*old(store), *ctx, game_id_arg, None)->Err_0,
        ) && *final(store) == *old(store),
        spec_resolve_game(*old(store), *ctx, game_id_arg, None) is Ok ==> {
            let g = spec_resolve_game(*old(store), *ctx, game_id_arg, None)->Ok_0;
            &&& !spec_can_manage_game(*old(store), *ctx, g) ==> r == Err::<(), Error>(
                Error::PermissionDenied,
            ) && *final(store) == *old(store)
            &&& spec_can_manage_game(*old(store), *ctx, g) ==> spec_unset_channel_outcome(
                *old(store),
                *final(store),
                r,
                ctx.guild_id,
                g,
            )
        },
{
    let game_id = match crate::commands::contextual_args(store, ctx, game_id_arg, None) {
        Err(e) => {
            return Err(e);
        },
        Ok(args) => args.game_id,
    };
    if !can_manage(store, ctx, game_id) {
        return Err(Error::PermissionDenied);
    }
    store.unset_channel(ctx.guild_id, game_id)
}

/// Point a game at a rule system, resolving the game from the explicit
/// argument or the invocation channel, under [`can_manage`].
pub fn set_system(
    store: &mut Store,
    ctx: &RequestContext,
    system_id: i32,
    game_id_arg: Option<Option<i32>>,
) -> (r: Result<(), Error>)
    requires
        old(store).wf(),
    ensures
        final(store).wf(),
        spec_resolve_game(*old(store), *ctx, game_id_arg, None) is Err ==> r == Err::<(), Error>(
            spec_resolve_game(*old(store), *ctx, game_id_arg, None)->Err_0,
        ) && *final(store) == *old(store),
        spec_resolve_game(*old(store), *ctx, game_id_arg, None) is Ok ==> {
            let g = spec_resolve_game(*old(store), *ctx, game_id_arg, None)->Ok_0;
            &&& !spec_can_manage_game(*old(store), *ctx, g) ==> r == Err::<(), Error>(
                Error::PermissionDenied,
            ) && *final(store) == *old(store)
            &&& spec_can_manage_game(*old(store), *ctx, g) ==> spec_set_system_outcome(
                *old(store),
                *final(store),
                r,
                ctx.guild_id,
                g,
                system_id,
            )
        },
{
    let game_id = match crate::commands::contextual_args(store, ctx, game_id_arg, None) {
        Err(e) => {
            return Err(e);
        },
        Ok(args) => args.game_id,
    };
    if !can_manage(store, ctx, game_id) {
        return Err(Error::PermissionDenied);
    }
    store.set_system(ctx.guild_id, game_id, system_id)
}

/// Clear a game's rule-system reference, resolving the game from the
/// explicit argument or the invocation channel, under [`can_manage`].
pub fn unset_system(
    store: &mut Store,
    ctx: &RequestContext,
    game_id_arg: Option<Option<i32>>,
) -> (r: Result<(), Error>)
    requires
        old(store).wf(),
    ensures
        final(store).wf(),
        spec_resolve_game(*old(store), *ctx, game_id_arg, None) is Err ==> r == Err::<(), Error>(
            spec_resolve_game(*old(store), *ctx, game_id_arg, None)->Err_0,
        ) && *final(store) == *old(store),
        spec_resolve_game(*old(store), *ctx, game_id_arg, None) is Ok ==> {
            let g = spec_resolve_game(*old(store), *ctx, game_id_arg, None)->Ok_0;
            &&& !spec_can_manage_game(*old(store), *ctx, g) ==> r == Err::<(), Error>(
                Error::PermissionDenied,
            ) && *final(store) == *old(store)
            &&& spec_can_manage_game(*old(store), *ctx, g) ==> spec_unset_system_outcome(
                *old(store),
                *final(store),
                r,
                ctx.guild_id,
                g,
            )
        },
{
    let game_id = match crate::commands::contextual_args(store, ctx, game_id_arg, None) {
        Err(e) => {
            return Err(e);
        },
        Ok(args) => args.game_id,
    };
    if !can_manage(store, ctx, game_id) {
        return Err(Error::PermissionDenied);
    }
    store.unset_system(ctx.guild_id, game_id)
}

/// Everything a game's summary shows: the row's own fields, the
/// abbreviation of its system if it has one, and its roster's user ids in
/// order. The glue layer renders this; nothing here is markup.
pub struct GameView {
    pub title: String,
    pub abbreviation: String,
    pub description: Option<String>,
    pub image: Option<String>,
    pub owner_id: i64,
    pub role_id: i64,
    pub main_channel_id: Option<i64>,
    pub created_at: i64,
    pub system_abbreviation: Option<String>,
    pub players: Vec<i64>,
}

/// Assemble a game's summary, resolving the target from the explicit
/// argument or the invocation channel; usable by everyone.
pub fn view(store: &Store, ctx: &RequestContext, game_id_arg: Option<Option<i32>>) -> (r: Result<
    GameView,
    Error,
>)
    requires
        store.wf(),
    ensures
        spec_resolve_game(*store, *ctx, game_id_arg, None) is Err ==> r is Err && r->Err_0
            == spec_resolve_game(*store, *ctx, game_id_arg, None)->Err_0,
        spec_resolve_game(*store, *ctx, game_id_arg, None) is Ok ==> {
            let g = spec_resolve_game(*store, *ctx, game_id_arg, None)->Ok_0;
            &&& !store.spec_has_game(ctx.guild_id, g) ==> r is Err && r->Err_0 == Error::NotFound
            &&& store.spec_has_game(ctx.guild_id, g) ==> {
                let row = store.games@[store.spec_game_idx(ctx.guild_id, g)];
                let ps = store.players@.filter(|p: Player| p.game_id == g);
                &&& r is Ok
                &&& r->Ok_0.title@ == row.title@
                &&& r->Ok_0.abbreviation@ == row.abbreviation@
                &&& spec_opt_string_view(r->Ok_0.description) == spec_opt_string_view(
                    row.description,
                )
                &&& spec_opt_string_view(r->Ok_0.image) == spec_opt_string_view(row.image)
                &&& r->Ok_0.owner_id == row.owner_id
                &&& r->Ok_0.role_id == row.role_id
                &&& r->Ok_0.main_channel_id == row.main_channel_id
                &&& r->Ok_0.created_at == row.created_at
                &&& row.system_id is None ==> r->Ok_0.system_abbreviation is None
                &&& row.system_id is Some ==> r->Ok_0.system_abbreviation is Some
                    && r->Ok_0.system_abbreviation->0@ == store.systems@[store.spec_system_idx(
                    row.guild_id,
                    row.system_id->0,
                )].abbreviation@
                &&& r->Ok_0.players@.len() == ps.len()
                &&& forall|m: int|
                    0 <= m < ps.len() ==> #[trigger] r->Ok_0.players@[m] == ps[m].user_id
            }
        },
{
    let game_id = match crate::commands::contextual_args(store, ctx, game_id_arg, None) {
        Err(e) => {
            return Err(e);
        },
        Ok(args) => args.game_id,
    };
    let gidx = match store.find_game(ctx.guild_id, game_id) {
        None => {
            return Err(Error::NotFound);
        },
        Some(k) => k,
    };
    proof {
        store.lemma_game_idx_agrees(ctx.guild_id, game_id, gidx as int);
    }
    let system_abbreviation: Option<String> = match store.games[gidx].system_id {
        None => None,
        Some(s) => {
            let guild_id = store.games[gidx].guild_id;
            match store.find_system(guild_id, s) {
                Some(k) => {
                    proof {
                        store.lemma_system_idx_agrees(guild_id, s, k as int);
                    }
                    Some(store.systems[k].abbreviation.clone())
                },
                None => {
                    proof {
                        assert(false);
                    }
                    None
                },
            }
        },
    };
    let mut players: Vec<i64> = Vec::new();
    let n = store.players.len();
    let mut i: usize = 0;
    while i < n
        invariant
            n == store.players@.len(),
            i <= n,
            ({
                let ps = store.players@.take(i as int).filter(|p: Player| p.game_id == game_id);
                &&& players@.len() == ps.len()
                &&& forall|m: int| 0 <= m < ps.len() ==> #[trigger] players@[m] == ps[m].user_id
            }),
        decreases n - i,
    {
        proof {
            crate::store::lemma_filter_take_step(
                store.players@,
                |p: Player| p.game_id == game_id,
                i as int,
            );
        }
        if store.players[i].game_id == game_id {
            let user_id = store.players[i].user_id;
            players.push(user_id);
        }
        i += 1;
    }
    proof {
        assert(store.players@.take(n as int) =~= store.players@);
    }
    Ok(
        GameView {
            title: store.games[gidx].title.clone(),
            abbreviation: store.games[gidx].abbreviation.clone(),
            description: clone_opt_string(&store.games[gidx].description),
            image: clone_opt_string(&store.games[gidx].image),
            owner_id: store.games[gidx].owner_id,
            role_id: store.games[gidx].role_id,
            main_channel_id: store.games[gidx].main_channel_id,
            created_at: store.games[gidx].created_at,
            system_abbreviation,
            players,
        },
    )
}

/// Delete a game behind the confirmation challenge: the target is resolved,
/// the caller must be allowed to manage it, and the deletion (with its
/// cascade) runs only when the typed response matches the game's
/// abbreviation up to case. Any other outcome leaves the store untouched
/// and is reported as the challenge's result.
pub fn delete(
    store: &mut Store,
    ctx: &RequestContext,
    game_id_arg: Option<Option<i32>>,
    response: Option<&str>,
) -> (r: Result<ConfirmationOutcome, Error>)
    requires
        old(store).wf(),
    ensures
        final(store).wf(),
        spec_resolve_game(*old(store), *ctx, game_id_arg, None) is Err ==> r == Err::<
            ConfirmationOutcome,
            Error,
        >(spec_resolve_game(*old(store), *ctx, game_id_arg, None)->Err_0) && *final(store)
            == *old(store),
        spec_resolve_game(*old(store), *ctx, game_id_arg, None) is Ok ==> {
            let g = spec_resolve_game(*old(store), *ctx, game_id_arg, None)->Ok_0;
            &&& !spec_can_manage_game(*old(store), *ctx, g) ==> r == Err::<
                ConfirmationOutcome,
                Error,
            >(Error::PermissionDenied) && *final(store) == *old(store)
            &&& spec_can_manage_game(*old(store), *ctx, g) && !old(store).spec_has_game(
                ctx.guild_id,
                g,
            ) ==> r == Err::<ConfirmationOutcome, Error>(Error::NotFound) && *final(store)
                == *old(store)
            &&& spec_can_manage_game(*old(store), *ctx, g) && old(store).spec_has_game(
                ctx.guild_id,
                g,
            ) ==> {
                let phrase = old(store).games@[old(store).spec_game_idx(
                    ctx.guild_id,
                    g,
                )].abbreviation@;
                let outcome = spec_confirmation(phrase, spec_response_view(response));
                &&& r == Ok::<ConfirmationOutcome, Error>(outcome)
                &&& outcome != ConfirmationOutcome::Confirmed ==> *final(store) == *old(store)
                &&& outcome == ConfirmationOutcome::Confirmed ==> spec_delete_game_outcome(
                    *old(store),
                    *final(store),
                    Ok::<(), Error>(()),
                    ctx.guild_id,
                    g,
                )
            }
        },
{
    let game_id = match crate::commands::contextual_args(store, ctx, game_id_arg, None) {
        Err(e) => {
            return Err(e);
        },
        Ok(args) => args.game_id,
    };
    if !can_manage(store, ctx, game_id) {
        return Err(Error::PermissionDenied);
    }
    let phrase = match store.get_game(ctx.guild_id, game_id) {
        None => {
            return Err(Error::NotFound);
        },
        Some(g) => g.abbreviation.clone(),
    };
    let outcome = evaluate_confirmation(phrase.as_str(), response);
    if outcome == ConfirmationOutcome::Confirmed {
        match store.delete_game(ctx.guild_id, game_id) {
            Ok(()) => {},
            Err(e) => {
                return Err(e);
            },
        }
    }
    Ok(outcome)
}

} // verus!
