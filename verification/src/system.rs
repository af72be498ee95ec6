//! Rule systems: the moderator-gated commands that manage them.
//!
//! System writes are reserved to callers holding the platform's moderation
//! capability; a caller without it is denied before anything is read or
//! written, and deletion additionally passes the confirmation challenge.

use vstd::prelude::*;

use crate::commands::{
    evaluate_confirmation, spec_confirmation, spec_response_view, ConfirmationOutcome,
    RequestContext,
};
use crate::error::Error;
use crate::store::{
    spec_create_system_outcome, spec_delete_system_outcome, spec_edit_system_outcome, Store,
};

verus! {

/// The details a caller fills in when creating or editing a rule system.
#[derive(Clone, Debug, Default)]
pub struct SystemModal {
    pub title: String,
    pub abbreviation: String,
    pub description: Option<String>,
    pub image: Option<String>,
}

/// Create a rule system; only a moderator may.
pub fn create(
    store: &mut Store,
    ctx: &RequestContext,
    title: String,
    abbreviation: String,
    description: Option<String>,
    image: Option<String>,
) -> (r: Result<i32, Error>)
    requires
        old(store).wf(),
    ensures
        final(store).wf(),
        !ctx.moderator ==> r == Err::<i32, Error>(Error::PermissionDenied) && *final(store)
            == *old(store),
        ctx.moderator ==> spec_create_system_outcome(
            *old(store),
            *final(store),
            r,
            ctx.guild_id,
            title,
            abbreviation,
            description,
            image,
        ),
{
    if !ctx.moderator {
        return Err(Error::PermissionDenied);
    }
    store.create_system(ctx.guild_id, title, abbreviation, description, image)
}

/// Replace a rule system's editable details; only a moderator may.
pub fn edit(
    store: &mut Store,
    ctx: &RequestContext,
    system_id: i32,
    title: String,
    abbreviation: String,
    description: Option<String>,
    image: Option<String>,
) -> (r: Result<(), Error>)
    requires
        old(store).wf(),
    ensures
        final(store).wf(),
        !ctx.moderator ==> r == Err::<(), Error>(Error::PermissionDenied) && *final(store)
            == *old(store),
        ctx.moderator ==> spec_edit_system_outcome(
            *old(store),
            *final(store),
            r,
            ctx.guild_id,
            system_id,
            title,
            abbreviation,
            description,
            image,
        ),
{
    if !ctx.moderator {
        return Err(Error::PermissionDenied);
    }
    store.edit_system(ctx.guild_id, system_id, title, abbreviation, description, image)
}

/// Delete a rule system behind the confirmation challenge; only a moderator
/// may, the deletion (detaching referencing games) runs only when the typed
/// response matches the system's abbreviation up to case, and any other
/// outcome leaves the store untouched.
pub fn delete(
    store: &mut Store,
    ctx: &RequestContext,
    system_id: i32,
    response: Option<&str>,
) -> (r: Result<ConfirmationOutcome, Error>)
    requires
        old(store).wf(),
    ensures
        final(store).wf(),
        !ctx.moderator ==> r == Err::<ConfirmationOutcome, Error>(Error::PermissionDenied)
            && *final(store) == *old(store),
        ctx.moderator && !old(store).spec_has_system(ctx.guild_id, system_id) ==> r == Err::<
            ConfirmationOutcome,
            Error,
        >(Error::NotFound) && *final(store) == *old(store),
        ctx.moderator && old(store).spec_has_system(ctx.guild_id, system_id) ==> {
            let phrase = old(store).systems@[old(store).spec_system_idx(
                ctx.guild_id,
                system_id,
            )].abbreviation@;
            let outcome = spec_confirmation(phrase, spec_response_view(response));
            &&& r == Ok::<ConfirmationOutcome, Error>(outcome)
            &&& outcome != ConfirmationOutcome::Confirmed ==> *final(store) == *old(store)
            &&& outcome == ConfirmationOutcome::Confirmed ==> spec_delete_system_outcome(
                *old(store),
                *final(store),
                Ok::<(), Error>(()),
                ctx.guild_id,
                system_id,
            )
        },
{
    if !ctx.moderator {
        return Err(Error::PermissionDenied);
    }
    let phrase = match store.get_system(ctx.guild_id, system_id) {
        None => {
            return Err(Error::NotFound);
        },
        Some(s) => s.abbreviation.clone(),
    };
    let outcome = evaluate_confirmation(phrase.as_str(), response);
    if outcome == ConfirmationOutcome::Confirmed {
        match store.delete_system(ctx.guild_id, system_id) {
            Ok(()) => {},
            Err(e) => {
                return Err(e);
            },
        }
    }
    Ok(outcome)
}

} // verus!
