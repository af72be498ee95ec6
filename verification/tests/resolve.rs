//! The contextual resolver, authorization and confirmation workflow.

use eurydice::character;
use eurydice::commands::{
    all, contextual_args, evaluate_confirmation, ConfirmationGate, ConfirmationOutcome,
    ContextualArgs, RequestContext,
};
use eurydice::error::{ConflictField, ContextFailure, Error, MissingArg};
use eurydice::game;
use eurydice::store::Store;

fn ctx(guild: i64, channel: i64, caller: i64, moderator: bool) -> RequestContext {
    RequestContext { guild_id: guild, channel_id: channel, caller_id: caller, moderator }
}

/// A guild whose channel 100 is bound to the game; returns (store, game id).
fn bound_store(guild: i64, owner: i64, channel: i64) -> (Store, i32) {
    let mut store = Store::new();
    let game = store
        .create_game(
            guild,
            "Blades in the Dark".to_owned(),
            "BitD".to_owned(),
            None,
            None,
            owner,
            900,
            None,
            Some(channel),
            0,
        )
        .unwrap();
    (store, game)
}

#[test]
fn resolver_uses_channel_binding() {
    // The channel is bound to a game whose id is 7: six earlier games take
    // ids 1 through 6.
    let mut store = Store::new();
    for k in 0..6 {
        store
            .create_game(
                1,
                format!("Game {}", k),
                format!("G{}", k),
                None,
                None,
                10,
                0,
                None,
                None,
                0,
            )
            .unwrap();
    }
    let game = store
        .create_game(
            1,
            "Blades in the Dark".to_owned(),
            "BitD".to_owned(),
            None,
            None,
            10,
            0,
            None,
            Some(100),
            0,
        )
        .unwrap();
    assert_eq!(game, 7);
    let r = contextual_args(&store, &ctx(1, 100, 20, false), Some(None), None);
    assert_eq!(r, Ok(ContextualArgs { game_id: 7, character_id: None }));
}

#[test]
fn resolver_ambiguous_names_game() {
    let store = Store::new();
    let r = contextual_args(&store, &ctx(1, 100, 20, false), Some(None), None);
    let err = r.unwrap_err();
    assert_eq!(
        err,
        Error::AmbiguousContext(ContextFailure::NoGameContext { missing: MissingArg::Game })
    );
    assert!(err.user_message().contains("`game`"));
}

#[test]
fn resolver_ambiguous_names_character() {
    let store = Store::new();
    let r = contextual_args(&store, &ctx(1, 100, 20, false), Some(None), Some(None));
    let err = r.unwrap_err();
    assert_eq!(
        err,
        Error::AmbiguousContext(ContextFailure::NoGameContext { missing: MissingArg::Character })
    );
    assert!(err.user_message().contains("`character`"));
}

#[test]
fn resolver_explicit_game_wins_over_channel() {
    let (mut store, _) = bound_store(1, 10, 100);
    let other = store
        .create_game(
            1,
            "Duskvol".to_owned(),
            "DSK".to_owned(),
            None,
            None,
            10,
            0,
            None,
            None,
            0,
        )
        .unwrap();
    let r = contextual_args(&store, &ctx(1, 100, 20, false), Some(Some(other)), None);
    assert_eq!(r.unwrap().game_id, other);
}

#[test]
fn resolver_falls_back_to_character_game() {
    let (mut store, game) = bound_store(1, 10, 100);
    let (ch, _) = store
        .create_character(1, game, 9, "Vex".to_owned(), None, None, None)
        .unwrap();
    // invoked from an unbound channel, with an explicit character
    let r = contextual_args(&store, &ctx(1, 555, 20, false), Some(None), Some(Some(ch)));
    assert_eq!(r, Ok(ContextualArgs { game_id: game, character_id: Some(ch) }));
    // an unknown character is reported as missing
    let r2 = contextual_args(&store, &ctx(1, 555, 20, false), Some(None), Some(Some(999)));
    assert_eq!(r2, Err(Error::NotFound));
}

#[test]
fn resolver_infers_own_assignment() {
    let (mut store, game) = bound_store(1, 10, 100);
    store.add_player(1, game, 20).unwrap();
    // no character assigned yet
    let r = contextual_args(&store, &ctx(1, 100, 20, false), Some(None), Some(None));
    assert_eq!(r, Err(Error::AmbiguousContext(ContextFailure::NoCharacterAssigned)));
    let (ch, _) = store
        .create_character(1, game, 20, "Vex".to_owned(), None, None, None)
        .unwrap();
    let r2 = contextual_args(&store, &ctx(1, 100, 20, false), Some(None), Some(None));
    assert_eq!(r2, Ok(ContextualArgs { game_id: game, character_id: Some(ch) }));
    // a stranger has no player row
    let r3 = contextual_args(&store, &ctx(1, 100, 21, false), Some(None), Some(None));
    assert_eq!(r3, Err(Error::AmbiguousContext(ContextFailure::NotAPlayer)));
}

#[test]
fn resolver_is_deterministic() {
    let (store, _) = bound_store(1, 10, 100);
    let a = contextual_args(&store, &ctx(1, 100, 20, false), Some(None), None);
    let b = contextual_args(&store, &ctx(1, 100, 20, false), Some(None), None);
    assert_eq!(a, b);
}

#[test]
fn moderation_only_widens_access() {
    let (store, game_id) = bound_store(1, 10, 100);
    // owner allowed, stranger denied, moderator allowed
    assert!(game::can_manage(&store, &ctx(1, 0, 10, false), game_id));
    assert!(!game::can_manage(&store, &ctx(1, 0, 20, false), game_id));
    assert!(game::can_manage(&store, &ctx(1, 0, 20, true), game_id));
    // whoever was allowed without the capability stays allowed with it
    for caller in [10, 20, 30] {
        let plain = game::can_manage(&store, &ctx(1, 0, caller, false), game_id);
        let widened = game::can_manage(&store, &ctx(1, 0, caller, true), game_id);
        assert!(!plain || widened);
    }
}

#[test]
fn character_authorization_rules() {
    let (mut store, game_id) = bound_store(1, 10, 100);
    store.add_player(1, game_id, 20).unwrap();
    let (ch, _) = store
        .create_character(1, game_id, 30, "Vex".to_owned(), None, None, None)
        .unwrap();
    // author, game owner and moderator may manage; a stranger may not
    assert!(character::can_manage(&store, &ctx(1, 0, 30, false), ch));
    assert!(character::can_manage(&store, &ctx(1, 0, 10, false), ch));
    assert!(character::can_manage(&store, &ctx(1, 0, 99, true), ch));
    assert!(!character::can_manage(&store, &ctx(1, 0, 20, false), ch));
    // once assigned, the holding player may manage too
    store.assign_character(1, ch, 20).unwrap();
    assert!(character::can_manage(&store, &ctx(1, 0, 20, false), ch));
}

#[test]
fn is_in_game_covers_owner_without_row() {
    let (mut store, game_id) = bound_store(1, 10, 100);
    store.add_player(1, game_id, 20).unwrap();
    assert!(character::is_in_game(&store, &ctx(1, 0, 10, false), game_id));
    assert!(character::is_in_game(&store, &ctx(1, 0, 20, false), game_id));
    assert!(!character::is_in_game(&store, &ctx(1, 0, 30, false), game_id));
}

#[test]
fn transfer_moves_ownership() {
    let (mut store, game_id) = bound_store(1, 10, 100);
    store.add_player(1, game_id, 20).unwrap();
    // a stranger may not transfer
    assert_eq!(
        game::transfer(&mut store, &ctx(1, 0, 99, false), game_id, 20, false, Some("bitd")),
        Err(Error::PermissionDenied)
    );
    // a wrong phrase leaves ownership untouched
    assert_eq!(
        game::transfer(&mut store, &ctx(1, 0, 10, false), game_id, 20, false, Some("wrong")),
        Ok(ConfirmationOutcome::Rejected)
    );
    assert_eq!(store.get_game(1, game_id).unwrap().owner_id, 10);
    // the owner confirms with the abbreviation and stays as a player
    assert_eq!(
        game::transfer(&mut store, &ctx(1, 0, 10, false), game_id, 20, false, Some("bitd")),
        Ok(ConfirmationOutcome::Confirmed)
    );
    let g = store.get_game(1, game_id).unwrap();
    assert_eq!(g.owner_id, 20);
    let roster = store.roster_of(game_id);
    assert_eq!(roster.len(), 1);
    assert_eq!(roster[0].0, 10);
}

#[test]
fn transfer_also_leave_keeps_roster() {
    let (mut store, game_id) = bound_store(1, 10, 100);
    assert_eq!(
        game::transfer(&mut store, &ctx(1, 0, 10, true), game_id, 20, true, Some("BitD")),
        Ok(ConfirmationOutcome::Confirmed)
    );
    let g = store.get_game(1, game_id).unwrap();
    assert_eq!(g.owner_id, 20);
    assert!(store.roster_of(game_id).is_empty());
}

#[test]
fn add_and_remove_player_pipeline() {
    let (mut store, game_id) = bound_store(1, 10, 100);
    // resolution failure short-circuits before any check
    assert!(matches!(
        game::add(&mut store, &ctx(1, 555, 10, false), 20, Some(None)),
        Err(Error::AmbiguousContext(_))
    ));
    // a stranger is denied
    assert_eq!(
        game::add(&mut store, &ctx(1, 100, 99, false), 20, Some(None)),
        Err(Error::PermissionDenied)
    );
    // the owner adds from the bound channel
    assert_eq!(game::add(&mut store, &ctx(1, 100, 10, false), 20, Some(None)), Ok(game_id));
    assert_eq!(
        game::add(&mut store, &ctx(1, 100, 10, false), 20, Some(None)),
        Err(Error::Conflict(ConflictField::PlayerInGame))
    );
    assert_eq!(game::remove(&mut store, &ctx(1, 100, 10, false), 20, Some(None)), Ok(game_id));
    assert_eq!(
        game::remove(&mut store, &ctx(1, 100, 10, false), 20, Some(None)),
        Err(Error::NotFound)
    );
}

#[test]
fn claim_assign_release_pipeline() {
    let (mut store, game_id) = bound_store(1, 10, 100);
    store.add_player(1, game_id, 20).unwrap();
    store.add_player(1, game_id, 21).unwrap();
    let (ch, _) = store
        .create_character(1, game_id, 9, "Vex".to_owned(), None, None, None)
        .unwrap();
    // an outsider cannot claim
    assert_eq!(
        character::claim(&mut store, &ctx(1, 555, 99, false), ch),
        Err(Error::PermissionDenied)
    );
    // a player claims it
    character::claim(&mut store, &ctx(1, 555, 20, false), ch).unwrap();
    // another player cannot take it while held
    assert_eq!(
        character::claim(&mut store, &ctx(1, 555, 21, false), ch),
        Err(Error::Conflict(ConflictField::Assignment))
    );
    // only someone allowed to manage may release it
    assert_eq!(
        character::release(&mut store, &ctx(1, 555, 21, false), Some(ch)),
        Err(Error::PermissionDenied)
    );
    character::release(&mut store, &ctx(1, 555, 20, false), Some(ch)).unwrap();
    // the owner assigns it to the other player
    character::assign(&mut store, &ctx(1, 555, 10, false), ch, 21).unwrap();
    let roster = store.roster_of(game_id);
    assert_eq!(roster[1], (21, Some("Vex".to_owned())));
}

#[test]
fn confirmation_case_insensitive_match() {
    assert_eq!(
        evaluate_confirmation("BitD", Some("bitd")),
        ConfirmationOutcome::Confirmed
    );
    assert_eq!(
        evaluate_confirmation("BitD", Some("BITD")),
        ConfirmationOutcome::Confirmed
    );
    assert_eq!(
        evaluate_confirmation("BitD", Some("bit")),
        ConfirmationOutcome::Rejected
    );
    assert_eq!(
        evaluate_confirmation("BitD", Some("bitd ")),
        ConfirmationOutcome::Rejected
    );
    assert_eq!(evaluate_confirmation("BitD", None), ConfirmationOutcome::Abandoned);
}

#[test]
fn confirmation_gate_runs_effect_once() {
    let mut gate = ConfirmationGate::new("BitD".to_owned());
    let mut effect_runs = 0;
    if let Some(ConfirmationOutcome::Confirmed) = gate.resolve(Some("bitd")) {
        effect_runs += 1;
    }
    // a second resolution reports nothing, so the effect cannot run again
    if let Some(ConfirmationOutcome::Confirmed) = gate.resolve(Some("bitd")) {
        effect_runs += 1;
    }
    assert_eq!(effect_runs, 1);
}

#[test]
fn confirmation_gate_rejection_blocks_effect() {
    let mut gate = ConfirmationGate::new("BitD".to_owned());
    let mut effect_runs = 0;
    if let Some(ConfirmationOutcome::Confirmed) = gate.resolve(Some("nope")) {
        effect_runs += 1;
    }
    assert_eq!(effect_runs, 0);
}

#[test]
fn error_messages_are_fixed() {
    assert_eq!(
        Error::PermissionDenied.user_message(),
        "You don't have permission to do that!"
    );
    assert_eq!(
        Error::NotFound.user_message(),
        "I couldn't find what you were looking for, not sure how this happened!"
    );
    assert_eq!(Error::Internal.user_message(), "Something went wrong, sorry!");
    assert_eq!(Error::CollaboratorFailure.user_message(), "Something went wrong, sorry!");
    assert_eq!(
        Error::AmbiguousContext(ContextFailure::NotAPlayer).user_message(),
        "You are not a player in this game. I couldn't figure out what you meant by context. \nTry using this command from a game channel you play in, or hit TAB to select a `character`."
    );
    assert_eq!(
        Error::Conflict(ConflictField::Title).user_message(),
        "That title already exists!"
    );
}

#[test]
fn command_groups_are_listed() {
    let names = all();
    assert_eq!(names, vec!["system".to_owned(), "game".to_owned(), "character".to_owned()]);
}

#[test]
fn system_commands_are_moderator_gated() {
    let mut store = Store::new();
    assert_eq!(
        eurydice::system::create(
            &mut store,
            &ctx(1, 0, 5, false),
            "Blades in the Dark".to_owned(),
            "BitD".to_owned(),
            None,
            None,
        ),
        Err(Error::PermissionDenied)
    );
    let sys = eurydice::system::create(
        &mut store,
        &ctx(1, 0, 5, true),
        "Blades in the Dark".to_owned(),
        "BitD".to_owned(),
        None,
        None,
    )
    .unwrap();
    assert_eq!(
        eurydice::system::edit(
            &mut store,
            &ctx(1, 0, 5, false),
            sys,
            "Blades".to_owned(),
            "BitD".to_owned(),
            None,
            None,
        ),
        Err(Error::PermissionDenied)
    );
    eurydice::system::edit(
        &mut store,
        &ctx(1, 0, 5, true),
        sys,
        "Blades".to_owned(),
        "BitD".to_owned(),
        None,
        None,
    )
    .unwrap();
    assert_eq!(store.get_system(1, sys).unwrap().title, "Blades");
}

#[test]
fn system_delete_needs_confirmation() {
    let mut store = Store::new();
    let sys = eurydice::system::create(
        &mut store,
        &ctx(1, 0, 5, true),
        "Blades in the Dark".to_owned(),
        "BitD".to_owned(),
        None,
        None,
    )
    .unwrap();
    // a wrong phrase leaves the system in place
    assert_eq!(
        eurydice::system::delete(&mut store, &ctx(1, 0, 5, true), sys, Some("nope")),
        Ok(ConfirmationOutcome::Rejected)
    );
    assert!(store.get_system(1, sys).is_some());
    // no response is a silent no-op
    assert_eq!(
        eurydice::system::delete(&mut store, &ctx(1, 0, 5, true), sys, None),
        Ok(ConfirmationOutcome::Abandoned)
    );
    assert!(store.get_system(1, sys).is_some());
    // the abbreviation, in any case, confirms
    assert_eq!(
        eurydice::system::delete(&mut store, &ctx(1, 0, 5, true), sys, Some("bitd")),
        Ok(ConfirmationOutcome::Confirmed)
    );
    assert!(store.get_system(1, sys).is_none());
}

#[test]
fn game_delete_needs_confirmation_and_rights() {
    let (mut store, game_id) = bound_store(1, 10, 100);
    assert_eq!(
        game::delete(&mut store, &ctx(1, 100, 99, false), Some(None), Some("BitD")),
        Err(Error::PermissionDenied)
    );
    assert_eq!(
        game::delete(&mut store, &ctx(1, 100, 10, false), Some(None), Some("wrong")),
        Ok(ConfirmationOutcome::Rejected)
    );
    assert!(store.get_game(1, game_id).is_some());
    assert_eq!(
        game::delete(&mut store, &ctx(1, 100, 10, false), Some(None), Some("bitd")),
        Ok(ConfirmationOutcome::Confirmed)
    );
    assert!(store.get_game(1, game_id).is_none());
}

#[test]
fn game_edit_pipeline_checks_rights() {
    let (mut store, game_id) = bound_store(1, 10, 100);
    assert_eq!(
        game::edit(
            &mut store,
            &ctx(1, 0, 99, false),
            game_id,
            "Duskvol".to_owned(),
            "DSK".to_owned(),
            None,
            None,
        ),
        Err(Error::PermissionDenied)
    );
    game::edit(
        &mut store,
        &ctx(1, 0, 10, false),
        game_id,
        "Duskvol".to_owned(),
        "DSK".to_owned(),
        None,
        None,
    )
    .unwrap();
    assert_eq!(store.get_game(1, game_id).unwrap().title, "Duskvol");
}

#[test]
fn character_create_edit_delete_pipeline() {
    let (mut store, game_id) = bound_store(1, 10, 100);
    store.add_player(1, game_id, 20).unwrap();
    // an outsider may not create a character in the game
    assert_eq!(
        character::create(
            &mut store,
            &ctx(1, 0, 99, false),
            game_id,
            "Vex".to_owned(),
            None,
            None,
            None,
        ),
        Err(Error::PermissionDenied)
    );
    // a player creates one and gets it auto-assigned
    let (ch, auto) = character::create(
        &mut store,
        &ctx(1, 0, 20, false),
        game_id,
        "Vex".to_owned(),
        None,
        None,
        None,
    )
    .unwrap();
    assert!(auto);
    // the holder edits it through the resolver (explicit argument)
    character::edit(
        &mut store,
        &ctx(1, 555, 20, false),
        Some(ch),
        "Vex the Red".to_owned(),
        None,
        None,
        None,
    )
    .unwrap();
    assert_eq!(store.get_character(1, ch).unwrap().name, "Vex the Red");
    // deletion asks for the character's name, case-insensitively
    assert_eq!(
        character::delete(&mut store, &ctx(1, 0, 20, false), ch, Some("vex")),
        Ok(ConfirmationOutcome::Rejected)
    );
    assert_eq!(
        character::delete(&mut store, &ctx(1, 0, 20, false), ch, Some("vex the red")),
        Ok(ConfirmationOutcome::Confirmed)
    );
    assert!(store.get_character(1, ch).is_none());
}

#[test]
fn game_view_collects_summary() {
    let mut store = Store::new();
    let sys = eurydice::system::create(
        &mut store,
        &ctx(1, 0, 5, true),
        "Forged".to_owned(),
        "FitD".to_owned(),
        None,
        None,
    )
    .unwrap();
    let game_id = store
        .create_game(
            1,
            "Blades in the Dark".to_owned(),
            "BitD".to_owned(),
            Some("heists".to_owned()),
            None,
            10,
            900,
            Some(sys),
            Some(100),
            777,
        )
        .unwrap();
    store.add_player(1, game_id, 20).unwrap();
    store.add_player(1, game_id, 30).unwrap();
    let v = game::view(&store, &ctx(1, 100, 99, false), Some(None)).unwrap();
    assert_eq!(v.title, "Blades in the Dark");
    assert_eq!(v.abbreviation, "BitD");
    assert_eq!(v.description.as_deref(), Some("heists"));
    assert_eq!(v.owner_id, 10);
    assert_eq!(v.role_id, 900);
    assert_eq!(v.main_channel_id, Some(100));
    assert_eq!(v.created_at, 777);
    assert_eq!(v.system_abbreviation.as_deref(), Some("FitD"));
    assert_eq!(v.players, vec![20, 30]);
}

#[test]
fn character_view_collects_summary() {
    let (mut store, game_id) = bound_store(1, 10, 100);
    store.add_player(1, game_id, 20).unwrap();
    let (ch, _) = store
        .create_character(
            1,
            game_id,
            30,
            "Vex".to_owned(),
            Some("she/her".to_owned()),
            None,
            None,
        )
        .unwrap();
    // unassigned: no player in the summary
    let v0 = character::view(&store, &ctx(1, 555, 99, false), Some(ch)).unwrap();
    assert_eq!(v0.player, None);
    store.assign_character(1, ch, 20).unwrap();
    let v = character::view(&store, &ctx(1, 555, 99, false), Some(ch)).unwrap();
    assert_eq!(v.name, "Vex");
    assert_eq!(v.pronouns.as_deref(), Some("she/her"));
    assert_eq!(v.author_id, 30);
    assert_eq!(v.game_title, "Blades in the Dark");
    assert_eq!(v.player, Some(20));
    // the assigned player can view their own character with no argument,
    // from the game's bound channel
    let v2 = character::view(&store, &ctx(1, 100, 20, false), None).unwrap();
    assert_eq!(v2.name, "Vex");
    assert!(matches!(
        character::view(&store, &ctx(1, 555, 99, false), Some(12345)),
        Err(Error::NotFound)
    ));
}

#[test]
fn channel_and_system_binding_pipeline() {
    let (mut store, game_id) = bound_store(1, 10, 100);
    let sys = eurydice::system::create(
        &mut store,
        &ctx(1, 0, 5, true),
        "Forged".to_owned(),
        "FitD".to_owned(),
        None,
        None,
    )
    .unwrap();
    // only the owner or a moderator may rebind anything
    assert_eq!(
        game::set_channel(&mut store, &ctx(1, 0, 99, false), game_id, 200),
        Err(Error::PermissionDenied)
    );
    assert_eq!(
        game::set_system(&mut store, &ctx(1, 100, 99, false), sys, Some(None)),
        Err(Error::PermissionDenied)
    );
    // the owner points the game at the system and moves its channel
    game::set_system(&mut store, &ctx(1, 100, 10, false), sys, Some(None)).unwrap();
    assert_eq!(store.get_game(1, game_id).unwrap().system_id, Some(sys));
    game::set_channel(&mut store, &ctx(1, 0, 10, false), game_id, 200).unwrap();
    assert_eq!(store.get_game(1, game_id).unwrap().main_channel_id, Some(200));
    // and unbinds both, resolving the game from the new channel
    game::unset_system(&mut store, &ctx(1, 200, 10, false), Some(None)).unwrap();
    assert_eq!(store.get_game(1, game_id).unwrap().system_id, None);
    game::unset_channel(&mut store, &ctx(1, 200, 10, false), Some(None)).unwrap();
    assert_eq!(store.get_game(1, game_id).unwrap().main_channel_id, None);
}
