//! The store's uniqueness rules and write operations, exercised end to end.

use eurydice::error::{ConflictField, Error};
use eurydice::store::Store;

fn store_with_game(guild: i64, owner: i64) -> (Store, i32) {
    let mut store = Store::new();
    let game = store
        .create_game(
            guild,
            "Blades in the Dark".to_owned(),
            "BitD".to_owned(),
            None,
            None,
            owner,
            900,
            None,
            None,
            0,
        )
        .unwrap();
    (store, game)
}

#[test]
fn unique_system_title() {
    let mut store = Store::new();
    store
        .create_system(0, "Blades in the Dark".to_owned(), "BitD".to_owned(), None, None)
        .unwrap();
    let result = store.create_system(
        0,
        "Blades in the Dark".to_owned(),
        "different abbreviation".to_owned(),
        None,
        None,
    );
    assert!(matches!(result, Err(Error::Conflict(ConflictField::Title))));
}

#[test]
fn unique_system_abbreviation() {
    let mut store = Store::new();
    store
        .create_system(0, "Blades in the Dark".to_owned(), "BitD".to_owned(), None, None)
        .unwrap();
    let result = store.create_system(
        0,
        "different title".to_owned(),
        "BitD".to_owned(),
        None,
        None,
    );
    assert!(matches!(result, Err(Error::Conflict(ConflictField::Abbreviation))));
}

#[test]
fn unique_game_name() {
    let mut store = Store::new();
    store
        .create_game(
            0,
            "Blades in the Dark".to_owned(),
            "BitD".to_owned(),
            None,
            None,
            0,
            0,
            None,
            None,
            0,
        )
        .unwrap();
    let result = store.create_game(
        0,
        "Blades in the Dark".to_owned(),
        "different abbreviation".to_owned(),
        None,
        None,
        0,
        0,
        None,
        None,
        0,
    );
    assert!(matches!(result, Err(Error::Conflict(ConflictField::Title))));
}

#[test]
fn unique_game_abbreviation() {
    let mut store = Store::new();
    store
        .create_game(
            0,
            "Blades in the Dark".to_owned(),
            "BitD".to_owned(),
            None,
            None,
            0,
            0,
            None,
            None,
            0,
        )
        .unwrap();
    let result = store.create_game(
        0,
        "different name".to_owned(),
        "BitD".to_owned(),
        None,
        None,
        0,
        0,
        None,
        None,
        0,
    );
    assert!(matches!(result, Err(Error::Conflict(ConflictField::Abbreviation))));
}

#[test]
fn unique_game_channel() {
    let mut store = Store::new();
    store
        .create_game(
            0,
            "Blades in the Dark".to_owned(),
            "BitD".to_owned(),
            None,
            None,
            0,
            0,
            None,
            Some(0),
            0,
        )
        .unwrap();
    let result = store.create_game(
        0,
        "different name".to_owned(),
        "different abbreviation".to_owned(),
        None,
        None,
        0,
        0,
        None,
        Some(0),
        0,
    );
    assert!(matches!(result, Err(Error::Conflict(ConflictField::Channel))));
}

#[test]
fn unique_character() {
    let (mut store, game_id) = store_with_game(0, 0);
    store
        .create_character(0, game_id, 0, "BitD".to_owned(), None, None, None)
        .unwrap();
    let result = store.create_character(0, game_id, 0, "BitD".to_owned(), None, None, None);
    assert!(matches!(result, Err(Error::Conflict(ConflictField::CharacterName))));
}

#[test]
fn same_title_allowed_across_guilds() {
    let mut store = Store::new();
    store
        .create_system(1, "Blades in the Dark".to_owned(), "BitD".to_owned(), None, None)
        .unwrap();
    let result = store.create_system(
        2,
        "Blades in the Dark".to_owned(),
        "BitD".to_owned(),
        None,
        None,
    );
    assert!(result.is_ok());
}

#[test]
fn concurrent_create_same_title_one_conflict() {
    // Two racing creates are arbitrated by the uniqueness rule: exactly one
    // succeeds, the loser learns which field clashed.
    let mut store = Store::new();
    let first = store.create_game(
        7,
        "X".to_owned(),
        "X1".to_owned(),
        None,
        None,
        10,
        0,
        None,
        None,
        0,
    );
    let second = store.create_game(
        7,
        "X".to_owned(),
        "X2".to_owned(),
        None,
        None,
        11,
        0,
        None,
        None,
        0,
    );
    assert!(first.is_ok());
    assert_eq!(second, Err(Error::Conflict(ConflictField::Title)));
}

#[test]
fn delete_system_detaches_games() {
    let mut store = Store::new();
    let sys = store
        .create_system(0, "Blades in the Dark".to_owned(), "BitD".to_owned(), None, None)
        .unwrap();
    let game = store
        .create_game(
            0,
            "Duskvol".to_owned(),
            "DSK".to_owned(),
            None,
            None,
            5,
            0,
            Some(sys),
            None,
            0,
        )
        .unwrap();
    store.delete_system(0, sys).unwrap();
    let g = store.get_game(0, game).unwrap();
    assert_eq!(g.system_id, None);
    assert!(store.get_system(0, sys).is_none());
}

#[test]
fn delete_game_cascades() {
    let (mut store, game) = store_with_game(0, 1);
    store.add_player(0, game, 2).unwrap();
    let (ch, _) = store
        .create_character(0, game, 2, "Vex".to_owned(), None, None, None)
        .unwrap();
    store.delete_game(0, game).unwrap();
    assert!(store.get_game(0, game).is_none());
    assert!(store.get_character(0, ch).is_none());
    assert!(store.roster_of(game).is_empty());
}

#[test]
fn delete_character_clears_assignment() {
    let (mut store, game) = store_with_game(0, 1);
    store.add_player(0, game, 2).unwrap();
    let (ch, _) = store
        .create_character(0, game, 9, "Vex".to_owned(), None, None, None)
        .unwrap();
    store.assign_character(0, ch, 2).unwrap();
    store.delete_character(0, ch).unwrap();
    let roster = store.roster_of(game);
    assert_eq!(roster.len(), 1);
    assert_eq!(roster[0], (2, None));
}

#[test]
fn create_character_auto_assigns_free_author() {
    let (mut store, game) = store_with_game(0, 1);
    store.add_player(0, game, 2).unwrap();
    let (ch, auto) = store
        .create_character(0, game, 2, "Vex".to_owned(), None, None, None)
        .unwrap();
    assert!(auto);
    let roster = store.roster_of(game);
    assert_eq!(roster.len(), 1);
    assert_eq!(roster[0].0, 2);
    assert_eq!(roster[0].1.as_deref(), Some("Vex"));
    // a second character by the same author is not auto-assigned
    let (_, auto2) = store
        .create_character(0, game, 2, "Mira".to_owned(), None, None, None)
        .unwrap();
    assert!(!auto2);
    let _ = ch;
}

#[test]
fn assign_conflicts_when_held_by_other() {
    let (mut store, game) = store_with_game(0, 1);
    store.add_player(0, game, 2).unwrap();
    store.add_player(0, game, 3).unwrap();
    let (ch, _) = store
        .create_character(0, game, 9, "Vex".to_owned(), None, None, None)
        .unwrap();
    store.assign_character(0, ch, 2).unwrap();
    let result = store.assign_character(0, ch, 3);
    assert_eq!(result, Err(Error::Conflict(ConflictField::Assignment)));
    // re-assigning to the same holder is fine
    assert!(store.assign_character(0, ch, 2).is_ok());
}

#[test]
fn release_frees_the_character() {
    let (mut store, game) = store_with_game(0, 1);
    store.add_player(0, game, 2).unwrap();
    let (ch, _) = store
        .create_character(0, game, 9, "Vex".to_owned(), None, None, None)
        .unwrap();
    store.assign_character(0, ch, 2).unwrap();
    store.release_character(0, ch).unwrap();
    assert_eq!(store.release_character(0, ch), Err(Error::NotFound));
    let roster = store.roster_of(game);
    assert_eq!(roster[0], (2, None));
}

#[test]
fn add_player_twice_conflicts() {
    let (mut store, game) = store_with_game(0, 1);
    store.add_player(0, game, 2).unwrap();
    assert_eq!(
        store.add_player(0, game, 2),
        Err(Error::Conflict(ConflictField::PlayerInGame))
    );
}

#[test]
fn remove_absent_player_not_found() {
    let (mut store, game) = store_with_game(0, 1);
    assert_eq!(store.remove_player(0, game, 2), Err(Error::NotFound));
}

#[test]
fn set_channel_conflicts_with_other_game() {
    let (mut store, game) = store_with_game(0, 1);
    let other = store
        .create_game(
            0,
            "Duskvol".to_owned(),
            "DSK".to_owned(),
            None,
            None,
            1,
            0,
            None,
            Some(42),
            0,
        )
        .unwrap();
    assert_eq!(
        store.set_channel(0, game, 42),
        Err(Error::Conflict(ConflictField::Channel))
    );
    store.set_channel(0, game, 43).unwrap();
    store.unset_channel(0, other).unwrap();
    assert!(store.set_channel(0, other, 43).is_err());
}

#[test]
fn set_system_requires_existing_system() {
    let (mut store, game) = store_with_game(0, 1);
    assert_eq!(store.set_system(0, game, 99), Err(Error::NotFound));
    let sys = store
        .create_system(0, "Forged".to_owned(), "FitD".to_owned(), None, None)
        .unwrap();
    store.set_system(0, game, sys).unwrap();
    assert_eq!(store.get_game(0, game).unwrap().system_id, Some(sys));
    store.unset_system(0, game).unwrap();
    assert_eq!(store.get_game(0, game).unwrap().system_id, None);
}

#[test]
fn edit_system_respects_uniqueness() {
    let mut store = Store::new();
    let a = store
        .create_system(0, "Blades in the Dark".to_owned(), "BitD".to_owned(), None, None)
        .unwrap();
    let b = store
        .create_system(0, "Forged".to_owned(), "FitD".to_owned(), None, None)
        .unwrap();
    assert_eq!(
        store.edit_system(0, b, "Blades in the Dark".to_owned(), "FitD".to_owned(), None, None),
        Err(Error::Conflict(ConflictField::Title))
    );
    assert_eq!(
        store.edit_system(0, b, "Forged 2".to_owned(), "BitD".to_owned(), None, None),
        Err(Error::Conflict(ConflictField::Abbreviation))
    );
    store
        .edit_system(0, b, "Forged 2".to_owned(), "F2".to_owned(), Some("desc".to_owned()), None)
        .unwrap();
    let s = store.get_system(0, b).unwrap();
    assert_eq!(s.title, "Forged 2");
    assert_eq!(s.abbreviation, "F2");
    assert_eq!(s.description.as_deref(), Some("desc"));
    let _ = a;
}

#[test]
fn edit_character_respects_name_uniqueness() {
    let (mut store, game) = store_with_game(0, 1);
    let (a, _) = store
        .create_character(0, game, 9, "Vex".to_owned(), None, None, None)
        .unwrap();
    let (b, _) = store
        .create_character(0, game, 9, "Mira".to_owned(), None, None, None)
        .unwrap();
    assert_eq!(
        store.edit_character(0, b, "Vex".to_owned(), None, None, None),
        Err(Error::Conflict(ConflictField::CharacterName))
    );
    store
        .edit_character(0, b, "Mira the Bold".to_owned(), Some("she/her".to_owned()), None, None)
        .unwrap();
    assert_eq!(store.get_character(0, b).unwrap().name, "Mira the Bold");
    let _ = a;
}

#[test]
fn edit_missing_entities_not_found() {
    let mut store = Store::new();
    assert_eq!(
        store.edit_system(0, 1, "T".to_owned(), "A".to_owned(), None, None),
        Err(Error::NotFound)
    );
    assert_eq!(store.delete_system(0, 1), Err(Error::NotFound));
    assert_eq!(store.delete_game(0, 1), Err(Error::NotFound));
    assert_eq!(store.delete_character(0, 1), Err(Error::NotFound));
    assert_eq!(store.assign_character(0, 1, 2), Err(Error::NotFound));
}

#[test]
fn id_space_exhaustion_is_internal() {
    let mut store = Store::new();
    store.next_system_id = i32::MAX;
    let result = store.create_system(0, "T".to_owned(), "A".to_owned(), None, None);
    assert_eq!(result, Err(Error::Internal));
}

#[test]
fn guild_isolation_on_reads() {
    let (mut store, game) = store_with_game(7, 1);
    assert!(store.get_game(8, game).is_none());
    assert_eq!(store.delete_game(8, game), Err(Error::NotFound));
    assert!(store.get_game(7, game).is_some());
}
