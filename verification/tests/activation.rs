//! The activation engine's name transform and the suggestion-list helpers.

use eurydice::activation::{
    apply_character_name, compute_transform, strip_character_name, ActivationMode, RenameAction,
    RosterEntry,
};
use eurydice::autocomplete;
use eurydice::commands::RequestContext;
use eurydice::store::Store;

fn entry(user_id: i64, display_name: &str, character_name: Option<&str>) -> RosterEntry {
    RosterEntry {
        user_id,
        display_name: display_name.to_owned(),
        character_name: character_name.map(|s| s.to_owned()),
    }
}

fn new_names(actions: &[RenameAction]) -> Vec<String> {
    actions.iter().map(|a| a.new_name.clone()).collect()
}

#[test]
fn apply_appends_suffix() {
    assert_eq!(apply_character_name("Drow", "Vex"), "Drow (Vex)");
}

#[test]
fn apply_replaces_existing_suffix() {
    assert_eq!(apply_character_name("Drow (Old)", "Vex"), "Drow (Vex)");
}

#[test]
fn strip_removes_suffix() {
    assert_eq!(strip_character_name("Drow (Vex)"), "Drow");
    assert_eq!(strip_character_name("Drow"), "Drow");
    assert_eq!(strip_character_name("Drow   "), "Drow");
}

#[test]
fn activation_scenario() {
    // owner has "Vex", playerA has "Mira", playerB has no character
    let roster = vec![
        entry(1, "Owner Person", Some("Vex")),
        entry(2, "Player A", Some("Mira")),
        entry(3, "Player B", None),
    ];
    let actions = compute_transform(ActivationMode::Activate, &roster, 1);
    assert_eq!(actions.len(), 3);
    assert!(actions[0].requires_self_action);
    assert_eq!(actions[0].new_name, "Owner Person (Vex)");
    assert!(!actions[1].requires_self_action);
    assert_eq!(actions[1].prior_name, "Player A");
    assert_eq!(actions[1].new_name, "Player A (Mira)");
    assert!(!actions[2].requires_self_action);
    assert_eq!(actions[2].new_name, "Player B");
}

#[test]
fn activation_is_idempotent() {
    let roster = vec![
        entry(1, "Owner Person", Some("Vex")),
        entry(2, "Player A (Stale)", Some("Mira")),
        entry(3, "Player B", None),
    ];
    let once = compute_transform(ActivationMode::Activate, &roster, 1);
    let roster2: Vec<RosterEntry> = once
        .iter()
        .zip(roster.iter())
        .map(|(a, e)| RosterEntry {
            user_id: e.user_id,
            display_name: a.new_name.clone(),
            character_name: e.character_name.clone(),
        })
        .collect();
    let twice = compute_transform(ActivationMode::Activate, &roster2, 1);
    assert_eq!(new_names(&once), new_names(&twice));
}

#[test]
fn deactivation_is_idempotent() {
    let roster = vec![entry(2, "Player A (Mira)", Some("Mira")), entry(3, "Player B", None)];
    let once = compute_transform(ActivationMode::Deactivate, &roster, 1);
    let roster2: Vec<RosterEntry> = once
        .iter()
        .zip(roster.iter())
        .map(|(a, e)| RosterEntry {
            user_id: e.user_id,
            display_name: a.new_name.clone(),
            character_name: e.character_name.clone(),
        })
        .collect();
    let twice = compute_transform(ActivationMode::Deactivate, &roster2, 1);
    assert_eq!(new_names(&once), new_names(&twice));
}

#[test]
fn deactivate_restores_base_names() {
    let roster = vec![
        entry(1, "Owner Person", Some("Vex")),
        entry(2, "Player A", Some("Mira")),
        entry(3, "Player B", None),
    ];
    let activated = compute_transform(ActivationMode::Activate, &roster, 1);
    let roster2: Vec<RosterEntry> = activated
        .iter()
        .zip(roster.iter())
        .map(|(a, e)| RosterEntry {
            user_id: e.user_id,
            display_name: a.new_name.clone(),
            character_name: e.character_name.clone(),
        })
        .collect();
    let restored = compute_transform(ActivationMode::Deactivate, &roster2, 1);
    assert_eq!(
        new_names(&restored),
        vec!["Owner Person".to_owned(), "Player A".to_owned(), "Player B".to_owned()]
    );
}

#[test]
fn search_terms_formats_query() {
    assert_eq!(autocomplete::search_terms(""), "\"\":*");
    assert_eq!(autocomplete::search_terms("bla"), "\"bla\":*");
    assert_eq!(autocomplete::search_terms("blades dark"), "\"blades|dark\":*");
    assert_eq!(autocomplete::search_terms("  a \t b  "), "\"a|b\":*");
}

fn ctx(guild: i64, caller: i64, moderator: bool) -> RequestContext {
    RequestContext { guild_id: guild, channel_id: 0, caller_id: caller, moderator }
}

#[test]
fn listings_respect_permissions() {
    let mut store = Store::new();
    let g1 = store
        .create_game(
            1,
            "Blades in the Dark".to_owned(),
            "BitD".to_owned(),
            None,
            None,
            10,
            0,
            None,
            None,
            0,
        )
        .unwrap();
    let g2 = store
        .create_game(
            1,
            "Duskvol".to_owned(),
            "DSK".to_owned(),
            None,
            None,
            11,
            0,
            None,
            None,
            0,
        )
        .unwrap();
    store.add_player(1, g2, 10).unwrap();
    // all games are visible to everyone in the guild
    assert_eq!(autocomplete::game(&store, &ctx(1, 99, false)).len(), 2);
    assert_eq!(autocomplete::game(&store, &ctx(2, 99, false)).len(), 0);
    // user 10 edits only their own game, unless they moderate
    let editable = autocomplete::game_editable(&store, &ctx(1, 10, false));
    assert_eq!(editable, vec![(g1, "Blades in the Dark".to_owned())]);
    assert_eq!(autocomplete::game_editable(&store, &ctx(1, 10, true)).len(), 2);
    // user 10 joined both: one as owner, one as player
    assert_eq!(autocomplete::game_joined(&store, &ctx(1, 10, false)).len(), 2);
    assert_eq!(autocomplete::game_joined(&store, &ctx(1, 11, false)).len(), 1);
}

#[test]
fn character_listings() {
    let mut store = Store::new();
    let game = store
        .create_game(
            1,
            "Blades in the Dark".to_owned(),
            "BitD".to_owned(),
            None,
            None,
            10,
            0,
            None,
            None,
            0,
        )
        .unwrap();
    store.add_player(1, game, 20).unwrap();
    let (vex, _) = store
        .create_character(1, game, 30, "Vex".to_owned(), None, None, None)
        .unwrap();
    let (mira, _) = store
        .create_character(1, game, 31, "Mira".to_owned(), None, None, None)
        .unwrap();
    // everything is listed for the guild
    assert_eq!(autocomplete::character(&store, &ctx(1, 99, false)).len(), 2);
    // player 20 can claim both while unassigned
    assert_eq!(autocomplete::character_claimable(&store, &ctx(1, 20, false)).len(), 2);
    store.assign_character(1, vex, 20).unwrap();
    assert_eq!(
        autocomplete::character_claimable(&store, &ctx(1, 20, false)),
        vec![(mira, "Mira".to_owned())]
    );
    // assigned list follows the holder
    assert_eq!(
        autocomplete::character_assigned(&store, &ctx(1, 20, false)),
        vec![(vex, "Vex".to_owned())]
    );
    // author 30 and holder 20 may edit Vex; 31 only their own
    let e20 = autocomplete::character_editable(&store, &ctx(1, 20, false));
    assert_eq!(e20, vec![(vex, "Vex".to_owned())]);
    let e31 = autocomplete::character_editable(&store, &ctx(1, 31, false));
    assert_eq!(e31, vec![(mira, "Mira".to_owned())]);
    // the game owner edits all of the game's characters
    assert_eq!(autocomplete::character_editable(&store, &ctx(1, 10, false)).len(), 2);
}

#[test]
fn system_listing_is_guild_scoped() {
    let mut store = Store::new();
    store
        .create_system(1, "Blades in the Dark".to_owned(), "BitD".to_owned(), None, None)
        .unwrap();
    store
        .create_system(2, "Forged".to_owned(), "FitD".to_owned(), None, None)
        .unwrap();
    assert_eq!(autocomplete::system(&store, &ctx(1, 5, false)).len(), 1);
    assert_eq!(autocomplete::system(&store, &ctx(2, 5, false)).len(), 1);
    assert_eq!(autocomplete::system(&store, &ctx(3, 5, false)).len(), 0);
}

#[test]
fn name_transform_edge_cases() {
    // a name that is nothing but a suffix strips to an empty base
    assert_eq!(strip_character_name("(Vex)"), "");
    assert_eq!(apply_character_name("(Vex)", "Mira"), " (Mira)");
    // an empty display name still gets the suffix
    assert_eq!(apply_character_name("", "Vex"), " (Vex)");
    // parentheses inside the character's own name do not stack
    assert_eq!(
        apply_character_name("Drow (Vex (alt))", "Vex (alt)"),
        "Drow (Vex (alt))"
    );
    assert_eq!(strip_character_name("Drow (Vex (alt))"), "Drow");
}

#[test]
fn search_terms_whitespace_only() {
    assert_eq!(autocomplete::search_terms("   "), "\"\":*");
    assert_eq!(autocomplete::search_terms("\t\n"), "\"\":*");
}

#[test]
fn listings_cap_at_platform_limit() {
    let mut store = Store::new();
    for k in 0..30 {
        store
            .create_system(1, format!("System {}", k), format!("S{}", k), None, None)
            .unwrap();
    }
    let listed = autocomplete::system(&store, &ctx(1, 5, false));
    assert_eq!(listed.len(), 25);
    // the first so-many entries, in store order
    assert_eq!(listed[0].1, "System 0");
    assert_eq!(listed[24].1, "System 24");
}
