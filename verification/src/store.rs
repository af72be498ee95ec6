//! An in-memory model of the entity store and the invariants every write
//! must preserve.
//!
//! The store holds all guilds' data; every operation is guild-scoped, so no
//! call can observe or touch another guild's rows. Writes that would violate
//! a uniqueness rule fail atomically with a [`ConflictField`] naming the
//! clashing field and leave the store unchanged.

use vstd::prelude::*;

use crate::entities::{Character, Game, Player, System};
use crate::error::{ConflictField, Error};

verus! {

/// All play-space state, with fresh-id counters for each entity kind.
pub struct Store {
    pub systems: Vec<System>,
    pub games: Vec<Game>,
    pub characters: Vec<Character>,
    pub players: Vec<Player>,
    pub next_system_id: i32,
    pub next_game_id: i32,
    pub next_character_id: i32,
}

/// Whether some row of `ps` is the (game, user) pair.
pub open spec fn spec_pair_in(ps: Seq<Player>, game_id: i32, user_id: i64) -> bool {
    exists|k: int|
        0 <= k < ps.len() && #[trigger] ps[k].game_id == game_id && ps[k].user_id == user_id
}

/// The index of the (game, user) pair in `ps`; rows are unique per pair.
pub open spec fn spec_pair_idx(ps: Seq<Player>, game_id: i32, user_id: i64) -> int {
    choose|k: int|
        0 <= k < ps.len() && #[trigger] ps[k].game_id == game_id && ps[k].user_id == user_id
}

/// One step of building a filtered sequence front to back: filtering one more
/// element either appends it or leaves the accumulated result alone.
pub proof fn lemma_filter_take_step<A>(s: Seq<A>, pred: spec_fn(A) -> bool, i: int)
    requires
        0 <= i < s.len(),
    ensures
        s.take(i + 1).filter(pred) == if pred(s[i]) {
            s.take(i).filter(pred).push(s[i])
        } else {
            s.take(i).filter(pred)
        },
{
    let t = s.take(i + 1);
    assert(t.drop_last() =~= s.take(i));
    assert(t.last() == s[i]);
    reveal_with_fuel(Seq::<_>::filter, 2);
    assert(t.filter(pred) == if pred(t.last()) {
        t.drop_last().filter(pred).push(t.last())
    } else {
        t.drop_last().filter(pred)
    });
}

/// A filtered prefix is a prefix of the filtered whole, so a walk that
/// stops early has produced exactly the first so-many filtered elements.
pub proof fn lemma_filter_take_is_prefix<A>(s: Seq<A>, pred: spec_fn(A) -> bool, i: int)
    requires
        0 <= i <= s.len(),
    ensures
        s.take(i).filter(pred).len() <= s.filter(pred).len(),
        s.take(i).filter(pred) == s.filter(pred).take(s.take(i).filter(pred).len() as int),
    decreases s.len() - i,
{
    let f = s.filter(pred);
    let fi = s.take(i).filter(pred);
    if i == s.len() {
        assert(s.take(i) =~= s);
        assert(f.take(fi.len() as int) =~= fi);
    } else {
        lemma_filter_take_step(s, pred, i);
        lemma_filter_take_is_prefix(s, pred, i + 1);
        let fi1 = s.take(i + 1).filter(pred);
        if pred(s[i]) {
            assert(fi1 == fi.push(s[i]));
            assert(fi1.take(fi.len() as int) =~= fi);
            assert(f.take(fi1.len() as int).take(fi.len() as int) =~= f.take(fi.len() as int));
            assert(fi =~= f.take(fi.len() as int));
        } else {
            assert(fi == fi1);
        }
    }
}

/// Filtering a sequence of pairwise-distinct elements yields members of the
/// original, still pairwise distinct.
proof fn lemma_filter_members_distinct<A>(s: Seq<A>, pred: spec_fn(A) -> bool)
    requires
        forall|a: int, b: int| 0 <= a < s.len() && 0 <= b < s.len() && a != b ==> s[a] != s[b],
    ensures
        forall|m: int|
            0 <= m < s.filter(pred).len() ==> s.contains(#[trigger] s.filter(pred)[m]),
        forall|a: int, b: int|
            0 <= a < s.filter(pred).len() && 0 <= b < s.filter(pred).len() && a != b
                ==> s.filter(pred)[a] != s.filter(pred)[b],
    decreases s.len(),
{
    reveal_with_fuel(Seq::<_>::filter, 2);
    let f = s.filter(pred);
    if s.len() != 0 {
        let t = s.drop_last();
        assert forall|a: int, b: int| 0 <= a < t.len() && 0 <= b < t.len() && a != b
            implies t[a] != t[b] by {
            assert(t[a] == s[a]);
            assert(t[b] == s[b]);
        }
        lemma_filter_members_distinct(t, pred);
        let ft = t.filter(pred);
        assert(f == if pred(s.last()) {
            ft.push(s.last())
        } else {
            ft
        });
        assert forall|m: int| 0 <= m < f.len() implies s.contains(#[trigger] f[m]) by {
            if pred(s.last()) && m == f.len() - 1 {
                assert(f[m] == s[s.len() - 1]);
            } else {
                assert(f[m] == ft[m]);
                let i = choose|i: int| 0 <= i < t.len() && t[i] == ft[m];
                assert(s[i] == ft[m]);
            }
        }
        assert forall|a: int, b: int| 0 <= a < f.len() && 0 <= b < f.len() && a != b
            implies f[a] != f[b] by {
            if pred(s.last()) && (a == f.len() - 1 || b == f.len() - 1) {
                let o = if a == f.len() - 1 {
                    b
                } else {
                    a
                };
                assert(f[o] == ft[o]);
                let i = choose|i: int| 0 <= i < t.len() && t[i] == ft[o];
                assert(s[i] == ft[o]);
                assert(s[i] != s[s.len() - 1]);
            } else {
                assert(f[a] == ft[a]);
                assert(f[b] == ft[b]);
            }
        }
    }
}

/// What creating a system leaves behind: the conflict checked first names
/// the failure, and success appends exactly one row under a fresh id.
pub open spec fn spec_create_system_outcome(
    prev: Store,
    cur: Store,
    r: Result<i32, Error>,
    guild_id: i64,
    title: String,
    abbreviation: String,
    description: Option<String>,
    image: Option<String>,
) -> bool {
    &&& prev.spec_sys_title_taken(guild_id, title@) ==> r == Err::<i32, Error>(
        Error::Conflict(ConflictField::Title),
    ) && cur == prev
    &&& !prev.spec_sys_title_taken(guild_id, title@) && prev.spec_sys_abbr_taken(
        guild_id,
        abbreviation@,
    ) ==> r == Err::<i32, Error>(Error::Conflict(ConflictField::Abbreviation)) && cur == prev
    &&& !prev.spec_sys_title_taken(guild_id, title@) && !prev.spec_sys_abbr_taken(
        guild_id,
        abbreviation@,
    ) && prev.next_system_id == i32::MAX ==> r == Err::<i32, Error>(Error::Internal) && cur
        == prev
    &&& !prev.spec_sys_title_taken(guild_id, title@) && !prev.spec_sys_abbr_taken(
        guild_id,
        abbreviation@,
    ) && prev.next_system_id < i32::MAX ==> {
        &&& r == Ok::<i32, Error>(prev.next_system_id)
        &&& cur.systems@ == prev.systems@.push(
            (System {
                id: prev.next_system_id,
                guild_id,
                title,
                abbreviation,
                description,
                image,
            }),
        )
        &&& cur.next_system_id == prev.next_system_id + 1
        &&& cur.games == prev.games
        &&& cur.characters == prev.characters
        &&& cur.players == prev.players
    }
}

/// What editing a system leaves behind: a missing row or a clash with
/// another system fails atomically; success rewrites exactly that row.
pub open spec fn spec_edit_system_outcome(
    prev: Store,
    cur: Store,
    r: Result<(), Error>,
    guild_id: i64,
    id: i32,
    title: String,
    abbreviation: String,
    description: Option<String>,
    image: Option<String>,
) -> bool {
    &&& !prev.spec_has_system(guild_id, id) ==> r == Err::<(), Error>(Error::NotFound)
            && cur == prev
    &&& prev.spec_has_system(guild_id, id) && prev.spec_sys_title_taken_by_other(
            guild_id,
            title@,
            id,
        ) ==> r == Err::<(), Error>(Error::Conflict(ConflictField::Title)) && cur
            == prev
    &&& prev.spec_has_system(guild_id, id) && !prev.spec_sys_title_taken_by_other(
            guild_id,
            title@,
            id,
        ) && prev.spec_sys_abbr_taken_by_other(guild_id, abbreviation@, id) ==> r
            == Err::<(), Error>(Error::Conflict(ConflictField::Abbreviation)) && cur
            == prev
    &&& prev.spec_has_system(guild_id, id) && !prev.spec_sys_title_taken_by_other(
            guild_id,
            title@,
            id,
        ) && !prev.spec_sys_abbr_taken_by_other(guild_id, abbreviation@, id) ==> {
            &&& r == Ok::<(), Error>(())
            &&& cur.systems@ == prev.systems@.update(
                prev.spec_system_idx(guild_id, id),
                (System { id, guild_id, title, abbreviation, description, image }),
            )
            &&& cur.next_system_id == prev.next_system_id
            &&& cur.games == prev.games
            &&& cur.characters == prev.characters
            &&& cur.players == prev.players
        }
}

/// What deleting a system leaves behind: the row goes, and games that
/// referenced it are detached.
pub open spec fn spec_delete_system_outcome(
    prev: Store,
    cur: Store,
    r: Result<(), Error>,
    guild_id: i64,
    id: i32,
) -> bool {
    &&& !prev.spec_has_system(guild_id, id) ==> r == Err::<(), Error>(Error::NotFound)
            && cur == prev
    &&& prev.spec_has_system(guild_id, id) ==> {
            &&& r == Ok::<(), Error>(())
            &&& cur.systems@ == prev.systems@.remove(
                prev.spec_system_idx(guild_id, id),
            )
            &&& cur.games@.len() == prev.games@.len()
            &&& forall|i: int|
                #![trigger cur.games@[i]]
                0 <= i < prev.games@.len() ==> cur.games@[i] == spec_detach(
                    prev.games@[i],
                    id,
                )
            &&& cur.characters == prev.characters
            &&& cur.players == prev.players
            &&& cur.next_system_id == prev.next_system_id
        }
}

/// What creating a game leaves behind: conflicts are reported in the order
/// title, abbreviation, channel; a dangling system reference is refused;
/// success appends exactly one row under a fresh id.
pub open spec fn spec_create_game_outcome(
    prev: Store,
    cur: Store,
    r: Result<i32, Error>,
    guild_id: i64,
    title: String,
    abbreviation: String,
    description: Option<String>,
    image: Option<String>,
    owner_id: i64,
    role_id: i64,
    system_id: Option<i32>,
    main_channel_id: Option<i64>,
    created_at: i64,
) -> bool {
    &&& prev.spec_game_title_taken(guild_id, title@) ==> r == Err::<i32, Error>(
            Error::Conflict(ConflictField::Title),
        ) && cur == prev
    &&& !prev.spec_game_title_taken(guild_id, title@) && prev.spec_game_abbr_taken(
            guild_id,
            abbreviation@,
        ) ==> r == Err::<i32, Error>(Error::Conflict(ConflictField::Abbreviation))
            && cur == prev
    &&& !prev.spec_game_title_taken(guild_id, title@) && !prev.spec_game_abbr_taken(
            guild_id,
            abbreviation@,
        ) && main_channel_id is Some && prev.spec_channel_taken(
            guild_id,
            main_channel_id->0,
        ) ==> r == Err::<i32, Error>(Error::Conflict(ConflictField::Channel)) && cur
            == prev
    &&& !prev.spec_game_title_taken(guild_id, title@) && !prev.spec_game_abbr_taken(
            guild_id,
            abbreviation@,
        ) && (main_channel_id is None || !prev.spec_channel_taken(
            guild_id,
            main_channel_id->0,
        )) && system_id is Some && !prev.spec_has_system(guild_id, system_id->0) ==> r
            == Err::<i32, Error>(Error::NotFound) && cur == prev
    &&& !prev.spec_game_title_taken(guild_id, title@) && !prev.spec_game_abbr_taken(
            guild_id,
            abbreviation@,
        ) && (main_channel_id is None || !prev.spec_channel_taken(
            guild_id,
            main_channel_id->0,
        )) && (system_id is None || prev.spec_has_system(guild_id, system_id->0)) && prev.next_game_id == i32::MAX ==> r == Err::<i32, Error>(Error::Internal) && cur
            == prev
    &&& !prev.spec_game_title_taken(guild_id, title@) && !prev.spec_game_abbr_taken(
            guild_id,
            abbreviation@,
        ) && (main_channel_id is None || !prev.spec_channel_taken(
            guild_id,
            main_channel_id->0,
        )) && (system_id is None || prev.spec_has_system(guild_id, system_id->0)) && prev.next_game_id < i32::MAX ==> {
            &&& r == Ok::<i32, Error>(prev.next_game_id)
            &&& cur.games@ == prev.games@.push(
                (Game {
                    id: prev.next_game_id,
                    guild_id,
                    title,
                    abbreviation,
                    description,
                    image,
                    owner_id,
                    role_id,
                    main_channel_id,
                    system_id,
                    created_at,
                }),
            )
            &&& cur.next_game_id == prev.next_game_id + 1
            &&& cur.systems == prev.systems
            &&& cur.characters == prev.characters
            &&& cur.players == prev.players
        }
}

/// Two racing creates of the same title in one guild are arbitrated by the
/// title's uniqueness rule alone, with no in-process lock: when the title
/// was free, at most one of the two succeeds; whichever call lands second
/// after a success is refused with the title conflict — never a generic
/// failure — and changes nothing, whatever else either call carried, and
/// the title then names a game (exactly one, since `wf` keeps titles
/// unique per guild).
pub proof fn lemma_create_game_title_arbitration(
    s0: Store,
    s1: Store,
    s2: Store,
    r1: Result<i32, Error>,
    r2: Result<i32, Error>,
    guild_id: i64,
    title1: String,
    abbreviation1: String,
    description1: Option<String>,
    image1: Option<String>,
    owner1: i64,
    role1: i64,
    system1: Option<i32>,
    channel1: Option<i64>,
    created1: i64,
    title2: String,
    abbreviation2: String,
    description2: Option<String>,
    image2: Option<String>,
    owner2: i64,
    role2: i64,
    system2: Option<i32>,
    channel2: Option<i64>,
    created2: i64,
)
    requires
        title1@ == title2@,
        !s0.spec_game_title_taken(guild_id, title1@),
        spec_create_game_outcome(
            s0,
            s1,
            r1,
            guild_id,
            title1,
            abbreviation1,
            description1,
            image1,
            owner1,
            role1,
            system1,
            channel1,
            created1,
        ),
        spec_create_game_outcome(
            s1,
            s2,
            r2,
            guild_id,
            title2,
            abbreviation2,
            description2,
            image2,
            owner2,
            role2,
            system2,
            channel2,
            created2,
        ),
    ensures
        !(r1 is Ok && r2 is Ok),
        r1 is Ok ==> r2 == Err::<i32, Error>(Error::Conflict(ConflictField::Title)) && s2 == s1,
        r1 is Ok ==> s2.spec_game_title_taken(guild_id, title1@),
{
    if r1 is Ok {
        let n0 = s0.games@.len() as int;
        assert(s1.games@[n0].guild_id == guild_id && s1.games@[n0].title@ == title1@);
        assert(s1.spec_game_title_taken(guild_id, title2@));
    }
}

/// What editing a game leaves behind: a missing row or a clash with
/// another game fails atomically; success rewrites the editable fields.
pub open spec fn spec_edit_game_outcome(
    prev: Store,
    cur: Store,
    r: Result<(), Error>,
    guild_id: i64,
    id: i32,
    title: String,
    abbreviation: String,
    description: Option<String>,
    image: Option<String>,
) -> bool {
    &&& !prev.spec_has_game(guild_id, id) ==> r == Err::<(), Error>(Error::NotFound)
            && cur == prev
    &&& prev.spec_has_game(guild_id, id) && prev.spec_game_title_taken_by_other(
            guild_id,
            title@,
            id,
        ) ==> r == Err::<(), Error>(Error::Conflict(ConflictField::Title)) && cur
            == prev
    &&& prev.spec_has_game(guild_id, id) && !prev.spec_game_title_taken_by_other(
            guild_id,
            title@,
            id,
        ) && prev.spec_game_abbr_taken_by_other(guild_id, abbreviation@, id) ==> r
            == Err::<(), Error>(Error::Conflict(ConflictField::Abbreviation)) && cur
            == prev
    &&& prev.spec_has_game(guild_id, id) && !prev.spec_game_title_taken_by_other(
            guild_id,
            title@,
            id,
        ) && !prev.spec_game_abbr_taken_by_other(guild_id, abbreviation@, id) ==> {
            &&& r == Ok::<(), Error>(())
            &&& cur.games@.len() == prev.games@.len()
            &&& cur.games@ == prev.games@.update(
                prev.spec_game_idx(guild_id, id),
                (Game {
                    title,
                    abbreviation,
                    description,
                    image,
                    ..prev.games@[prev.spec_game_idx(guild_id, id)]
                }),
            )
            &&& cur.systems == prev.systems
            &&& cur.characters == prev.characters
            &&& cur.players == prev.players
            &&& cur.next_game_id == prev.next_game_id
        }
}

/// What binding a home channel leaves behind: at most one game per guild
/// may hold a channel.
pub open spec fn spec_set_channel_outcome(
    prev: Store,
    cur: Store,
    r: Result<(), Error>,
    guild_id: i64,
    id: i32,
    channel_id: i64,
) -> bool {
    &&& !prev.spec_has_game(guild_id, id) ==> r == Err::<(), Error>(Error::NotFound)
            && cur == prev
    &&& prev.spec_has_game(guild_id, id) && prev.spec_channel_taken_by_other(
            guild_id,
            channel_id,
            id,
        ) ==> r == Err::<(), Error>(Error::Conflict(ConflictField::Channel)) && cur
            == prev
    &&& prev.spec_has_game(guild_id, id) && !prev.spec_channel_taken_by_other(
            guild_id,
            channel_id,
            id,
        ) ==> {
            &&& r == Ok::<(), Error>(())
            &&& cur.games@ == prev.games@.update(
                prev.spec_game_idx(guild_id, id),
                (Game {
                    main_channel_id: Some(channel_id),
                    ..prev.games@[prev.spec_game_idx(guild_id, id)]
                }),
            )
            &&& cur.systems == prev.systems
            &&& cur.characters == prev.characters
            &&& cur.players == prev.players
            &&& cur.next_game_id == prev.next_game_id
        }
}

/// What unbinding a home channel leaves behind.
pub open spec fn spec_unset_channel_outcome(
    prev: Store,
    cur: Store,
    r: Result<(), Error>,
    guild_id: i64,
    id: i32,
) -> bool {
    &&& !prev.spec_has_game(guild_id, id) ==> r == Err::<(), Error>(Error::NotFound)
            && cur == prev
    &&& prev.spec_has_game(guild_id, id) ==> {
            &&& r == Ok::<(), Error>(())
            &&& cur.games@ == prev.games@.update(
                prev.spec_game_idx(guild_id, id),
                (Game {
                    main_channel_id: None,
                    ..prev.games@[prev.spec_game_idx(guild_id, id)]
                }),
            )
            &&& cur.systems == prev.systems
            &&& cur.characters == prev.characters
            &&& cur.players == prev.players
            &&& cur.next_game_id == prev.next_game_id
        }
}

/// What pointing a game at a system leaves behind; the system must exist
/// in the same guild.
pub open spec fn spec_set_system_outcome(
    prev: Store,
    cur: Store,
    r: Result<(), Error>,
    guild_id: i64,
    id: i32,
    system_id: i32,
) -> bool {
    &&& !prev.spec_has_game(guild_id, id) ==> r == Err::<(), Error>(Error::NotFound)
            && cur == prev
    &&& prev.spec_has_game(guild_id, id) && !prev.spec_has_system(
            guild_id,
            system_id,
        ) ==> r == Err::<(), Error>(Error::NotFound) && cur == prev
    &&& prev.spec_has_game(guild_id, id) && prev.spec_has_system(
            guild_id,
            system_id,
        ) ==> {
            &&& r == Ok::<(), Error>(())
            &&& cur.games@ == prev.games@.update(
                prev.spec_game_idx(guild_id, id),
                (Game {
                    system_id: Some(system_id),
                    ..prev.games@[prev.spec_game_idx(guild_id, id)]
                }),
            )
            &&& cur.systems == prev.systems
            &&& cur.characters == prev.characters
            &&& cur.players == prev.players
            &&& cur.next_game_id == prev.next_game_id
        }
}

/// What clearing a game's system reference leaves behind.
pub open spec fn spec_unset_system_outcome(
    prev: Store,
    cur: Store,
    r: Result<(), Error>,
    guild_id: i64,
    id: i32,
) -> bool {
    &&& !prev.spec_has_game(guild_id, id) ==> r == Err::<(), Error>(Error::NotFound)
            && cur == prev
    &&& prev.spec_has_game(guild_id, id) ==> {
            &&& r == Ok::<(), Error>(())
            &&& cur.games@ == prev.games@.update(
                prev.spec_game_idx(guild_id, id),
                (Game {
                    system_id: None,
                    ..prev.games@[prev.spec_game_idx(guild_id, id)]
                }),
            )
            &&& cur.systems == prev.systems
            &&& cur.characters == prev.characters
            &&& cur.players == prev.players
            &&& cur.next_game_id == prev.next_game_id
        }
}

/// What an ownership transfer leaves behind: the departing owner is
/// enrolled as a player unless they chose to leave (and must not already
/// be one), and the new owner's own player row is dropped.
pub open spec fn spec_transfer_game_outcome(
    prev: Store,
    cur: Store,
    r: Result<(), Error>,
    guild_id: i64,
    id: i32,
    new_owner: i64,
    also_leave: bool,
) -> bool {
    &&& !prev.spec_has_game(guild_id, id) ==> r == Err::<(), Error>(Error::NotFound)
            && cur == prev
    &&& prev.spec_has_game(guild_id, id) && !also_leave && prev.spec_has_player(
            id,
            prev.games@[prev.spec_game_idx(guild_id, id)].owner_id,
        ) ==> r == Err::<(), Error>(Error::Conflict(ConflictField::PlayerInGame))
            && cur == prev
    &&& prev.spec_has_game(guild_id, id) && (also_leave || !prev.spec_has_player(
            id,
            prev.games@[prev.spec_game_idx(guild_id, id)].owner_id,
        )) ==> {
            let gidx = prev.spec_game_idx(guild_id, id);
            let enrolled = if also_leave {
                prev.players@
            } else {
                prev.players@.push(
                    (Player {
                        game_id: id,
                        user_id: prev.games@[gidx].owner_id,
                        character_id: None,
                    }),
                )
            };
            &&& r == Ok::<(), Error>(())
            &&& cur.games@ == prev.games@.update(
                gidx,
                (Game { owner_id: new_owner, ..prev.games@[gidx] }),
            )
            &&& cur.players@ == (if spec_pair_in(enrolled, id, new_owner) {
                enrolled.remove(spec_pair_idx(enrolled, id, new_owner))
            } else {
                enrolled
            })
            &&& cur.systems == prev.systems
            &&& cur.characters == prev.characters
        }
}

/// What enrolling a player leaves behind: one fresh unassigned row per
/// (game, user) pair.
pub open spec fn spec_add_player_outcome(
    prev: Store,
    cur: Store,
    r: Result<(), Error>,
    guild_id: i64,
    game_id: i32,
    user_id: i64,
) -> bool {
    &&& !prev.spec_has_game(guild_id, game_id) ==> r == Err::<(), Error>(Error::NotFound)
            && cur == prev
    &&& prev.spec_has_game(guild_id, game_id) && prev.spec_has_player(
            game_id,
            user_id,
        ) ==> r == Err::<(), Error>(Error::Conflict(ConflictField::PlayerInGame))
            && cur == prev
    &&& prev.spec_has_game(guild_id, game_id) && !prev.spec_has_player(
            game_id,
            user_id,
        ) ==> {
            &&& r == Ok::<(), Error>(())
            &&& cur.players@ == prev.players@.push(
                (Player { game_id, user_id, character_id: None }),
            )
            &&& cur.systems == prev.systems
            &&& cur.games == prev.games
            &&& cur.characters == prev.characters
        }
}

/// What removing a player leaves behind.
pub open spec fn spec_remove_player_outcome(
    prev: Store,
    cur: Store,
    r: Result<(), Error>,
    guild_id: i64,
    game_id: i32,
    user_id: i64,
) -> bool {
    &&& !(prev.spec_has_game(guild_id, game_id) && prev.spec_has_player(
            game_id,
            user_id,
        )) ==> r == Err::<(), Error>(Error::NotFound) && cur == prev
    &&& prev.spec_has_game(guild_id, game_id) && prev.spec_has_player(
            game_id,
            user_id,
        ) ==> {
            &&& r == Ok::<(), Error>(())
            &&& cur.players@ == prev.players@.remove(
                prev.spec_player_idx(game_id, user_id),
            )
            &&& cur.systems == prev.systems
            &&& cur.games == prev.games
            &&& cur.characters == prev.characters
        }
}

/// What an assignment leaves behind: the character and the player row must
/// exist, nobody else may hold the character, and the write replaces
/// whatever that player held before.
pub open spec fn spec_assign_character_outcome(
    prev: Store,
    cur: Store,
    r: Result<(), Error>,
    guild_id: i64,
    character_id: i32,
    user_id: i64,
) -> bool {
    &&& !prev.spec_has_character(guild_id, character_id) ==> r == Err::<(), Error>(
            Error::NotFound,
        ) && cur == prev
    &&& prev.spec_has_character(guild_id, character_id) && !prev.spec_has_player(
            prev.characters@[prev.spec_character_idx(guild_id, character_id)].game_id,
            user_id,
        ) ==> r == Err::<(), Error>(Error::NotFound) && cur == prev
    &&& ({
            let game_id = prev.characters@[prev.spec_character_idx(
                guild_id,
                character_id,
            )].game_id;
            prev.spec_has_character(guild_id, character_id) && prev.spec_has_player(
                game_id,
                user_id,
            ) && prev.spec_char_assigned(character_id) && prev.spec_assignment_idx(
                character_id,
            ) != prev.spec_player_idx(game_id, user_id)
        }) ==> r == Err::<(), Error>(Error::Conflict(ConflictField::Assignment))
            && cur == prev
    &&& ({
            let game_id = prev.characters@[prev.spec_character_idx(
                guild_id,
                character_id,
            )].game_id;
            prev.spec_has_character(guild_id, character_id) && prev.spec_has_player(
                game_id,
                user_id,
            ) && (!prev.spec_char_assigned(character_id) || prev.spec_assignment_idx(character_id) == prev.spec_player_idx(game_id, user_id))
        }) ==> {
            let game_id = prev.characters@[prev.spec_character_idx(
                guild_id,
                character_id,
            )].game_id;
            let pidx = prev.spec_player_idx(game_id, user_id);
            &&& r == Ok::<(), Error>(())
            &&& cur.players@ == prev.players@.update(
                pidx,
                (Player { character_id: Some(character_id), ..prev.players@[pidx] }),
            )
            &&& cur.systems == prev.systems
            &&& cur.games == prev.games
            &&& cur.characters == prev.characters
        }
}

/// What a release leaves behind: the holding row, if any, is cleared.
pub open spec fn spec_release_character_outcome(
    prev: Store,
    cur: Store,
    r: Result<(), Error>,
    guild_id: i64,
    character_id: i32,
) -> bool {
    &&& !(prev.spec_has_character(guild_id, character_id) && prev.spec_char_assigned(character_id)) ==> r == Err::<(), Error>(Error::NotFound)
            && cur == prev
    &&& prev.spec_has_character(guild_id, character_id) && prev.spec_char_assigned(
            character_id,
        ) ==> {
            let pidx = prev.spec_assignment_idx(character_id);
            &&& r == Ok::<(), Error>(())
            &&& cur.players@ == prev.players@.update(
                pidx,
                (Player { character_id: None, ..prev.players@[pidx] }),
            )
            &&& cur.systems == prev.systems
            &&& cur.games == prev.games
            &&& cur.characters == prev.characters
        }
}

/// What creating a character leaves behind: one fresh row per unique name
/// in the game, auto-assigned to its author exactly when they sit in the
/// roster with no character.
pub open spec fn spec_create_character_outcome(
    prev: Store,
    cur: Store,
    r: Result<(i32, bool), Error>,
    guild_id: i64,
    game_id: i32,
    author_id: i64,
    name: String,
    pronouns: Option<String>,
    description: Option<String>,
    image: Option<String>,
) -> bool {
    &&& !prev.spec_has_game(guild_id, game_id) ==> r == Err::<(i32, bool), Error>(
            Error::NotFound,
        ) && cur == prev
    &&& prev.spec_has_game(guild_id, game_id) && prev.spec_char_name_taken(
            game_id,
            name@,
        ) ==> r == Err::<(i32, bool), Error>(Error::Conflict(ConflictField::CharacterName))
            && cur == prev
    &&& prev.spec_has_game(guild_id, game_id) && !prev.spec_char_name_taken(
            game_id,
            name@,
        ) && prev.next_character_id == i32::MAX ==> r == Err::<(i32, bool), Error>(
            Error::Internal,
        ) && cur == prev
    &&& prev.spec_has_game(guild_id, game_id) && !prev.spec_char_name_taken(
            game_id,
            name@,
        ) && prev.next_character_id < i32::MAX ==> {
            let auto = prev.spec_has_player(game_id, author_id) && prev.players@[prev.spec_player_idx(game_id, author_id)].character_id is None;
            let cid = prev.next_character_id;
            &&& r == Ok::<(i32, bool), Error>((cid, auto))
            &&& cur.characters@ == prev.characters@.push(
                (Character {
                    id: cid,
                    guild_id,
                    game_id,
                    author_id,
                    name,
                    pronouns,
                    description,
                    image,
                }),
            )
            &&& cur.next_character_id == cid + 1
            &&& cur.players@ == (if auto {
                prev.players@.update(
                    prev.spec_player_idx(game_id, author_id),
                    (Player {
                        character_id: Some(cid),
                        ..prev.players@[prev.spec_player_idx(game_id, author_id)]
                    }),
                )
            } else {
                prev.players@
            })
            &&& cur.systems == prev.systems
            &&& cur.games == prev.games
        }
}

/// What editing a character leaves behind: a missing row or a name clash
/// within its game fails atomically; success rewrites the editable fields.
pub open spec fn spec_edit_character_outcome(
    prev: Store,
    cur: Store,
    r: Result<(), Error>,
    guild_id: i64,
    id: i32,
    name: String,
    pronouns: Option<String>,
    description: Option<String>,
    image: Option<String>,
) -> bool {
    &&& !prev.spec_has_character(guild_id, id) ==> r == Err::<(), Error>(Error::NotFound)
            && cur == prev
    &&& prev.spec_has_character(guild_id, id) && prev.spec_char_name_taken_by_other(
            prev.characters@[prev.spec_character_idx(guild_id, id)].game_id,
            name@,
            id,
        ) ==> r == Err::<(), Error>(Error::Conflict(ConflictField::CharacterName))
            && cur == prev
    &&& prev.spec_has_character(guild_id, id) && !prev.spec_char_name_taken_by_other(
            prev.characters@[prev.spec_character_idx(guild_id, id)].game_id,
            name@,
            id,
        ) ==> {
            let cidx = prev.spec_character_idx(guild_id, id);
            &&& r == Ok::<(), Error>(())
            &&& cur.characters@ == prev.characters@.update(
                cidx,
                (Character {
                    name,
                    pronouns,
                    description,
                    image,
                    ..prev.characters@[cidx]
                }),
            )
            &&& cur.systems == prev.systems
            &&& cur.games == prev.games
            &&& cur.players == prev.players
            &&& cur.next_character_id == prev.next_character_id
        }
}

/// What deleting a character leaves behind: the row goes and the holding
/// player, if any, is released first.
pub open spec fn spec_delete_character_outcome(
    prev: Store,
    cur: Store,
    r: Result<(), Error>,
    guild_id: i64,
    id: i32,
) -> bool {
    &&& !prev.spec_has_character(guild_id, id) ==> r == Err::<(), Error>(Error::NotFound)
            && cur == prev
    &&& prev.spec_has_character(guild_id, id) ==> {
            &&& r == Ok::<(), Error>(())
            &&& cur.characters@ == prev.characters@.remove(
                prev.spec_character_idx(guild_id, id),
            )
            &&& cur.players@ == (if prev.spec_char_assigned(id) {
                prev.players@.update(
                    prev.spec_assignment_idx(id),
                    (Player {
                        character_id: None,
                        ..prev.players@[prev.spec_assignment_idx(id)]
                    }),
                )
            } else {
                prev.players@
            })
            &&& cur.systems == prev.systems
            &&& cur.games == prev.games
            &&& cur.next_character_id == prev.next_character_id
        }
}

/// What deleting a game leaves behind: the row goes and its characters and
/// players go with it.
pub open spec fn spec_delete_game_outcome(
    prev: Store,
    cur: Store,
    r: Result<(), Error>,
    guild_id: i64,
    id: i32,
) -> bool {
    &&& !prev.spec_has_game(guild_id, id) ==> r == Err::<(), Error>(Error::NotFound)
            && cur == prev
    &&& prev.spec_has_game(guild_id, id) ==> {
            &&& r == Ok::<(), Error>(())
            &&& cur.games@ == prev.games@.remove(
                prev.spec_game_idx(guild_id, id),
            )
            &&& cur.characters@ == prev.characters@.filter(
                |c: Character| c.game_id != id,
            )
            &&& cur.players@ == prev.players@.filter(
                |p: Player| p.game_id != id,
            )
            &&& cur.systems == prev.systems
            &&& cur.next_game_id == prev.next_game_id
        }
}

/// A game with its system reference cleared when it pointed at `id`.
pub open spec fn spec_detach(g: Game, id: i32) -> Game {
    if g.system_id == Some(id) {
        Game { system_id: None, ..g }
    } else {
        g
    }
}

impl Store {
    /// System ids are unique and below the counter; titles and abbreviations
    /// are unique per guild.
    pub open spec fn systems_wf(self) -> bool {
        &&& 0 < self.next_system_id
        &&& forall|i: int|
            0 <= i < self.systems@.len() ==> 0 <= #[trigger] self.systems@[i].id
                < self.next_system_id
        &&& forall|i: int, j: int|
            #![trigger self.systems@[i], self.systems@[j]]
            0 <= i < self.systems@.len() && 0 <= j < self.systems@.len() && i != j ==> {
                &&& self.systems@[i].id != self.systems@[j].id
                &&& self.systems@[i].guild_id == self.systems@[j].guild_id ==> {
                    &&& self.systems@[i].title@ != self.systems@[j].title@
                    &&& self.systems@[i].abbreviation@ != self.systems@[j].abbreviation@
                }
            }
    }

    /// Game ids are unique and below the counter; titles, abbreviations and
    /// bound home channels are unique per guild; a referenced system exists
    /// in the same guild.
    pub open spec fn games_wf(self) -> bool {
        &&& 0 < self.next_game_id
        &&& forall|i: int|
            0 <= i < self.games@.len() ==> 0 <= #[trigger] self.games@[i].id < self.next_game_id
        &&& forall|i: int, j: int|
            #![trigger self.games@[i], self.games@[j]]
            0 <= i < self.games@.len() && 0 <= j < self.games@.len() && i != j ==> {
                &&& self.games@[i].id != self.games@[j].id
                &&& self.games@[i].guild_id == self.games@[j].guild_id ==> {
                    &&& self.games@[i].title@ != self.games@[j].title@
                    &&& self.games@[i].abbreviation@ != self.games@[j].abbreviation@
                    &&& self.games@[i].main_channel_id is Some
                        ==> self.games@[i].main_channel_id != self.games@[j].main_channel_id
                }
            }
        &&& forall|i: int|
            #![trigger self.games@[i]]
            0 <= i < self.games@.len() && self.games@[i].system_id is Some
                ==> self.spec_has_system(self.games@[i].guild_id, self.games@[i].system_id->0)
    }

    /// Character ids are unique and below the counter; the owning game exists
    /// in the same guild; names are unique within a game.
    pub open spec fn characters_wf(self) -> bool {
        &&& 0 < self.next_character_id
        &&& forall|i: int|
            0 <= i < self.characters@.len() ==> 0 <= #[trigger] self.characters@[i].id
                < self.next_character_id
        &&& forall|i: int, j: int|
            #![trigger self.characters@[i], self.characters@[j]]
            0 <= i < self.characters@.len() && 0 <= j < self.characters@.len() && i != j ==> {
                &&& self.characters@[i].id != self.characters@[j].id
                &&& self.characters@[i].game_id == self.characters@[j].game_id
                    ==> self.characters@[i].name@ != self.characters@[j].name@
            }
        &&& forall|i: int|
            #![trigger self.characters@[i]]
            0 <= i < self.characters@.len() ==> self.spec_has_game(
                self.characters@[i].guild_id,
                self.characters@[i].game_id,
            )
    }

    /// At most one row per (game, user) pair; an assigned character exists,
    /// belongs to the same game, and is assigned to at most one player; the
    /// row's game exists.
    pub open spec fn players_wf(self) -> bool {
        &&& forall|i: int, j: int|
            #![trigger self.players@[i], self.players@[j]]
            0 <= i < self.players@.len() && 0 <= j < self.players@.len() && i != j ==> {
                &&& !(self.players@[i].game_id == self.players@[j].game_id
                    && self.players@[i].user_id == self.players@[j].user_id)
                &&& self.players@[i].character_id is Some ==> self.players@[i].character_id
                    != self.players@[j].character_id
            }
        &&& forall|i: int|
            #![trigger self.players@[i]]
            0 <= i < self.players@.len() ==> {
                &&& self.players@[i].character_id is Some ==> self.spec_char_row_in_game(
                    self.players@[i].character_id->0,
                    self.players@[i].game_id,
                )
                &&& self.spec_game_row_exists(self.players@[i].game_id)
            }
    }

    /// The invariants of the whole store, §-by-§ the rules the real store's
    /// constraints enforce.
    pub open spec fn wf(self) -> bool {
        &&& self.systems_wf()
        &&& self.games_wf()
        &&& self.characters_wf()
        &&& self.players_wf()
    }

    /// An empty store: no rows, counters at 1.
    pub fn new() -> (r: Store)
        ensures
            r.wf(),
            r.systems@.len() == 0,
            r.games@.len() == 0,
            r.characters@.len() == 0,
            r.players@.len() == 0,
            r.next_system_id == 1,
            r.next_game_id == 1,
            r.next_character_id == 1,
    {
        Store {
            systems: Vec::new(),
            games: Vec::new(),
            characters: Vec::new(),
            players: Vec::new(),
            next_system_id: 1,
            next_game_id: 1,
            next_character_id: 1,
        }
    }

    // ---- existence predicates -------------------------------------------

    pub open spec fn spec_has_system(self, guild_id: i64, id: i32) -> bool {
        exists|k: int|
            0 <= k < self.systems@.len() && #[trigger] self.systems@[k].guild_id == guild_id
                && self.systems@[k].id == id
    }

    pub open spec fn spec_has_game(self, guild_id: i64, id: i32) -> bool {
        exists|k: int|
            0 <= k < self.games@.len() && #[trigger] self.games@[k].guild_id == guild_id
                && self.games@[k].id == id
    }

    pub open spec fn spec_has_character(self, guild_id: i64, id: i32) -> bool {
        exists|k: int|
            0 <= k < self.characters@.len() && #[trigger] self.characters@[k].guild_id == guild_id
                && self.characters@[k].id == id
    }

    pub open spec fn spec_has_player(self, game_id: i32, user_id: i64) -> bool {
        exists|k: int|
            0 <= k < self.players@.len() && #[trigger] self.players@[k].game_id == game_id
                && self.players@[k].user_id == user_id
    }

    /// Some game row (in any guild) carries this id; player rows reference
    /// games by id alone.
    pub open spec fn spec_game_row_exists(self, game_id: i32) -> bool {
        exists|k: int| 0 <= k < self.games@.len() && #[trigger] self.games@[k].id == game_id
    }

    /// Some character row carries this id and belongs to this game.
    pub open spec fn spec_char_row_in_game(self, character_id: i32, game_id: i32) -> bool {
        exists|k: int|
            0 <= k < self.characters@.len() && #[trigger] self.characters@[k].id == character_id
                && self.characters@[k].game_id == game_id
    }

    // ---- canonical indices (well defined because ids are unique) --------

    pub open spec fn spec_system_idx(self, guild_id: i64, id: i32) -> int {
        choose|k: int|
            0 <= k < self.systems@.len() && #[trigger] self.systems@[k].guild_id == guild_id
                && self.systems@[k].id == id
    }

    pub open spec fn spec_game_idx(self, guild_id: i64, id: i32) -> int {
        choose|k: int|
            0 <= k < self.games@.len() && #[trigger] self.games@[k].guild_id == guild_id
                && self.games@[k].id == id
    }

    pub open spec fn spec_character_idx(self, guild_id: i64, id: i32) -> int {
        choose|k: int|
            0 <= k < self.characters@.len() && #[trigger] self.characters@[k].guild_id == guild_id
                && self.characters@[k].id == id
    }

    pub open spec fn spec_player_idx(self, game_id: i32, user_id: i64) -> int {
        choose|k: int|
            0 <= k < self.players@.len() && #[trigger] self.players@[k].game_id == game_id
                && self.players@[k].user_id == user_id
    }

    // ---- uniqueness probes ----------------------------------------------

    pub open spec fn spec_sys_title_taken(self, guild_id: i64, title: Seq<char>) -> bool {
        exists|k: int|
            0 <= k < self.systems@.len() && #[trigger] self.systems@[k].guild_id == guild_id
                && self.systems@[k].title@ == title
    }

    pub open spec fn spec_sys_abbr_taken(self, guild_id: i64, abbr: Seq<char>) -> bool {
        exists|k: int|
            0 <= k < self.systems@.len() && #[trigger] self.systems@[k].guild_id == guild_id
                && self.systems@[k].abbreviation@ == abbr
    }

    pub open spec fn spec_game_title_taken(self, guild_id: i64, title: Seq<char>) -> bool {
        exists|k: int|
            0 <= k < self.games@.len() && #[trigger] self.games@[k].guild_id == guild_id
                && self.games@[k].title@ == title
    }

    pub open spec fn spec_game_abbr_taken(self, guild_id: i64, abbr: Seq<char>) -> bool {
        exists|k: int|
            0 <= k < self.games@.len() && #[trigger] self.games@[k].guild_id == guild_id
                && self.games@[k].abbreviation@ == abbr
    }

    pub open spec fn spec_channel_taken(self, guild_id: i64, channel_id: i64) -> bool {
        exists|k: int|
            0 <= k < self.games@.len() && #[trigger] self.games@[k].guild_id == guild_id
                && self.games@[k].main_channel_id == Some(channel_id)
    }

    pub open spec fn spec_char_name_taken(self, game_id: i32, name: Seq<char>) -> bool {
        exists|k: int|
            0 <= k < self.characters@.len() && #[trigger] self.characters@[k].game_id == game_id
                && self.characters@[k].name@ == name
    }

    /// Whether some player currently has this character assigned.
    pub open spec fn spec_char_assigned(self, character_id: i32) -> bool {
        exists|k: int|
            0 <= k < self.players@.len() && #[trigger] self.players@[k].character_id == Some(
                character_id,
            )
    }

    pub open spec fn spec_assignment_idx(self, character_id: i32) -> int {
        choose|k: int|
            0 <= k < self.players@.len() && #[trigger] self.players@[k].character_id == Some(
                character_id,
            )
    }

    /// The game, if any, whose home channel is `channel_id` in this guild.
    pub open spec fn spec_channel_game_idx(self, guild_id: i64, channel_id: i64) -> int {
        choose|k: int|
            0 <= k < self.games@.len() && #[trigger] self.games@[k].guild_id == guild_id
                && self.games@[k].main_channel_id == Some(channel_id)
    }

    // ---- executable finders ---------------------------------------------

    /// Index of the system `id` in `guild_id`, if present.
    pub fn find_system(&self, guild_id: i64, id: i32) -> (r: Option<usize>)
        ensures
            match r {
                Some(k) => k < self.systems@.len() && self.systems@[k as int].guild_id == guild_id
                    && self.systems@[k as int].id == id,
                None => !self.spec_has_system(guild_id, id),
            },
            r is Some == self.spec_has_system(guild_id, id),
    {
        let n = self.systems.len();
        let mut i: usize = 0;
        while i < n
            invariant
                n == self.systems@.len(),
                i <= n,
                forall|j: int|
                    0 <= j < i ==> !(#[trigger] self.systems@[j].guild_id == guild_id
                        && self.systems@[j].id == id),
            decreases n - i,
        {
            if self.systems[i].guild_id == guild_id && self.systems[i].id == id {
                return Some(i);
            }
            i += 1;
        }
        None
    }

    /// Index of the game `id` in `guild_id`, if present.
    pub fn find_game(&self, guild_id: i64, id: i32) -> (r: Option<usize>)
        ensures
            match r {
                Some(k) => k < self.games@.len() && self.games@[k as int].guild_id == guild_id
                    && self.games@[k as int].id == id,
                None => !self.spec_has_game(guild_id, id),
            },
            r is Some == self.spec_has_game(guild_id, id),
    {
        let n = self.games.len();
        let mut i: usize = 0;
        while i < n
            invariant
                n == self.games@.len(),
                i <= n,
                forall|j: int|
                    0 <= j < i ==> !(#[trigger] self.games@[j].guild_id == guild_id
                        && self.games@[j].id == id),
            decreases n - i,
        {
            if self.games[i].guild_id == guild_id && self.games[i].id == id {
                return Some(i);
            }
            i += 1;
        }
        None
    }

    /// Index of the character `id` in `guild_id`, if present.
    pub fn find_character(&self, guild_id: i64, id: i32) -> (r: Option<usize>)
        ensures
            match r {
                Some(k) => k < self.characters@.len() && self.characters@[k as int].guild_id
                    == guild_id && self.characters@[k as int].id == id,
                None => !self.spec_has_character(guild_id, id),
            },
            r is Some == self.spec_has_character(guild_id, id),
    {
        let n = self.characters.len();
        let mut i: usize = 0;
        while i < n
            invariant
                n == self.characters@.len(),
                i <= n,
                forall|j: int|
                    0 <= j < i ==> !(#[trigger] self.characters@[j].guild_id == guild_id
                        && self.characters@[j].id == id),
            decreases n - i,
        {
            if self.characters[i].guild_id == guild_id && self.characters[i].id == id {
                return Some(i);
            }
            i += 1;
        }
        None
    }

    /// Index of the (game, user) player row, if present.
    pub fn find_player(&self, game_id: i32, user_id: i64) -> (r: Option<usize>)
        ensures
            match r {
                Some(k) => k < self.players@.len() && self.players@[k as int].game_id == game_id
                    && self.players@[k as int].user_id == user_id,
                None => !self.spec_has_player(game_id, user_id),
            },
            r is Some == self.spec_has_player(game_id, user_id),
    {
        let n = self.players.len();
        let mut i: usize = 0;
        while i < n
            invariant
                n == self.players@.len(),
                i <= n,
                forall|j: int|
                    0 <= j < i ==> !(#[trigger] self.players@[j].game_id == game_id
                        && self.players@[j].user_id == user_id),
            decreases n - i,
        {
            if self.players[i].game_id == game_id && self.players[i].user_id == user_id {
                return Some(i);
            }
            i += 1;
        }
        None
    }

    /// Index of the player row currently assigned this character, if any.
    pub fn find_assignment(&self, character_id: i32) -> (r: Option<usize>)
        ensures
            match r {
                Some(k) => k < self.players@.len() && self.players@[k as int].character_id
                    == Some(character_id),
                None => !self.spec_char_assigned(character_id),
            },
            r is Some == self.spec_char_assigned(character_id),
    {
        let n = self.players.len();
        let mut i: usize = 0;
        while i < n
            invariant
                n == self.players@.len(),
                i <= n,
                forall|j: int|
                    0 <= j < i ==> #[trigger] self.players@[j].character_id != Some(character_id),
            decreases n - i,
        {
            match self.players[i].character_id {
                Some(c) => {
                    if c == character_id {
                        return Some(i);
                    }
                },
                None => {},
            }
            i += 1;
        }
        None
    }

    /// Whether some system in `guild_id` already uses this title.
    pub fn system_title_taken(&self, guild_id: i64, title: &String) -> (r: bool)
        ensures
            r == self.spec_sys_title_taken(guild_id, title@),
    {
        let n = self.systems.len();
        let mut i: usize = 0;
        while i < n
            invariant
                n == self.systems@.len(),
                i <= n,
                forall|j: int|
                    0 <= j < i ==> !(#[trigger] self.systems@[j].guild_id == guild_id
                        && self.systems@[j].title@ == title@),
            decreases n - i,
        {
            if self.systems[i].guild_id == guild_id && self.systems[i].title == *title {
                return true;
            }
            i += 1;
        }
        false
    }

    /// Whether some system in `guild_id` already uses this abbreviation.
    pub fn system_abbr_taken(&self, guild_id: i64, abbr: &String) -> (r: bool)
        ensures
            r == self.spec_sys_abbr_taken(guild_id, abbr@),
    {
        let n = self.systems.len();
        let mut i: usize = 0;
        while i < n
            invariant
                n == self.systems@.len(),
                i <= n,
                forall|j: int|
                    0 <= j < i ==> !(#[trigger] self.systems@[j].guild_id == guild_id
                        && self.systems@[j].abbreviation@ == abbr@),
            decreases n - i,
        {
            if self.systems[i].guild_id == guild_id && self.systems[i].abbreviation == *abbr {
                return true;
            }
            i += 1;
        }
        false
    }

    /// Whether some game in `guild_id` already uses this title.
    pub fn game_title_taken(&self, guild_id: i64, title: &String) -> (r: bool)
        ensures
            r == self.spec_game_title_taken(guild_id, title@),
    {
        let n = self.games.len();
        let mut i: usize = 0;
        while i < n
            invariant
                n == self.games@.len(),
                i <= n,
                forall|j: int|
                    0 <= j < i ==> !(#[trigger] self.games@[j].guild_id == guild_id
                        && self.games@[j].title@ == title@),
            decreases n - i,
        {
            if self.games[i].guild_id == guild_id && self.games[i].title == *title {
                return true;
            }
            i += 1;
        }
        false
    }

    /// Whether some game in `guild_id` already uses this abbreviation.
    pub fn game_abbr_taken(&self, guild_id: i64, abbr: &String) -> (r: bool)
        ensures
            r == self.spec_game_abbr_taken(guild_id, abbr@),
    {
        let n = self.games.len();
        let mut i: usize = 0;
        while i < n
            invariant
                n == self.games@.len(),
                i <= n,
                forall|j: int|
                    0 <= j < i ==> !(#[trigger] self.games@[j].guild_id == guild_id
                        && self.games@[j].abbreviation@ == abbr@),
            decreases n - i,
        {
            if self.games[i].guild_id == guild_id && self.games[i].abbreviation == *abbr {
                return true;
            }
            i += 1;
        }
        false
    }

    /// Whether some character of `game_id` already uses this name.
    pub fn character_name_taken(&self, game_id: i32, name: &String) -> (r: bool)
        ensures
            r == self.spec_char_name_taken(game_id, name@),
    {
        let n = self.characters.len();
        let mut i: usize = 0;
        while i < n
            invariant
                n == self.characters@.len(),
                i <= n,
                forall|j: int|
                    0 <= j < i ==> !(#[trigger] self.characters@[j].game_id == game_id
                        && self.characters@[j].name@ == name@),
            decreases n - i,
        {
            if self.characters[i].game_id == game_id && self.characters[i].name == *name {
                return true;
            }
            i += 1;
        }
        false
    }

    /// Index of the game whose home channel is `channel_id` in `guild_id`.
    pub fn find_game_by_channel(&self, guild_id: i64, channel_id: i64) -> (r: Option<usize>)
        ensures
            match r {
                Some(k) => k < self.games@.len() && self.games@[k as int].guild_id == guild_id
                    && self.games@[k as int].main_channel_id == Some(channel_id),
                None => !self.spec_channel_taken(guild_id, channel_id),
            },
            r is Some == self.spec_channel_taken(guild_id, channel_id),
    {
        let n = self.games.len();
        let mut i: usize = 0;
        while i < n
            invariant
                n == self.games@.len(),
                i <= n,
                forall|j: int|
                    0 <= j < i ==> !(#[trigger] self.games@[j].guild_id == guild_id
                        && self.games@[j].main_channel_id == Some(channel_id)),
            decreases n - i,
        {
            if self.games[i].guild_id == guild_id {
                match self.games[i].main_channel_id {
                    Some(c) => {
                        if c == channel_id {
                            return Some(i);
                        }
                    },
                    None => {},
                }
            }
            i += 1;
        }
        None
    }

    /// The store-wide index of the character with this id, if any; ids are
    /// unique across guilds.
    pub fn find_character_by_id(&self, id: i32) -> (r: Option<usize>)
        ensures
            match r {
                Some(k) => k < self.characters@.len() && self.characters@[k as int].id == id,
                None => forall|k: int|
                    0 <= k < self.characters@.len() ==> #[trigger] self.characters@[k].id != id,
            },
    {
        let n = self.characters.len();
        let mut i: usize = 0;
        while i < n
            invariant
                n == self.characters@.len(),
                i <= n,
                forall|j: int| 0 <= j < i ==> #[trigger] self.characters@[j].id != id,
            decreases n - i,
        {
            if self.characters[i].id == id {
                return Some(i);
            }
            i += 1;
        }
        None
    }

    /// The name of the character with this id; callers must know it exists.
    pub open spec fn spec_char_name_by_id(self, id: i32) -> Seq<char> {
        let k = choose|k: int|
            0 <= k < self.characters@.len() && #[trigger] self.characters@[k].id == id;
        self.characters@[k].name@
    }

    /// A game's roster as (user, assigned character name) pairs, one per
    /// player row of the game, in roster order.
    pub fn roster_of(&self, game_id: i32) -> (r: Vec<(i64, Option<String>)>)
        requires
            self.wf(),
        ensures
            ({
                let ps = self.players@.filter(|p: Player| p.game_id == game_id);
                &&& r@.len() == ps.len()
                &&& forall|m: int|
                    #![trigger r@[m]]
                    0 <= m < ps.len() ==> {
                        &&& r@[m].0 == ps[m].user_id
                        &&& ps[m].character_id is None ==> r@[m].1 is None
                        &&& ps[m].character_id is Some ==> r@[m].1 is Some && r@[m].1->0@
                            == self.spec_char_name_by_id(ps[m].character_id->0)
                    }
            }),
    {
        let mut r: Vec<(i64, Option<String>)> = Vec::new();
        let n = self.players.len();
        let mut i: usize = 0;
        while i < n
            invariant
                self.wf(),
                n == self.players@.len(),
                i <= n,
                ({
                    let ps = self.players@.take(i as int).filter(
                        |p: Player| p.game_id == game_id,
                    );
                    &&& r@.len() == ps.len()
                    &&& forall|m: int|
                        #![trigger r@[m]]
                        0 <= m < ps.len() ==> {
                            &&& r@[m].0 == ps[m].user_id
                            &&& ps[m].character_id is None ==> r@[m].1 is None
                            &&& ps[m].character_id is Some ==> r@[m].1 is Some && r@[m].1->0@
                                == self.spec_char_name_by_id(ps[m].character_id->0)
                        }
                }),
            decreases n - i,
        {
            proof {
                lemma_filter_take_step(self.players@, |p: Player| p.game_id == game_id, i as int);
            }
            if self.players[i].game_id == game_id {
                let name: Option<String> = match self.players[i].character_id {
                    None => None,
                    Some(c) => {
                        let k = match self.find_character_by_id(c) {
                            Some(k) => k,
                            None => {
                                proof {
                                    assert(self.spec_char_row_in_game(
                                        c,
                                        self.players@[i as int].game_id,
                                    ));
                                    assert(false);
                                }
                                0
                            },
                        };
                        proof {
                            let kk = choose|kk: int|
                                0 <= kk < self.characters@.len()
                                    && #[trigger] self.characters@[kk].id == c;
                            if kk != k as int {
                                assert(self.characters@[kk].id != self.characters@[k as int].id);
                            }
                        }
                        Some(self.characters[k].name.clone())
                    },
                };
                let user_id = self.players[i].user_id;
                r.push((user_id, name));
            }
            i += 1;
        }
        proof {
            assert(self.players@.take(n as int) =~= self.players@);
        }
        r
    }

    /// The system (guild, id), for display.
    pub fn get_system(&self, guild_id: i64, id: i32) -> (r: Option<&System>)
        requires
            self.wf(),
        ensures
            match r {
                Some(s) => self.spec_has_system(guild_id, id) && *s == self.systems@[self.spec_system_idx(guild_id, id)],
                None => !self.spec_has_system(guild_id, id),
            },
    {
        match self.find_system(guild_id, id) {
            Some(k) => {
                proof {
                    self.lemma_system_idx_agrees(guild_id, id, k as int);
                }
                Some(&self.systems[k])
            },
            None => None,
        }
    }

    /// The game (guild, id), for display.
    pub fn get_game(&self, guild_id: i64, id: i32) -> (r: Option<&Game>)
        requires
            self.wf(),
        ensures
            match r {
                Some(g) => self.spec_has_game(guild_id, id) && *g == self.games@[self.spec_game_idx(guild_id, id)],
                None => !self.spec_has_game(guild_id, id),
            },
    {
        match self.find_game(guild_id, id) {
            Some(k) => {
                proof {
                    self.lemma_game_idx_agrees(guild_id, id, k as int);
                }
                Some(&self.games[k])
            },
            None => None,
        }
    }

    /// The character (guild, id), for display.
    pub fn get_character(&self, guild_id: i64, id: i32) -> (r: Option<&Character>)
        requires
            self.wf(),
        ensures
            match r {
                Some(c) => self.spec_has_character(guild_id, id) && *c == self.characters@[self.spec_character_idx(guild_id, id)],
                None => !self.spec_has_character(guild_id, id),
            },
    {
        match self.find_character(guild_id, id) {
            Some(k) => {
                proof {
                    self.lemma_character_idx_agrees(guild_id, id, k as int);
                }
                Some(&self.characters[k])
            },
            None => None,
        }
    }

    // ---- system writes ---------------------------------------------------

    /// Insert a new system, or fail atomically on a duplicate title or
    /// abbreviation in the same guild, naming the field checked first.
    pub fn create_system(
        &mut self,
        guild_id: i64,
        title: String,
        abbreviation: String,
        description: Option<String>,
        image: Option<String>,
    ) -> (r: Result<i32, Error>)
        requires
            old(self).wf(),
        ensures
            final(self).wf(),
            spec_create_system_outcome(
                *old(self),
                *final(self),
                r,
                guild_id,
                title,
                abbreviation,
                description,
                image,
            ),
    {
        if self.system_title_taken(guild_id, &title) {
            return Err(Error::Conflict(ConflictField::Title));
        }
        if self.system_abbr_taken(guild_id, &abbreviation) {
            return Err(Error::Conflict(ConflictField::Abbreviation));
        }
        if self.next_system_id == i32::MAX {
            return Err(Error::Internal);
        }
        let id = self.next_system_id;
        let sys = System { id, guild_id, title, abbreviation, description, image };
        self.systems.push(sys);
        self.next_system_id = id + 1;
        proof {
            self.lemma_games_wf_same_rows(*old(self));
            self.lemma_characters_wf_same_rows(*old(self));
            self.lemma_players_wf_same_rows(*old(self));
        }
        Ok(id)
    }

    /// Any index holding (guild, id) is the canonical one: ids are unique.
    pub proof fn lemma_system_idx_agrees(self, guild_id: i64, id: i32, k: int)
        requires
            self.systems_wf(),
            0 <= k < self.systems@.len(),
            self.systems@[k].guild_id == guild_id,
            self.systems@[k].id == id,
        ensures
            self.spec_has_system(guild_id, id),
            self.spec_system_idx(guild_id, id) == k,
    {
        let si = self.spec_system_idx(guild_id, id);
        assert(0 <= si < self.systems@.len() && self.systems@[si].guild_id == guild_id
            && self.systems@[si].id == id);
        if si != k {
            assert(self.systems@[si].id != self.systems@[k].id);
        }
    }

    /// Any index holding (guild, id) is the canonical one: ids are unique.
    pub proof fn lemma_game_idx_agrees(self, guild_id: i64, id: i32, k: int)
        requires
            self.games_wf(),
            0 <= k < self.games@.len(),
            self.games@[k].guild_id == guild_id,
            self.games@[k].id == id,
        ensures
            self.spec_has_game(guild_id, id),
            self.spec_game_idx(guild_id, id) == k,
    {
        let si = self.spec_game_idx(guild_id, id);
        assert(0 <= si < self.games@.len() && self.games@[si].guild_id == guild_id
            && self.games@[si].id == id);
        if si != k {
            assert(self.games@[si].id != self.games@[k].id);
        }
    }

    /// Any index of a game bound to (guild, channel) is the canonical one:
    /// a channel is bound to at most one game per guild.
    pub proof fn lemma_channel_game_idx_agrees(self, guild_id: i64, channel_id: i64, k: int)
        requires
            self.games_wf(),
            0 <= k < self.games@.len(),
            self.games@[k].guild_id == guild_id,
            self.games@[k].main_channel_id == Some(channel_id),
        ensures
            self.spec_channel_taken(guild_id, channel_id),
            self.spec_channel_game_idx(guild_id, channel_id) == k,
    {
        let si = self.spec_channel_game_idx(guild_id, channel_id);
        assert(0 <= si < self.games@.len() && self.games@[si].guild_id == guild_id
            && self.games@[si].main_channel_id == Some(channel_id));
        if si != k {
            assert(self.games@[si].main_channel_id != self.games@[k].main_channel_id);
        }
    }

    /// Any index holding (guild, id) is the canonical one: ids are unique.
    pub proof fn lemma_character_idx_agrees(self, guild_id: i64, id: i32, k: int)
        requires
            self.characters_wf(),
            0 <= k < self.characters@.len(),
            self.characters@[k].guild_id == guild_id,
            self.characters@[k].id == id,
        ensures
            self.spec_has_character(guild_id, id),
            self.spec_character_idx(guild_id, id) == k,
    {
        let si = self.spec_character_idx(guild_id, id);
        assert(0 <= si < self.characters@.len() && self.characters@[si].guild_id == guild_id
            && self.characters@[si].id == id);
        if si != k {
            assert(self.characters@[si].id != self.characters@[k].id);
        }
    }

    /// Any index holding the (game, user) pair is the canonical one.
    pub proof fn lemma_player_idx_agrees(self, game_id: i32, user_id: i64, k: int)
        requires
            self.players_wf(),
            0 <= k < self.players@.len(),
            self.players@[k].game_id == game_id,
            self.players@[k].user_id == user_id,
        ensures
            self.spec_has_player(game_id, user_id),
            self.spec_player_idx(game_id, user_id) == k,
    {
        let si = self.spec_player_idx(game_id, user_id);
        assert(0 <= si < self.players@.len() && self.players@[si].game_id == game_id
            && self.players@[si].user_id == user_id);
        if si != k {
            assert(!(self.players@[si].game_id == self.players@[k].game_id
                && self.players@[si].user_id == self.players@[k].user_id));
        }
    }

    /// Any index of a player row assigned this character is the canonical one.
    pub proof fn lemma_assignment_idx_agrees(self, character_id: i32, k: int)
        requires
            self.players_wf(),
            0 <= k < self.players@.len(),
            self.players@[k].character_id == Some(character_id),
        ensures
            self.spec_char_assigned(character_id),
            self.spec_assignment_idx(character_id) == k,
    {
        let si = self.spec_assignment_idx(character_id);
        assert(0 <= si < self.players@.len() && self.players@[si].character_id == Some(
            character_id,
        ));
        if si != k {
            assert(!(self.players@[si].game_id == self.players@[k].game_id
                && self.players@[si].user_id == self.players@[k].user_id));
        }
    }

    /// Whether another system (a different id) in `guild_id` uses this title.
    pub open spec fn spec_sys_title_taken_by_other(
        self,
        guild_id: i64,
        title: Seq<char>,
        id: i32,
    ) -> bool {
        exists|k: int|
            0 <= k < self.systems@.len() && #[trigger] self.systems@[k].guild_id == guild_id
                && self.systems@[k].title@ == title && self.systems@[k].id != id
    }

    /// Whether another system (a different id) in `guild_id` uses this
    /// abbreviation.
    pub open spec fn spec_sys_abbr_taken_by_other(
        self,
        guild_id: i64,
        abbr: Seq<char>,
        id: i32,
    ) -> bool {
        exists|k: int|
            0 <= k < self.systems@.len() && #[trigger] self.systems@[k].guild_id == guild_id
                && self.systems@[k].abbreviation@ == abbr && self.systems@[k].id != id
    }

    /// Whether another game (a different id) in `guild_id` uses this title.
    pub open spec fn spec_game_title_taken_by_other(
        self,
        guild_id: i64,
        title: Seq<char>,
        id: i32,
    ) -> bool {
        exists|k: int|
            0 <= k < self.games@.len() && #[trigger] self.games@[k].guild_id == guild_id
                && self.games@[k].title@ == title && self.games@[k].id != id
    }

    /// Whether another game (a different id) in `guild_id` uses this
    /// abbreviation.
    pub open spec fn spec_game_abbr_taken_by_other(
        self,
        guild_id: i64,
        abbr: Seq<char>,
        id: i32,
    ) -> bool {
        exists|k: int|
            0 <= k < self.games@.len() && #[trigger] self.games@[k].guild_id == guild_id
                && self.games@[k].abbreviation@ == abbr && self.games@[k].id != id
    }

    /// Whether another game (a different id) in `guild_id` is bound to this
    /// channel.
    pub open spec fn spec_channel_taken_by_other(
        self,
        guild_id: i64,
        channel_id: i64,
        id: i32,
    ) -> bool {
        exists|k: int|
            0 <= k < self.games@.len() && #[trigger] self.games@[k].guild_id == guild_id
                && self.games@[k].main_channel_id == Some(channel_id) && self.games@[k].id != id
    }

    /// Whether another character (a different id) of `game_id` uses this name.
    pub open spec fn spec_char_name_taken_by_other(
        self,
        game_id: i32,
        name: Seq<char>,
        id: i32,
    ) -> bool {
        exists|k: int|
            0 <= k < self.characters@.len() && #[trigger] self.characters@[k].game_id == game_id
                && self.characters@[k].name@ == name && self.characters@[k].id != id
    }

    /// Exec probe for [`Self::spec_sys_title_taken_by_other`].
    pub fn system_title_taken_by_other(&self, guild_id: i64, title: &String, id: i32) -> (r: bool)
        ensures
            r == self.spec_sys_title_taken_by_other(guild_id, title@, id),
    {
        let n = self.systems.len();
        let mut i: usize = 0;
        while i < n
            invariant
                n == self.systems@.len(),
                i <= n,
                forall|j: int|
                    0 <= j < i ==> !(#[trigger] self.systems@[j].guild_id == guild_id
                        && self.systems@[j].title@ == title@ && self.systems@[j].id != id),
            decreases n - i,
        {
            if self.systems[i].guild_id == guild_id && self.systems[i].id != id
                && self.systems[i].title == *title {
                return true;
            }
            i += 1;
        }
        false
    }

    /// Exec probe for [`Self::spec_sys_abbr_taken_by_other`].
    pub fn system_abbr_taken_by_other(&self, guild_id: i64, abbr: &String, id: i32) -> (r: bool)
        ensures
            r == self.spec_sys_abbr_taken_by_other(guild_id, abbr@, id),
    {
        let n = self.systems.len();
        let mut i: usize = 0;
        while i < n
            invariant
                n == self.systems@.len(),
                i <= n,
                forall|j: int|
                    0 <= j < i ==> !(#[trigger] self.systems@[j].guild_id == guild_id
                        && self.systems@[j].abbreviation@ == abbr@ && self.systems@[j].id != id),
            decreases n - i,
        {
            if self.systems[i].guild_id == guild_id && self.systems[i].id != id
                && self.systems[i].abbreviation == *abbr {
                return true;
            }
            i += 1;
        }
        false
    }

    /// Exec probe for [`Self::spec_game_title_taken_by_other`].
    pub fn game_title_taken_by_other(&self, guild_id: i64, title: &String, id: i32) -> (r: bool)
        ensures
            r == self.spec_game_title_taken_by_other(guild_id, title@, id),
    {
        let n = self.games.len();
        let mut i: usize = 0;
        while i < n
            invariant
                n == self.games@.len(),
                i <= n,
                forall|j: int|
                    0 <= j < i ==> !(#[trigger] self.games@[j].guild_id == guild_id
                        && self.games@[j].title@ == title@ && self.games@[j].id != id),
            decreases n - i,
        {
            if self.games[i].guild_id == guild_id && self.games[i].id != id && self.games[i].title
                == *title {
                return true;
            }
            i += 1;
        }
        false
    }

    /// Exec probe for [`Self::spec_game_abbr_taken_by_other`].
    pub fn game_abbr_taken_by_other(&self, guild_id: i64, abbr: &String, id: i32) -> (r: bool)
        ensures
            r == self.spec_game_abbr_taken_by_other(guild_id, abbr@, id),
    {
        let n = self.games.len();
        let mut i: usize = 0;
        while i < n
            invariant
                n == self.games@.len(),
                i <= n,
                forall|j: int|
                    0 <= j < i ==> !(#[trigger] self.games@[j].guild_id == guild_id
                        && self.games@[j].abbreviation@ == abbr@ && self.games@[j].id != id),
            decreases n - i,
        {
            if self.games[i].guild_id == guild_id && self.games[i].id != id
                && self.games[i].abbreviation == *abbr {
                return true;
            }
            i += 1;
        }
        false
    }

    /// Exec probe for [`Self::spec_channel_taken_by_other`].
    pub fn channel_taken_by_other(&self, guild_id: i64, channel_id: i64, id: i32) -> (r: bool)
        ensures
            r == self.spec_channel_taken_by_other(guild_id, channel_id, id),
    {
        let n = self.games.len();
        let mut i: usize = 0;
        while i < n
            invariant
                n == self.games@.len(),
                i <= n,
                forall|j: int|
                    0 <= j < i ==> !(#[trigger] self.games@[j].guild_id == guild_id
                        && self.games@[j].main_channel_id == Some(channel_id)
                        && self.games@[j].id != id),
            decreases n - i,
        {
            if self.games[i].guild_id == guild_id && self.games[i].id != id {
                match self.games[i].main_channel_id {
                    Some(c) => {
                        if c == channel_id {
                            return true;
                        }
                    },
                    None => {},
                }
            }
            i += 1;
        }
        false
    }

    /// Exec probe for [`Self::spec_char_name_taken_by_other`].
    pub fn character_name_taken_by_other(&self, game_id: i32, name: &String, id: i32) -> (r: bool)
        ensures
            r == self.spec_char_name_taken_by_other(game_id, name@, id),
    {
        let n = self.characters.len();
        let mut i: usize = 0;
        while i < n
            invariant
                n == self.characters@.len(),
                i <= n,
                forall|j: int|
                    0 <= j < i ==> !(#[trigger] self.characters@[j].game_id == game_id
                        && self.characters@[j].name@ == name@ && self.characters@[j].id != id),
            decreases n - i,
        {
            if self.characters[i].game_id == game_id && self.characters[i].id != id
                && self.characters[i].name == *name {
                return true;
            }
            i += 1;
        }
        false
    }

    /// Carries `players_wf` across a change that left players, characters and
    /// games untouched.
    proof fn lemma_players_wf_same_rows(self, prev: Store)
        requires
            prev.players_wf(),
            self.players == prev.players,
            prev.characters@.len() <= self.characters@.len(),
            forall|k: int|
                #![trigger self.characters@[k]]
                0 <= k < prev.characters@.len() ==> self.characters@[k].id
                    == prev.characters@[k].id && self.characters@[k].game_id
                    == prev.characters@[k].game_id,
            prev.games@.len() <= self.games@.len(),
            forall|k: int|
                #![trigger self.games@[k]]
                0 <= k < prev.games@.len() ==> self.games@[k].id == prev.games@[k].id,
        ensures
            self.players_wf(),
    {
        assert forall|i: int| #![trigger self.players@[i]] 0 <= i < self.players@.len() implies {
            &&& self.players@[i].character_id is Some ==> self.spec_char_row_in_game(
                self.players@[i].character_id->0,
                self.players@[i].game_id,
            )
            &&& self.spec_game_row_exists(self.players@[i].game_id)
        } by {
            let p = prev.players@[i];
            assert(self.players@[i] == p);
            if p.character_id is Some {
                let k = choose|k: int|
                    0 <= k < prev.characters@.len() && #[trigger] prev.characters@[k].id
                        == p.character_id->0 && prev.characters@[k].game_id == p.game_id;
                assert(self.characters@[k].id == p.character_id->0);
            }
            let k = choose|k: int|
                0 <= k < prev.games@.len() && #[trigger] prev.games@[k].id == p.game_id;
            assert(self.games@[k].id == p.game_id);
        }
    }

    /// Carries `characters_wf` across a change that left characters and games
    /// untouched and did not move the character-id counter back.
    proof fn lemma_characters_wf_same_rows(self, prev: Store)
        requires
            prev.characters_wf(),
            self.characters == prev.characters,
            self.next_character_id == prev.next_character_id,
            prev.games@.len() <= self.games@.len(),
            forall|k: int|
                #![trigger self.games@[k]]
                0 <= k < prev.games@.len() ==> self.games@[k].guild_id
                    == prev.games@[k].guild_id && self.games@[k].id == prev.games@[k].id,
        ensures
            self.characters_wf(),
    {
        assert forall|i: int| #![trigger self.characters@[i]] 0 <= i < self.characters@.len()
            implies self.spec_has_game(
            self.characters@[i].guild_id,
            self.characters@[i].game_id,
        ) by {
            let c = prev.characters@[i];
            assert(self.characters@[i] == c);
            let k = choose|k: int|
                0 <= k < prev.games@.len() && #[trigger] prev.games@[k].guild_id == c.guild_id
                    && prev.games@[k].id == c.game_id;
            assert(self.games@[k].guild_id == c.guild_id && self.games@[k].id == c.game_id);
        }
    }

    /// Carries the system-reference part of `games_wf` across a change that
    /// left games untouched while only adding systems is allowed to grow.
    proof fn lemma_games_wf_same_rows(self, prev: Store)
        requires
            prev.games_wf(),
            self.games == prev.games,
            self.next_game_id == prev.next_game_id,
            prev.systems@.len() <= self.systems@.len(),
            forall|k: int|
                #![trigger self.systems@[k]]
                0 <= k < prev.systems@.len() ==> self.systems@[k].guild_id
                    == prev.systems@[k].guild_id && self.systems@[k].id == prev.systems@[k].id,
        ensures
            self.games_wf(),
    {
        assert forall|i: int|
            #![trigger self.games@[i]]
            0 <= i < self.games@.len() && self.games@[i].system_id is Some
            implies self.spec_has_system(self.games@[i].guild_id, self.games@[i].system_id->0) by {
            let g = prev.games@[i];
            assert(self.games@[i] == g);
            let k = choose|k: int|
                0 <= k < prev.systems@.len() && #[trigger] prev.systems@[k].guild_id == g.guild_id
                    && prev.systems@[k].id == g.system_id->0;
            assert(self.systems@[k].guild_id == g.guild_id && self.systems@[k].id
                == g.system_id->0);
        }
    }

    /// Insert a new game owned by `owner_id`, with its platform role already
    /// created by the caller. Fails atomically on a duplicate title,
    /// abbreviation or home channel in the guild (reported in that order), or
    /// when the referenced system does not exist in the guild.
    pub fn create_game(
        &mut self,
        guild_id: i64,
        title: String,
        abbreviation: String,
        description: Option<String>,
        image: Option<String>,
        owner_id: i64,
        role_id: i64,
        system_id: Option<i32>,
        main_channel_id: Option<i64>,
        created_at: i64,
    ) -> (r: Result<i32, Error>)
        requires
            old(self).wf(),
        ensures
            final(self).wf(),
            spec_create_game_outcome(*old(self), *final(self), r, guild_id, title, abbreviation, description, image, owner_id, role_id, system_id, main_channel_id, created_at),
    {
        if self.game_title_taken(guild_id, &title) {
            return Err(Error::Conflict(ConflictField::Title));
        }
        if self.game_abbr_taken(guild_id, &abbreviation) {
            return Err(Error::Conflict(ConflictField::Abbreviation));
        }
        match main_channel_id {
            Some(c) => {
                if self.find_game_by_channel(guild_id, c).is_some() {
                    return Err(Error::Conflict(ConflictField::Channel));
                }
            },
            None => {},
        }
        match system_id {
            Some(s) => {
                if self.find_system(guild_id, s).is_none() {
                    return Err(Error::NotFound);
                }
            },
            None => {},
        }
        if self.next_game_id == i32::MAX {
            return Err(Error::Internal);
        }
        let id = self.next_game_id;
        let game = Game {
            id,
            guild_id,
            title,
            abbreviation,
            description,
            image,
            owner_id,
            role_id,
            main_channel_id,
            system_id,
            created_at,
        };
        self.games.push(game);
        self.next_game_id = id + 1;
        proof {
            let prev = *old(self);
            assert forall|gi: int|
                #![trigger self.games@[gi]]
                0 <= gi < self.games@.len() && self.games@[gi].system_id is Some
                implies self.spec_has_system(
                self.games@[gi].guild_id,
                self.games@[gi].system_id->0,
            ) by {
                if gi < prev.games@.len() {
                    let g = prev.games@[gi];
                    assert(self.games@[gi] == g);
                    let k = choose|k: int|
                        0 <= k < prev.systems@.len() && #[trigger] prev.systems@[k].guild_id
                            == g.guild_id && prev.systems@[k].id == g.system_id->0;
                    assert(self.systems@[k] == prev.systems@[k]);
                } else {
                    assert(self.games@[gi] == self.games@[self.games@.len() - 1]);
                    let k = choose|k: int|
                        0 <= k < prev.systems@.len() && #[trigger] prev.systems@[k].guild_id
                            == guild_id && prev.systems@[k].id == system_id->0;
                    assert(self.systems@[k] == prev.systems@[k]);
                }
            }
            assert(self.games_wf());
            self.lemma_characters_wf_same_rows(prev);
            self.lemma_players_wf_same_rows(prev);
        }
        Ok(id)
    }

    /// Replace every editable field of a system, or fail atomically when the
    /// new title or abbreviation is held by another system in the guild.
    pub fn edit_system(
        &mut self,
        guild_id: i64,
        id: i32,
        title: String,
        abbreviation: String,
        description: Option<String>,
        image: Option<String>,
    ) -> (r: Result<(), Error>)
        requires
            old(self).wf(),
        ensures
            final(self).wf(),
            spec_edit_system_outcome(*old(self), *final(self), r, guild_id, id, title, abbreviation, description, image),
    {
        let idx = match self.find_system(guild_id, id) {
            None => {
                return Err(Error::NotFound);
            },
            Some(k) => k,
        };
        if self.system_title_taken_by_other(guild_id, &title, id) {
            return Err(Error::Conflict(ConflictField::Title));
        }
        if self.system_abbr_taken_by_other(guild_id, &abbreviation, id) {
            return Err(Error::Conflict(ConflictField::Abbreviation));
        }
        proof {
            let si = old(self).spec_system_idx(guild_id, id);
            assert(0 <= si < old(self).systems@.len() && old(self).systems@[si].guild_id
                == guild_id && old(self).systems@[si].id == id);
            assert(old(self).systems@[si] == old(self).systems@[idx as int]);
        }
        self.systems[idx] = System { id, guild_id, title, abbreviation, description, image };
        proof {
            self.lemma_games_wf_same_rows(*old(self));
            self.lemma_characters_wf_same_rows(*old(self));
            self.lemma_players_wf_same_rows(*old(self));
        }
        Ok(())
    }

    /// Carries `games_wf` across an update of the game at `idx` that kept its
    /// identity, title and abbreviation, and either kept the home channel or
    /// moved it to one no other game in the guild holds, and either kept the
    /// system reference or pointed it at a system that exists in the guild.
    proof fn lemma_games_wf_update(self, prev: Store, idx: int)
        requires
            prev.games_wf(),
            self.systems == prev.systems,
            self.next_game_id == prev.next_game_id,
            0 <= idx < prev.games@.len(),
            self.games@.len() == prev.games@.len(),
            forall|k: int|
                #![trigger self.games@[k]]
                0 <= k < prev.games@.len() && k != idx ==> self.games@[k] == prev.games@[k],
            self.games@[idx].guild_id == prev.games@[idx].guild_id,
            self.games@[idx].id == prev.games@[idx].id,
            self.games@[idx].title@ == prev.games@[idx].title@
                || !prev.spec_game_title_taken_by_other(
                self.games@[idx].guild_id,
                self.games@[idx].title@,
                self.games@[idx].id,
            ),
            self.games@[idx].abbreviation@ == prev.games@[idx].abbreviation@
                || !prev.spec_game_abbr_taken_by_other(
                self.games@[idx].guild_id,
                self.games@[idx].abbreviation@,
                self.games@[idx].id,
            ),
            self.games@[idx].main_channel_id == prev.games@[idx].main_channel_id || (
            self.games@[idx].main_channel_id is Some ==> !prev.spec_channel_taken_by_other(
                self.games@[idx].guild_id,
                self.games@[idx].main_channel_id->0,
                self.games@[idx].id,
            )),
            self.games@[idx].system_id is Some ==> prev.spec_has_system(
                self.games@[idx].guild_id,
                self.games@[idx].system_id->0,
            ),
        ensures
            self.games_wf(),
    {
        let g = self.games@[idx];
        let gp = prev.games@[idx];
        assert forall|i: int, j: int|
            #![trigger self.games@[i], self.games@[j]]
            0 <= i < self.games@.len() && 0 <= j < self.games@.len() && i != j implies {
            &&& self.games@[i].id != self.games@[j].id
            &&& self.games@[i].guild_id == self.games@[j].guild_id ==> {
                &&& self.games@[i].title@ != self.games@[j].title@
                &&& self.games@[i].abbreviation@ != self.games@[j].abbreviation@
                &&& self.games@[i].main_channel_id is Some ==> self.games@[i].main_channel_id
                    != self.games@[j].main_channel_id
            }
        } by {
            assert(prev.games@[i] == if i == idx {
                gp
            } else {
                self.games@[i]
            });
            assert(prev.games@[j] == if j == idx {
                gp
            } else {
                self.games@[j]
            });
            if i == idx || j == idx {
                let o = if i == idx {
                    j
                } else {
                    i
                };
                assert(self.games@[o] == prev.games@[o]);
                if g.guild_id == self.games@[o].guild_id {
                    if g.title@ == self.games@[o].title@ {
                        if g.title@ != gp.title@ {
                            assert(prev.spec_game_title_taken_by_other(g.guild_id, g.title@, g.id));
                        }
                        assert(false);
                    }
                    if g.abbreviation@ == self.games@[o].abbreviation@ {
                        if g.abbreviation@ != gp.abbreviation@ {
                            assert(prev.spec_game_abbr_taken_by_other(
                                g.guild_id,
                                g.abbreviation@,
                                g.id,
                            ));
                        }
                        assert(false);
                    }
                    if g.main_channel_id is Some && g.main_channel_id
                        == self.games@[o].main_channel_id {
                        if g.main_channel_id != gp.main_channel_id {
                            assert(prev.spec_channel_taken_by_other(
                                g.guild_id,
                                g.main_channel_id->0,
                                g.id,
                            ));
                        }
                        assert(false);
                    }
                }
            }
        }
        assert forall|gi: int|
            #![trigger self.games@[gi]]
            0 <= gi < self.games@.len() && self.games@[gi].system_id is Some
            implies self.spec_has_system(
            self.games@[gi].guild_id,
            self.games@[gi].system_id->0,
        ) by {
            if gi == idx {
                let k = choose|k: int|
                    0 <= k < prev.systems@.len() && #[trigger] prev.systems@[k].guild_id
                        == g.guild_id && prev.systems@[k].id == g.system_id->0;
                assert(self.systems@[k] == prev.systems@[k]);
            } else {
                let gg = prev.games@[gi];
                assert(self.games@[gi] == gg);
                let k = choose|k: int|
                    0 <= k < prev.systems@.len() && #[trigger] prev.systems@[k].guild_id
                        == gg.guild_id && prev.systems@[k].id == gg.system_id->0;
                assert(self.systems@[k] == prev.systems@[k]);
            }
        }
    }

    /// Carries `players_wf` across appending one fresh row.
    proof fn lemma_players_wf_push(self, prev: Store, p: Player)
        requires
            prev.players_wf(),
            self.players@ == prev.players@.push(p),
            self.characters == prev.characters,
            self.games == prev.games,
            !prev.spec_has_player(p.game_id, p.user_id),
            p.character_id is Some ==> prev.spec_char_row_in_game(p.character_id->0, p.game_id)
                && !prev.spec_char_assigned(p.character_id->0),
            prev.spec_game_row_exists(p.game_id),
        ensures
            self.players_wf(),
    {
        let n = prev.players@.len() as int;
        assert forall|i: int, j: int|
            #![trigger self.players@[i], self.players@[j]]
            0 <= i < self.players@.len() && 0 <= j < self.players@.len() && i != j implies {
            &&& !(self.players@[i].game_id == self.players@[j].game_id
                && self.players@[i].user_id == self.players@[j].user_id)
            &&& self.players@[i].character_id is Some ==> self.players@[i].character_id
                != self.players@[j].character_id
        } by {
            if i < n && j < n {
                assert(self.players@[i] == prev.players@[i]);
                assert(self.players@[j] == prev.players@[j]);
            } else {
                let o = if i < n {
                    i
                } else {
                    j
                };
                assert(self.players@[o] == prev.players@[o]);
                if prev.players@[o].game_id == p.game_id && prev.players@[o].user_id
                    == p.user_id {
                    assert(prev.spec_has_player(p.game_id, p.user_id));
                }
                if p.character_id is Some && prev.players@[o].character_id == p.character_id {
                    assert(prev.spec_char_assigned(p.character_id->0));
                }
            }
        }
        assert forall|i: int| #![trigger self.players@[i]] 0 <= i < self.players@.len() implies {
            &&& self.players@[i].character_id is Some ==> self.spec_char_row_in_game(
                self.players@[i].character_id->0,
                self.players@[i].game_id,
            )
            &&& self.spec_game_row_exists(self.players@[i].game_id)
        } by {
            let q = if i < n {
                prev.players@[i]
            } else {
                p
            };
            assert(self.players@[i] == q);
            if q.character_id is Some {
                let k = choose|k: int|
                    0 <= k < prev.characters@.len() && #[trigger] prev.characters@[k].id
                        == q.character_id->0 && prev.characters@[k].game_id == q.game_id;
                assert(self.characters@[k] == prev.characters@[k]);
            }
            let k = choose|k: int|
                0 <= k < prev.games@.len() && #[trigger] prev.games@[k].id == q.game_id;
            assert(self.games@[k] == prev.games@[k]);
        }
    }

    /// Carries `players_wf` across an update of the row at `idx` that kept
    /// its (game, user) identity and either cleared the assignment or moved
    /// it to a character of the same game that no other row holds.
    proof fn lemma_players_wf_update(self, prev: Store, idx: int)
        requires
            prev.players_wf(),
            0 <= idx < prev.players@.len(),
            self.players@.len() == prev.players@.len(),
            forall|k: int|
                #![trigger self.players@[k]]
                0 <= k < prev.players@.len() && k != idx ==> self.players@[k] == prev.players@[k],
            self.players@[idx].game_id == prev.players@[idx].game_id,
            self.players@[idx].user_id == prev.players@[idx].user_id,
            prev.characters@.len() <= self.characters@.len(),
            forall|k: int|
                #![trigger self.characters@[k]]
                0 <= k < prev.characters@.len() ==> self.characters@[k].id
                    == prev.characters@[k].id && self.characters@[k].game_id
                    == prev.characters@[k].game_id,
            prev.games@.len() <= self.games@.len(),
            forall|k: int|
                #![trigger self.games@[k]]
                0 <= k < prev.games@.len() ==> self.games@[k].id == prev.games@[k].id,
            self.players@[idx].character_id is Some ==> self.spec_char_row_in_game(
                self.players@[idx].character_id->0,
                self.players@[idx].game_id,
            ),
            self.players@[idx].character_id is Some ==> forall|j: int|
                #![trigger prev.players@[j]]
                0 <= j < prev.players@.len() && j != idx ==> prev.players@[j].character_id
                    != self.players@[idx].character_id,
        ensures
            self.players_wf(),
    {
        assert forall|i: int, j: int|
            #![trigger self.players@[i], self.players@[j]]
            0 <= i < self.players@.len() && 0 <= j < self.players@.len() && i != j implies {
            &&& !(self.players@[i].game_id == self.players@[j].game_id
                && self.players@[i].user_id == self.players@[j].user_id)
            &&& self.players@[i].character_id is Some ==> self.players@[i].character_id
                != self.players@[j].character_id
        } by {
            assert(prev.players@[i] == if i == idx {
                prev.players@[idx]
            } else {
                self.players@[i]
            });
            assert(prev.players@[j] == if j == idx {
                prev.players@[idx]
            } else {
                self.players@[j]
            });
        }
        assert forall|i: int| #![trigger self.players@[i]] 0 <= i < self.players@.len() implies {
            &&& self.players@[i].character_id is Some ==> self.spec_char_row_in_game(
                self.players@[i].character_id->0,
                self.players@[i].game_id,
            )
            &&& self.spec_game_row_exists(self.players@[i].game_id)
        } by {
            let q = prev.players@[i];
            if i != idx {
                assert(self.players@[i] == q);
                if q.character_id is Some {
                    let k = choose|k: int|
                        0 <= k < prev.characters@.len() && #[trigger] prev.characters@[k].id
                            == q.character_id->0 && prev.characters@[k].game_id == q.game_id;
                    assert(self.characters@[k].id == q.character_id->0
                        && self.characters@[k].game_id == q.game_id);
                }
            }
            let k = choose|k: int|
                0 <= k < prev.games@.len() && #[trigger] prev.games@[k].id == q.game_id;
            assert(self.games@[k].id == q.game_id);
        }
    }

    /// Add a user to a game's roster, with no character assigned yet.
    pub fn add_player(&mut self, guild_id: i64, game_id: i32, user_id: i64) -> (r: Result<
        (),
        Error,
    >)
        requires
            old(self).wf(),
        ensures
            final(self).wf(),
            spec_add_player_outcome(*old(self), *final(self), r, guild_id, game_id, user_id),
    {
        let gidx = match self.find_game(guild_id, game_id) {
            None => {
                return Err(Error::NotFound);
            },
            Some(k) => k,
        };
        if self.find_player(game_id, user_id).is_some() {
            return Err(Error::Conflict(ConflictField::PlayerInGame));
        }
        let row = Player { game_id, user_id, character_id: None };
        self.players.push(row);
        proof {
            self.lemma_players_wf_push(
                *old(self),
                Player { game_id, user_id, character_id: None },
            );
        }
        Ok(())
    }

    /// Remove a user from a game's roster.
    pub fn remove_player(&mut self, guild_id: i64, game_id: i32, user_id: i64) -> (r: Result<
        (),
        Error,
    >)
        requires
            old(self).wf(),
        ensures
            final(self).wf(),
            spec_remove_player_outcome(*old(self), *final(self), r, guild_id, game_id, user_id),
    {
        if self.find_game(guild_id, game_id).is_none() {
            return Err(Error::NotFound);
        }
        let idx = match self.find_player(game_id, user_id) {
            None => {
                return Err(Error::NotFound);
            },
            Some(k) => k,
        };
        proof {
            old(self).lemma_player_idx_agrees(game_id, user_id, idx as int);
            old(self).players@.remove_ensures(idx as int);
        }
        self.players.remove(idx);
        proof {
            let prev = *old(self);
            let n = self.players@.len() as int;
            assert forall|i: int, j: int|
                #![trigger self.players@[i], self.players@[j]]
                0 <= i < n && 0 <= j < n && i != j implies {
                &&& !(self.players@[i].game_id == self.players@[j].game_id
                    && self.players@[i].user_id == self.players@[j].user_id)
                &&& self.players@[i].character_id is Some ==> self.players@[i].character_id
                    != self.players@[j].character_id
            } by {
                let oi = if i < idx {
                    i
                } else {
                    i + 1
                };
                let oj = if j < idx {
                    j
                } else {
                    j + 1
                };
                assert(self.players@[i] == prev.players@[oi]);
                assert(self.players@[j] == prev.players@[oj]);
            }
            assert forall|i: int| #![trigger self.players@[i]] 0 <= i < n implies {
                &&& self.players@[i].character_id is Some ==> self.spec_char_row_in_game(
                    self.players@[i].character_id->0,
                    self.players@[i].game_id,
                )
                &&& self.spec_game_row_exists(self.players@[i].game_id)
            } by {
                let oi = if i < idx {
                    i
                } else {
                    i + 1
                };
                let q = prev.players@[oi];
                assert(self.players@[i] == q);
                if q.character_id is Some {
                    let k = choose|k: int|
                        0 <= k < prev.characters@.len() && #[trigger] prev.characters@[k].id
                            == q.character_id->0 && prev.characters@[k].game_id == q.game_id;
                    assert(self.characters@[k] == prev.characters@[k]);
                }
                let k = choose|k: int|
                    0 <= k < prev.games@.len() && #[trigger] prev.games@[k].id == q.game_id;
                assert(self.games@[k] == prev.games@[k]);
            }
        }
        Ok(())
    }

    /// Replace every editable field of a game, or fail atomically when the
    /// new title or abbreviation is held by another game in the guild.
    pub fn edit_game(
        &mut self,
        guild_id: i64,
        id: i32,
        title: String,
        abbreviation: String,
        description: Option<String>,
        image: Option<String>,
    ) -> (r: Result<(), Error>)
        requires
            old(self).wf(),
        ensures
            final(self).wf(),
            spec_edit_game_outcome(*old(self), *final(self), r, guild_id, id, title, abbreviation, description, image),
    {
        let idx = match self.find_game(guild_id, id) {
            None => {
                return Err(Error::NotFound);
            },
            Some(k) => k,
        };
        if self.game_title_taken_by_other(guild_id, &title, id) {
            return Err(Error::Conflict(ConflictField::Title));
        }
        if self.game_abbr_taken_by_other(guild_id, &abbreviation, id) {
            return Err(Error::Conflict(ConflictField::Abbreviation));
        }
        proof {
            old(self).lemma_game_idx_agrees(guild_id, id, idx as int);
        }
        let owner_id = self.games[idx].owner_id;
        let role_id = self.games[idx].role_id;
        let main_channel_id = self.games[idx].main_channel_id;
        let system_id = self.games[idx].system_id;
        let created_at = self.games[idx].created_at;
        self.games[idx] = Game {
            id,
            guild_id,
            title,
            abbreviation,
            description,
            image,
            owner_id,
            role_id,
            main_channel_id,
            system_id,
            created_at,
        };
        proof {
            let prev = *old(self);
            self.lemma_games_wf_update(prev, idx as int);
            self.lemma_characters_wf_same_rows(prev);
            self.lemma_players_wf_same_rows(prev);
        }
        Ok(())
    }

    /// Bind a game's home channel, or fail when another game in the guild
    /// already holds that channel.
    pub fn set_channel(&mut self, guild_id: i64, id: i32, channel_id: i64) -> (r: Result<
        (),
        Error,
    >)
        requires
            old(self).wf(),
        ensures
            final(self).wf(),
            spec_set_channel_outcome(*old(self), *final(self), r, guild_id, id, channel_id),
    {
        let idx = match self.find_game(guild_id, id) {
            None => {
                return Err(Error::NotFound);
            },
            Some(k) => k,
        };
        if self.channel_taken_by_other(guild_id, channel_id, id) {
            return Err(Error::Conflict(ConflictField::Channel));
        }
        proof {
            old(self).lemma_game_idx_agrees(guild_id, id, idx as int);
        }
        self.games[idx].main_channel_id = Some(channel_id);
        proof {
            let prev = *old(self);
            self.lemma_games_wf_update(prev, idx as int);
            self.lemma_characters_wf_same_rows(prev);
            self.lemma_players_wf_same_rows(prev);
        }
        Ok(())
    }

    /// Remove a game's association with any channel.
    pub fn unset_channel(&mut self, guild_id: i64, id: i32) -> (r: Result<(), Error>)
        requires
            old(self).wf(),
        ensures
            final(self).wf(),
            spec_unset_channel_outcome(*old(self), *final(self), r, guild_id, id),
    {
        let idx = match self.find_game(guild_id, id) {
            None => {
                return Err(Error::NotFound);
            },
            Some(k) => k,
        };
        proof {
            old(self).lemma_game_idx_agrees(guild_id, id, idx as int);
        }
        self.games[idx].main_channel_id = None;
        proof {
            let prev = *old(self);
            self.lemma_games_wf_update(prev, idx as int);
            self.lemma_characters_wf_same_rows(prev);
            self.lemma_players_wf_same_rows(prev);
        }
        Ok(())
    }

    /// Point a game at a rule system of the same guild.
    pub fn set_system(&mut self, guild_id: i64, id: i32, system_id: i32) -> (r: Result<(), Error>)
        requires
            old(self).wf(),
        ensures
            final(self).wf(),
            spec_set_system_outcome(*old(self), *final(self), r, guild_id, id, system_id),
    {
        let idx = match self.find_game(guild_id, id) {
            None => {
                return Err(Error::NotFound);
            },
            Some(k) => k,
        };
        if self.find_system(guild_id, system_id).is_none() {
            return Err(Error::NotFound);
        }
        proof {
            old(self).lemma_game_idx_agrees(guild_id, id, idx as int);
        }
        self.games[idx].system_id = Some(system_id);
        proof {
            let prev = *old(self);
            self.lemma_games_wf_update(prev, idx as int);
            self.lemma_characters_wf_same_rows(prev);
            self.lemma_players_wf_same_rows(prev);
        }
        Ok(())
    }

    /// Remove a game's association with any rule system.
    pub fn unset_system(&mut self, guild_id: i64, id: i32) -> (r: Result<(), Error>)
        requires
            old(self).wf(),
        ensures
            final(self).wf(),
            spec_unset_system_outcome(*old(self), *final(self), r, guild_id, id),
    {
        let idx = match self.find_game(guild_id, id) {
            None => {
                return Err(Error::NotFound);
            },
            Some(k) => k,
        };
        proof {
            old(self).lemma_game_idx_agrees(guild_id, id, idx as int);
        }
        self.games[idx].system_id = None;
        proof {
            let prev = *old(self);
            self.lemma_games_wf_update(prev, idx as int);
            self.lemma_characters_wf_same_rows(prev);
            self.lemma_players_wf_same_rows(prev);
        }
        Ok(())
    }

    /// Hand a game to a new owner. Unless the departing owner chose to also
    /// leave, they are enrolled as an ordinary player first; the new owner's
    /// own player row, if any, is dropped (an owner needs none).
    pub fn transfer_game(
        &mut self,
        guild_id: i64,
        id: i32,
        new_owner: i64,
        also_leave: bool,
    ) -> (r: Result<(), Error>)
        requires
            old(self).wf(),
        ensures
            final(self).wf(),
            spec_transfer_game_outcome(*old(self), *final(self), r, guild_id, id, new_owner, also_leave),
    {
        let gidx = match self.find_game(guild_id, id) {
            None => {
                return Err(Error::NotFound);
            },
            Some(k) => k,
        };
        proof {
            old(self).lemma_game_idx_agrees(guild_id, id, gidx as int);
        }
        let old_owner = self.games[gidx].owner_id;
        if !also_leave {
            if self.find_player(id, old_owner).is_some() {
                return Err(Error::Conflict(ConflictField::PlayerInGame));
            }
            let row = Player { game_id: id, user_id: old_owner, character_id: None };
            self.players.push(row);
            proof {
                self.lemma_players_wf_push(
                    *old(self),
                    Player { game_id: id, user_id: old_owner, character_id: None },
                );
            }
        }
        let ghost mid1 = *self;
        self.games[gidx].owner_id = new_owner;
        proof {
            self.lemma_games_wf_update(mid1, gidx as int);
            self.lemma_characters_wf_same_rows(mid1);
            self.lemma_players_wf_same_rows(mid1);
        }
        let ghost mid2 = *self;
        match self.find_player(id, new_owner) {
            None => {},
            Some(pidx) => {
                proof {
                    mid2.lemma_player_idx_agrees(id, new_owner, pidx as int);
                    mid2.players@.remove_ensures(pidx as int);
                }
                self.players.remove(pidx);
                proof {
                    let n = self.players@.len() as int;
                    assert forall|i: int, j: int|
                        #![trigger self.players@[i], self.players@[j]]
                        0 <= i < n && 0 <= j < n && i != j implies {
                        &&& !(self.players@[i].game_id == self.players@[j].game_id
                            && self.players@[i].user_id == self.players@[j].user_id)
                        &&& self.players@[i].character_id is Some ==> self.players@[i].character_id
                            != self.players@[j].character_id
                    } by {
                        let oi = if i < pidx {
                            i
                        } else {
                            i + 1
                        };
                        let oj = if j < pidx {
                            j
                        } else {
                            j + 1
                        };
                        assert(self.players@[i] == mid2.players@[oi]);
                        assert(self.players@[j] == mid2.players@[oj]);
                    }
                    assert forall|i: int| #![trigger self.players@[i]] 0 <= i < n implies {
                        &&& self.players@[i].character_id is Some ==> self.spec_char_row_in_game(
                            self.players@[i].character_id->0,
                            self.players@[i].game_id,
                        )
                        &&& self.spec_game_row_exists(self.players@[i].game_id)
                    } by {
                        let oi = if i < pidx {
                            i
                        } else {
                            i + 1
                        };
                        let q = mid2.players@[oi];
                        assert(self.players@[i] == q);
                        if q.character_id is Some {
                            let k = choose|k: int|
                                0 <= k < mid2.characters@.len()
                                    && #[trigger] mid2.characters@[k].id == q.character_id->0
                                    && mid2.characters@[k].game_id == q.game_id;
                            assert(self.characters@[k] == mid2.characters@[k]);
                        }
                        let k = choose|k: int|
                            0 <= k < mid2.games@.len() && #[trigger] mid2.games@[k].id
                                == q.game_id;
                        assert(self.games@[k] == mid2.games@[k]);
                    }
                }
            },
        }
        Ok(())
    }

    /// Assign a character to a user's player row in the character's game;
    /// any character that player previously held is released by the same
    /// write.
    pub fn assign_character(&mut self, guild_id: i64, character_id: i32, user_id: i64) -> (r:
        Result<(), Error>)
        requires
            old(self).wf(),
        ensures
            final(self).wf(),
            spec_assign_character_outcome(*old(self), *final(self), r, guild_id, character_id, user_id),
    {
        let cidx = match self.find_character(guild_id, character_id) {
            None => {
                return Err(Error::NotFound);
            },
            Some(k) => k,
        };
        proof {
            old(self).lemma_character_idx_agrees(guild_id, character_id, cidx as int);
        }
        let game_id = self.characters[cidx].game_id;
        let pidx = match self.find_player(game_id, user_id) {
            None => {
                return Err(Error::NotFound);
            },
            Some(k) => k,
        };
        proof {
            old(self).lemma_player_idx_agrees(game_id, user_id, pidx as int);
        }
        match self.find_assignment(character_id) {
            Some(k) => {
                proof {
                    old(self).lemma_assignment_idx_agrees(character_id, k as int);
                }
                if k != pidx {
                    return Err(Error::Conflict(ConflictField::Assignment));
                }
            },
            None => {},
        }
        self.players[pidx].character_id = Some(character_id);
        proof {
            let prev = *old(self);
            assert(self.spec_char_row_in_game(character_id, game_id)) by {
                assert(self.characters@[cidx as int].id == character_id
                    && self.characters@[cidx as int].game_id == game_id);
            }
            assert forall|j: int|
                #![trigger prev.players@[j]]
                0 <= j < prev.players@.len() && j != pidx as int
                implies prev.players@[j].character_id != Some(character_id) by {
                if prev.players@[j].character_id == Some(character_id) {
                    prev.lemma_assignment_idx_agrees(character_id, j);
                }
            }
            self.lemma_players_wf_update(prev, pidx as int);
        }
        Ok(())
    }

    /// Release a character from whichever player holds it.
    pub fn release_character(&mut self, guild_id: i64, character_id: i32) -> (r: Result<
        (),
        Error,
    >)
        requires
            old(self).wf(),
        ensures
            final(self).wf(),
            spec_release_character_outcome(*old(self), *final(self), r, guild_id, character_id),
    {
        if self.find_character(guild_id, character_id).is_none() {
            return Err(Error::NotFound);
        }
        let pidx = match self.find_assignment(character_id) {
            None => {
                return Err(Error::NotFound);
            },
            Some(k) => k,
        };
        proof {
            old(self).lemma_assignment_idx_agrees(character_id, pidx as int);
        }
        self.players[pidx].character_id = None;
        proof {
            self.lemma_players_wf_update(*old(self), pidx as int);
        }
        Ok(())
    }

    /// Carries `characters_wf` across an update of the row at `idx` that kept
    /// its identity and game, and either kept its name or moved to one no
    /// other character of the game holds.
    proof fn lemma_characters_wf_update(self, prev: Store, idx: int)
        requires
            prev.characters_wf(),
            self.next_character_id == prev.next_character_id,
            0 <= idx < prev.characters@.len(),
            self.characters@.len() == prev.characters@.len(),
            forall|k: int|
                #![trigger self.characters@[k]]
                0 <= k < prev.characters@.len() && k != idx ==> self.characters@[k]
                    == prev.characters@[k],
            self.characters@[idx].guild_id == prev.characters@[idx].guild_id,
            self.characters@[idx].id == prev.characters@[idx].id,
            self.characters@[idx].game_id == prev.characters@[idx].game_id,
            self.characters@[idx].name@ == prev.characters@[idx].name@
                || !prev.spec_char_name_taken_by_other(
                self.characters@[idx].game_id,
                self.characters@[idx].name@,
                self.characters@[idx].id,
            ),
            prev.games@.len() <= self.games@.len(),
            forall|k: int|
                #![trigger self.games@[k]]
                0 <= k < prev.games@.len() ==> self.games@[k].guild_id
                    == prev.games@[k].guild_id && self.games@[k].id == prev.games@[k].id,
        ensures
            self.characters_wf(),
    {
        let c = self.characters@[idx];
        let cp = prev.characters@[idx];
        assert forall|i: int, j: int|
            #![trigger self.characters@[i], self.characters@[j]]
            0 <= i < self.characters@.len() && 0 <= j < self.characters@.len() && i != j implies {
            &&& self.characters@[i].id != self.characters@[j].id
            &&& self.characters@[i].game_id == self.characters@[j].game_id
                ==> self.characters@[i].name@ != self.characters@[j].name@
        } by {
            assert(prev.characters@[i] == if i == idx {
                cp
            } else {
                self.characters@[i]
            });
            assert(prev.characters@[j] == if j == idx {
                cp
            } else {
                self.characters@[j]
            });
            if i == idx || j == idx {
                let o = if i == idx {
                    j
                } else {
                    i
                };
                assert(self.characters@[o] == prev.characters@[o]);
                if c.game_id == self.characters@[o].game_id && c.name@
                    == self.characters@[o].name@ {
                    if c.name@ != cp.name@ {
                        assert(prev.spec_char_name_taken_by_other(c.game_id, c.name@, c.id));
                    }
                    assert(false);
                }
            }
        }
        assert forall|i: int| #![trigger self.characters@[i]] 0 <= i < self.characters@.len()
            implies self.spec_has_game(
            self.characters@[i].guild_id,
            self.characters@[i].game_id,
        ) by {
            let q = prev.characters@[i];
            assert(q.guild_id == self.characters@[i].guild_id && q.game_id
                == self.characters@[i].game_id);
            let k = choose|k: int|
                0 <= k < prev.games@.len() && #[trigger] prev.games@[k].guild_id == q.guild_id
                    && prev.games@[k].id == q.game_id;
            assert(self.games@[k].guild_id == q.guild_id && self.games@[k].id == q.game_id);
        }
    }

    /// Create a character against an existing game. When its author already
    /// sits in the game's roster with no character assigned, the new
    /// character is assigned to them in the same write; the returned flag
    /// says whether that happened.
    pub fn create_character(
        &mut self,
        guild_id: i64,
        game_id: i32,
        author_id: i64,
        name: String,
        pronouns: Option<String>,
        description: Option<String>,
        image: Option<String>,
    ) -> (r: Result<(i32, bool), Error>)
        requires
            old(self).wf(),
        ensures
            final(self).wf(),
            spec_create_character_outcome(*old(self), *final(self), r, guild_id, game_id, author_id, name, pronouns, description, image),
    {
        let gidx = match self.find_game(guild_id, game_id) {
            None => {
                return Err(Error::NotFound);
            },
            Some(k) => k,
        };
        if self.character_name_taken(game_id, &name) {
            return Err(Error::Conflict(ConflictField::CharacterName));
        }
        if self.next_character_id == i32::MAX {
            return Err(Error::Internal);
        }
        let cid = self.next_character_id;
        let row = Character {
            id: cid,
            guild_id,
            game_id,
            author_id,
            name,
            pronouns,
            description,
            image,
        };
        self.characters.push(row);
        self.next_character_id = cid + 1;
        proof {
            let prev = *old(self);
            let n = prev.characters@.len() as int;
            assert forall|i: int| #![trigger self.characters@[i]] 0 <= i
                < self.characters@.len() implies self.spec_has_game(
                self.characters@[i].guild_id,
                self.characters@[i].game_id,
            ) by {
                let q = if i < n {
                    prev.characters@[i]
                } else {
                    self.characters@[i]
                };
                assert(self.characters@[i] == q);
                if i < n {
                    let k = choose|k: int|
                        0 <= k < prev.games@.len() && #[trigger] prev.games@[k].guild_id
                            == q.guild_id && prev.games@[k].id == q.game_id;
                    assert(self.games@[k] == prev.games@[k]);
                } else {
                    assert(self.games@[gidx as int].guild_id == guild_id
                        && self.games@[gidx as int].id == game_id);
                }
            }
            assert(self.characters_wf());
            self.lemma_games_wf_same_rows(prev);
            self.lemma_players_wf_same_rows(prev);
        }
        let ghost mid1 = *self;
        let mut auto = false;
        match self.find_player(game_id, author_id) {
            None => {},
            Some(pidx) => {
                let unassigned = match self.players[pidx].character_id {
                    None => true,
                    Some(_) => false,
                };
                proof {
                    old(self).lemma_player_idx_agrees(game_id, author_id, pidx as int);
                }
                if unassigned {
                    self.players[pidx].character_id = Some(cid);
                    auto = true;
                    proof {
                        assert(self.spec_char_row_in_game(cid, game_id)) by {
                            let ci = self.characters@.len() - 1;
                            assert(self.characters@[ci].id == cid && self.characters@[ci].game_id
                                == game_id);
                        }
                        assert forall|j: int|
                            #![trigger mid1.players@[j]]
                            0 <= j < mid1.players@.len() && j != pidx as int
                            implies mid1.players@[j].character_id != Some(cid) by {
                            if mid1.players@[j].character_id == Some(cid) {
                                let k = choose|k: int|
                                    0 <= k < old(self).characters@.len()
                                        && #[trigger] old(self).characters@[k].id == cid
                                        && old(self).characters@[k].game_id
                                        == mid1.players@[j].game_id;
                                assert(old(self).characters@[k].id < cid);
                            }
                        }
                        self.lemma_players_wf_update(mid1, pidx as int);
                    }
                }
            },
        }
        Ok((cid, auto))
    }

    /// Replace every editable field of a character, or fail atomically when
    /// another character of the same game already uses the new name.
    pub fn edit_character(
        &mut self,
        guild_id: i64,
        id: i32,
        name: String,
        pronouns: Option<String>,
        description: Option<String>,
        image: Option<String>,
    ) -> (r: Result<(), Error>)
        requires
            old(self).wf(),
        ensures
            final(self).wf(),
            spec_edit_character_outcome(*old(self), *final(self), r, guild_id, id, name, pronouns, description, image),
    {
        let cidx = match self.find_character(guild_id, id) {
            None => {
                return Err(Error::NotFound);
            },
            Some(k) => k,
        };
        proof {
            old(self).lemma_character_idx_agrees(guild_id, id, cidx as int);
        }
        let game_id = self.characters[cidx].game_id;
        if self.character_name_taken_by_other(game_id, &name, id) {
            return Err(Error::Conflict(ConflictField::CharacterName));
        }
        let author_id = self.characters[cidx].author_id;
        self.characters[cidx] = Character {
            id,
            guild_id,
            game_id,
            author_id,
            name,
            pronouns,
            description,
            image,
        };
        proof {
            let prev = *old(self);
            self.lemma_characters_wf_update(prev, cidx as int);
            self.lemma_players_wf_same_rows(prev);
        }
        Ok(())
    }

    /// Delete a character; whichever player held it is released first, so no
    /// assignment can dangle.
    pub fn delete_character(&mut self, guild_id: i64, id: i32) -> (r: Result<(), Error>)
        requires
            old(self).wf(),
        ensures
            final(self).wf(),
            spec_delete_character_outcome(*old(self), *final(self), r, guild_id, id),
    {
        let cidx = match self.find_character(guild_id, id) {
            None => {
                return Err(Error::NotFound);
            },
            Some(k) => k,
        };
        proof {
            old(self).lemma_character_idx_agrees(guild_id, id, cidx as int);
        }
        match self.find_assignment(id) {
            None => {},
            Some(pidx) => {
                proof {
                    old(self).lemma_assignment_idx_agrees(id, pidx as int);
                }
                self.players[pidx].character_id = None;
                proof {
                    self.lemma_players_wf_update(*old(self), pidx as int);
                }
            },
        }
        let ghost mid1 = *self;
        proof {
            mid1.characters@.remove_ensures(cidx as int);
        }
        self.characters.remove(cidx);
        proof {
            let prev = mid1;
            let n = self.characters@.len() as int;
            assert forall|i: int, j: int|
                #![trigger self.characters@[i], self.characters@[j]]
                0 <= i < n && 0 <= j < n && i != j implies {
                &&& self.characters@[i].id != self.characters@[j].id
                &&& self.characters@[i].game_id == self.characters@[j].game_id
                    ==> self.characters@[i].name@ != self.characters@[j].name@
            } by {
                let oi = if i < cidx {
                    i
                } else {
                    i + 1
                };
                let oj = if j < cidx {
                    j
                } else {
                    j + 1
                };
                assert(self.characters@[i] == prev.characters@[oi]);
                assert(self.characters@[j] == prev.characters@[oj]);
            }
            assert forall|i: int| #![trigger self.characters@[i]] 0 <= i < n
                implies self.spec_has_game(
                self.characters@[i].guild_id,
                self.characters@[i].game_id,
            ) by {
                let oi = if i < cidx {
                    i
                } else {
                    i + 1
                };
                let q = prev.characters@[oi];
                assert(self.characters@[i] == q);
                let k = choose|k: int|
                    0 <= k < prev.games@.len() && #[trigger] prev.games@[k].guild_id == q.guild_id
                        && prev.games@[k].id == q.game_id;
                assert(self.games@[k] == prev.games@[k]);
            }
            assert(self.characters_wf());
            assert forall|i: int| #![trigger self.players@[i]] 0 <= i
                < self.players@.len() implies {
                &&& self.players@[i].character_id is Some ==> self.spec_char_row_in_game(
                    self.players@[i].character_id->0,
                    self.players@[i].game_id,
                )
                &&& self.spec_game_row_exists(self.players@[i].game_id)
            } by {
                let q = prev.players@[i];
                assert(self.players@[i] == q);
                if q.character_id is Some {
                    assert(q.character_id != Some(id)) by {
                        if q.character_id == Some(id) {
                            prev.lemma_assignment_idx_agrees(id, i);
                            assert(prev.spec_char_assigned(id));
                        }
                    }
                    let k = choose|k: int|
                        0 <= k < prev.characters@.len() && #[trigger] prev.characters@[k].id
                            == q.character_id->0 && prev.characters@[k].game_id == q.game_id;
                    assert(prev.characters@[k].id != prev.characters@[cidx as int].id);
                    assert(k != cidx as int);
                    if k < cidx as int {
                        assert(self.characters@[k] == prev.characters@[k]);
                    } else {
                        assert(self.characters@[k - 1] == prev.characters@[k]);
                    }
                }
                let k = choose|k: int|
                    0 <= k < prev.games@.len() && #[trigger] prev.games@[k].id == q.game_id;
                assert(self.games@[k] == prev.games@[k]);
            }
            assert(self.players_wf());
        }
        Ok(())
    }

    /// Delete a game; its characters and players are deleted with it.
    pub fn delete_game(&mut self, guild_id: i64, id: i32) -> (r: Result<(), Error>)
        requires
            old(self).wf(),
        ensures
            final(self).wf(),
            spec_delete_game_outcome(*old(self), *final(self), r, guild_id, id),
    {
        let gidx = match self.find_game(guild_id, id) {
            None => {
                return Err(Error::NotFound);
            },
            Some(k) => k,
        };
        proof {
            old(self).lemma_game_idx_agrees(guild_id, id, gidx as int);
            old(self).games@.remove_ensures(gidx as int);
        }
        self.games.remove(gidx);
        let mut pending_chars: Vec<Character> = Vec::new();
        core::mem::swap(&mut pending_chars, &mut self.characters);
        let ghost chars0 = pending_chars@;
        proof {
            assert(pending_chars.len() == chars0.len());
        }
        let mut i: usize = 0;
        while pending_chars.len() > 0
            invariant
                i + pending_chars@.len() == chars0.len(),
                chars0.len() <= usize::MAX,
                pending_chars@ == chars0.skip(i as int),
                chars0 == old(self).characters@,
                self.characters@ == chars0.take(i as int).filter(|c: Character| c.game_id != id),
                forall|m: int|
                    0 <= m < self.characters@.len() ==> exists|j: int|
                        0 <= j < i && #[trigger] self.characters@[m] == chars0[j],
                self.games@ == old(self).games@.remove(old(self).spec_game_idx(guild_id, id)),
                self.players == old(self).players,
                self.systems == old(self).systems,
                self.next_system_id == old(self).next_system_id,
                self.next_game_id == old(self).next_game_id,
                self.next_character_id == old(self).next_character_id,
            decreases pending_chars@.len(),
        {
            proof {
                assert(pending_chars@[0] == chars0[i as int]);
                lemma_filter_take_step(chars0, |c: Character| c.game_id != id, i as int);
            }
            let c = pending_chars.remove(0);
            if c.game_id != id {
                self.characters.push(c);
            }
            proof {
                assert(pending_chars@ =~= chars0.skip(i as int + 1));
            }
            i += 1;
        }
        proof {
            assert(chars0.take(i as int) =~= chars0);
        }
        let mut pending_players: Vec<Player> = Vec::new();
        core::mem::swap(&mut pending_players, &mut self.players);
        let ghost players0 = pending_players@;
        proof {
            assert(pending_players.len() == players0.len());
        }
        let mut w: usize = 0;
        while pending_players.len() > 0
            invariant
                w + pending_players@.len() == players0.len(),
                players0.len() <= usize::MAX,
                pending_players@ == players0.skip(w as int),
                players0 == old(self).players@,
                self.players@ == players0.take(w as int).filter(|p: Player| p.game_id != id),
                forall|m: int|
                    0 <= m < self.players@.len() ==> exists|j: int|
                        0 <= j < w && #[trigger] self.players@[m] == players0[j],
                self.games@ == old(self).games@.remove(old(self).spec_game_idx(guild_id, id)),
                self.characters@ == old(self).characters@.filter(
                    |c: Character| c.game_id != id,
                ),
                self.systems == old(self).systems,
                self.next_system_id == old(self).next_system_id,
                self.next_game_id == old(self).next_game_id,
                self.next_character_id == old(self).next_character_id,
            decreases pending_players@.len(),
        {
            proof {
                assert(pending_players@[0] == players0[w as int]);
                lemma_filter_take_step(players0, |p: Player| p.game_id != id, w as int);
            }
            let p = pending_players.remove(0);
            if p.game_id != id {
                self.players.push(p);
            }
            proof {
                assert(pending_players@ =~= players0.skip(w as int + 1));
            }
            w += 1;
        }
        proof {
            assert(players0.take(w as int) =~= players0);
        }
        proof {
            let prev = *old(self);
            let gdel = prev.spec_game_idx(guild_id, id);
            // games: a removal keeps ids and uniqueness, shifted left
            assert forall|a: int, b: int|
                #![trigger self.games@[a], self.games@[b]]
                0 <= a < self.games@.len() && 0 <= b < self.games@.len() && a != b implies {
                &&& self.games@[a].id != self.games@[b].id
                &&& self.games@[a].guild_id == self.games@[b].guild_id ==> {
                    &&& self.games@[a].title@ != self.games@[b].title@
                    &&& self.games@[a].abbreviation@ != self.games@[b].abbreviation@
                    &&& self.games@[a].main_channel_id is Some ==> self.games@[a].main_channel_id
                        != self.games@[b].main_channel_id
                }
            } by {
                let oa = if a < gdel {
                    a
                } else {
                    a + 1
                };
                let ob = if b < gdel {
                    b
                } else {
                    b + 1
                };
                assert(self.games@[a] == prev.games@[oa]);
                assert(self.games@[b] == prev.games@[ob]);
            }
            assert forall|a: int|
                #![trigger self.games@[a]]
                0 <= a < self.games@.len() && self.games@[a].system_id is Some
                implies self.spec_has_system(
                self.games@[a].guild_id,
                self.games@[a].system_id->0,
            ) by {
                let oa = if a < gdel {
                    a
                } else {
                    a + 1
                };
                let g = prev.games@[oa];
                assert(self.games@[a] == g);
                let k = choose|k: int|
                    0 <= k < prev.systems@.len() && #[trigger] prev.systems@[k].guild_id
                        == g.guild_id && prev.systems@[k].id == g.system_id->0;
                assert(self.systems@[k] == prev.systems@[k]);
            }
            assert(self.games_wf());
            // characters: distinct and well referenced
            assert forall|m1: int, m2: int|
                #![trigger self.characters@[m1], self.characters@[m2]]
                0 <= m1 < self.characters@.len() && 0 <= m2 < self.characters@.len() && m1 != m2
                implies {
                &&& self.characters@[m1].id != self.characters@[m2].id
                &&& self.characters@[m1].game_id == self.characters@[m2].game_id
                    ==> self.characters@[m1].name@ != self.characters@[m2].name@
            } by {
                assert forall|a: int, b: int|
                    0 <= a < chars0.len() && 0 <= b < chars0.len() && a != b implies chars0[a]
                    != chars0[b] by {
                    assert(chars0[a].id != chars0[b].id);
                }
                lemma_filter_members_distinct(chars0, |c: Character| c.game_id != id);
                let i1 = choose|i: int| 0 <= i < chars0.len() && chars0[i] == self.characters@[m1];
                let i2 = choose|i: int| 0 <= i < chars0.len() && chars0[i] == self.characters@[m2];
                assert(i1 != i2);
                assert(chars0[i1].id != chars0[i2].id);
            }
            assert forall|m: int| #![trigger self.characters@[m]] 0 <= m
                < self.characters@.len() implies {
                &&& 0 <= self.characters@[m].id < self.next_character_id
                &&& self.characters@[m].game_id != id
                &&& self.spec_has_game(
                    self.characters@[m].guild_id,
                    self.characters@[m].game_id,
                )
            } by {
                broadcast use vstd::seq_lib::group_filter_ensures;

                let j = choose|j: int|
                    0 <= j < chars0.len() && #[trigger] self.characters@[m] == chars0[j];
                let q = chars0[j];
                assert((|c: Character| c.game_id != id)(self.characters@[m]));
                let k = choose|k: int|
                    0 <= k < prev.games@.len() && #[trigger] prev.games@[k].guild_id == q.guild_id
                        && prev.games@[k].id == q.game_id;
                assert(prev.games@[k].id != prev.games@[gdel].id);
                assert(k != gdel);
                if k < gdel {
                    assert(self.games@[k] == prev.games@[k]);
                } else {
                    assert(self.games@[k - 1] == prev.games@[k]);
                }
            }
            assert(self.characters_wf());
            // players: distinct, and their games and characters survive
            assert forall|m1: int, m2: int|
                #![trigger self.players@[m1], self.players@[m2]]
                0 <= m1 < self.players@.len() && 0 <= m2 < self.players@.len() && m1 != m2
                implies {
                &&& !(self.players@[m1].game_id == self.players@[m2].game_id
                    && self.players@[m1].user_id == self.players@[m2].user_id)
                &&& self.players@[m1].character_id is Some ==> self.players@[m1].character_id
                    != self.players@[m2].character_id
            } by {
                assert forall|a: int, b: int|
                    0 <= a < players0.len() && 0 <= b < players0.len() && a != b
                    implies players0[a] != players0[b] by {
                    assert(!(players0[a].game_id == players0[b].game_id && players0[a].user_id
                        == players0[b].user_id));
                }
                lemma_filter_members_distinct(players0, |p: Player| p.game_id != id);
                let i1 = choose|i: int| 0 <= i < players0.len() && players0[i] == self.players@[m1];
                let i2 = choose|i: int| 0 <= i < players0.len() && players0[i] == self.players@[m2];
                assert(i1 != i2);
            }
            assert forall|m: int| #![trigger self.players@[m]] 0 <= m
                < self.players@.len() implies {
                &&& self.players@[m].character_id is Some ==> self.spec_char_row_in_game(
                    self.players@[m].character_id->0,
                    self.players@[m].game_id,
                )
                &&& self.spec_game_row_exists(self.players@[m].game_id)
            } by {
                broadcast use vstd::seq_lib::group_filter_ensures;

                let j = choose|j: int|
                    0 <= j < players0.len() && #[trigger] self.players@[m] == players0[j];
                let q = players0[j];
                assert((|p: Player| p.game_id != id)(self.players@[m]));
                if q.character_id is Some {
                    let kc = choose|k: int|
                        0 <= k < prev.characters@.len() && #[trigger] prev.characters@[k].id
                            == q.character_id->0 && prev.characters@[k].game_id == q.game_id;
                    assert((|c: Character| c.game_id != id)(chars0[kc]));
                    chars0.lemma_filter_contains(|c: Character| c.game_id != id, kc);
                    assert(self.characters@.contains(chars0[kc]));
                    let mi = choose|mi: int|
                        0 <= mi < self.characters@.len() && self.characters@[mi] == chars0[kc];
                    assert(self.characters@[mi].id == q.character_id->0
                        && self.characters@[mi].game_id == q.game_id);
                }
                let k = choose|k: int|
                    0 <= k < prev.games@.len() && #[trigger] prev.games@[k].id == q.game_id;
                assert(prev.games@[k].id != prev.games@[gdel].id);
                assert(k != gdel);
                if k < gdel {
                    assert(self.games@[k] == prev.games@[k]);
                } else {
                    assert(self.games@[k - 1] == prev.games@[k]);
                }
            }
            assert(self.players_wf());
        }
        Ok(())
    }

    /// Delete a system; games referencing it are detached (their system
    /// reference becomes absent), never deleted.
    pub fn delete_system(&mut self, guild_id: i64, id: i32) -> (r: Result<(), Error>)
        requires
            old(self).wf(),
        ensures
            final(self).wf(),
            spec_delete_system_outcome(*old(self), *final(self), r, guild_id, id),
    {
        let idx = match self.find_system(guild_id, id) {
            None => {
                return Err(Error::NotFound);
            },
            Some(k) => k,
        };
        proof {
            let si = old(self).spec_system_idx(guild_id, id);
            assert(0 <= si < old(self).systems@.len() && old(self).systems@[si].guild_id
                == guild_id && old(self).systems@[si].id == id);
            assert(old(self).systems@[si] == old(self).systems@[idx as int]);
            old(self).systems@.remove_ensures(idx as int);
        }
        self.systems.remove(idx);
        let n = self.games.len();
        let mut i: usize = 0;
        while i < n
            invariant
                n == self.games@.len(),
                n == old(self).games@.len(),
                i <= n,
                self.systems@ == old(self).systems@.remove(
                    old(self).spec_system_idx(guild_id, id),
                ),
                self.characters == old(self).characters,
                self.players == old(self).players,
                self.next_system_id == old(self).next_system_id,
                self.next_game_id == old(self).next_game_id,
                self.next_character_id == old(self).next_character_id,
                forall|j: int|
                    #![trigger self.games@[j]]
                    0 <= j < i ==> self.games@[j] == spec_detach(old(self).games@[j], id),
                forall|j: int|
                    #![trigger self.games@[j]]
                    i <= j < n ==> self.games@[j] == old(self).games@[j],
            decreases n - i,
        {
            let detach = match self.games[i].system_id {
                Some(s) => s == id,
                None => false,
            };
            if detach {
                self.games[i].system_id = None;
            }
            i += 1;
        }
        proof {
            let prev = *old(self);
            let si = prev.spec_system_idx(guild_id, id);
            prev.systems@.remove_ensures(si);
            assert(self.systems_wf());
            // references either were cleared or still point at a remaining row
            assert forall|gi: int|
                #![trigger self.games@[gi]]
                0 <= gi < self.games@.len() && self.games@[gi].system_id is Some
                implies self.spec_has_system(
                self.games@[gi].guild_id,
                self.games@[gi].system_id->0,
            ) by {
                let g = self.games@[gi];
                let gprev = prev.games@[gi];
                assert(g.system_id == gprev.system_id && g.guild_id == gprev.guild_id);
                assert(g.system_id != Some(id));
                let k = choose|k: int|
                    0 <= k < prev.systems@.len() && #[trigger] prev.systems@[k].guild_id
                        == gprev.guild_id && prev.systems@[k].id == gprev.system_id->0;
                assert(prev.systems@[k].id != prev.systems@[si].id);
                assert(k != si);
                if k < si {
                    assert(self.systems@[k] == prev.systems@[k]);
                } else {
                    assert(self.systems@[k - 1] == prev.systems@[k]);
                }
            }
            assert(self.games_wf());
            assert forall|k: int| #![trigger self.games@[k]] 0 <= k < prev.games@.len()
                implies self.games@[k].guild_id == prev.games@[k].guild_id && self.games@[k].id
                == prev.games@[k].id by {}
            self.lemma_characters_wf_same_rows(prev);
            self.lemma_players_wf_same_rows(prev);
        }
        Ok(())
    }
}

} // verus!
