//! Suggestion-list support: the query string handed to the full-text search
//! collaborator, and the permission scoping of what each caller may be
//! offered.
//!
//! The search ranking itself is the collaborator's; this module decides
//! which entities a caller is allowed to see, by the same rules as the
//! authorization engine, caps every listing at the platform's 25-entry
//! limit, and turns the typed prefix into search terms.

use vstd::prelude::*;

use crate::character::spec_can_manage_character;
use crate::commands::RequestContext;
use crate::entities::{Character, Game, System};
use crate::store::{lemma_filter_take_is_prefix, lemma_filter_take_step, Store};
use crate::text::{chars_of, is_name_space, string_of};

verus! {

/// The index of the first whitespace character, or the length when none.
pub open spec fn spec_space_index(s: Seq<char>) -> int
    decreases s.len(),
{
    if s.len() == 0 {
        0
    } else if is_name_space(s.first()) {
        0
    } else {
        1 + spec_space_index(s.drop_first())
    }
}

/// `spec_space_index` is the position of the first whitespace.
proof fn lemma_space_index_bounds(s: Seq<char>)
    ensures
        0 <= spec_space_index(s) <= s.len(),
        spec_space_index(s) < s.len() ==> is_name_space(s[spec_space_index(s)]),
        forall|i: int| 0 <= i < spec_space_index(s) ==> !is_name_space(s[i]),
    decreases s.len(),
{
    if s.len() > 0 && !is_name_space(s.first()) {
        lemma_space_index_bounds(s.drop_first());
        assert forall|i: int| 0 <= i < spec_space_index(s) implies !is_name_space(s[i]) by {
            if i > 0 {
                assert(s.drop_first()[i - 1] == s[i]);
            }
        }
    }
}

/// Any position with no whitespace before it, holding whitespace or the
/// end, is the first one.
proof fn lemma_space_index_at(s: Seq<char>, k: int)
    requires
        0 <= k <= s.len(),
        forall|i: int| 0 <= i < k ==> !is_name_space(s[i]),
        k < s.len() ==> is_name_space(s[k]),
    ensures
        spec_space_index(s) == k,
    decreases s.len(),
{
    if s.len() == 0 {
    } else if is_name_space(s.first()) {
        assert(k == 0);
    } else {
        let t = s.drop_first();
        assert forall|i: int| 0 <= i < k - 1 implies !is_name_space(t[i]) by {
            assert(t[i] == s[i + 1]);
        }
        assert(k >= 1);
        assert(k - 1 < t.len() ==> is_name_space(t[k - 1]));
        lemma_space_index_at(t, k - 1);
    }
}

/// The whitespace-separated words of a string, in order, with no empties.
pub open spec fn spec_words(s: Seq<char>) -> Seq<Seq<char>>
    decreases s.len(),
    via spec_words_decreases
{
    if s.len() == 0 {
        Seq::empty()
    } else if is_name_space(s.first()) {
        spec_words(s.drop_first())
    } else {
        seq![s.take(spec_space_index(s))] + spec_words(s.skip(spec_space_index(s)))
    }
}

#[via_fn]
proof fn spec_words_decreases(s: Seq<char>) {
    lemma_space_index_bounds(s);
}

/// The words joined with `'|'` between them.
pub open spec fn spec_joined(ws: Seq<Seq<char>>) -> Seq<char>
    decreases ws.len(),
{
    if ws.len() == 0 {
        Seq::empty()
    } else if ws.len() == 1 {
        ws[0]
    } else {
        ws[0] + seq!['|'] + spec_joined(ws.drop_first())
    }
}

/// Joining one more word appends a separator exactly when words came before.
proof fn lemma_joined_push(ws: Seq<Seq<char>>, w: Seq<char>)
    ensures
        spec_joined(ws.push(w)) == if ws.len() == 0 {
            w
        } else {
            spec_joined(ws) + seq!['|'] + w
        },
    decreases ws.len(),
{
    if ws.len() == 0 {
        assert(ws.push(w).len() == 1);
        assert(ws.push(w)[0] == w);
    } else {
        let p = ws.push(w);
        assert(p.len() >= 2);
        assert(p[0] == ws[0]);
        assert(p.drop_first() =~= ws.drop_first().push(w));
        lemma_joined_push(ws.drop_first(), w);
        if ws.len() == 1 {
            assert(spec_joined(p) == ws[0] + seq!['|'] + w);
        }
    }
}

/// The full-text query for a typed prefix: the words of the input joined
/// with `'|'`, quoted, with a prefix-match marker.
pub open spec fn spec_search_terms(s: Seq<char>) -> Seq<char> {
    seq!['"'] + spec_joined(spec_words(s)) + seq!['"', ':', '*']
}

/// Turn a typed prefix into the query string handed to the search
/// collaborator: its whitespace-separated words joined with `'|'`, wrapped
/// as a quoted prefix query.
pub fn search_terms(partial: &str) -> (r: String)
    ensures
        r@ == spec_search_terms(partial@),
{
    let chars = chars_of(partial);
    let n = chars.len();
    let ghost s = chars@;
    let mut joined: Vec<char> = Vec::new();
    let ghost mut ws: Seq<Seq<char>> = Seq::empty();
    let mut first = true;
    proof {
        assert(s.skip(0) =~= s);
        assert(ws + spec_words(s) =~= spec_words(s));
    }
    let mut i: usize = 0;
    while i < n
        invariant
            n == s.len(),
            s == chars@,
            i <= n,
            spec_words(s) == ws + spec_words(s.skip(i as int)),
            joined@ == spec_joined(ws),
            first == (ws.len() == 0),
        decreases n - i,
    {
        if crate::text::is_name_space_char(chars[i]) {
            proof {
                let t = s.skip(i as int);
                assert(t.first() == s[i as int]);
                assert(t.drop_first() =~= s.skip(i as int + 1));
                assert(spec_words(t) == spec_words(s.skip(i as int + 1)));
            }
            i += 1;
        } else {
            let start = i;
            let mut j: usize = i;
            while j < n && !crate::text::is_name_space_char(chars[j])
                invariant
                    start <= j <= n,
                    n == s.len(),
                    s == chars@,
                    forall|k: int| start <= k < j ==> !is_name_space(s[k]),
                decreases n - j,
            {
                j += 1;
            }
            let mut word: Vec<char> = Vec::new();
            let mut m: usize = start;
            while m < j
                invariant
                    start <= m <= j <= n,
                    n == s.len(),
                    s == chars@,
                    word@ == s.subrange(start as int, m as int),
                decreases j - m,
            {
                word.push(chars[m]);
                proof {
                    assert(word@ =~= s.subrange(start as int, m as int + 1));
                }
                m += 1;
            }
            proof {
                let t = s.skip(start as int);
                assert forall|k: int| 0 <= k < j - start implies !is_name_space(t[k]) by {
                    assert(t[k] == s[start + k]);
                }
                assert(j - start < t.len() ==> is_name_space(t[j - start]));
                lemma_space_index_at(t, j as int - start as int);
                assert(!is_name_space(t.first()));
                assert(t.take(j as int - start as int) =~= s.subrange(start as int, j as int));
                assert(t.skip(j as int - start as int) =~= s.skip(j as int));
                assert(spec_words(t) == seq![word@] + spec_words(s.skip(j as int)));
                lemma_joined_push(ws, word@);
            }
            if first {
                first = false;
            } else {
                joined.push('|');
            }
            let mut m2: usize = 0;
            let ghost base = joined@;
            let wlen = word.len();
            while m2 < wlen
                invariant
                    m2 <= wlen,
                    wlen == word@.len(),
                    joined@ == base + word@.take(m2 as int),
                decreases wlen - m2,
            {
                joined.push(word[m2]);
                proof {
                    assert(joined@ =~= base + word@.take(m2 as int + 1));
                }
                m2 += 1;
            }
            proof {
                assert(word@.take(wlen as int) =~= word@);
                ws = ws.push(word@);
                assert(ws + spec_words(s.skip(j as int)) =~= (ws.drop_last() + seq![word@])
                    + spec_words(s.skip(j as int)));
                assert(spec_words(s) == ws + spec_words(s.skip(j as int)));
            }
            i = j;
        }
    }
    proof {
        assert(s.skip(n as int) =~= Seq::<char>::empty());
        assert(ws + spec_words(s.skip(n as int)) =~= ws);
    }
    let mut out: Vec<char> = Vec::new();
    out.push('"');
    let ghost jfull = joined@;
    out.append(&mut joined);
    out.push('"');
    out.push(':');
    out.push('*');
    proof {
        assert(out@ =~= seq!['"'] + jfull + seq!['"', ':', '*']);
    }
    string_of(&out)
}

// ---- permission-scoped listings -------------------------------------------

/// Every system of the caller's guild, as (id, title) pairs.
pub fn system(store: &Store, ctx: &RequestContext) -> (r: Vec<(i32, String)>)
    ensures
        ({
            let picked = store.systems@.filter(|s: System| s.guild_id == ctx.guild_id);
            &&& r@.len() <= 25
            &&& picked.len() <= 25 ==> r@.len() == picked.len()
            &&& picked.len() > 25 ==> r@.len() == 25
            &&& forall|m: int|
                #![trigger r@[m]]
                0 <= m < r@.len() ==> r@[m].0 == picked[m].id && r@[m].1@ == picked[m].title@
        }),
{
    let mut r: Vec<(i32, String)> = Vec::new();
    let n = store.systems.len();
    let mut i: usize = 0;
    while i < n && r.len() < 25
        invariant
            n == store.systems@.len(),
            i <= n,
            r@.len() <= 25,
            ({
                let picked = store.systems@.take(i as int).filter(
                    |s: System| s.guild_id == ctx.guild_id,
                );
                &&& r@.len() == picked.len()
                &&& forall|m: int|
                    #![trigger r@[m]]
                    0 <= m < picked.len() ==> r@[m].0 == picked[m].id && r@[m].1@
                        == picked[m].title@
            }),
        decreases n - i,
    {
        proof {
            lemma_filter_take_step(
                store.systems@,
                |s: System| s.guild_id == ctx.guild_id,
                i as int,
            );
        }
        if store.systems[i].guild_id == ctx.guild_id {
            let id = store.systems[i].id;
            let title = store.systems[i].title.clone();
            r.push((id, title));
        }
        i += 1;
    }
    proof {
        assert(store.systems@.take(n as int) =~= store.systems@);
        if i < n {
            lemma_filter_take_is_prefix(
                store.systems@,
                |s: System| s.guild_id == ctx.guild_id,
                i as int,
            );
        }
    }
    r
}

/// Every game of the caller's guild, as (id, title) pairs.
pub fn game(store: &Store, ctx: &RequestContext) -> (r: Vec<(i32, String)>)
    ensures
        ({
            let picked = store.games@.filter(|g: Game| g.guild_id == ctx.guild_id);
            &&& r@.len() <= 25
            &&& picked.len() <= 25 ==> r@.len() == picked.len()
            &&& picked.len() > 25 ==> r@.len() == 25
            &&& forall|m: int|
                #![trigger r@[m]]
                0 <= m < r@.len() ==> r@[m].0 == picked[m].id && r@[m].1@ == picked[m].title@
        }),
{
    let mut r: Vec<(i32, String)> = Vec::new();
    let n = store.games.len();
    let mut i: usize = 0;
    while i < n && r.len() < 25
        invariant
            n == store.games@.len(),
            i <= n,
            r@.len() <= 25,
            ({
                let picked = store.games@.take(i as int).filter(
                    |g: Game| g.guild_id == ctx.guild_id,
                );
                &&& r@.len() == picked.len()
                &&& forall|m: int|
                    #![trigger r@[m]]
                    0 <= m < picked.len() ==> r@[m].0 == picked[m].id && r@[m].1@
                        == picked[m].title@
            }),
        decreases n - i,
    {
        proof {
            lemma_filter_take_step(store.games@, |g: Game| g.guild_id == ctx.guild_id, i as int);
        }
        if store.games[i].guild_id == ctx.guild_id {
            let id = store.games[i].id;
            let title = store.games[i].title.clone();
            r.push((id, title));
        }
        i += 1;
    }
    proof {
        assert(store.games@.take(n as int) =~= store.games@);
        if i < n {
            lemma_filter_take_is_prefix(
                store.games@,
                |g: Game| g.guild_id == ctx.guild_id,
                i as int,
            );
        }
    }
    r
}

/// The games of the guild the caller may edit: all of them for a moderator,
/// otherwise the ones they own.
pub fn game_editable(store: &Store, ctx: &RequestContext) -> (r: Vec<(i32, String)>)
    ensures
        ({
            let picked = store.games@.filter(
                |g: Game| g.guild_id == ctx.guild_id && (ctx.moderator || g.owner_id
                    == ctx.caller_id),
            );
            &&& r@.len() <= 25
            &&& picked.len() <= 25 ==> r@.len() == picked.len()
            &&& picked.len() > 25 ==> r@.len() == 25
            &&& forall|m: int|
                #![trigger r@[m]]
                0 <= m < r@.len() ==> r@[m].0 == picked[m].id && r@[m].1@ == picked[m].title@
        }),
{
    let mut r: Vec<(i32, String)> = Vec::new();
    let n = store.games.len();
    let mut i: usize = 0;
    while i < n && r.len() < 25
        invariant
            n == store.games@.len(),
            i <= n,
            r@.len() <= 25,
            ({
                let picked = store.games@.take(i as int).filter(
                    |g: Game| g.guild_id == ctx.guild_id && (ctx.moderator || g.owner_id
                        == ctx.caller_id),
                );
                &&& r@.len() == picked.len()
                &&& forall|m: int|
                    #![trigger r@[m]]
                    0 <= m < picked.len() ==> r@[m].0 == picked[m].id && r@[m].1@
                        == picked[m].title@
            }),
        decreases n - i,
    {
        proof {
            lemma_filter_take_step(
                store.games@,
                |g: Game| g.guild_id == ctx.guild_id && (ctx.moderator || g.owner_id
                    == ctx.caller_id),
                i as int,
            );
        }
        if store.games[i].guild_id == ctx.guild_id && (ctx.moderator || store.games[i].owner_id
            == ctx.caller_id) {
            let id = store.games[i].id;
            let title = store.games[i].title.clone();
            r.push((id, title));
        }
        i += 1;
    }
    proof {
        assert(store.games@.take(n as int) =~= store.games@);
        if i < n {
            lemma_filter_take_is_prefix(
                store.games@,
                |g: Game| g.guild_id == ctx.guild_id && (ctx.moderator || g.owner_id
                    == ctx.caller_id),
                i as int,
            );
        }
    }
    r
}

/// The games of the guild the caller participates in, as owner or player.
pub fn game_joined(store: &Store, ctx: &RequestContext) -> (r: Vec<(i32, String)>)
    ensures
        ({
            let picked = store.games@.filter(
                |g: Game| g.guild_id == ctx.guild_id && (g.owner_id == ctx.caller_id
                    || store.spec_has_player(g.id, ctx.caller_id)),
            );
            &&& r@.len() <= 25
            &&& picked.len() <= 25 ==> r@.len() == picked.len()
            &&& picked.len() > 25 ==> r@.len() == 25
            &&& forall|m: int|
                #![trigger r@[m]]
                0 <= m < r@.len() ==> r@[m].0 == picked[m].id && r@[m].1@ == picked[m].title@
        }),
{
    let mut r: Vec<(i32, String)> = Vec::new();
    let n = store.games.len();
    let mut i: usize = 0;
    while i < n && r.len() < 25
        invariant
            n == store.games@.len(),
            i <= n,
            r@.len() <= 25,
            ({
                let picked = store.games@.take(i as int).filter(
                    |g: Game| g.guild_id == ctx.guild_id && (g.owner_id == ctx.caller_id
                        || store.spec_has_player(g.id, ctx.caller_id)),
                );
                &&& r@.len() == picked.len()
                &&& forall|m: int|
                    #![trigger r@[m]]
                    0 <= m < picked.len() ==> r@[m].0 == picked[m].id && r@[m].1@
                        == picked[m].title@
            }),
        decreases n - i,
    {
        proof {
            lemma_filter_take_step(
                store.games@,
                |g: Game| g.guild_id == ctx.guild_id && (g.owner_id == ctx.caller_id
                    || store.spec_has_player(g.id, ctx.caller_id)),
                i as int,
            );
        }
        if store.games[i].guild_id == ctx.guild_id && (store.games[i].owner_id == ctx.caller_id
            || store.find_player(store.games[i].id, ctx.caller_id).is_some()) {
            let id = store.games[i].id;
            let title = store.games[i].title.clone();
            r.push((id, title));
        }
        i += 1;
    }
    proof {
        assert(store.games@.take(n as int) =~= store.games@);
        if i < n {
            lemma_filter_take_is_prefix(
                store.games@,
                |g: Game| g.guild_id == ctx.guild_id && (g.owner_id == ctx.caller_id
                    || store.spec_has_player(g.id, ctx.caller_id)),
                i as int,
            );
        }
    }
    r
}

/// Every character of the caller's guild, as (id, name) pairs.
pub fn character(store: &Store, ctx: &RequestContext) -> (r: Vec<(i32, String)>)
    ensures
        ({
            let picked = store.characters@.filter(|c: Character| c.guild_id == ctx.guild_id);
            &&& r@.len() <= 25
            &&& picked.len() <= 25 ==> r@.len() == picked.len()
            &&& picked.len() > 25 ==> r@.len() == 25
            &&& forall|m: int|
                #![trigger r@[m]]
                0 <= m < r@.len() ==> r@[m].0 == picked[m].id && r@[m].1@ == picked[m].name@
        }),
{
    let mut r: Vec<(i32, String)> = Vec::new();
    let n = store.characters.len();
    let mut i: usize = 0;
    while i < n && r.len() < 25
        invariant
            n == store.characters@.len(),
            i <= n,
            r@.len() <= 25,
            ({
                let picked = store.characters@.take(i as int).filter(
                    |c: Character| c.guild_id == ctx.guild_id,
                );
                &&& r@.len() == picked.len()
                &&& forall|m: int|
                    #![trigger r@[m]]
                    0 <= m < picked.len() ==> r@[m].0 == picked[m].id && r@[m].1@
                        == picked[m].name@
            }),
        decreases n - i,
    {
        proof {
            lemma_filter_take_step(
                store.characters@,
                |c: Character| c.guild_id == ctx.guild_id,
                i as int,
            );
        }
        if store.characters[i].guild_id == ctx.guild_id {
            let id = store.characters[i].id;
            let name = store.characters[i].name.clone();
            r.push((id, name));
        }
        i += 1;
    }
    proof {
        assert(store.characters@.take(n as int) =~= store.characters@);
        if i < n {
            lemma_filter_take_is_prefix(
                store.characters@,
                |c: Character| c.guild_id == ctx.guild_id,
                i as int,
            );
        }
    }
    r
}

/// The characters of the guild the caller may edit, by the authorization
/// engine's own rule.
pub fn character_editable(store: &Store, ctx: &RequestContext) -> (r: Vec<(i32, String)>)
    requires
        store.wf(),
    ensures
        ({
            let picked = store.characters@.filter(
                |c: Character| c.guild_id == ctx.guild_id && spec_can_manage_character(
                    *store,
                    *ctx,
                    c.id,
                ),
            );
            &&& r@.len() <= 25
            &&& picked.len() <= 25 ==> r@.len() == picked.len()
            &&& picked.len() > 25 ==> r@.len() == 25
            &&& forall|m: int|
                #![trigger r@[m]]
                0 <= m < r@.len() ==> r@[m].0 == picked[m].id && r@[m].1@ == picked[m].name@
        }),
{
    let mut r: Vec<(i32, String)> = Vec::new();
    let n = store.characters.len();
    let mut i: usize = 0;
    while i < n && r.len() < 25
        invariant
            store.wf(),
            n == store.characters@.len(),
            i <= n,
            r@.len() <= 25,
            ({
                let picked = store.characters@.take(i as int).filter(
                    |c: Character| c.guild_id == ctx.guild_id && spec_can_manage_character(
                        *store,
                        *ctx,
                        c.id,
                    ),
                );
                &&& r@.len() == picked.len()
                &&& forall|m: int|
                    #![trigger r@[m]]
                    0 <= m < picked.len() ==> r@[m].0 == picked[m].id && r@[m].1@
                        == picked[m].name@
            }),
        decreases n - i,
    {
        proof {
            lemma_filter_take_step(
                store.characters@,
                |c: Character| c.guild_id == ctx.guild_id && spec_can_manage_character(
                    *store,
                    *ctx,
                    c.id,
                ),
                i as int,
            );
        }
        if store.characters[i].guild_id == ctx.guild_id && crate::character::can_manage(
            store,
            ctx,
            store.characters[i].id,
        ) {
            let id = store.characters[i].id;
            let name = store.characters[i].name.clone();
            r.push((id, name));
        }
        i += 1;
    }
    proof {
        assert(store.characters@.take(n as int) =~= store.characters@);
        if i < n {
            lemma_filter_take_is_prefix(
                store.characters@,
                |c: Character| c.guild_id == ctx.guild_id && spec_can_manage_character(
                    *store,
                    *ctx,
                    c.id,
                ),
                i as int,
            );
        }
    }
    r
}

/// The caller's own characters: those currently assigned to them.
pub fn character_assigned(store: &Store, ctx: &RequestContext) -> (r: Vec<(i32, String)>)
    requires
        store.wf(),
    ensures
        ({
            let picked = store.characters@.filter(
                |c: Character| c.guild_id == ctx.guild_id && store.spec_char_assigned(c.id)
                    && store.players@[store.spec_assignment_idx(c.id)].user_id == ctx.caller_id,
            );
            &&& r@.len() <= 25
            &&& picked.len() <= 25 ==> r@.len() == picked.len()
            &&& picked.len() > 25 ==> r@.len() == 25
            &&& forall|m: int|
                #![trigger r@[m]]
                0 <= m < r@.len() ==> r@[m].0 == picked[m].id && r@[m].1@ == picked[m].name@
        }),
{
    let mut r: Vec<(i32, String)> = Vec::new();
    let n = store.characters.len();
    let mut i: usize = 0;
    while i < n && r.len() < 25
        invariant
            store.wf(),
            n == store.characters@.len(),
            i <= n,
            r@.len() <= 25,
            ({
                let picked = store.characters@.take(i as int).filter(
                    |c: Character| c.guild_id == ctx.guild_id && store.spec_char_assigned(c.id)
                        && store.players@[store.spec_assignment_idx(c.id)].user_id
                        == ctx.caller_id,
                );
                &&& r@.len() == picked.len()
                &&& forall|m: int|
                    #![trigger r@[m]]
                    0 <= m < picked.len() ==> r@[m].0 == picked[m].id && r@[m].1@
                        == picked[m].name@
            }),
        decreases n - i,
    {
        proof {
            lemma_filter_take_step(
                store.characters@,
                |c: Character| c.guild_id == ctx.guild_id && store.spec_char_assigned(c.id)
                    && store.players@[store.spec_assignment_idx(c.id)].user_id == ctx.caller_id,
                i as int,
            );
        }
        let mut keep = false;
        if store.characters[i].guild_id == ctx.guild_id {
            match store.find_assignment(store.characters[i].id) {
                Some(k) => {
                    proof {
                        store.lemma_assignment_idx_agrees(
                            store.characters@[i as int].id,
                            k as int,
                        );
                    }
                    if store.players[k].user_id == ctx.caller_id {
                        keep = true;
                    }
                },
                None => {},
            }
        }
        if keep {
            let id = store.characters[i].id;
            let name = store.characters[i].name.clone();
            r.push((id, name));
        }
        i += 1;
    }
    proof {
        assert(store.characters@.take(n as int) =~= store.characters@);
        if i < n {
            lemma_filter_take_is_prefix(
                store.characters@,
                |c: Character| c.guild_id == ctx.guild_id && store.spec_char_assigned(c.id)
                    && store.players@[store.spec_assignment_idx(c.id)].user_id == ctx.caller_id,
                i as int,
            );
        }
    }
    r
}

/// The characters the caller could claim: unassigned ones in games where the
/// caller has a player row.
pub fn character_claimable(store: &Store, ctx: &RequestContext) -> (r: Vec<(i32, String)>)
    ensures
        ({
            let picked = store.characters@.filter(
                |c: Character| c.guild_id == ctx.guild_id && !store.spec_char_assigned(c.id)
                    && store.spec_has_player(c.game_id, ctx.caller_id),
            );
            &&& r@.len() <= 25
            &&& picked.len() <= 25 ==> r@.len() == picked.len()
            &&& picked.len() > 25 ==> r@.len() == 25
            &&& forall|m: int|
                #![trigger r@[m]]
                0 <= m < r@.len() ==> r@[m].0 == picked[m].id && r@[m].1@ == picked[m].name@
        }),
{
    let mut r: Vec<(i32, String)> = Vec::new();
    let n = store.characters.len();
    let mut i: usize = 0;
    while i < n && r.len() < 25
        invariant
            n == store.characters@.len(),
            i <= n,
            r@.len() <= 25,
            ({
                let picked = store.characters@.take(i as int).filter(
                    |c: Character| c.guild_id == ctx.guild_id && !store.spec_char_assigned(c.id)
                        && store.spec_has_player(c.game_id, ctx.caller_id),
                );
                &&& r@.len() == picked.len()
                &&& forall|m: int|
                    #![trigger r@[m]]
                    0 <= m < picked.len() ==> r@[m].0 == picked[m].id && r@[m].1@
                        == picked[m].name@
            }),
        decreases n - i,
    {
        proof {
            lemma_filter_take_step(
                store.characters@,
                |c: Character| c.guild_id == ctx.guild_id && !store.spec_char_assigned(c.id)
                    && store.spec_has_player(c.game_id, ctx.caller_id),
                i as int,
            );
        }
        if store.characters[i].guild_id == ctx.guild_id && store.find_assignment(
            store.characters[i].id,
        ).is_none() && store.find_player(store.characters[i].game_id, ctx.caller_id).is_some() {
            let id = store.characters[i].id;
            let name = store.characters[i].name.clone();
            r.push((id, name));
        }
        i += 1;
    }
    proof {
        assert(store.characters@.take(n as int) =~= store.characters@);
        if i < n {
            lemma_filter_take_is_prefix(
                store.characters@,
                |c: Character| c.guild_id == ctx.guild_id && !store.spec_char_assigned(c.id)
                    && store.spec_has_player(c.game_id, ctx.caller_id),
                i as int,
            );
        }
    }
    r
}

} // verus!
