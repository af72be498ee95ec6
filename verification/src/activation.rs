//! The activation engine: the display-name transform applied across a
//! game's roster when play starts or ends.
//!
//! A display name is a base name plus an optional parenthetical character
//! suffix, `"<base> (<character>)"`. The base name is everything before the
//! first `'('`, right-trimmed; re-deriving it before appending makes the
//! transform idempotent, and stripping it unconditionally makes deactivation
//! undo activation. The engine only computes the renames: the caller applies
//! them, and is told which participant (the game's owning user, whom the
//! platform may not let a bot rename) it must not touch directly.

use vstd::prelude::*;

use crate::text::{chars_of, is_name_space, string_of};

verus! {

/// Which way the roster is being synchronized.
#[derive(Clone, Copy, Debug, PartialEq, Eq, Structural)]
pub enum ActivationMode {
    Activate,
    Deactivate,
}

/// One roster participant as the engine sees them: their current display
/// name and the name of their assigned character, if any.
#[derive(Clone, Debug)]
pub struct RosterEntry {
    pub user_id: i64,
    pub display_name: String,
    pub character_name: Option<String>,
}

/// One computed rename: the participant, the name before and after, and
/// whether they must apply it themselves (the platform may refuse to let a
/// bot rename the owning user).
#[derive(Clone, Debug)]
pub struct RenameAction {
    pub user_id: i64,
    pub prior_name: String,
    pub new_name: String,
    pub requires_self_action: bool,
}

/// A sequence with its trailing whitespace removed.
pub open spec fn spec_trim_end(s: Seq<char>) -> Seq<char>
    decreases s.len(),
{
    if s.len() > 0 && is_name_space(s.last()) {
        spec_trim_end(s.drop_last())
    } else {
        s
    }
}

/// The index of the first `'('`, or the length when there is none.
pub open spec fn spec_paren_index(s: Seq<char>) -> int
    decreases s.len(),
{
    if s.len() == 0 {
        0
    } else if s.first() == '(' {
        0
    } else {
        1 + spec_paren_index(s.drop_first())
    }
}

/// The base name: everything before the first `'('`, right-trimmed.
pub open spec fn spec_base_name(s: Seq<char>) -> Seq<char> {
    spec_trim_end(s.take(spec_paren_index(s)))
}

/// An activated name: the base name with the character appended in
/// parentheses.
pub open spec fn spec_activated_name(s: Seq<char>, character_name: Seq<char>) -> Seq<char> {
    spec_base_name(s) + seq![' ', '('] + character_name + seq![')']
}

/// The transform per participant: activation renames only those with an
/// assigned character; deactivation strips every name back to its base.
pub open spec fn spec_new_name(
    mode: ActivationMode,
    name: Seq<char>,
    character_name: Option<Seq<char>>,
) -> Seq<char> {
    match mode {
        ActivationMode::Activate => match character_name {
            Some(cn) => spec_activated_name(name, cn),
            None => name,
        },
        ActivationMode::Deactivate => spec_base_name(name),
    }
}

/// The character-name view of a roster entry.
pub open spec fn spec_entry_character(e: RosterEntry) -> Option<Seq<char>> {
    match e.character_name {
        Some(c) => Some(c@),
        None => None,
    }
}

/// The transform applied to one roster entry.
pub open spec fn spec_entry_new_name(mode: ActivationMode, e: RosterEntry) -> Seq<char> {
    spec_new_name(mode, e.display_name@, spec_entry_character(e))
}

// ---- characterizations of the two spec helpers ---------------------------

/// `spec_paren_index` is the position of the first `'('`.
proof fn lemma_paren_index_bounds(s: Seq<char>)
    ensures
        0 <= spec_paren_index(s) <= s.len(),
        spec_paren_index(s) < s.len() ==> s[spec_paren_index(s)] == '(',
        forall|i: int| 0 <= i < spec_paren_index(s) ==> s[i] != '(',
    decreases s.len(),
{
    if s.len() > 0 && s.first() != '(' {
        lemma_paren_index_bounds(s.drop_first());
        assert forall|i: int| 0 <= i < spec_paren_index(s) implies s[i] != '(' by {
            if i > 0 {
                assert(s.drop_first()[i - 1] == s[i]);
            }
        }
    }
}

/// Any position with no `'('` before it, holding `'('` or the end, is the
/// first one.
proof fn lemma_paren_index_at(s: Seq<char>, k: int)
    requires
        0 <= k <= s.len(),
        forall|i: int| 0 <= i < k ==> s[i] != '(',
        k < s.len() ==> s[k] == '(',
    ensures
        spec_paren_index(s) == k,
    decreases s.len(),
{
    if s.len() == 0 {
    } else if s.first() == '(' {
        assert(k == 0);
    } else {
        let t = s.drop_first();
        assert forall|i: int| 0 <= i < k - 1 implies t[i] != '(' by {
            assert(t[i] == s[i + 1]);
        }
        assert(k >= 1);
        assert(k - 1 < t.len() ==> t[k - 1] == '(');
        lemma_paren_index_at(t, k - 1);
    }
}

/// `spec_trim_end` cuts exactly at the last non-whitespace character.
proof fn lemma_trim_end_at(s: Seq<char>, k: int)
    requires
        0 <= k <= s.len(),
        forall|i: int| k <= i < s.len() ==> is_name_space(s[i]),
        k == 0 || !is_name_space(s[k - 1]),
    ensures
        spec_trim_end(s) == s.take(k),
    decreases s.len(),
{
    if s.len() > 0 && is_name_space(s.last()) {
        assert(k < s.len());
        let t = s.drop_last();
        assert forall|i: int| k <= i < t.len() implies is_name_space(t[i]) by {
            assert(t[i] == s[i]);
        }
        lemma_trim_end_at(t, k);
        assert(t.take(k) =~= s.take(k));
    } else {
        assert(k == s.len());
        assert(s.take(k) =~= s);
    }
}

/// The properties of a trimmed sequence: a prefix of the input, whose last
/// character (if any) is not whitespace, with only whitespace cut off.
proof fn lemma_trim_end_props(s: Seq<char>)
    ensures
        spec_trim_end(s).len() <= s.len(),
        spec_trim_end(s) == s.take(spec_trim_end(s).len() as int),
        spec_trim_end(s).len() > 0 ==> !is_name_space(s[spec_trim_end(s).len() - 1]),
        forall|i: int| spec_trim_end(s).len() <= i < s.len() ==> is_name_space(s[i]),
    decreases s.len(),
{
    if s.len() > 0 && is_name_space(s.last()) {
        let t = s.drop_last();
        lemma_trim_end_props(t);
        assert(t.take(spec_trim_end(t).len() as int) =~= s.take(spec_trim_end(s).len() as int));
        assert forall|i: int| spec_trim_end(s).len() <= i < s.len() implies is_name_space(
            s[i],
        ) by {
            if i < t.len() {
                assert(t[i] == s[i]);
            }
        }
    } else {
        assert(s.take(s.len() as int) =~= s);
    }
}

/// The base name contains no `'('` and no trailing whitespace, so deriving
/// it again changes nothing.
proof fn lemma_base_name_props(s: Seq<char>)
    ensures
        forall|i: int| 0 <= i < spec_base_name(s).len() ==> spec_base_name(s)[i] != '(',
        spec_base_name(s).len() > 0 ==> !is_name_space(spec_base_name(s).last()),
{
    let pi = spec_paren_index(s);
    lemma_paren_index_bounds(s);
    let t = s.take(pi);
    lemma_trim_end_props(t);
    let b = spec_base_name(s);
    assert forall|i: int| 0 <= i < b.len() implies b[i] != '(' by {
        assert(b[i] == t[i]);
        assert(t[i] == s[i]);
    }
    if b.len() > 0 {
        assert(b.last() == t[b.len() - 1]);
    }
}

/// Deriving the base name of a base name gives it back.
pub proof fn lemma_base_name_idempotent(s: Seq<char>)
    ensures
        spec_base_name(spec_base_name(s)) == spec_base_name(s),
{
    let b = spec_base_name(s);
    lemma_base_name_props(s);
    lemma_paren_index_at(b, b.len() as int);
    assert(b.take(b.len() as int) =~= b);
    lemma_trim_end_at(b, b.len() as int);
}

/// The base name of an activated name is the base name of the original:
/// the appended suffix begins at the first `'('`.
pub proof fn lemma_base_name_of_activated(s: Seq<char>, character_name: Seq<char>)
    ensures
        spec_base_name(spec_activated_name(s, character_name)) == spec_base_name(s),
{
    let b = spec_base_name(s);
    let a = spec_activated_name(s, character_name);
    lemma_base_name_props(s);
    assert(a[b.len() as int] == ' ');
    assert(a[b.len() as int + 1] == '(');
    assert forall|i: int| 0 <= i < b.len() as int + 1 implies a[i] != '(' by {
        if i < b.len() {
            assert(a[i] == b[i]);
        }
    }
    lemma_paren_index_at(a, b.len() as int + 1);
    assert(a.take(b.len() as int + 1) =~= b + seq![' ']);
    assert((b + seq![' '])[b.len() as int] == ' ');
    assert forall|i: int| b.len() <= i < (b + seq![' ']).len() implies is_name_space(
        (b + seq![' '])[i],
    ) by {}
    if b.len() > 0 {
        assert((b + seq![' '])[b.len() - 1] == b.last());
    }
    lemma_trim_end_at(b + seq![' '], b.len() as int);
    assert((b + seq![' ']).take(b.len() as int) =~= b);
}

// ---- the testable laws ----------------------------------------------------

/// Idempotence: applying the transform to its own output changes nothing,
/// in either mode, for any name and any assignment.
pub proof fn lemma_transform_idempotent(
    mode: ActivationMode,
    name: Seq<char>,
    character_name: Option<Seq<char>>,
)
    ensures
        spec_new_name(mode, spec_new_name(mode, name, character_name), character_name)
            == spec_new_name(mode, name, character_name),
{
    match mode {
        ActivationMode::Activate => match character_name {
            Some(cn) => {
                lemma_base_name_of_activated(name, cn);
            },
            None => {},
        },
        ActivationMode::Deactivate => {
            lemma_base_name_idempotent(name);
        },
    }
}

/// Round trip: deactivating an activated name restores the participant's
/// original base name, whether or not a character was appended.
pub proof fn lemma_activation_round_trip(name: Seq<char>, character_name: Option<Seq<char>>)
    ensures
        spec_new_name(
            ActivationMode::Deactivate,
            spec_new_name(ActivationMode::Activate, name, character_name),
            character_name,
        ) == spec_base_name(name),
{
    match character_name {
        Some(cn) => {
            lemma_base_name_of_activated(name, cn);
        },
        None => {},
    }
}

/// Idempotence over a whole roster: a roster whose names are the output of
/// the transform (same assignments) is a fixed point of the transform.
pub proof fn lemma_roster_idempotent(
    mode: ActivationMode,
    roster1: Seq<RosterEntry>,
    roster2: Seq<RosterEntry>,
)
    requires
        roster2.len() == roster1.len(),
        forall|i: int|
            0 <= i < roster1.len() ==> #[trigger] roster2[i].display_name@
                == spec_entry_new_name(mode, roster1[i]) && spec_entry_character(roster2[i])
                == spec_entry_character(roster1[i]),
    ensures
        forall|i: int|
            0 <= i < roster2.len() ==> #[trigger] spec_entry_new_name(mode, roster2[i])
                == roster2[i].display_name@,
{
    assert forall|i: int| 0 <= i < roster2.len() implies #[trigger] spec_entry_new_name(
        mode,
        roster2[i],
    ) == roster2[i].display_name@ by {
        lemma_transform_idempotent(
            mode,
            roster1[i].display_name@,
            spec_entry_character(roster1[i]),
        );
    }
}

/// Round trip over a whole roster: deactivating an activated roster
/// restores every participant's original base name.
pub proof fn lemma_roster_round_trip(roster1: Seq<RosterEntry>, roster2: Seq<RosterEntry>)
    requires
        roster2.len() == roster1.len(),
        forall|i: int|
            0 <= i < roster1.len() ==> #[trigger] roster2[i].display_name@
                == spec_entry_new_name(ActivationMode::Activate, roster1[i])
                && spec_entry_character(roster2[i]) == spec_entry_character(roster1[i]),
    ensures
        forall|i: int|
            0 <= i < roster2.len() ==> #[trigger] spec_entry_new_name(
                ActivationMode::Deactivate,
                roster2[i],
            ) == spec_base_name(roster1[i].display_name@),
{
    assert forall|i: int| 0 <= i < roster2.len() implies #[trigger] spec_entry_new_name(
        ActivationMode::Deactivate,
        roster2[i],
    ) == spec_base_name(roster1[i].display_name@) by {
        lemma_activation_round_trip(roster1[i].display_name@, spec_entry_character(roster1[i]));
    }
}

// ---- executable transform -------------------------------------------------

/// The base name of a display name, as characters: everything before the
/// first `'('`, right-trimmed.
fn base_name_chars(chars: &Vec<char>) -> (r: Vec<char>)
    ensures
        r@ == spec_base_name(chars@),
{
    let n = chars.len();
    let mut pi: usize = 0;
    while pi < n && chars[pi] != '('
        invariant
            n == chars@.len(),
            pi <= n,
            forall|i: int| 0 <= i < pi ==> chars@[i] != '(',
        decreases n - pi,
    {
        pi += 1;
    }
    proof {
        lemma_paren_index_at(chars@, pi as int);
    }
    let mut j: usize = pi;
    while j > 0 && crate::text::is_name_space_char(chars[j - 1])
        invariant
            j <= pi <= n,
            n == chars@.len(),
            forall|i: int| j <= i < pi ==> is_name_space(chars@[i]),
        decreases j,
    {
        j -= 1;
    }
    proof {
        assert forall|i: int| j <= i < chars@.take(pi as int).len() implies is_name_space(
            chars@.take(pi as int)[i],
        ) by {
            assert(chars@.take(pi as int)[i] == chars@[i]);
        }
        lemma_trim_end_at(chars@.take(pi as int), j as int);
        assert(chars@.take(pi as int).take(j as int) =~= chars@.take(j as int));
    }
    let mut r: Vec<char> = Vec::new();
    let mut i: usize = 0;
    while i < j
        invariant
            i <= j <= n,
            n == chars@.len(),
            r@ == chars@.take(i as int),
        decreases j - i,
    {
        r.push(chars[i]);
        proof {
            assert(r@ =~= chars@.take(i + 1));
        }
        i += 1;
    }
    r
}

/// A display name with the character's name appended after the base name:
/// `"<base> (<character>)"`. Applying it to an already-activated name
/// re-derives the base first, so nothing stacks.
pub fn apply_character_name(display_name: &str, character_name: &str) -> (r: String)
    ensures
        r@ == spec_activated_name(display_name@, character_name@),
{
    let chars = chars_of(display_name);
    let mut out = base_name_chars(&chars);
    let ghost base = out@;
    out.push(' ');
    out.push('(');
    let cn = chars_of(character_name);
    let n = cn.len();
    let mut i: usize = 0;
    while i < n
        invariant
            n == cn@.len(),
            i <= n,
            out@ == base + seq![' ', '('] + cn@.take(i as int),
        decreases n - i,
    {
        out.push(cn[i]);
        proof {
            assert(out@ =~= base + seq![' ', '('] + cn@.take(i + 1));
        }
        i += 1;
    }
    out.push(')');
    proof {
        assert(cn@.take(n as int) =~= cn@);
        assert(out@ =~= spec_activated_name(display_name@, character_name@));
    }
    string_of(&out)
}

/// A display name stripped back to its base name.
pub fn strip_character_name(display_name: &str) -> (r: String)
    ensures
        r@ == spec_base_name(display_name@),
{
    let chars = chars_of(display_name);
    let base = base_name_chars(&chars);
    string_of(&base)
}

/// Compute the rename for every roster participant: activation appends each
/// assigned character's name (participants without one keep their name);
/// deactivation strips every name to its base. The guild owner's entry is
/// returned with `requires_self_action` set instead of being renamed by the
/// caller; every entry surfaces the prior and the new name for display.
pub fn compute_transform(
    mode: ActivationMode,
    roster: &Vec<RosterEntry>,
    owner_id: i64,
) -> (r: Vec<RenameAction>)
    ensures
        r@.len() == roster@.len(),
        forall|i: int|
            #![trigger r@[i]]
            0 <= i < roster@.len() ==> {
                &&& r@[i].user_id == roster@[i].user_id
                &&& r@[i].prior_name@ == roster@[i].display_name@
                &&& r@[i].new_name@ == spec_entry_new_name(mode, roster@[i])
                &&& r@[i].requires_self_action == (roster@[i].user_id == owner_id)
            },
{
    let mut r: Vec<RenameAction> = Vec::new();
    let n = roster.len();
    let mut i: usize = 0;
    while i < n
        invariant
            n == roster@.len(),
            i <= n,
            r@.len() == i,
            forall|k: int|
                #![trigger r@[k]]
                0 <= k < i ==> {
                    &&& r@[k].user_id == roster@[k].user_id
                    &&& r@[k].prior_name@ == roster@[k].display_name@
                    &&& r@[k].new_name@ == spec_entry_new_name(mode, roster@[k])
                    &&& r@[k].requires_self_action == (roster@[k].user_id == owner_id)
                },
        decreases n - i,
    {
        let entry = &roster[i];
        let new_name: String = match mode {
            ActivationMode::Activate => match &entry.character_name {
                Some(cn) => apply_character_name(entry.display_name.as_str(), cn.as_str()),
                None => entry.display_name.clone(),
            },
            ActivationMode::Deactivate => strip_character_name(entry.display_name.as_str()),
        };
        let action = RenameAction {
            user_id: entry.user_id,
            prior_name: entry.display_name.clone(),
            new_name,
            requires_self_action: entry.user_id == owner_id,
        };
        r.push(action);
        i += 1;
    }
    r
}

} // verus!
