//! A manifest that was read can be written, where its texts can be quoted.

use crate::chars::alphanumeric;
use crate::error::Fault;
use crate::parse_tasks::{env_from, env_of};
use crate::paths::{components, names, slashed};
use crate::render::{gas, raws, reference_words};
use crate::sheet::{
    bare, control, plain_block, plain_key, plain_lines, plain_scalar, plain_value, quotable, Plain,
    DATE_MARK,
};
use crate::sheet_of::{env_fields, env_value, lines_of, table_of, Slots};
use crate::task::TaskRefModel;
use crate::template::{template_of, TemplateModel};
use crate::text::{joined, pieces, run_end, Class};
use crate::value::{entry, entry_from, sound, Entries};
use vstd::prelude::*;

verus! {

// ---- texts -----------------------------------------------------------------

/// Texts that can be quoted.
pub open spec fn quotable_all(list: Seq<Seq<char>>) -> bool {
    forall|i: int| 0 <= i < list.len() ==> quotable(#[trigger] list[i])
}

pub open spec fn quotable_option(s: Option<Seq<char>>) -> bool {
    s matches Some(s) ==> quotable(s)
}

pub open spec fn quotable_templates(list: Seq<TemplateModel>) -> bool {
    forall|i: int| 0 <= i < list.len() ==> quotable((#[trigger] list[i]).raw)
}

pub open spec fn quotable_template(t: Option<TemplateModel>) -> bool {
    t matches Some(t) ==> quotable(t.raw)
}

/// Names and values that can be quoted.
pub open spec fn quotable_env(env: Seq<(Seq<char>, TemplateModel)>) -> bool {
    forall|i: int|
        0 <= i < env.len() ==> quotable((#[trigger] env[i]).0) && quotable(env[i].1.raw)
}

/// Groups and artifacts that can be quoted.
pub open spec fn quotable_pairs(list: Seq<(Seq<char>, Seq<char>)>) -> bool {
    forall|i: int| 0 <= i < list.len() ==> quotable((#[trigger] list[i]).0) && quotable(list[i].1)
}

pub open spec fn quotable_references(list: Seq<TaskRefModel>) -> bool {
    forall|i: int| 0 <= i < list.len() ==> quotable((#[trigger] list[i]).word())
}

pub proof fn lemma_quotable_both(a: Seq<char>, b: Seq<char>)
    requires
        quotable(a),
        quotable(b),
    ensures
        quotable(a + b),
{
    let s = a + b;
    assert forall|i: int| 0 <= i < s.len() implies !control(#[trigger] s[i]) || s[i] == '\t' || s[i]
        == '\n' by {
        if i < a.len() {
            assert(s[i] == a[i]);
        } else {
            assert(s[i] == b[i - a.len()]);
        }
    }
}

pub proof fn lemma_quotable_ga(g: Seq<char>, a: Seq<char>)
    requires
        quotable(g),
        quotable(a),
    ensures
        quotable(crate::coord::ga_text(g, a)),
{
    reveal_strlit(":");
    lemma_quotable_both(g, ":"@);
    lemma_quotable_both(g + ":"@, a);
}

pub proof fn lemma_gas(list: Seq<(Seq<char>, Seq<char>)>)
    requires
        quotable_pairs(list),
    ensures
        quotable_all(gas(list)),
{
    assert forall|i: int| 0 <= i < gas(list).len() implies quotable(#[trigger] gas(list)[i]) by {
        lemma_quotable_ga(list[i].0, list[i].1);
    }
}

proof fn lemma_pieces_quotable(s: Seq<char>, sep: char)
    requires
        quotable(s),
    ensures
        quotable_all(pieces(s, sep)),
    decreases s.len(),
{
    let i = run_end(s, Class::Not(sep), 0);
    if 0 <= i < s.len() {
        let first = s.take(i);
        let rest = s.skip(i + 1);
        assert forall|j: int| 0 <= j < first.len() implies !control(#[trigger] first[j]) || first[j]
            == '\t' || first[j] == '\n' by {
            assert(first[j] == s[j]);
        }
        assert forall|j: int| 0 <= j < rest.len() implies !control(#[trigger] rest[j]) || rest[j]
            == '\t' || rest[j] == '\n' by {
            assert(rest[j] == s[i + 1 + j]);
        }
        lemma_pieces_quotable(rest, sep);
        let more = pieces(rest, sep);
        assert forall|k: int| 0 <= k < pieces(s, sep).len() implies quotable(
            #[trigger] pieces(s, sep)[k],
        ) by {
            if k > 0 {
                assert(pieces(s, sep)[k] == more[k - 1]);
            }
        }
    }
}

proof fn lemma_names_quotable(parts: Seq<Seq<char>>)
    requires
        quotable_all(parts),
    ensures
        quotable_all(names(parts)),
    decreases parts.len(),
{
    if parts.len() > 0 {
        let before = parts.drop_last();
        assert forall|i: int| 0 <= i < before.len() implies quotable(#[trigger] before[i]) by {
            assert(before[i] == parts[i]);
        }
        lemma_names_quotable(before);
        assert(quotable(parts[parts.len() - 1]));
    }
}

proof fn lemma_joined_quotable(parts: Seq<Seq<char>>, sep: Seq<char>)
    requires
        quotable_all(parts),
        quotable(sep),
    ensures
        quotable(joined(parts, sep)),
    decreases parts.len(),
{
    if parts.len() > 1 {
        let before = parts.drop_last();
        assert forall|i: int| 0 <= i < before.len() implies quotable(#[trigger] before[i]) by {
            assert(before[i] == parts[i]);
        }
        lemma_joined_quotable(before, sep);
        assert(quotable(parts[parts.len() - 1]));
        lemma_quotable_both(joined(before, sep), sep);
        lemma_quotable_both(joined(before, sep) + sep, parts.last());
    } else if parts.len() == 1 {
        assert(quotable(parts[0]));
    }
}

/// A directory that can be quoted can be, spelled anew.
pub proof fn lemma_slashed_quotable(path: Seq<char>)
    requires
        quotable(path),
    ensures
        quotable(slashed(path)),
{
    reveal_strlit("/");
    reveal_strlit(".");
    lemma_pieces_quotable(path, '/');
    lemma_names_quotable(pieces(path, '/'));
    let rest = names(pieces(path, '/'));
    assert(quotable("/"@) && quotable("."@));
    let all = components(path);
    assert forall|i: int| 0 <= i < all.len() implies quotable(#[trigger] all[i]) by {
        if all.len() > rest.len() && i > 0 {
            assert(all[i] == rest[i - 1]);
        }
    }
    lemma_joined_quotable(all, "/"@);
}

// ---- names -----------------------------------------------------------------

/// The characters from the `i`th on need no quotes.
pub open spec fn bare_on(s: Seq<char>, i: int) -> bool
    decreases s.len() - i,
{
    i < 0 || i >= s.len() || ((alphanumeric(s[i]) || s[i] == '-' || s[i] == '_') && bare_on(
        s,
        i + 1,
    ))
}

proof fn lemma_bare_on(s: Seq<char>, i: int)
    requires
        0 <= i,
        bare_on(s, i),
    ensures
        forall|k: int|
            i <= k < s.len() ==> alphanumeric(#[trigger] s[k]) || s[k] == '-' || s[k] == '_',
    decreases s.len() - i,
{
    if i < s.len() {
        lemma_bare_on(s, i + 1);
    }
}

/// A name without quotes is not the mark of a date.
pub proof fn lemma_no_mark(s: Seq<char>)
    requires
        bare(s),
    ensures
        s != DATE_MARK@,
{
    reveal_strlit("$__toml_private_datetime");
    assert(DATE_MARK@[0] == '$');
}

pub proof fn lemma_bare(s: Seq<char>)
    requires
        s.len() > 0,
        bare_on(s, 0),
    ensures
        bare(s),
{
    lemma_bare_on(s, 0);
}

// ---- slots -----------------------------------------------------------------

/// The key of a slot needs no quotes, and its value can be written.
pub open spec fn plain_slot(slot: (Seq<char>, Option<Plain>)) -> bool {
    bare(slot.0) && (slot.1 matches Some(v) ==> plain_value(v))
}

pub open spec fn plain_slots(slots: Slots) -> bool {
    &&& forall|i: int| 0 <= i < slots.len() ==> plain_slot(#[trigger] slots[i])
    &&& forall|i: int, j: int|
        0 <= i < j < slots.len() ==> (#[trigger] slots[i]).0 != (#[trigger] slots[j]).0
}

/// A line for each of the first `n` slots that is written, and no other.
pub proof fn lemma_lines_plain(slots: Slots, n: int)
    requires
        plain_slots(slots),
        0 <= n <= slots.len(),
    ensures
        plain_lines(lines_of(slots, n)),
        forall|k: int|
            0 <= k < lines_of(slots, n).len() ==> exists|i: int|
                0 <= i < n && (#[trigger] slots[i]).0 == (#[trigger] lines_of(slots, n)[k]).0.name,
    decreases n,
{
    if n > 0 {
        lemma_lines_plain(slots, n - 1);
        let before = lines_of(slots, n - 1);
        let lines = lines_of(slots, n);
        assert(plain_slot(slots[n - 1]));
        if slots[n - 1].1 is Some {
            assert forall|k: int| 0 <= k < lines.len() implies exists|i: int|
                0 <= i < n && (#[trigger] slots[i]).0 == (#[trigger] lines[k]).0.name by {
                if k < before.len() {
                    assert(lines[k] == before[k]);
                    let i = choose|i: int|
                        0 <= i < n - 1 && (#[trigger] slots[i]).0 == before[k].0.name;
                    assert(slots[i].0 == lines[k].0.name);
                } else {
                    assert(slots[n - 1].0 == lines[k].0.name);
                }
            }
            assert forall|i: int, j: int| 0 <= i < j < lines.len() implies (
            #[trigger] lines[i]).0.name != (#[trigger] lines[j]).0.name by {
                assert(lines[i] == before[i]);
                if j < before.len() {
                    assert(lines[j] == before[j]);
                } else {
                    let k = choose|k: int|
                        0 <= k < n - 1 && (#[trigger] slots[k]).0 == before[i].0.name;
                    assert(slots[k].0 != slots[n - 1].0);
                }
            }
            assert forall|i: int| 0 <= i < lines.len() implies plain_key(
                (#[trigger] lines[i]).0,
            ) && plain_value(lines[i].1) by {
                if i < before.len() {
                    assert(lines[i] == before[i]);
                }
            }
            lemma_no_mark(slots[n - 1].0);
            if before.len() > 0 {
                assert(lines[0] == before[0]);
            }
        }
    }
}

/// A table of slots that can be written can be.
pub proof fn lemma_table_plain(slots: Slots, depth: nat)
    requires
        plain_slots(slots),
    ensures
        plain_block(table_of(slots), depth),
{
    lemma_lines_plain(slots, slots.len() as int);
}

// ---- what was read ---------------------------------------------------------

/// What a key of a document leads to, where that is a table, is sound and does
/// not start with the mark of a date.
proof fn lemma_sound_from(t: Entries, key: Seq<char>, i: int)
    requires
        sound(t),
        0 <= i,
    ensures
        entry_from(t, key, i) matches Some(v) ==> (v.kind is Table ==> sound(v.kind->Table_0) && (
        v.kind->Table_0.len() > 0 ==> v.kind->Table_0[0].0 != DATE_MARK@)),
    decreases t.len() - i,
{
    if i < t.len() && t[i].0 != key {
        lemma_sound_from(t, key, i + 1);
    }
}

pub proof fn lemma_sound(t: Entries, key: Seq<char>)
    requires
        sound(t),
    ensures
        entry(t, key) matches Some(v) ==> (v.kind is Table ==> sound(v.kind->Table_0) && (
        v.kind->Table_0.len() > 0 ==> v.kind->Table_0[0].0 != DATE_MARK@)),
{
    lemma_sound_from(t, key, 0);
}

// ---- values ----------------------------------------------------------------

/// Variables under names of their own.
pub open spec fn env_apart(env: Seq<(Seq<char>, TemplateModel)>) -> bool {
    forall|i: int, j: int|
        0 <= i < j < env.len() ==> (#[trigger] env[i]).0 != (#[trigger] env[j]).0
}

/// The first of the variables is not called like the mark of a date.
pub open spec fn env_unmarked(env: Seq<(Seq<char>, TemplateModel)>) -> bool {
    env.len() > 0 ==> env[0].0 != DATE_MARK@
}

pub proof fn lemma_env_plain(env: Seq<(Seq<char>, TemplateModel)>)
    requires
        quotable_env(env),
        env_apart(env),
        env_unmarked(env),
    ensures
        env_value(env) matches Some(v) ==> plain_value(v),
{
    let fields = env_fields(env);
    assert forall|i: int| 0 <= i < fields.len() implies plain_key((#[trigger] fields[i]).0)
        && plain_scalar(fields[i].1) by {
        assert(quotable(env[i].0));
    }
    assert forall|i: int, j: int| 0 <= i < j < fields.len() implies (#[trigger] fields[i]).0.name
        != (#[trigger] fields[j]).0.name by {
        assert(env[i].0 != env[j].0);
    }
}

proof fn lemma_env_named(
    t: Entries,
    section: Seq<char>,
    tail: Seq<char>,
    i: int,
    out: Seq<(Seq<char>, TemplateModel)>,
)
    requires
        0 <= i <= t.len(),
        out.len() == i,
        forall|k: int| 0 <= k < i ==> (#[trigger] out[k]).0 == t[k].0,
    ensures
        env_from(t, section, tail, i, out) matches Ok(env) ==> env.len() == t.len() && forall|k: int|
            0 <= k < env.len() ==> (#[trigger] env[k]).0 == t[k].0,
    decreases t.len() - i,
{
    if i < t.len() {
        let (key, value) = t[i];
        if let Some(raw) = value.text() {
            if let Ok(template) = template_of(raw) {
                lemma_env_named(t, section, tail, i + 1, out.push((key, template)));
            }
        }
    }
}

/// Variables that were read have names of their own.
pub proof fn lemma_env_apart(
    t: Entries,
    section: Seq<char>,
    tail: Seq<char>,
    env: Seq<(Seq<char>, TemplateModel)>,
)
    requires
        sound(t),
        env_of(t, section, tail) == Ok::<Seq<(Seq<char>, TemplateModel)>, Fault>(env),
    ensures
        env_apart(env),
        env_unmarked(env),
{
    lemma_sound(t, "env"@);
    if let Some(v) = entry(t, "env"@) {
        let vars = v.kind->Table_0;
        lemma_env_named(vars, section, tail, 0, seq![]);
        assert forall|i: int, j: int| 0 <= i < j < env.len() implies (#[trigger] env[i]).0 != (
        #[trigger] env[j]).0 by {
            assert(vars[i].0 != vars[j].0);
        }
    }
}

pub proof fn lemma_raws(list: Seq<TemplateModel>)
    requires
        quotable_templates(list),
    ensures
        quotable_all(raws(list)),
{
    assert forall|i: int| 0 <= i < raws(list).len() implies quotable(#[trigger] raws(list)[i]) by {
        assert(quotable(list[i].raw));
    }
}

pub proof fn lemma_references(list: Seq<TaskRefModel>)
    requires
        quotable_references(list),
    ensures
        quotable_all(reference_words(list)),
{
    let words = reference_words(list);
    assert forall|i: int| 0 <= i < words.len() implies quotable(#[trigger] words[i]) by {
        assert(quotable(list[i].word()));
    }
}

} // verus!
