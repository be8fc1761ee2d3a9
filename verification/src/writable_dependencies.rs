//! The dependencies and repositories of a manifest that was read can be written.

use crate::coord::ga_text;
use crate::dependency::{DependencyModel, ManagedModel, RepositoryModel};
use crate::error::Fault;
use crate::parse_dependencies::{
    coordinate, dependencies_from, dependencies_keep_their_order, dependency_keys_are_unique,
    dependency_of, dependency_table, jar_key, repositories_from, repository_of, repository_table,
    whole_central,
};
use crate::render::{entry_of, key_classifier};
use crate::reread::{lemma_first_piece, lemma_one_piece};
use crate::reread_dependencies::{
    good_dependencies, good_dependency, good_managed, good_managed_list, good_repositories,
    lemma_dependencies_are_good, lemma_local_lines, lemma_long_lines, lemma_named_repositories,
    lemma_repositories_are_good, local_slots, long_slots, repositories_apart, wrapped,
};
use crate::reread_settings::lemma_ga_pieces;
use crate::sheet::{
    bare, plain_block, plain_fields, plain_key, plain_lines, plain_scalar, plain_value, quotable,
    DATE_MARK, Key, Scalar,
};
use crate::sheet_of::{
    bare_key, dependencies_block, dependency_block, dependency_plain, dependency_plain_line, extras,
    local_plain, long_plain, managed_block, managed_plain, managed_plain_line, repository_block,
    repository_plain, repository_plain_lines,
};
use crate::text::{lemma_run_end, pieces, run_end, Class};
use crate::value::{entry, sound, Entries, Tree};
use crate::writable::{
    bare_on, lemma_bare, lemma_gas, lemma_lines_plain, lemma_no_mark, lemma_quotable_both,
    lemma_quotable_ga, lemma_sound, plain_slot, plain_slots, quotable_all, quotable_option,
    quotable_pairs,
};
use crate::writable_settings::plain_top;
use vstd::prelude::*;

verus! {

// ---- keys ------------------------------------------------------------------

/// `c` is not among the characters from the `i`th on.
spec fn lacks_on(s: Seq<char>, c: char, i: int) -> bool
    decreases s.len() - i,
{
    i < 0 || i >= s.len() || (s[i] != c && lacks_on(s, c, i + 1))
}

proof fn lemma_lacks(s: Seq<char>, c: char, i: int)
    requires
        0 <= i,
        lacks_on(s, c, i),
    ensures
        forall|k: int| i <= k < s.len() ==> #[trigger] s[k] != c,
    decreases s.len() - i,
{
    if i < s.len() {
        lemma_lacks(s, c, i + 1);
    }
}

/// A key with a colon is not the mark of a date.
proof fn lemma_colon_no_mark(s: Seq<char>, k: int)
    requires
        0 <= k < s.len(),
        s[k] == ':',
    ensures
        s != DATE_MARK@,
{
    reveal_strlit("$__toml_private_datetime");
    assert(lacks_on(DATE_MARK@, ':', 0)) by {
        reveal_with_fuel(lacks_on, 25);
    }
    lemma_lacks(DATE_MARK@, ':', 0);
}

proof fn lemma_two_pieces(s: Seq<char>, sep: char)
    requires
        pieces(s, sep).len() == 2,
    ensures
        s == pieces(s, sep)[0] + seq![sep] + pieces(s, sep)[1],
{
    lemma_run_end(s, Class::Not(sep), 0);
    let i = run_end(s, Class::Not(sep), 0);
    let rest = s.skip(i + 1);
    assert(pieces(s, sep) == seq![s.take(i)] + pieces(rest, sep));
    assert(pieces(rest, sep).len() == 1);
    assert(pieces(rest, sep)[0] == rest) by {
        let k = run_end(rest, Class::Not(sep), 0);
        if 0 <= k < rest.len() {
            assert(pieces(rest.skip(k + 1), sep).len() >= 1);
        }
    }
    assert(s =~= s.take(i) + seq![sep] + rest);
}

/// The key that a dependency is written under is the one it was read from,
/// unless its classifier stands in it.
proof fn lemma_entry_key(key: Seq<char>, v: Tree, section: Seq<char>)
    ensures
        dependency_of(key, v, section) matches Ok(d) ==> {
            &&& d.path is Some || key_classifier(d) is None ==> entry_of(d).0 == key
            &&& d.path is Some ==> jar_key(key)
            &&& d.path is None && key_classifier(d) is None ==> pieces(key, ':').len() == 2
            &&& d.path is None && key_classifier(d) is Some ==> entry_of(d).0 == d.key()
        },
{
    if let Ok(d) = dependency_of(key, v, section) {
        if d.path is None {
            reveal_strlit(":");
            assert(":"@ =~= seq![':']);
            let parts = pieces(key, ':');
            if parts.len() == 2 {
                lemma_two_pieces(key, ':');
            }
            if key_classifier(d) is None {
                assert(coordinate(key, section) matches Ok((_, _, None)));
                assert(parts.len() == 2);
            }
        }
    }
}

/// Dependencies are written under keys of their own.
pub open spec fn entries_apart(list: Seq<DependencyModel>) -> bool {
    forall|i: int, j: int|
        0 <= i < j < list.len() ==> entry_of(#[trigger] list[i]).0 != entry_of(
            #[trigger] list[j],
        ).0
}

/// A key with a classifier in it has more than two pieces.
proof fn lemma_many_pieces(d: DependencyModel)
    requires
        good_dependency(d),
        d.path is None,
        key_classifier(d) is Some,
    ensures
        pieces(entry_of(d).0, ':').len() > 2,
{
    reveal_strlit(":");
    assert(":"@ =~= seq![':']);
    let c = key_classifier(d)->0;
    let rest = d.artifact + seq![':'] + c;
    lemma_first_piece(d.group, rest, ':');
    lemma_first_piece(d.artifact, c, ':');
    assert(d.group + ":"@ + d.artifact + ":"@ + c =~= d.group + seq![':'] + rest);
    assert(pieces(c, ':').len() >= 1);
}

proof fn lemma_few_pieces(key: Seq<char>)
    requires
        jar_key(key),
    ensures
        pieces(key, ':').len() == 1,
{
    lemma_one_piece(key, ':');
}

proof fn lemma_entries_apart(t: Entries, section: Seq<char>, list: Seq<DependencyModel>)
    requires
        sound(t),
        dependencies_from(t, section, 0, seq![]) == Ok::<Seq<DependencyModel>, Fault>(list),
        forall|k: int| 0 <= k < list.len() ==> good_dependency(#[trigger] list[k]),
        forall|i: int, j: int|
            0 <= i < j < list.len() ==> (#[trigger] list[i]).key() != (#[trigger] list[j]).key(),
    ensures
        entries_apart(list),
{
    assert forall|k: int| 0 <= k < t.len() implies list.len() == t.len() && dependency_of(
        (#[trigger] t[k]).0,
        t[k].1,
        section,
    ) == Ok::<DependencyModel, Fault>(list[k]) by {
        dependencies_keep_their_order(t, section, k);
    }
    if t.len() == 0 {
        assert(list.len() == 0);
    }
    assert forall|i: int, j: int| 0 <= i < j < list.len() implies entry_of(#[trigger] list[i]).0
        != entry_of(#[trigger] list[j]).0 by {
        assert(t[i].0 != t[j].0);
        lemma_entry_key(t[i].0, t[i].1, section);
        lemma_entry_key(t[j].0, t[j].1, section);
        assert(list[i].key() != list[j].key());
        let long_i = list[i].path is None && key_classifier(list[i]) is Some;
        let long_j = list[j].path is None && key_classifier(list[j]) is Some;
        if long_i {
            lemma_many_pieces(list[i]);
        } else if list[i].path is Some {
            lemma_few_pieces(t[i].0);
        }
        if long_j {
            lemma_many_pieces(list[j]);
        } else if list[j].path is Some {
            lemma_few_pieces(t[j].0);
        }
    }
}

// ---- dependencies ----------------------------------------------------------

/// The texts of a dependency can be quoted.
pub open spec fn quotable_dependency(d: DependencyModel) -> bool {
    &&& quotable(d.group)
    &&& quotable(d.artifact)
    &&& quotable(d.version)
    &&& quotable_option(d.classifier)
    &&& quotable_pairs(d.exclusions)
    &&& quotable_option(d.path)
}

pub open spec fn quotable_dependencies(list: Seq<DependencyModel>) -> bool {
    forall|i: int| 0 <= i < list.len() ==> quotable_dependency(#[trigger] list[i])
}

proof fn lemma_long_plain(d: DependencyModel)
    requires
        quotable_dependency(d),
    ensures
        plain_slots(long_slots(d)),
{
    let slots = long_slots(d);
    lemma_gas(d.exclusions);
    assert(bare("version"@)) by {
        reveal_strlit("version");
        reveal_with_fuel(bare_on, 8);
        lemma_bare("version"@);
    }
    assert(bare("classifier"@)) by {
        reveal_strlit("classifier");
        reveal_with_fuel(bare_on, 11);
        lemma_bare("classifier"@);
    }
    assert(bare("exclusions"@)) by {
        reveal_strlit("exclusions");
        reveal_with_fuel(bare_on, 11);
        lemma_bare("exclusions"@);
    }
    assert(bare("compile-only"@)) by {
        reveal_strlit("compile-only");
        reveal_with_fuel(bare_on, 13);
        lemma_bare("compile-only"@);
    }
    assert(bare("runtime-only"@)) by {
        reveal_strlit("runtime-only");
        reveal_with_fuel(bare_on, 13);
        lemma_bare("runtime-only"@);
    }
    reveal_strlit("version");
    reveal_strlit("classifier");
    reveal_strlit("exclusions");
    reveal_strlit("compile-only");
    reveal_strlit("runtime-only");
    assert("version"@.len() == 7);
    assert("classifier"@.len() == 10 && "classifier"@[0] == 'c');
    assert("exclusions"@.len() == 10 && "exclusions"@[0] == 'e');
    assert("compile-only"@.len() == 12 && "compile-only"@[0] == 'c');
    assert("runtime-only"@.len() == 12 && "runtime-only"@[0] == 'r');
    assert forall|i: int| 0 <= i < 5 implies plain_slot(#[trigger] slots[i]) by {
        if i == 0 {
        } else if i == 1 {
        } else if i == 2 {
        } else if i == 3 {
        } else if i == 4 {
        }
    }
    assert forall|i: int, j: int| 0 <= i < j < 5 implies (#[trigger] slots[i]).0 != (
    #[trigger] slots[j]).0 by {
        if i == 0 {
        } else if i == 1 {
        } else if i == 2 {
        } else if i == 3 {
        }
    }
}

proof fn lemma_local_plain(d: DependencyModel, path: Seq<char>)
    requires
        quotable(path),
    ensures
        plain_slots(local_slots(d, path)),
{
    let slots = local_slots(d, path);
    assert(bare("path"@)) by {
        reveal_strlit("path");
        reveal_with_fuel(bare_on, 5);
        lemma_bare("path"@);
    }
    assert(bare("compile-only"@)) by {
        reveal_strlit("compile-only");
        reveal_with_fuel(bare_on, 13);
        lemma_bare("compile-only"@);
    }
    assert(bare("runtime-only"@)) by {
        reveal_strlit("runtime-only");
        reveal_with_fuel(bare_on, 13);
        lemma_bare("runtime-only"@);
    }
    reveal_strlit("path");
    reveal_strlit("compile-only");
    reveal_strlit("runtime-only");
    assert("path"@.len() == 4);
    assert("compile-only"@.len() == 12 && "compile-only"@[0] == 'c');
    assert("runtime-only"@.len() == 12 && "runtime-only"@[0] == 'r');
    assert forall|i: int| 0 <= i < 3 implies plain_slot(#[trigger] slots[i]) by {
        if i == 0 {
        } else if i == 1 {
        } else if i == 2 {
        }
    }
    assert forall|i: int, j: int| 0 <= i < j < 3 implies (#[trigger] slots[i]).0 != (
    #[trigger] slots[j]).0 by {
        if i == 0 {
        } else if i == 1 {
        }
    }
}

/// Fields whose lines can be written can be.
proof fn lemma_fields_plain(fields: Seq<(Key, Scalar)>)
    requires
        plain_lines(wrapped(fields)),
    ensures
        plain_fields(fields),
{
    let lines = wrapped(fields);
    assert forall|i: int| 0 <= i < fields.len() implies plain_key((#[trigger] fields[i]).0)
        && plain_scalar(fields[i].1) by {
        assert(plain_key(lines[i].0) && plain_value(lines[i].1));
    }
    assert forall|i: int, j: int| 0 <= i < j < fields.len() implies (#[trigger] fields[i]).0.name
        != (#[trigger] fields[j]).0.name by {
        assert(lines[i].0.name != lines[j].0.name);
    }
}

proof fn lemma_dependency_plain(d: DependencyModel)
    requires
        quotable_dependency(d),
    ensures
        plain_value(dependency_plain(d)),
{
    if let Some(path) = d.path {
        lemma_local_plain(d, path);
        lemma_lines_plain(local_slots(d, path), 3);
        lemma_local_lines(d, path);
        lemma_fields_plain(local_plain(d, path));
    } else {
        lemma_long_plain(d);
        lemma_lines_plain(long_slots(d), 5);
        lemma_long_lines(d);
        lemma_fields_plain(long_plain(d));
    }
}

proof fn lemma_entry_quotable(d: DependencyModel)
    requires
        good_dependency(d),
        quotable_dependency(d),
    ensures
        quotable(entry_of(d).0),
        entry_of(d).0 != DATE_MARK@,
{
    if d.path is Some {
        reveal_strlit("$__toml_private_datetime");
        assert(DATE_MARK@[0] == '$');
    } else {
        reveal_strlit(":");
        lemma_quotable_ga(d.group, d.artifact);
        let ga = d.group + ":"@ + d.artifact;
        lemma_colon_no_mark(ga, d.group.len() as int);
        if let Some(c) = key_classifier(d) {
            lemma_quotable_both(ga, ":"@);
            lemma_quotable_both(ga + ":"@, c);
            lemma_colon_no_mark(ga + ":"@ + c, d.group.len() as int);
        }
    }
}

/// Dependencies that were read from a document are written under keys of their
/// own.
pub proof fn lemma_dependencies_good(
    value: Option<Tree>,
    section: Seq<char>,
    list: Seq<DependencyModel>,
)
    requires
        value matches Some(v) ==> (v.kind is Table ==> sound(v.kind->Table_0)),
        dependency_table(value, section) == Ok::<Seq<DependencyModel>, Fault>(list),
    ensures
        good_dependencies(list),
{
    dependency_keys_are_unique(value, section);
    lemma_dependencies_are_good(value, section);
    if let Some(v) = value {
        lemma_entries_apart(v.kind->Table_0, section, list);
    }
}

pub proof fn lemma_dependency_block_plain(list: Seq<DependencyModel>)
    requires
        good_dependencies(list),
        quotable_dependencies(list),
    ensures
        plain_block(dependency_block(list), 0),
        plain_block(dependency_block(list), 2),
{
    let lines = dependency_block(list).lines;
    assert forall|i: int| 0 <= i < lines.len() implies plain_key((#[trigger] lines[i]).0)
        && plain_value(lines[i].1) by {
        assert(lines[i] == dependency_plain_line(list[i]));
        lemma_entry_quotable(list[i]);
        lemma_dependency_plain(list[i]);
    }
    assert forall|i: int, j: int| 0 <= i < j < lines.len() implies (#[trigger] lines[i]).0.name
        != (#[trigger] lines[j]).0.name by {
        assert(entry_of(list[i]).0 != entry_of(list[j]).0);
    }
    if list.len() > 0 {
        assert(good_dependency(list[0]) && quotable_dependency(list[0]));
        lemma_entry_quotable(list[0]);
    }
    assert(plain_lines(lines));
}

pub proof fn lemma_dependencies_plain(list: Seq<DependencyModel>)
    requires
        good_dependencies(list),
        quotable_dependencies(list),
    ensures
        plain_top(dependencies_block(list)),
{
    lemma_dependency_block_plain(list);
}

// ---- managed versions ------------------------------------------------------

/// The texts of the managed versions can be quoted.
pub open spec fn quotable_managed(list: Seq<ManagedModel>) -> bool {
    forall|i: int|
        0 <= i < list.len() ==> quotable((#[trigger] list[i]).group) && quotable(list[i].artifact)
            && quotable(list[i].version)
}

proof fn lemma_managed_fields(m: ManagedModel)
    requires
        quotable(m.version),
    ensures
        plain_value(managed_plain(m)),
{
    assert(bare("version"@)) by {
        reveal_strlit("version");
        reveal_with_fuel(bare_on, 8);
        lemma_bare("version"@);
    }
    assert(bare("bom"@)) by {
        reveal_strlit("bom");
        reveal_with_fuel(bare_on, 4);
        lemma_bare("bom"@);
    }
    reveal_strlit("version");
    reveal_strlit("bom");
    assert("version"@.len() == 7);
    assert("bom"@.len() == 3);
    lemma_no_mark("version"@);
    if m.bom {
        let fields = seq![
            (bare_key("version"@), Scalar::Text(m.version)),
            (bare_key("bom"@), Scalar::Flag(true)),
        ];
        assert(plain_fields(fields));
    }
}

pub proof fn lemma_managed_plain(list: Seq<ManagedModel>)
    requires
        good_managed_list(list),
        quotable_managed(list),
    ensures
        plain_top(managed_block(list)),
{
    let lines = Seq::new(list.len(), |i: int| managed_plain_line(list[i]));
    assert forall|i: int| 0 <= i < lines.len() implies plain_key((#[trigger] lines[i]).0)
        && plain_value(lines[i].1) by {
        assert(quotable(list[i].group));
        lemma_quotable_ga(list[i].group, list[i].artifact);
        lemma_managed_fields(list[i]);
    }
    assert forall|i: int, j: int| 0 <= i < j < lines.len() implies (#[trigger] lines[i]).0.name
        != (#[trigger] lines[j]).0.name by {
        let (a, b) = (list[i], list[j]);
        assert(good_managed(a) && good_managed(b));
        lemma_ga_pieces(a.group, a.artifact);
        lemma_ga_pieces(b.group, b.artifact);
        assert(seq![a.group, a.artifact][0] == a.group);
        assert(seq![a.group, a.artifact][1] == a.artifact);
        assert(seq![b.group, b.artifact][0] == b.group);
        assert(seq![b.group, b.artifact][1] == b.artifact);
    }
    if list.len() > 0 {
        reveal_strlit(":");
        lemma_colon_no_mark(ga_text(list[0].group, list[0].artifact), list[0].group.len() as int);
        assert(lines[0].0.name != DATE_MARK@);
    }
    assert(plain_lines(lines));
}

// ---- repositories ----------------------------------------------------------

/// The texts of the repositories can be quoted.
pub open spec fn quotable_repositories(list: Seq<RepositoryModel>) -> bool {
    forall|i: int|
        0 <= i < list.len() ==> quotable((#[trigger] list[i]).name) && quotable(list[i].url)
            && quotable_all(list[i].groups)
}

/// The first of the repositories is not called like the mark of a date.
pub open spec fn unmarked(list: Seq<RepositoryModel>) -> bool {
    list.len() > 0 ==> list[0].name != DATE_MARK@
}

proof fn lemma_repositories_apart(t: Entries, i: int, out: Seq<RepositoryModel>)
    requires
        sound(t),
        0 <= i <= t.len(),
        repositories_apart(out),
        forall|k: int|
            0 <= k < out.len() ==> exists|j: int|
                0 <= j < i && (#[trigger] t[j]).0 == (#[trigger] out[k]).name,
    ensures
        repositories_from(t, i, out) matches Ok(list) ==> repositories_apart(list),
    decreases t.len() - i,
{
    if i < t.len() {
        if let Ok(repo) = repository_of(t[i].0, t[i].1) {
            let more = if whole_central(repo) {
                out
            } else {
                out.push(repo)
            };
            assert forall|k: int| 0 <= k < more.len() implies exists|j: int|
                0 <= j < i + 1 && (#[trigger] t[j]).0 == (#[trigger] more[k]).name by {
                if k < out.len() {
                    assert(more[k] == out[k]);
                    let j = choose|j: int| 0 <= j < i && (#[trigger] t[j]).0 == out[k].name;
                    assert(t[j].0 == more[k].name);
                } else {
                    assert(t[i].0 == more[k].name);
                }
            }
            assert forall|a: int, b: int| 0 <= a < b < more.len() implies (
            #[trigger] more[a]).name != (#[trigger] more[b]).name by {
                assert(more[a] == out[a]);
                if b < out.len() {
                    assert(more[b] == out[b]);
                } else {
                    let j = choose|j: int| 0 <= j < i && (#[trigger] t[j]).0 == out[a].name;
                    assert(t[j].0 != t[i].0);
                }
            }
            lemma_repositories_apart(t, i + 1, more);
        }
    }
}

proof fn lemma_repository_fields(r: RepositoryModel)
    requires
        quotable(r.url),
        quotable_all(r.groups),
    ensures
        plain_value(repository_plain(r)),
{
    assert(bare("url"@)) by {
        reveal_strlit("url");
        reveal_with_fuel(bare_on, 4);
        lemma_bare("url"@);
    }
    assert(bare("groups"@)) by {
        reveal_strlit("groups");
        reveal_with_fuel(bare_on, 7);
        lemma_bare("groups"@);
    }
    reveal_strlit("url");
    reveal_strlit("groups");
    assert("url"@.len() == 3);
    assert("groups"@.len() == 6);
    lemma_no_mark("url"@);
    if r.groups.len() > 0 {
        let fields = seq![
            (bare_key("url"@), Scalar::Text(r.url)),
            (bare_key("groups"@), Scalar::Texts(r.groups)),
        ];
        assert(plain_fields(fields));
    }
}

/// Repositories that were read from a document have names of their own.
pub proof fn lemma_repositories_good(table: Entries, list: Seq<RepositoryModel>)
    requires
        sound(table),
        repository_table(table) == Ok::<Seq<RepositoryModel>, Fault>(list),
    ensures
        good_repositories(list),
{
    lemma_sound(table, "repositories"@);
    lemma_repositories_are_good(table);
    if let Some(v) = entry(table, "repositories"@) {
        lemma_repositories_apart(v.kind->Table_0, 0, seq![]);
        assert(list.drop_last() =~= repositories_from(v.kind->Table_0, 0, seq![])->Ok_0);
    } else {
        assert(list.drop_last() =~= seq![]);
    }
}

pub proof fn lemma_repositories_plain(list: Seq<RepositoryModel>)
    requires
        good_repositories(list),
        quotable_repositories(list),
        unmarked(list),
    ensures
        plain_top(repository_block(list)),
{
    lemma_named_repositories(list);
    let named = extras(list, list.len() as int);
    let lines = repository_plain_lines(named);
    assert forall|i: int| 0 <= i < lines.len() implies plain_key((#[trigger] lines[i]).0)
        && plain_value(lines[i].1) by {
        assert(named[i] == list[i]);
        assert(quotable(list[i].name));
        lemma_repository_fields(list[i]);
    }
    assert forall|i: int, j: int| 0 <= i < j < lines.len() implies (#[trigger] lines[i]).0.name
        != (#[trigger] lines[j]).0.name by {
        assert(named[i].name != named[j].name);
    }
    if named.len() > 0 {
        assert(named[0] == list[0]);
        assert(lines[0].0.name != DATE_MARK@);
    }
    assert(plain_lines(lines));
}

} // verus!
